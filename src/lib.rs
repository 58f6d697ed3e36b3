//! Maps the network interfaces of a container to their peers on the host.
//!
//! The interfaces of the container's network namespace and of the root
//! namespace are turned into records (from link messages, or from the text of
//! `ip link show`), and each veth end of the container is paired with the one
//! host-side record its peer index names. PCI network devices are read from
//! sysfs and attached to the interfaces they back. The namespace binding and
//! the namespace switch that an inspection needs are kept as state machines
//! whose release and restore are proved to undo exactly what was done.
//!
//! Everything here computes; the caller performs the system calls.

pub mod container;
pub mod correlate;
pub mod error;
pub mod ethdev;
pub mod iplink;
pub mod k8s;
pub mod link;
pub mod model;
pub mod netns;
pub mod text;
pub mod trim;

pub use container::{
    container_from_inspect, gen_output_for_container, host_cmd_result, parse_docker_pid,
    run_host_cmd, split_host_cmd, version, CmdOutput, Container, ContainerError, ContainerRuntime,
    Output, OutputError,
};
pub use correlate::{annotate_devices, correlate, Correlation, DeviceIntf};
pub use error::{
    CorrelationError, DataExtractionError, HostCmdError, IntfMatchError, IntfMissingErr,
    IpLinkError, IpLinkOrAddrShowParseErr, K8sError,
};
pub use ethdev::{eth_device_of, is_ethernet_class, pick_interface, DeviceError};
pub use iplink::{parse_ip_link_entries, parse_ip_link_printout, Intf, IpLinkEntry};
pub use k8s::{
    container_id_from_url, extract_container_info, get_id_of_first_container_in_pod,
    host_of_parts, kubeconfig_path, runtime_and_id, Pod, PodInfo, PodStatusInfo,
};
pub use link::{
    attach_addresses, link_record, resolve_master_names, AddressMessage, LinkAttr, LinkMessage,
};
pub use model::{
    EthernetDevice, IPAddress, InterfacePair, InterfaceRecord, IntfKind, MacVlanInfo, MacVlanMode,
};
pub use netns::{BindAction, NamespaceBinding, NamespaceSwitch, SwitchActive};
