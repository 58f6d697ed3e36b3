//! The records that describe interfaces, devices and containers.
use vstd::prelude::*;

verus! {

/// The kind of a link, as the kernel names it.
#[derive(Debug, PartialEq, Eq)]
pub enum IntfKind {
    /// A link with no kind: a physical or PCI-backed device.
    Phys,
    Veth,
    Bridge,
    Macvlan(MacVlanInfo),
    Ipvlan,
    /// Any other kind, by its name.
    Other(String),
}

#[derive(Debug, PartialEq, Eq)]
pub struct MacVlanInfo {
    /// The mode, when the kernel reported one this library knows.
    pub mode: Option<MacVlanMode>,
    /// Index of the lower device in the same namespace, when reported; link
    /// messages name devices by index only.
    pub master: Option<u32>,
}

#[derive(Debug, PartialEq, Eq, Clone, Copy)]
pub enum MacVlanMode {
    VEPA,
    Bridge,
    Passthru,
    Private,
    Source,
}

/// An address assigned to an interface: 4 bytes for IPv4, 16 for IPv6.
#[derive(Debug, PartialEq, Eq)]
pub struct IPAddress {
    pub ip: Vec<u8>,
    pub prefix_len: u8,
}

/// One link-layer interface as seen in one network namespace.
///
/// `index` is local to that namespace: it is only ever compared with indices
/// of the same namespace, or with a peer index that names it.
#[derive(Debug, PartialEq, Eq)]
pub struct InterfaceRecord {
    pub index: u32,
    pub name: Option<String>,
    pub oper_state: Option<String>,
    pub mtu: Option<u32>,
    pub mac_address: Option<Vec<u8>>,
    pub kind: IntfKind,
    /// Index of the bridge (or other master) the link is enslaved to.
    pub master_index: Option<u32>,
    /// Name of that master, once resolved in the same namespace.
    pub master: Option<String>,
    /// Index of the other end of a veth pair, in the peer's namespace.
    pub peer_index: Option<u32>,
    /// Handle of the peer's namespace, as numbered by this namespace.
    pub link_netnsid: Option<i32>,
    pub addresses: Vec<IPAddress>,
}

/// A network device found on the PCI bus.
#[derive(Debug, PartialEq, Eq)]
pub struct EthernetDevice {
    pub name: String,
    pub index: i32,
    pub driver: String,
    pub pci_id: String,
    pub numa_node: i8,
}

/// The two ends of one veth link.
#[derive(Debug, PartialEq, Eq)]
pub struct InterfacePair {
    pub container: InterfaceRecord,
    pub host: InterfaceRecord,
}

} // verus!
