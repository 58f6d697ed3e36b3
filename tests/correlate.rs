use cniguru::{
    attach_addresses, correlate, gen_output_for_container, link_record, AddressMessage,
    Container, ContainerRuntime, CorrelationError, IPAddress, InterfaceRecord, IntfKind,
    IntfMissingErr, LinkAttr, LinkMessage, MacVlanInfo, MacVlanMode, OutputError,
};

fn rec(index: u32, kind: IntfKind, peer: Option<u32>, netnsid: Option<i32>) -> InterfaceRecord {
    InterfaceRecord {
        index,
        name: Some(format!("if{}", index)),
        oper_state: None,
        mtu: Some(1500),
        mac_address: None,
        kind,
        master_index: None,
        master: None,
        peer_index: peer,
        link_netnsid: netnsid,
        addresses: vec![],
    }
}

#[test]
fn single_veth_pair_correlates_into_one_pair() {
    let container = vec![rec(3, IntfKind::Veth, Some(14), Some(0))];
    let host = vec![
        rec(1, IntfKind::Phys, None, None),
        rec(13, IntfKind::Bridge, None, None),
        rec(14, IntfKind::Veth, Some(3), Some(1)),
    ];
    let c = correlate(container, host, None).unwrap();
    assert_eq!(c.pairs.len(), 1);
    assert_eq!(c.pairs[0].container.index, 3);
    assert_eq!(c.pairs[0].host.index, 14);
    assert_ne!(c.pairs[0].container.index, c.pairs[0].host.index);
    assert!(c.unmatched.is_empty());
}

#[test]
fn missing_peer_is_reported() {
    let container = vec![rec(3, IntfKind::Veth, Some(99), None)];
    let host = vec![rec(14, IntfKind::Veth, Some(3), None)];
    assert_eq!(
        correlate(container, host, None),
        Err(CorrelationError::PeerInterfaceNotFound(IntfMissingErr(99)))
    );
}

#[test]
fn ambiguous_peer_is_reported() {
    let container = vec![rec(3, IntfKind::Veth, Some(14), None)];
    let host = vec![rec(14, IntfKind::Veth, Some(3), Some(1)), rec(14, IntfKind::Veth, Some(3), Some(2))];
    assert_eq!(correlate(container, host, None), Err(CorrelationError::AmbiguousPeerMatch(14)));
}

#[test]
fn namespace_handle_resolves_colliding_indices() {
    let container = vec![rec(3, IntfKind::Veth, Some(14), None)];
    let host = vec![rec(14, IntfKind::Veth, Some(3), Some(1)), rec(14, IntfKind::Veth, Some(3), Some(2))];
    let c = correlate(container, host, Some(2)).unwrap();
    assert_eq!(c.pairs.len(), 1);
    assert_eq!(c.pairs[0].host.link_netnsid, Some(2));
}

#[test]
fn a_host_record_is_paired_at_most_once() {
    let container = vec![rec(3, IntfKind::Veth, Some(14), None), rec(4, IntfKind::Veth, Some(14), None)];
    let host = vec![rec(14, IntfKind::Veth, Some(3), None)];
    assert_eq!(
        correlate(container, host, None),
        Err(CorrelationError::PeerInterfaceNotFound(IntfMissingErr(14)))
    );
}

#[test]
fn non_veth_records_pass_through_in_order() {
    let container = vec![
        rec(2, IntfKind::Phys, None, None),
        rec(3, IntfKind::Veth, Some(14), None),
        rec(5, IntfKind::Ipvlan, None, None),
    ];
    let host = vec![rec(14, IntfKind::Veth, Some(3), None)];
    let c = correlate(container, host, None).unwrap();
    assert_eq!(c.pairs.len(), 1);
    let idx: Vec<u32> = c.unmatched.iter().map(|r| r.index).collect();
    assert_eq!(idx, vec![2, 5]);
}

#[test]
fn empty_container_side_gives_nothing() {
    let c = correlate(vec![], vec![rec(1, IntfKind::Phys, None, None)], None).unwrap();
    assert!(c.pairs.is_empty());
    assert!(c.unmatched.is_empty());
}

fn container() -> Container {
    Container { id: "c6671e7930e7".into(), pid: 42, node_name: None, runtime: ContainerRuntime::Docker }
}

#[test]
fn host_networking_reports_host_interfaces() {
    let host = vec![rec(1, IntfKind::Phys, None, None), rec(2, IntfKind::Bridge, None, None)];
    let o = gen_output_for_container(container(), 7, 7, vec![], host, None).unwrap();
    assert!(o.host_network);
    assert!(o.pairs.is_empty());
    assert_eq!(o.interfaces.len(), 2);
    assert_eq!(o.container.pid, 42);
}

#[test]
fn own_namespace_is_correlated() {
    let cl = vec![rec(3, IntfKind::Veth, Some(14), None)];
    let hl = vec![rec(14, IntfKind::Veth, Some(3), None)];
    let o = gen_output_for_container(container(), 8, 7, cl, hl, None).unwrap();
    assert!(!o.host_network);
    assert_eq!(o.pairs.len(), 1);
    let cl = vec![rec(3, IntfKind::Veth, Some(15), None)];
    let hl = vec![rec(14, IntfKind::Veth, Some(3), None)];
    assert_eq!(
        gen_output_for_container(container(), 8, 7, cl, hl, None),
        Err(OutputError {
            container_id: "c6671e7930e7".into(),
            cause: CorrelationError::PeerInterfaceNotFound(IntfMissingErr(15)),
        })
    );
}

#[test]
fn veth_message_becomes_a_record() {
    let msg = LinkMessage {
        index: 14,
        link_layer_type: 1,
        attrs: vec![
            LinkAttr::IfName("tmp".into()),
            LinkAttr::Mtu(1450),
            LinkAttr::Kind("veth".into()),
            LinkAttr::Link(3),
            LinkAttr::NetNsId(1),
            LinkAttr::Master(13),
            LinkAttr::Other,
            LinkAttr::IfName("veth551a254e".into()),
            LinkAttr::Address(vec![0x12, 0x56, 0x7d, 0x9f, 0x80, 0x15]),
        ],
    };
    let r = link_record(msg).unwrap();
    assert_eq!(r.index, 14);
    assert_eq!(r.name.as_deref(), Some("veth551a254e"));
    assert_eq!(r.kind, IntfKind::Veth);
    assert_eq!(r.peer_index, Some(3));
    assert_eq!(r.link_netnsid, Some(1));
    assert_eq!(r.master_index, Some(13));
    assert_eq!(r.mtu, Some(1450));
    assert_eq!(r.mac_address, Some(vec![0x12, 0x56, 0x7d, 0x9f, 0x80, 0x15]));
}

#[test]
fn link_kinds_are_read() {
    let m = |attrs: Vec<LinkAttr>| LinkMessage { index: 2, link_layer_type: 1, attrs };
    assert_eq!(link_record(m(vec![])).unwrap().kind, IntfKind::Phys);
    assert_eq!(link_record(m(vec![LinkAttr::Kind("bridge".into())])).unwrap().kind, IntfKind::Bridge);
    assert_eq!(link_record(m(vec![LinkAttr::Kind("ipvlan".into())])).unwrap().kind, IntfKind::Ipvlan);
    assert_eq!(
        link_record(m(vec![LinkAttr::Kind("vxlan".into())])).unwrap().kind,
        IntfKind::Other("vxlan".into())
    );
    assert_eq!(
        link_record(m(vec![
            LinkAttr::Kind("macvlan".into()),
            LinkAttr::MacVlanMode(MacVlanMode::Bridge),
            LinkAttr::Link(2),
        ]))
        .unwrap()
        .kind,
        IntfKind::Macvlan(MacVlanInfo { mode: Some(MacVlanMode::Bridge), master: Some(2) })
    );
    assert_eq!(
        link_record(m(vec![LinkAttr::Kind("macvlan".into())])).unwrap().kind,
        IntfKind::Macvlan(MacVlanInfo { mode: None, master: None })
    );
    let bridge = link_record(m(vec![LinkAttr::Kind("bridge".into()), LinkAttr::Link(9)])).unwrap();
    assert_eq!(bridge.peer_index, None);
}

#[test]
fn non_ethernet_links_are_left_out() {
    let lo = LinkMessage { index: 1, link_layer_type: 772, attrs: vec![LinkAttr::IfName("lo".into())] };
    assert!(link_record(lo).is_none());
}

#[test]
fn addresses_go_to_the_record_with_their_index() {
    let recs = vec![rec(1, IntfKind::Phys, None, None), rec(2, IntfKind::Veth, Some(5), None)];
    let addrs = vec![
        AddressMessage { index: 2, address: IPAddress { ip: vec![10, 0, 0, 2], prefix_len: 24 } },
        AddressMessage { index: 9, address: IPAddress { ip: vec![10, 9, 9, 9], prefix_len: 8 } },
        AddressMessage { index: 2, address: IPAddress { ip: vec![0xfe, 0x80, 0, 0, 0, 0, 0, 0, 0, 0, 0, 0, 0, 0, 0, 1], prefix_len: 64 } },
    ];
    let out = attach_addresses(recs, addrs);
    assert_eq!(out.len(), 2);
    assert!(out[0].addresses.is_empty());
    assert_eq!(out[1].addresses.len(), 2);
    assert_eq!(out[1].addresses[0], IPAddress { ip: vec![10, 0, 0, 2], prefix_len: 24 });
    assert_eq!(out[1].addresses[1].prefix_len, 64);
}

#[test]
fn master_names_come_from_the_same_namespace() {
    let mut slave = rec(14, IntfKind::Veth, Some(3), None);
    slave.master_index = Some(13);
    let mut orphan = rec(15, IntfKind::Veth, Some(4), None);
    orphan.master_index = Some(99);
    let bridge = rec(13, IntfKind::Bridge, None, None);
    let out = cniguru::resolve_master_names(vec![slave, bridge, orphan]);
    assert_eq!(out[0].master.as_deref(), Some("if13"));
    assert_eq!(out[1].master, None);
    assert_eq!(out[2].master, None);
    assert_eq!(out[0].index, 14);
}

#[test]
fn pci_devices_annotate_interfaces_by_index() {
    let dev = |index: i32| cniguru::EthernetDevice {
        name: format!("ens{}", index),
        index,
        driver: "ixgbevf".into(),
        pci_id: format!("0000:00:{:02}.0", index),
        numa_node: 0,
    };
    let recs = vec![rec(2, IntfKind::Phys, None, None), rec(5, IntfKind::Ipvlan, None, None)];
    let out = cniguru::annotate_devices(recs, vec![dev(7), dev(2)]);
    assert_eq!(out.len(), 2);
    assert_eq!(out[0].device.as_ref().map(|d| d.index), Some(2));
    assert_eq!(out[0].record.index, 2);
    assert!(out[1].device.is_none());
}

#[test]
fn veth_end_without_peer_is_an_error() {
    let container = vec![rec(2, IntfKind::Phys, None, None), rec(3, IntfKind::Veth, None, None)];
    let host = vec![rec(14, IntfKind::Veth, Some(3), None)];
    assert_eq!(correlate(container, host, None), Err(CorrelationError::VethWithoutPeer(3)));
}
