use cniguru::{
    parse_ip_link_entries, parse_ip_link_printout, DataExtractionError, IntfMatchError, Intf,
    IpLinkError,
};

#[test]
fn test_parse_ip_link_printout_basic() {
    let s = r#"1: lo: <LOOPBACK,UP,LOWER_UP> mtu 65536 qdisc noqueue state UNKNOWN mode DEFAULT group default qlen 1000
    link/loopback 00:00:00:00:00:00 brd 00:00:00:00:00:00
2: vethc3cef48b@if3: <BROADCAST,MULTICAST,UP,LOWER_UP> mtu 1450 qdisc noqueue master cni0 state UP mode DEFAULT group default
    link/ether e6:93:28:78:39:99 brd ff:ff:ff:ff:ff:ff link-netnsid 0
3: enp0s31f6: <NO-CARRIER,BROADCAST,MULTICAST,UP> mtu 1500 qdisc fq_codel state DOWN mode DEFAULT group default qlen 1000
    link/ether c8:5b:76:72:53:46 brd ff:ff:ff:ff:ff:ff
4: wlp3s0: <BROADCAST,MULTICAST,UP,LOWER_UP> mtu 1500 qdisc mq state UP mode DORMANT group default qlen 1000
    link/ether e4:a7:a0:61:3d:3e brd ff:ff:ff:ff:ff:ff
9: docker0: <NO-CARRIER,BROADCAST,MULTICAST,UP> mtu 1500 qdisc noqueue state DOWN mode DEFAULT group default
    link/ether 02:42:1b:7f:0d:5e brd ff:ff:ff:ff:ff:ff
11: wwp0s20f0u5c2: <BROADCAST,MULTICAST> mtu 1500 qdisc noop state DOWN mode DEFAULT group default qlen 1000
    link/ether 02:1e:10:1f:00:00 brd ff:ff:ff:ff:ff:ff
12: flannel.1: <BROADCAST,MULTICAST,UP,LOWER_UP> mtu 1450 qdisc noqueue state UNKNOWN mode DEFAULT group default
    link/ether da:1f:7a:e1:59:58 brd ff:ff:ff:ff:ff:ff
13: cni0: <BROADCAST,MULTICAST,UP,LOWER_UP> mtu 1450 qdisc noqueue state UP mode DEFAULT group default qlen 1000
    link/ether 5a:02:70:6b:57:1e brd ff:ff:ff:ff:ff:ff
14: veth551a254e@if3: <BROADCAST,MULTICAST,UP,LOWER_UP> mtu 1450 qdisc noqueue master cni0 state UP mode DEFAULT group default
    link/ether 12:56:7d:9f:80:15 brd ff:ff:ff:ff:ff:ff link-netnsid 1"#;

    let exp = vec![Intf {
        name: "veth551a254e".into(),
        bridge: Some("cni0".into()),
        mtu: 1450,
        mac_address: "12:56:7d:9f:80:15".into(),
    }];

    let got = parse_ip_link_printout(s, 1).unwrap();

    assert_eq!(exp, got);
}

#[test]
fn test_parse_ip_link_printout_multus() {
    let s = r#"610: veth987c7292@if5: <BROADCAST,MULTICAST,UP,LOWER_UP> mtu 1500 qdisc noqueue master bla-bla-int0 state UP mode DEFAULT group default
    link/ether 46:ed:60:c6:e9:73 brd ff:ff:ff:ff:ff:ff link-netnsid 6"#;

    let exp = vec![Intf {
        name: "veth987c7292".into(),
        bridge: Some("bla-bla-int0".into()),
        mtu: 1500,
        mac_address: "46:ed:60:c6:e9:73".into(),
    }];

    let got = parse_ip_link_printout(s, 6).unwrap();

    assert_eq!(exp, got);
}

const TWO_VETHS: &str = "5: vetha@if2: <UP> mtu 1500 qdisc noqueue master br0 state UP\n    link/ether aa:aa:aa:aa:aa:aa brd ff:ff:ff:ff:ff:ff link-netnsid 3\n6: eth1: <UP> mtu 9000 qdisc mq state UP\n    link/ether cc:cc:cc:cc:cc:cc brd ff:ff:ff:ff:ff:ff\n7: vethb@if4: <UP> mtu 1400 qdisc noqueue state UP\n    link/ether bb:bb:bb:bb:bb:bb brd ff:ff:ff:ff:ff:ff link-netnsid 3\n";

#[test]
fn printout_keeps_listing_order_and_skips_other_namespaces() {
    let got = parse_ip_link_printout(TWO_VETHS, 3).unwrap();
    assert_eq!(
        got,
        vec![
            Intf {
                name: "vetha".into(),
                bridge: Some("br0".into()),
                mtu: 1500,
                mac_address: "aa:aa:aa:aa:aa:aa".into(),
            },
            Intf {
                name: "vethb".into(),
                bridge: None,
                mtu: 1400,
                mac_address: "bb:bb:bb:bb:bb:bb".into(),
            },
        ]
    );
}

#[test]
fn printout_without_a_matching_interface_is_an_error() {
    assert_eq!(
        parse_ip_link_printout(TWO_VETHS, 4),
        Err(IpLinkError::NoMatch(IntfMatchError(4)))
    );
    assert_eq!(parse_ip_link_printout("", 0), Err(IpLinkError::NoMatch(IntfMatchError(0))));
}

#[test]
fn printout_with_a_header_and_no_detail_line_is_malformed() {
    let s = "5: vetha@if2: <UP> mtu 1500 qdisc noqueue state UP";
    assert_eq!(
        parse_ip_link_printout(s, 0),
        Err(IpLinkError::Parse(DataExtractionError::OutputParsingError(s.to_string())))
    );
}

#[test]
fn printout_with_a_missing_mtu_is_malformed() {
    let s = "5: vetha@if2: <UP> qdisc noqueue state UP\n    link/ether aa:aa:aa:aa:aa:aa brd ff:ff:ff:ff:ff:ff link-netnsid 0";
    assert!(matches!(parse_ip_link_printout(s, 0), Err(IpLinkError::Parse(_))));
}

#[test]
fn printout_of_a_matching_link_without_address_is_malformed() {
    let s = "5: tun0: <UP> mtu 1500 qdisc noqueue state UP\n    link/none  link-netnsid 0";
    assert!(matches!(parse_ip_link_printout(s, 0), Err(IpLinkError::Parse(_))));
}

#[test]
fn entries_carry_index_peer_and_namespace() {
    let es = parse_ip_link_entries(TWO_VETHS).unwrap();
    assert_eq!(es.len(), 3);
    assert_eq!(es[0].index, 5);
    assert_eq!(es[0].name, "vetha");
    assert_eq!(es[0].peer_index, Some(2));
    assert_eq!(es[0].link_netnsid, Some(3));
    assert_eq!(es[1].index, 6);
    assert_eq!(es[1].peer_index, None);
    assert_eq!(es[1].mtu, 9000);
    assert_eq!(es[1].link_netnsid, None);
    assert_eq!(es[1].mac_address.as_deref(), Some("cc:cc:cc:cc:cc:cc"));
    assert_eq!(es[2].peer_index, Some(4));
}

#[test]
fn entries_pass_over_alternative_name_lines() {
    let s = "2: eth0@NONE: <UP> mtu 4294967295 qdisc noqueue state UP\n    link/ether aa:aa:aa:aa:aa:aa brd ff:ff:ff:ff:ff:ff\n    altname enp0s1\n";
    let es = parse_ip_link_entries(s).unwrap();
    assert_eq!(es.len(), 1);
    assert_eq!(es[0].name, "eth0");
    assert_eq!(es[0].peer_index, None);
    assert_eq!(es[0].mtu, 4294967295);
}

#[test]
fn entries_reject_an_mtu_out_of_range() {
    let s = "2: eth0: <UP> mtu 4294967296 qdisc noqueue state UP\n    link/ether aa:aa:aa:aa:aa:aa brd ff:ff:ff:ff:ff:ff\n";
    assert!(parse_ip_link_entries(s).is_err());
}

#[test]
fn unindented_line_without_index_is_malformed() {
    let s = "veth0@if2: <UP> mtu 1500 qdisc noqueue state UP\n    link/ether aa:aa:aa:aa:aa:aa brd ff:ff:ff:ff:ff:ff link-netnsid 0\n7: vethb@if4: <UP> mtu 1400 qdisc noqueue state UP\n    link/ether bb:bb:bb:bb:bb:bb brd ff:ff:ff:ff:ff:ff link-netnsid 0";
    assert_eq!(
        parse_ip_link_printout(s, 0),
        Err(IpLinkError::Parse(DataExtractionError::OutputParsingError(
            "veth0@if2: <UP> mtu 1500 qdisc noqueue state UP".to_string()
        )))
    );
}
