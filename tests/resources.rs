use cniguru::{
    eth_device_of, is_ethernet_class, pick_interface, BindAction, DeviceError, EthernetDevice,
    NamespaceBinding, NamespaceSwitch, SwitchActive,
};

#[test]
fn binding_creates_only_what_is_missing() {
    let (b, actions) = NamespaceBinding::bind(42, false, false);
    assert_eq!(actions, vec![BindAction::CreateDir, BindAction::CreateLink]);
    assert!(b.created_dir && b.created_link);
    let (b2, actions2) = NamespaceBinding::bind(42, true, true);
    assert!(actions2.is_empty());
    assert!(!b2.created_dir && !b2.created_link);
}

#[test]
fn release_twice_does_nothing_the_second_time() {
    let (mut b, _) = NamespaceBinding::bind(42, false, false);
    assert_eq!(b.release(), vec![BindAction::RemoveLink, BindAction::RemoveDir]);
    let after_first = b;
    assert!(b.release().is_empty());
    assert_eq!(b, after_first);
}

#[test]
fn release_keeps_what_existed_before() {
    let (mut b, _) = NamespaceBinding::bind(7, true, false);
    assert_eq!(b.release(), vec![BindAction::RemoveLink]);
    let (mut b, _) = NamespaceBinding::bind(7, true, true);
    assert!(b.release().is_empty());
}

#[test]
fn switch_is_restored_after_work() {
    let mut s = NamespaceSwitch::new(4026531992);
    assert_eq!(s.enter(4026532300), Ok(()));
    assert_eq!(s.active, 4026532300);
    assert_eq!(s.enter(4026532301), Err(SwitchActive(4026532300)));
    assert_eq!(s.restore(), Some(4026531992));
    assert_eq!(s.active, 4026531992);
    assert_eq!(s.restore(), None);
    assert_eq!(s, NamespaceSwitch::new(4026531992));
}

#[test]
fn ethernet_class_is_recognised() {
    assert!(is_ethernet_class(&b"0x020000\n".to_vec()));
    assert!(!is_ethernet_class(&b"0x020000".to_vec()));
    assert!(!is_ethernet_class(&b"0x060400\n".to_vec()));
}

#[test]
fn interface_entry_prefers_net_over_uio() {
    assert_eq!(
        pick_interface(Some(vec!["eth0".into()]), Some(vec!["uio0".into()])),
        Some(("eth0".into(), true))
    );
    assert_eq!(pick_interface(Some(vec![]), Some(vec!["uio0".into()])), Some(("uio0".into(), false)));
    assert_eq!(pick_interface(None, Some(vec!["uio1".into()])), Some(("uio1".into(), false)));
    assert_eq!(pick_interface(None, None), None);
}

fn device() -> Result<EthernetDevice, DeviceError> {
    eth_device_of(
        "0000:3b:00.1".into(),
        "ens1f1".into(),
        Some(b"-1\n".to_vec()),
        Some("i40e".into()),
        Some(b"6\n".to_vec()),
    )
}

#[test]
fn device_is_read_from_its_files() {
    assert_eq!(
        device(),
        Ok(EthernetDevice {
            name: "ens1f1".into(),
            index: 6,
            driver: "i40e".into(),
            pci_id: "0000:3b:00.1".into(),
            numa_node: -1,
        })
    );
}

#[test]
fn device_read_twice_is_the_same() {
    let a = device().unwrap();
    let b = device().unwrap();
    assert_eq!(a.index, b.index);
    assert_eq!(a.driver, b.driver);
}

#[test]
fn device_files_that_are_missing_or_malformed_are_errors() {
    let e = eth_device_of("p".into(), "n".into(), None, Some("d".into()), Some(b"6\n".to_vec()));
    assert_eq!(e, Err(DeviceError::Unreadable { pci_id: "p".into(), file: "numa_node".into() }));
    let e = eth_device_of("p".into(), "n".into(), Some(b"200\n".to_vec()), Some("d".into()), Some(b"6\n".to_vec()));
    assert_eq!(e, Err(DeviceError::Malformed { pci_id: "p".into(), file: "numa_node".into() }));
    let e = eth_device_of("p".into(), "n".into(), Some(b"0\n".to_vec()), None, Some(b"6\n".to_vec()));
    assert_eq!(e, Err(DeviceError::Unreadable { pci_id: "p".into(), file: "driver".into() }));
    let e = eth_device_of("p".into(), "n".into(), Some(b"0\n".to_vec()), Some("d".into()), Some(b"x\n".to_vec()));
    assert_eq!(e, Err(DeviceError::Malformed { pci_id: "p".into(), file: "ifindex".into() }));
    let e = eth_device_of("p".into(), "n".into(), Some(b"0\n".to_vec()), Some("d".into()), Some(vec![]));
    assert_eq!(e, Err(DeviceError::Malformed { pci_id: "p".into(), file: "ifindex".into() }));
}
