use sflasher::devices::{Bootloader, DeviceInfo, Devices, Mode, Normal};
use sflasher::error::ErrorKind;

fn info(vendor_id: u16, product_id: u16, interface_number: i32) -> DeviceInfo {
    DeviceInfo {
        path: format!("/dev/hidraw{}", interface_number),
        vendor_id,
        product_id,
        serial_number: None,
        release_number: 0x0100,
        manufacturer_string: Some("Sonix".to_string()),
        product_string: None,
        usage_page: 0xff00,
        usage: 1,
        interface_number,
    }
}

fn pairs<M: Mode>(d: &Devices<M>) -> Vec<(u16, u16)> {
    d.devices().iter().map(|d| (d.vendor_id, d.product_id)).collect()
}

#[test]
fn catalogs_name_known_devices() {
    assert_eq!(Bootloader::name_of(0x0c45, 0x7040), Some("SN32F248B (bootloader)"));
    assert_eq!(Bootloader::name_of(0x0c45, 0x7010), Some("SN32F268F (bootloader)"));
    assert_eq!(Bootloader::name_of(0x0c45, 0x652f), None);
    assert_eq!(Normal::name_of(0x0c45, 0x652f), Some("Glorious GMMK / Tecware Phantom"));
    assert_eq!(Normal::name_of(0x3434, 0xfe3f), Some("Keychron C16 ISO"));
    assert_eq!(Normal::name_of(0x3434, 0xfe40), None);
    assert_eq!(Normal::name_of(0x0c45, 0x7040), None);
}

#[test]
fn enumeration_keeps_only_catalogued_pairs() {
    let host = vec![info(0x046d, 0xc52b, 0), info(0x0c45, 0x7040, 1), info(0x0c45, 0x652f, 2)];
    let d = Devices::<Bootloader>::from_host(host.clone()).unwrap();
    assert_eq!(pairs(&d), vec![(0x0c45, 0x7040)]);
    let n = Devices::<Normal>::from_host(host).unwrap();
    assert_eq!(pairs(&n), vec![(0x0c45, 0x652f)]);
}

#[test]
fn enumeration_removes_duplicate_pairs_keeping_first() {
    let host = vec![
        info(0x0c45, 0x7900, 0),
        info(0x0c45, 0x7040, 1),
        info(0x0c45, 0x7900, 2),
        info(0x0c45, 0x7040, 3),
    ];
    let d = Devices::<Bootloader>::from_host(host).unwrap();
    assert_eq!(pairs(&d), vec![(0x0c45, 0x7900), (0x0c45, 0x7040)]);
    assert_eq!(d.devices()[0].interface_number, 0);
    assert_eq!(d.devices()[1].interface_number, 1);
    assert_eq!(d.len(), 2);
    assert!(!d.is_empty());
}

#[test]
fn enumeration_with_nothing_catalogued_fails() {
    let host = vec![info(0x046d, 0xc52b, 0)];
    assert!(matches!(Devices::<Bootloader>::from_host(host), Err(ErrorKind::NoDevicesFound)));
    assert!(matches!(Devices::<Normal>::from_host(Vec::new()), Err(ErrorKind::NoDevicesFound)));
}

#[test]
fn decide_without_identifier_single_device() {
    let d = Devices::<Bootloader>::from_host(vec![info(0x0c45, 0x7010, 4)]).unwrap();
    let chosen = d.decide(None).unwrap();
    assert_eq!((chosen.vendor_id, chosen.product_id), (0x0c45, 0x7010));
    assert_eq!(chosen.interface_number, 4);
}

#[test]
fn decide_without_identifier_many_devices_is_unspecified() {
    let d = Devices::<Bootloader>::from_host(vec![info(0x0c45, 0x7010, 0), info(0x0c45, 0x7040, 1)])
        .unwrap();
    assert!(matches!(d.decide(None), Err(ErrorKind::UnspecifiedDevice)));
}

#[test]
fn decide_by_identifier_ignores_case_and_prefix() {
    let d = Devices::<Bootloader>::from_host(vec![info(0x0c45, 0x7010, 0), info(0x0c45, 0x7040, 1)])
        .unwrap();
    for id in ["0c45:7040", "0C45:7040", "0x0c45:0x7040", "0x0C45:7040", "0c45:0x7040"] {
        let chosen = d.decide(Some(id)).unwrap();
        assert_eq!((chosen.vendor_id, chosen.product_id), (0x0c45, 0x7040), "{}", id);
        assert_eq!(chosen.interface_number, 1);
    }
}

#[test]
fn decide_unknown_pair_is_not_found() {
    let d = Devices::<Bootloader>::from_host(vec![info(0x0c45, 0x7010, 0)]).unwrap();
    assert!(matches!(d.decide(Some("0c45:7900")), Err(ErrorKind::DeviceNotFound)));
    assert!(matches!(d.find(0x0c45, 0x7900), Err(ErrorKind::DeviceNotFound)));
    assert_eq!(d.find(0x0c45, 0x7010).unwrap().product_id, 0x7010);
}

#[test]
fn decide_malformed_identifier_is_invalid() {
    let d = Devices::<Bootloader>::from_host(vec![info(0x0c45, 0x7010, 0)]).unwrap();
    for id in ["0c457010", "0c45:", ":7010", "0c45:7010:1", "0c45:zz10", "10000:7010", "", "0X0c45:7010", "+0c45:7010", "0c45:+7010"] {
        match d.decide(Some(id)) {
            Err(ErrorKind::InvalidIdentifier(s)) => assert_eq!(s, id),
            other => panic!("{}: {:?}", id, other),
        }
    }
}
