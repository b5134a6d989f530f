use sflasher::error::ErrorKind;
use sflasher::flash::{FlashingOptions, Sonix};

#[test]
fn families_by_product_id() {
    assert_eq!(Sonix::from_pid(0x7040), Ok(Sonix::SN32F248));
    assert_eq!(Sonix::from_pid(0x7900), Ok(Sonix::SN32F248B));
    assert_eq!(Sonix::from_pid(0x7010), Ok(Sonix::SN32F260));
    assert_eq!(Sonix::from_pid(0x652f), Err(ErrorKind::InvalidDevice));
    assert_eq!(Sonix::SN32F260.pid(), 0x7010);
    assert_eq!(Sonix::SN32F248B.pid(), 0x7900);
    assert_eq!(Sonix::SN32F260.offset(), 0x200);
    assert_eq!(Sonix::SN32F248.offset(), 0);
}

#[test]
fn explicit_offset_overrides_default() {
    let mut o = FlashingOptions::from_pid(0x7010).unwrap();
    assert_eq!(o.offset(), 0x200);
    assert_eq!(o.with_offset(Some(0x1000)).offset(), 0x1000);
    assert_eq!(o.offset, Some(0x1000));
    o.with_offset(None);
    assert_eq!(o.offset(), 0x200);
    assert!(matches!(FlashingOptions::from_pid(0x1234), Err(ErrorKind::InvalidDevice)));
}
