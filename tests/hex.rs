use sflasher::cli::Bootloader;
use sflasher::hex::FromHex;

#[test]
fn hex_numbers() {
    assert_eq!(u16::from_hex("0c45"), Some(0x0c45));
    assert_eq!(u16::from_hex("0C45"), Some(0x0c45));
    assert_eq!(u16::from_hex("0x7040"), Some(0x7040));
    assert_eq!(u16::from_hex("ffff"), Some(0xffff));
    assert_eq!(u16::from_hex("+1f"), None);
    assert_eq!(u16::from_hex("0x+1f"), None);
    assert_eq!(u16::from_hex("000000ff"), Some(0xff));
    assert_eq!(u16::from_hex("10000"), None);
    assert_eq!(u16::from_hex(""), None);
    assert_eq!(u16::from_hex("0x"), None);
    assert_eq!(u16::from_hex("+"), None);
    assert_eq!(u16::from_hex("-1"), None);
    assert_eq!(u16::from_hex("0X10"), None);
    assert_eq!(u16::from_hex("12g"), None);
    assert_eq!(u16::from_hex("é"), None);
}

#[test]
fn bootloader_entry_commands() {
    assert_eq!(Bootloader::EVision.commands(), [0xAA, 0x55, 0xA5, 0x5A, 0xFF, 0x00, 0x33, 0xCC]);
    assert_eq!(Bootloader::HFD.commands(), [0xAA, 0x42, 0x89, 0x5A, 0xFF, 0x71, 0x62, 0xCC]);
}
