use sflasher::constants::MAX_FIRMWARE;
use sflasher::error::ErrorKind;
use sflasher::firmware::{Firmware, UnsafeFirmware};

fn image(len: usize, header: [u32; 4]) -> Vec<u8> {
    let mut v = vec![0xA5u8; len];
    for (k, w) in header.iter().enumerate() {
        v[4 * k..4 * k + 4].copy_from_slice(&w.to_le_bytes());
    }
    v
}

const GOOD: [u32; 4] = [0x20000200, 0x00000101, 0x00000201, 0x00000301];

#[test]
fn valid_image_passes() {
    let f = UnsafeFirmware::new(image(0x4000, GOOD));
    assert_eq!(f.len(), 0x4000);
    assert!(!f.is_empty());
    assert_eq!(f.check(), Ok(()));
    let fw = Firmware::validate(f).unwrap();
    assert_eq!(fw.len(), 0x4000);
    assert!(!fw.is_empty());
    assert_eq!(fw.into_inner(), image(0x4000, GOOD));
}

#[test]
fn stack_pointer_outside_ram_fails() {
    let mut h = GOOD;
    h[0] = 0x30000000;
    let f = UnsafeFirmware::new(image(0x4000, h));
    assert_eq!(f.check(), Err(ErrorKind::InvalidFirmware));
    assert!(matches!(Firmware::validate(f), Err(ErrorKind::InvalidFirmware)));
}

#[test]
fn stack_pointer_window_edges() {
    for (sp, ok) in [
        (0x1FFFFFF0u32, false),
        (0x1FFFFFFF, false),
        (0x20000000, true),
        (0x20000400, true),
        (0x20000800, true),
        (0x20000801, false),
    ] {
        let mut h = GOOD;
        h[0] = sp;
        let r = UnsafeFirmware::new(image(0x400, h)).check();
        assert_eq!(r.is_ok(), ok, "{:#x}", sp);
    }
}

#[test]
fn even_vector_fails() {
    for k in 1..4 {
        let mut h = GOOD;
        h[k] &= !1;
        let f = UnsafeFirmware::new(image(0x400, h));
        assert_eq!(f.check(), Err(ErrorKind::InvalidFirmware), "vector {}", k);
    }
}

#[test]
fn size_bounds() {
    assert_eq!(UnsafeFirmware::new(image(0xff, GOOD)).check(), Err(ErrorKind::InvalidFirmware));
    assert_eq!(UnsafeFirmware::new(image(0x100, GOOD)).check(), Ok(()));
    assert_eq!(UnsafeFirmware::new(image(MAX_FIRMWARE, GOOD)).check(), Ok(()));
    assert_eq!(
        UnsafeFirmware::new(image(MAX_FIRMWARE + 1, GOOD)).check(),
        Err(ErrorKind::InvalidFirmware)
    );
    assert_eq!(UnsafeFirmware::new(Vec::new()).check(), Err(ErrorKind::InvalidFirmware));
    assert!(UnsafeFirmware::new(Vec::new()).is_empty());
}
