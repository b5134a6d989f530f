use sflasher::constants::{CMD_INIT, CMD_PREPARE, CMD_REBOOT, EXPECTED_STATUS};
use sflasher::devices::{Bootloader, DeviceInfo, Normal};
use sflasher::error::ErrorKind;
use sflasher::firmware::{Firmware, UnsafeFirmware};
use sflasher::flash::FlashingOptions;
use sflasher::keyboard::{
    feature_buffer, feature_payload, flash_steps, to_le_bytes, Action, Echo, Keyboard, Step,
};

fn info(vendor_id: u16, product_id: u16) -> DeviceInfo {
    DeviceInfo {
        path: "/dev/hidraw0".to_string(),
        vendor_id,
        product_id,
        serial_number: None,
        release_number: 0,
        manufacturer_string: None,
        product_string: None,
        usage_page: 0,
        usage: 0,
        interface_number: 0,
    }
}

/// A 65-byte report whose payload starts with `bytes`.
fn response(bytes: &[u8]) -> Vec<u8> {
    let mut r = vec![0u8; 65];
    r[1..1 + bytes.len()].copy_from_slice(bytes);
    r
}

/// Drives the current operation against a device that echoes every report
/// it was sent, with `status` appended; returns the buffers sent.
fn run_echoing<M: sflasher::devices::Mode>(
    kb: &mut Keyboard<M>,
    status: &[u8],
) -> Result<Vec<Vec<u8>>, ErrorKind> {
    let mut sent: Vec<Vec<u8>> = Vec::new();
    loop {
        match kb.next_action() {
            Action::SendReport(b) => sent.push(b),
            Action::ReadReport => {
                let last = &sent.last().unwrap()[1..];
                let mut payload = last.to_vec();
                let cmd_len = if payload[..4] == CMD_PREPARE.to_le_bytes() { 12 } else { 4 };
                payload[cmd_len..cmd_len + status.len()].copy_from_slice(status);
                let mut r = vec![0u8];
                r.extend_from_slice(&payload);
                kb.receive(&r)?;
            }
            Action::Done => return Ok(sent),
            Action::Failed(e) => return Err(e),
        }
    }
}

#[test]
fn le_bytes_of_commands() {
    assert_eq!(to_le_bytes(0x55AA01), vec![0x01, 0xAA, 0x55, 0x00]);
    assert_eq!(to_le_bytes(EXPECTED_STATUS), vec![0xFA; 4]);
}

#[test]
fn feature_buffer_frames_payload() {
    let b = feature_buffer(&[1, 2, 3]).unwrap();
    assert_eq!(b.len(), 65);
    assert_eq!(&b[..4], &[0, 1, 2, 3]);
    assert!(b[4..].iter().all(|&x| x == 0));
    let full = feature_buffer(&[7u8; 64]).unwrap();
    assert_eq!(full[0], 0);
    assert!(full[1..].iter().all(|&x| x == 7));
    assert_eq!(feature_buffer(&[0u8; 65]), Err(ErrorKind::InvalidReportLength(65)));
    let mut raw = vec![9u8; 65];
    raw[0] = 0;
    assert_eq!(feature_payload(&raw), vec![9u8; 64]);
}

#[test]
fn init_handshake() {
    let mut kb = Keyboard::<Normal>::connect(&info(0x0c45, 0x652f));
    assert_eq!(kb.name(), "Glorious GMMK / Tecware Phantom");
    assert!(!kb.is_initialized());
    assert!(matches!(kb.next_action(), Action::Done));
    kb.init();
    match kb.next_action() {
        Action::SendReport(b) => assert_eq!(b, response(&CMD_INIT.to_le_bytes())),
        other => panic!("{:?}", other),
    }
    assert!(matches!(kb.next_action(), Action::ReadReport));
    assert_eq!(kb.receive(&response(&CMD_INIT.to_le_bytes())), Ok(()));
    assert!(kb.is_initialized());
    assert!(matches!(kb.next_action(), Action::Done));
}

#[test]
fn unlisted_device_is_unknown() {
    let kb = Keyboard::<Bootloader>::connect(&info(0x0c45, 0x652f));
    assert_eq!(kb.name(), "Unknown");
    let kb = Keyboard::<Bootloader>::connect(&info(0x0c45, 0x7900));
    assert_eq!(kb.name(), "SN32F248 (bootloader)");
}

#[test]
fn init_wrong_echo_fails() {
    let mut kb = Keyboard::<Bootloader>::connect(&info(0x0c45, 0x7040));
    kb.init();
    assert!(matches!(kb.next_action(), Action::SendReport(_)));
    assert!(matches!(kb.next_action(), Action::ReadReport));
    assert_eq!(kb.receive(&response(&[0, 0, 0, 0])), Err(ErrorKind::FailedToInitialize));
    assert!(!kb.is_initialized());
    assert!(matches!(kb.next_action(), Action::Done));
}

#[test]
fn response_of_wrong_size_is_invalid() {
    let mut kb = Keyboard::<Bootloader>::connect(&info(0x0c45, 0x7040));
    kb.init();
    kb.next_action();
    assert_eq!(kb.receive(&CMD_INIT.to_le_bytes()), Err(ErrorKind::InvalidResponse));
    let mut kb = Keyboard::<Bootloader>::connect(&info(0x0c45, 0x7040));
    assert_eq!(kb.receive(&response(&[])), Err(ErrorKind::InvalidResponse));
}

#[test]
fn write_checks_command_and_status() {
    let command = [1u8, 2, 3, 4];
    let status = [0xFAu8; 4];
    let start = |kb: &mut Keyboard<Bootloader>| {
        kb.write(&command, Some(&status));
        assert!(matches!(kb.next_action(), Action::SendReport(_)));
        assert!(matches!(kb.next_action(), Action::ReadReport));
    };
    let mut kb = Keyboard::<Bootloader>::connect(&info(0x0c45, 0x7040));

    start(&mut kb);
    assert_eq!(kb.receive(&response(&[1, 2, 3, 4, 0xFA, 0xFA, 0xFA, 0xFA])), Ok(()));
    assert!(matches!(kb.next_action(), Action::Done));

    start(&mut kb);
    assert_eq!(
        kb.receive(&response(&[1, 2, 3, 4, 0xFA, 0xFA, 0xFA, 0x00])),
        Err(ErrorKind::FailedToWrite)
    );

    start(&mut kb);
    assert_eq!(
        kb.receive(&response(&[1, 2, 3, 5, 0xFA, 0xFA, 0xFA, 0xFA])),
        Err(ErrorKind::FailedToWrite)
    );
    assert!(matches!(kb.next_action(), Action::Done));
}

#[test]
fn write_without_status_checks_echo_only() {
    let mut kb = Keyboard::<Bootloader>::connect(&info(0x0c45, 0x7040));
    kb.write(&[5, 6], None);
    kb.next_action();
    kb.next_action();
    assert_eq!(kb.receive(&response(&[5, 6, 0xEE])), Ok(()));
    kb.write(&[5, 6], None);
    kb.next_action();
    kb.next_action();
    assert_eq!(kb.receive(&response(&[5, 7])), Err(ErrorKind::FailedToWrite));
}

#[test]
fn oversized_command_fails_before_sending() {
    let mut kb = Keyboard::<Bootloader>::connect(&info(0x0c45, 0x7040));
    kb.write(&[0u8; 70], None);
    assert!(matches!(kb.next_action(), Action::Failed(ErrorKind::InvalidReportLength(70))));
    assert!(matches!(kb.next_action(), Action::Done));
}

#[test]
fn reboot_sends_init_then_reboot() {
    let mut kb = Keyboard::<Bootloader>::connect(&info(0x0c45, 0x7040));
    kb.reboot();
    let sent = run_echoing(&mut kb, &[]).unwrap();
    assert_eq!(sent, vec![response(&CMD_INIT.to_le_bytes()), response(&CMD_REBOOT.to_le_bytes())]);
    assert!(kb.is_initialized());
}

#[test]
fn flash_steps_of_130_bytes() {
    let image: Vec<u8> = (0..130u32).map(|i| i as u8).collect();
    let steps = flash_steps(&image, 0x200);
    let sends: Vec<&Vec<u8>> = steps
        .iter()
        .filter_map(|s| match s {
            Step::Send(p) => Some(p),
            _ => None,
        })
        .collect();
    let mut prepare = CMD_PREPARE.to_le_bytes().to_vec();
    prepare.extend_from_slice(&0x200u32.to_le_bytes());
    prepare.extend_from_slice(&130u32.to_le_bytes());
    assert_eq!(sends.len(), 7);
    assert_eq!(sends[0], &CMD_INIT.to_le_bytes().to_vec());
    assert_eq!(sends[1], &prepare);
    assert_eq!(sends[2], &image[..64].to_vec());
    assert_eq!(sends[3], &image[64..128].to_vec());
    assert_eq!(sends[4], &image[128..].to_vec());
    assert_eq!(sends[5], &CMD_INIT.to_le_bytes().to_vec());
    assert_eq!(sends[6], &CMD_REBOOT.to_le_bytes().to_vec());
    assert_eq!(steps.len(), 11);
    let mut expected_prepare = prepare.clone();
    expected_prepare.extend_from_slice(&EXPECTED_STATUS.to_le_bytes());
    match &steps[3] {
        Step::Expect { expected, echo } => {
            assert_eq!(expected, &expected_prepare);
            assert_eq!(*echo, Echo::Write);
        }
        other => panic!("{:?}", other),
    }
}

#[test]
fn flash_validated_image() {
    let mut image = vec![0u8; 0x100 + 2];
    image[..16].copy_from_slice(&[
        0x00, 0x02, 0x00, 0x20, 0x01, 0x01, 0, 0, 0x01, 0x02, 0, 0, 0x01, 0x03, 0, 0,
    ]);
    let fw = Firmware::validate(UnsafeFirmware::new(image.clone())).unwrap();
    let options = FlashingOptions::from_pid(0x7010).unwrap();
    let mut kb = Keyboard::<Bootloader>::connect(&info(0x0c45, 0x7010));
    kb.flash(fw, &options);
    let sent = run_echoing(&mut kb, &EXPECTED_STATUS.to_le_bytes()).unwrap();
    assert_eq!(sent.len(), 2 + 5 + 2);
    assert_eq!(sent[1][1..5], CMD_PREPARE.to_le_bytes());
    assert_eq!(sent[1][5..9], 0x200u32.to_le_bytes());
    assert_eq!(sent[1][9..13], 0x102u32.to_le_bytes());
    for k in 0..4 {
        assert_eq!(sent[2 + k][1..], image[64 * k..64 * k + 64]);
    }
    assert_eq!(sent[6][1..3], image[256..]);
    assert!(sent[6][3..].iter().all(|&x| x == 0));
    assert_eq!(sent[8], response(&CMD_REBOOT.to_le_bytes()));
}

#[test]
fn flash_stops_when_prepare_is_refused() {
    let mut image = vec![0u8; 0x100];
    image[..16].copy_from_slice(&[
        0x00, 0x02, 0x00, 0x20, 0x01, 0x01, 0, 0, 0x01, 0x02, 0, 0, 0x01, 0x03, 0, 0,
    ]);
    let fw = Firmware::validate(UnsafeFirmware::new(image)).unwrap();
    let options = FlashingOptions::from_pid(0x7040).unwrap();
    let mut kb = Keyboard::<Bootloader>::connect(&info(0x0c45, 0x7040));
    kb.flash(fw, &options);
    assert_eq!(run_echoing(&mut kb, &[0, 0, 0, 0]), Err(ErrorKind::FailedToWrite));
    assert!(matches!(kb.next_action(), Action::Done));
}
