//! Protocol constants of the Sonix bootloader.
use vstd::prelude::*;

verus! {

/// Payload bytes in one HID feature report.
pub const REPORT_LEN: usize = 64;

/// Bytes in a feature-report buffer: the report id followed by the payload.
pub const REPORT_BUF_LEN: usize = 65;

/// Handshake command.
pub const CMD_INIT: u32 = 0x55AA01;

/// Announces the offset and length of an image about to be streamed.
pub const CMD_PREPARE: u32 = 0x55AA05;

/// Restarts the controller.
pub const CMD_REBOOT: u32 = 0x55AA07;

/// Status that the bootloader appends to an accepted PREPARE.
pub const EXPECTED_STATUS: u32 = 0xFAFAFAFA;

/// Smallest accepted firmware image, in bytes.
pub const MIN_FIRMWARE: usize = 0x100;

/// Largest accepted firmware image, in bytes (30 KiB of flash on the SN32F260).
pub const MAX_FIRMWARE: usize = 0x7800;

/// Lowest accepted initial stack pointer.
pub const STACK_LOW: u32 = 0x20000000;

/// Highest accepted initial stack pointer.
pub const STACK_HIGH: u32 = 0x20000800;

} // verus!
