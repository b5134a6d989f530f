//! The actions a user can ask for, as plain values.
use vstd::prelude::*;

use crate::keyboard::{le_bytes, to_le_bytes};

verus! {

/// What to do, with its arguments.
#[derive(Clone, Debug)]
pub struct Args {
    pub command: Command,
}

#[derive(Clone, Debug)]
pub enum Command {
    /// List the attached keyboards that the catalogs know.
    List { verbose: bool, bootloader: bool, normal: bool, all: bool },
    /// Operate on a firmware file.
    Firmware { command: FirmwareCommand },
    /// Flash a firmware file onto a keyboard in bootloader mode.
    Flash { firmware: String, keyboard: Option<String>, offset: Option<u32> },
    /// Reboot a keyboard.
    Reboot { keyboard: Option<String>, bootloader: Bootloader },
}

#[derive(Clone, Debug)]
pub enum FirmwareCommand {
    /// Check that a firmware file is valid.
    Check { path: String },
}

/// The bootloader-entry variants of some keyboard vendors: each is a pair of
/// 32-bit magics.
#[derive(Copy, Clone, Debug, PartialEq, Eq, Structural)]
pub enum Bootloader {
    EVision,
    HFD,
}

impl Bootloader {
    /// The two magics of the variant.
    pub open spec fn magics(self) -> (u32, u32) {
        match self {
            Bootloader::EVision => (0x5AA555AA, 0xCC3300FF),
            Bootloader::HFD => (0x5A8942AA, 0xCC6271FF),
        }
    }

    /// The 8-byte entry command: both magics, little-endian, in order.
    pub fn commands(&self) -> (r: [u8; 8])
        ensures
            r@ == le_bytes(self.magics().0) + le_bytes(self.magics().1),
    {
        let (a, b) = match self {
            Bootloader::EVision => (to_le_bytes(0x5AA555AA), to_le_bytes(0xCC3300FF)),
            Bootloader::HFD => (to_le_bytes(0x5A8942AA), to_le_bytes(0xCC6271FF)),
        };
        let res = [a[0], a[1], a[2], a[3], b[0], b[1], b[2], b[3]];
        assert(res@ =~= a@ + b@);
        res
    }
}

} // verus!
