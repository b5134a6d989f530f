//! Flashing options: where in flash an image goes, by controller family.
use vstd::prelude::*;

use crate::error::ErrorKind;

verus! {

/// The Sonix controller families that a bootloader may report, by product id.
#[derive(Copy, Clone, Debug, PartialEq, Eq, Structural)]
pub enum Sonix {
    SN32F248,
    SN32F248B,
    SN32F260,
}

impl Sonix {
    /// The bootloader product id of the family.
    pub open spec fn spec_pid(self) -> u16 {
        match self {
            Sonix::SN32F248 => 0x7040,
            Sonix::SN32F248B => 0x7900,
            Sonix::SN32F260 => 0x7010,
        }
    }

    /// The flash offset at which the family expects an image.
    pub open spec fn spec_offset(self) -> u32 {
        match self {
            Sonix::SN32F248 => 0x0,
            Sonix::SN32F248B => 0x0,
            Sonix::SN32F260 => 0x200,
        }
    }

    pub fn offset(self) -> (r: u32)
        ensures
            r == self.spec_offset(),
    {
        match self {
            Sonix::SN32F248 => 0x0,
            Sonix::SN32F248B => 0x0,
            Sonix::SN32F260 => 0x200,
        }
    }

    pub fn pid(self) -> (r: u16)
        ensures
            r == self.spec_pid(),
    {
        match self {
            Sonix::SN32F248 => 0x7040,
            Sonix::SN32F248B => 0x7900,
            Sonix::SN32F260 => 0x7010,
        }
    }

    /// The family whose bootloader reports `pid`; `InvalidDevice` for any
    /// other product id.
    pub fn from_pid(pid: u16) -> (r: Result<Sonix, ErrorKind>)
        ensures
            match r {
                Ok(s) => s.spec_pid() == pid,
                Err(e) => e == ErrorKind::InvalidDevice && pid != 0x7040 && pid != 0x7900
                    && pid != 0x7010,
            },
    {
        match pid {
            0x7040 => Ok(Sonix::SN32F248),
            0x7900 => Ok(Sonix::SN32F248B),
            0x7010 => Ok(Sonix::SN32F260),
            _ => Err(ErrorKind::InvalidDevice),
        }
    }
}

/// Where an image is flashed: the family default unless overridden.
#[derive(Copy, Clone, Debug)]
pub struct FlashingOptions {
    pub device_type: Sonix,
    pub offset: Option<u32>,
}

impl FlashingOptions {
    pub open spec fn spec_offset(self) -> u32 {
        match self.offset {
            Some(o) => o,
            None => self.device_type.spec_offset(),
        }
    }

    /// Options for the bootloader with product id `pid`, with no override.
    pub fn from_pid(pid: u16) -> (r: Result<FlashingOptions, ErrorKind>)
        ensures
            match r {
                Ok(o) => o.device_type.spec_pid() == pid && o.offset is None,
                Err(e) => e == ErrorKind::InvalidDevice && pid != 0x7040 && pid != 0x7900
                    && pid != 0x7010,
            },
    {
        let device_type = Sonix::from_pid(pid)?;
        Ok(FlashingOptions { device_type, offset: None })
    }

    /// The offset to flash at: the explicit one if set, else the family's.
    pub fn offset(&self) -> (r: u32)
        ensures
            r == self.spec_offset(),
    {
        if let Some(offset) = self.offset {
            offset
        } else {
            self.device_type.offset()
        }
    }

    /// Sets or clears the explicit offset.
    pub fn with_offset(&mut self, offset: Option<u32>) -> (r: &mut Self)
        ensures
            *r == (FlashingOptions { offset, ..*old(self) }),
            *final(self) == *final(r),
    {
        self.offset = offset;
        self
    }
}

} // verus!
