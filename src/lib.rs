//! Flashing firmware onto Sonix-based USB-HID keyboards.
//!
//! The library holds the logic of the flasher: the device catalogs and the
//! selection of a device, the structural checks on a firmware image, the
//! flashing options of each controller family and the command/response
//! protocol spoken over HID feature reports. Talking to the HID subsystem is
//! left to the caller, who hands the library plain values.
pub mod cli;
pub mod constants;
pub mod devices;
pub mod error;
pub mod firmware;
pub mod flash;
pub mod hex;
pub mod keyboard;
