//! The failures that the library reports.
use vstd::prelude::*;

verus! {

/// Why an operation of the library failed.
#[derive(Debug, Clone, PartialEq, Eq)]
pub enum ErrorKind {
    /// No attached device matches the requested identifier.
    DeviceNotFound,
    /// No attached device belongs to the catalog of the requested mode.
    NoDevicesFound,
    /// The identifier is not of the form `vendor:product` in hexadecimal.
    InvalidIdentifier(String),
    /// Several devices are attached and none was named.
    UnspecifiedDevice,
    /// The image failed a structural check.
    InvalidFirmware,
    /// A feature report longer than the transport allows.
    InvalidReportLength(usize),
    /// A response of the wrong size came back from the device.
    InvalidResponse,
    /// The device did not echo the handshake.
    FailedToInitialize,
    /// The device did not echo a command, or returned the wrong status.
    FailedToWrite,
    /// The product id belongs to no known controller family.
    InvalidDevice,
}

} // verus!
