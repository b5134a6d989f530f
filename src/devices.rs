//! The device catalogs, the filtering of what the host reports, and the
//! choice of one device.
use vstd::prelude::*;
use vstd::string::StringSliceAdditionalSpecFns;

use crate::error::ErrorKind;
use crate::hex::{
    lemma_hex_case_insensitive, lemma_hex_prefix_ignored, parse_hex_u16, parse_hex_u16_in,
    upper_cased,
};

verus! {

/// A snapshot of one HID interface as the host reports it.
#[derive(Clone, Debug)]
pub struct DeviceInfo {
    pub path: String,
    pub vendor_id: u16,
    pub product_id: u16,
    pub serial_number: Option<String>,
    pub release_number: u16,
    pub manufacturer_string: Option<String>,
    pub product_string: Option<String>,
    pub usage_page: u16,
    pub usage: u16,
    pub interface_number: i32,
}

/// The (vendor, product) pair that identifies a device.
pub open spec fn key(d: DeviceInfo) -> (u16, u16) {
    (d.vendor_id, d.product_id)
}

pub open spec fn has_key(s: Seq<DeviceInfo>, k: (u16, u16)) -> bool {
    exists|i: int| 0 <= i < s.len() && key(#[trigger] s[i]) == k
}

/// No two entries share a (vendor, product) pair.
pub open spec fn distinct_keys(s: Seq<DeviceInfo>) -> bool {
    forall|i: int, j: int| 0 <= i < j < s.len() ==> key(#[trigger] s[i]) != key(#[trigger] s[j])
}

/// `i` is the first position of `s` that holds the pair `k`.
pub open spec fn first_with_key(s: Seq<DeviceInfo>, k: (u16, u16), i: int) -> bool {
    &&& 0 <= i < s.len()
    &&& key(s[i]) == k
    &&& forall|j: int| 0 <= j < i ==> key(#[trigger] s[j]) != k
}

/// A device mode: which catalog of identities a device is looked up in.
pub trait Mode {
    /// The pair belongs to the catalog of the mode.
    spec fn listed(vendor_id: u16, product_id: u16) -> bool;

    /// The catalog name of the pair, if it is catalogued.
    spec fn spec_name_of(vendor_id: u16, product_id: u16) -> Option<&'static str>;

    /// The display name of a catalogued device.
    fn name_of(vendor_id: u16, product_id: u16) -> (r: Option<&'static str>)
        ensures
            r == Self::spec_name_of(vendor_id, product_id),
            r is Some <==> Self::listed(vendor_id, product_id),
    ;
}

/// The name of a device as shown to the user: its catalog name, or
/// "Unknown".
pub open spec fn display_name<M: Mode>(vendor_id: u16, product_id: u16) -> &'static str {
    match M::spec_name_of(vendor_id, product_id) {
        Some(n) => n,
        None => "Unknown",
    }
}

/// Devices running their regular firmware.
#[derive(Debug)]
pub struct Normal;

/// Devices in their flashing-capable bootloader.
#[derive(Debug)]
pub struct Bootloader;

impl Mode for Bootloader {
    open spec fn listed(vendor_id: u16, product_id: u16) -> bool {
        ||| (vendor_id == 0x0c45 && product_id == 0x7010)
        ||| (vendor_id == 0x0c45 && product_id == 0x7040)
        ||| (vendor_id == 0x0c45 && product_id == 0x7900)
    }

    open spec fn spec_name_of(vendor_id: u16, product_id: u16) -> Option<&'static str> {
        match (vendor_id, product_id) {
            (0x0c45, 0x7010) => Some("SN32F268F (bootloader)"),
            (0x0c45, 0x7040) => Some("SN32F248B (bootloader)"),
            (0x0c45, 0x7900) => Some("SN32F248 (bootloader)"),
            _ => None,
        }
    }

    fn name_of(vendor_id: u16, product_id: u16) -> (r: Option<&'static str>) {
        match (vendor_id, product_id) {
            (0x0c45, 0x7010) => Some("SN32F268F (bootloader)"),
            (0x0c45, 0x7040) => Some("SN32F248B (bootloader)"),
            (0x0c45, 0x7900) => Some("SN32F248 (bootloader)"),
            _ => None,
        }
    }
}

impl Mode for Normal {
    open spec fn listed(vendor_id: u16, product_id: u16) -> bool {
        ||| (vendor_id == 0x05ac && product_id == 0x024f)
        ||| (vendor_id == 0x05ac && product_id == 0x0256)
        ||| (vendor_id == 0x0c45 && product_id == 0x652f)
        ||| (vendor_id == 0x0c45 && product_id == 0x5004)
        ||| (vendor_id == 0x0c45 && product_id == 0x5104)
        ||| (vendor_id == 0x0c45 && product_id == 0x766b)
        ||| (vendor_id == 0x0c45 && product_id == 0x7698)
        ||| (vendor_id == 0x0c45 && product_id == 0x7903)
        ||| (vendor_id == 0x0c45 && product_id == 0x8006)
        ||| (vendor_id == 0x0c45 && product_id == 0x8508)
        ||| (vendor_id == 0x0c45 && product_id == 0x8513)
        ||| (vendor_id == 0x320f && product_id == 0x5013)
        ||| (vendor_id == 0x320f && product_id == 0x5041)
        ||| (vendor_id == 0x3299 && product_id == 0x4e58)
        ||| (vendor_id == 0x3434 && product_id == 0xfe00)
        ||| (vendor_id == 0x3434 && product_id == 0xfe01)
        ||| (vendor_id == 0x3434 && product_id == 0xfe02)
        ||| (vendor_id == 0x3434 && product_id == 0xfe03)
        ||| (vendor_id == 0x3434 && product_id == 0xfe04)
        ||| (vendor_id == 0x3434 && product_id == 0xfe05)
        ||| (vendor_id == 0x3434 && product_id == 0xfe06)
        ||| (vendor_id == 0x3434 && product_id == 0xfe07)
        ||| (vendor_id == 0x3434 && product_id == 0xfe08)
        ||| (vendor_id == 0x3434 && product_id == 0xfe09)
        ||| (vendor_id == 0x3434 && product_id == 0xfe0a)
        ||| (vendor_id == 0x3434 && product_id == 0xfe0b)
        ||| (vendor_id == 0x3434 && product_id == 0xfe0c)
        ||| (vendor_id == 0x3434 && product_id == 0xfe0d)
        ||| (vendor_id == 0x3434 && product_id == 0xfe0e)
        ||| (vendor_id == 0x3434 && product_id == 0xfe0f)
        ||| (vendor_id == 0x3434 && product_id == 0xfe10)
        ||| (vendor_id == 0x3434 && product_id == 0xfe11)
        ||| (vendor_id == 0x3434 && product_id == 0xfe12)
        ||| (vendor_id == 0x3434 && product_id == 0xfe13)
        ||| (vendor_id == 0x3434 && product_id == 0xfe14)
        ||| (vendor_id == 0x3434 && product_id == 0xfe15)
        ||| (vendor_id == 0x3434 && product_id == 0xfe16)
        ||| (vendor_id == 0x3434 && product_id == 0xfe17)
        ||| (vendor_id == 0x3434 && product_id == 0xfe18)
        ||| (vendor_id == 0x3434 && product_id == 0xfe19)
        ||| (vendor_id == 0x3434 && product_id == 0xfe1a)
        ||| (vendor_id == 0x3434 && product_id == 0xfe1b)
        ||| (vendor_id == 0x3434 && product_id == 0xfe1c)
        ||| (vendor_id == 0x3434 && product_id == 0xfe1d)
        ||| (vendor_id == 0x3434 && product_id == 0xfe1e)
        ||| (vendor_id == 0x3434 && product_id == 0xfe1f)
        ||| (vendor_id == 0x3434 && product_id == 0xfe20)
        ||| (vendor_id == 0x3434 && product_id == 0xfe21)
        ||| (vendor_id == 0x3434 && product_id == 0xfe22)
        ||| (vendor_id == 0x3434 && product_id == 0xfe23)
        ||| (vendor_id == 0x3434 && product_id == 0xfe24)
        ||| (vendor_id == 0x3434 && product_id == 0xfe25)
        ||| (vendor_id == 0x3434 && product_id == 0xfe26)
        ||| (vendor_id == 0x3434 && product_id == 0xfe27)
        ||| (vendor_id == 0x3434 && product_id == 0xfe28)
        ||| (vendor_id == 0x3434 && product_id == 0xfe29)
        ||| (vendor_id == 0x3434 && product_id == 0xfe2a)
        ||| (vendor_id == 0x3434 && product_id == 0xfe2b)
        ||| (vendor_id == 0x3434 && product_id == 0xfe2c)
        ||| (vendor_id == 0x3434 && product_id == 0xfe2d)
        ||| (vendor_id == 0x3434 && product_id == 0xfe2e)
        ||| (vendor_id == 0x3434 && product_id == 0xfe2f)
        ||| (vendor_id == 0x3434 && product_id == 0xfe30)
        ||| (vendor_id == 0x3434 && product_id == 0xfe31)
        ||| (vendor_id == 0x3434 && product_id == 0xfe32)
        ||| (vendor_id == 0x3434 && product_id == 0xfe33)
        ||| (vendor_id == 0x3434 && product_id == 0xfe34)
        ||| (vendor_id == 0x3434 && product_id == 0xfe35)
        ||| (vendor_id == 0x3434 && product_id == 0xfe36)
        ||| (vendor_id == 0x3434 && product_id == 0xfe37)
        ||| (vendor_id == 0x3434 && product_id == 0xfe38)
        ||| (vendor_id == 0x3434 && product_id == 0xfe39)
        ||| (vendor_id == 0x3434 && product_id == 0xfe3a)
        ||| (vendor_id == 0x3434 && product_id == 0xfe3b)
        ||| (vendor_id == 0x3434 && product_id == 0xfe3c)
        ||| (vendor_id == 0x3434 && product_id == 0xfe3d)
        ||| (vendor_id == 0x3434 && product_id == 0xfe3e)
        ||| (vendor_id == 0x3434 && product_id == 0xfe3f)
    }

    open spec fn spec_name_of(vendor_id: u16, product_id: u16) -> Option<&'static str> {
        match (vendor_id, product_id) {
            (0x05ac, 0x024f) => Some("Apple Keyboard / Keychron / Flashquark Horizon Z"),
            (0x05ac, 0x0256) => Some("Apple Keyboard / Ajazz K870T / RAKK Lam-Ang Pro / Miller GM807"),
            (0x0c45, 0x652f) => Some("Glorious GMMK / Tecware Phantom"),
            (0x0c45, 0x5004) => Some("Redragon"),
            (0x0c45, 0x5104) => Some("Redragon"),
            (0x0c45, 0x766b) => Some("Kemove"),
            (0x0c45, 0x7698) => Some("Womier"),
            (0x0c45, 0x7903) => Some("Ajazz"),
            (0x0c45, 0x8006) => Some("Sharkoon SGK50 S4"),
            (0x0c45, 0x8508) => Some("SPCGear"),
            (0x0c45, 0x8513) => Some("Sharkoon"),
            (0x320f, 0x5013) => Some("Akko"),
            (0x320f, 0x5041) => Some("Designed By GG"),
            (0x3299, 0x4e58) => Some("SPCGear"),
            (0x3434, 0xfe00) => Some("Keychron K1 ANSI"),
            (0x3434, 0xfe01) => Some("Keychron K1 ISO"),
            (0x3434, 0xfe02) => Some("Keychron K2 ANSI"),
            (0x3434, 0xfe03) => Some("Keychron K2 ISO"),
            (0x3434, 0xfe04) => Some("Keychron K3 ANSI"),
            (0x3434, 0xfe05) => Some("Keychron K3 ISO"),
            (0x3434, 0xfe06) => Some("Keychron K4 ANSI"),
            (0x3434, 0xfe07) => Some("Keychron K4 ISO"),
            (0x3434, 0xfe08) => Some("Keychron K5 ANSI"),
            (0x3434, 0xfe09) => Some("Keychron K5 ISO"),
            (0x3434, 0xfe0a) => Some("Keychron K6 ANSI"),
            (0x3434, 0xfe0b) => Some("Keychron K6 ISO"),
            (0x3434, 0xfe0c) => Some("Keychron K7 ANSI"),
            (0x3434, 0xfe0d) => Some("Keychron K7 ISO"),
            (0x3434, 0xfe0e) => Some("Keychron K8 ANSI"),
            (0x3434, 0xfe0f) => Some("Keychron K8 ISO"),
            (0x3434, 0xfe10) => Some("Keychron K9 ANSI"),
            (0x3434, 0xfe11) => Some("Keychron K9 ISO"),
            (0x3434, 0xfe12) => Some("Keychron K10 ANSI"),
            (0x3434, 0xfe13) => Some("Keychron K10 ISO"),
            (0x3434, 0xfe14) => Some("Keychron K11 ANSI"),
            (0x3434, 0xfe15) => Some("Keychron K11 ISO"),
            (0x3434, 0xfe16) => Some("Keychron K12 ANSI"),
            (0x3434, 0xfe17) => Some("Keychron K12 ISO"),
            (0x3434, 0xfe18) => Some("Keychron K13 ANSI"),
            (0x3434, 0xfe19) => Some("Keychron K13 ISO"),
            (0x3434, 0xfe1a) => Some("Keychron K14 ANSI"),
            (0x3434, 0xfe1b) => Some("Keychron K14 ISO"),
            (0x3434, 0xfe1c) => Some("Keychron K15 ANSI"),
            (0x3434, 0xfe1d) => Some("Keychron K15 ISO"),
            (0x3434, 0xfe1e) => Some("Keychron K16 ANSI"),
            (0x3434, 0xfe1f) => Some("Keychron K16 ISO"),
            (0x3434, 0xfe20) => Some("Keychron C1 ANSI"),
            (0x3434, 0xfe21) => Some("Keychron C1 ISO"),
            (0x3434, 0xfe22) => Some("Keychron C2 ANSI"),
            (0x3434, 0xfe23) => Some("Keychron C2 ISO"),
            (0x3434, 0xfe24) => Some("Keychron C3 ANSI"),
            (0x3434, 0xfe25) => Some("Keychron C3 ISO"),
            (0x3434, 0xfe26) => Some("Keychron C4 ANSI"),
            (0x3434, 0xfe27) => Some("Keychron C4 ISO"),
            (0x3434, 0xfe28) => Some("Keychron C5 ANSI"),
            (0x3434, 0xfe29) => Some("Keychron C5 ISO"),
            (0x3434, 0xfe2a) => Some("Keychron C6 ANSI"),
            (0x3434, 0xfe2b) => Some("Keychron C6 ISO"),
            (0x3434, 0xfe2c) => Some("Keychron C7 ANSI"),
            (0x3434, 0xfe2d) => Some("Keychron C7 ISO"),
            (0x3434, 0xfe2e) => Some("Keychron C8 ANSI"),
            (0x3434, 0xfe2f) => Some("Keychron C8 ISO"),
            (0x3434, 0xfe30) => Some("Keychron C9 ANSI"),
            (0x3434, 0xfe31) => Some("Keychron C9 ISO"),
            (0x3434, 0xfe32) => Some("Keychron C10 ANSI"),
            (0x3434, 0xfe33) => Some("Keychron C10 ISO"),
            (0x3434, 0xfe34) => Some("Keychron C11 ANSI"),
            (0x3434, 0xfe35) => Some("Keychron C11 ISO"),
            (0x3434, 0xfe36) => Some("Keychron C12 ANSI"),
            (0x3434, 0xfe37) => Some("Keychron C12 ISO"),
            (0x3434, 0xfe38) => Some("Keychron C13 ANSI"),
            (0x3434, 0xfe39) => Some("Keychron C13 ISO"),
            (0x3434, 0xfe3a) => Some("Keychron C14 ANSI"),
            (0x3434, 0xfe3b) => Some("Keychron C14 ISO"),
            (0x3434, 0xfe3c) => Some("Keychron C15 ANSI"),
            (0x3434, 0xfe3d) => Some("Keychron C15 ISO"),
            (0x3434, 0xfe3e) => Some("Keychron C16 ANSI"),
            (0x3434, 0xfe3f) => Some("Keychron C16 ISO"),
            _ => None,
        }
    }

    fn name_of(vendor_id: u16, product_id: u16) -> (r: Option<&'static str>) {
        match (vendor_id, product_id) {
            (0x05ac, 0x024f) => Some("Apple Keyboard / Keychron / Flashquark Horizon Z"),
            (0x05ac, 0x0256) => Some("Apple Keyboard / Ajazz K870T / RAKK Lam-Ang Pro / Miller GM807"),
            (0x0c45, 0x652f) => Some("Glorious GMMK / Tecware Phantom"),
            (0x0c45, 0x5004) => Some("Redragon"),
            (0x0c45, 0x5104) => Some("Redragon"),
            (0x0c45, 0x766b) => Some("Kemove"),
            (0x0c45, 0x7698) => Some("Womier"),
            (0x0c45, 0x7903) => Some("Ajazz"),
            (0x0c45, 0x8006) => Some("Sharkoon SGK50 S4"),
            (0x0c45, 0x8508) => Some("SPCGear"),
            (0x0c45, 0x8513) => Some("Sharkoon"),
            (0x320f, 0x5013) => Some("Akko"),
            (0x320f, 0x5041) => Some("Designed By GG"),
            (0x3299, 0x4e58) => Some("SPCGear"),
            (0x3434, 0xfe00) => Some("Keychron K1 ANSI"),
            (0x3434, 0xfe01) => Some("Keychron K1 ISO"),
            (0x3434, 0xfe02) => Some("Keychron K2 ANSI"),
            (0x3434, 0xfe03) => Some("Keychron K2 ISO"),
            (0x3434, 0xfe04) => Some("Keychron K3 ANSI"),
            (0x3434, 0xfe05) => Some("Keychron K3 ISO"),
            (0x3434, 0xfe06) => Some("Keychron K4 ANSI"),
            (0x3434, 0xfe07) => Some("Keychron K4 ISO"),
            (0x3434, 0xfe08) => Some("Keychron K5 ANSI"),
            (0x3434, 0xfe09) => Some("Keychron K5 ISO"),
            (0x3434, 0xfe0a) => Some("Keychron K6 ANSI"),
            (0x3434, 0xfe0b) => Some("Keychron K6 ISO"),
            (0x3434, 0xfe0c) => Some("Keychron K7 ANSI"),
            (0x3434, 0xfe0d) => Some("Keychron K7 ISO"),
            (0x3434, 0xfe0e) => Some("Keychron K8 ANSI"),
            (0x3434, 0xfe0f) => Some("Keychron K8 ISO"),
            (0x3434, 0xfe10) => Some("Keychron K9 ANSI"),
            (0x3434, 0xfe11) => Some("Keychron K9 ISO"),
            (0x3434, 0xfe12) => Some("Keychron K10 ANSI"),
            (0x3434, 0xfe13) => Some("Keychron K10 ISO"),
            (0x3434, 0xfe14) => Some("Keychron K11 ANSI"),
            (0x3434, 0xfe15) => Some("Keychron K11 ISO"),
            (0x3434, 0xfe16) => Some("Keychron K12 ANSI"),
            (0x3434, 0xfe17) => Some("Keychron K12 ISO"),
            (0x3434, 0xfe18) => Some("Keychron K13 ANSI"),
            (0x3434, 0xfe19) => Some("Keychron K13 ISO"),
            (0x3434, 0xfe1a) => Some("Keychron K14 ANSI"),
            (0x3434, 0xfe1b) => Some("Keychron K14 ISO"),
            (0x3434, 0xfe1c) => Some("Keychron K15 ANSI"),
            (0x3434, 0xfe1d) => Some("Keychron K15 ISO"),
            (0x3434, 0xfe1e) => Some("Keychron K16 ANSI"),
            (0x3434, 0xfe1f) => Some("Keychron K16 ISO"),
            (0x3434, 0xfe20) => Some("Keychron C1 ANSI"),
            (0x3434, 0xfe21) => Some("Keychron C1 ISO"),
            (0x3434, 0xfe22) => Some("Keychron C2 ANSI"),
            (0x3434, 0xfe23) => Some("Keychron C2 ISO"),
            (0x3434, 0xfe24) => Some("Keychron C3 ANSI"),
            (0x3434, 0xfe25) => Some("Keychron C3 ISO"),
            (0x3434, 0xfe26) => Some("Keychron C4 ANSI"),
            (0x3434, 0xfe27) => Some("Keychron C4 ISO"),
            (0x3434, 0xfe28) => Some("Keychron C5 ANSI"),
            (0x3434, 0xfe29) => Some("Keychron C5 ISO"),
            (0x3434, 0xfe2a) => Some("Keychron C6 ANSI"),
            (0x3434, 0xfe2b) => Some("Keychron C6 ISO"),
            (0x3434, 0xfe2c) => Some("Keychron C7 ANSI"),
            (0x3434, 0xfe2d) => Some("Keychron C7 ISO"),
            (0x3434, 0xfe2e) => Some("Keychron C8 ANSI"),
            (0x3434, 0xfe2f) => Some("Keychron C8 ISO"),
            (0x3434, 0xfe30) => Some("Keychron C9 ANSI"),
            (0x3434, 0xfe31) => Some("Keychron C9 ISO"),
            (0x3434, 0xfe32) => Some("Keychron C10 ANSI"),
            (0x3434, 0xfe33) => Some("Keychron C10 ISO"),
            (0x3434, 0xfe34) => Some("Keychron C11 ANSI"),
            (0x3434, 0xfe35) => Some("Keychron C11 ISO"),
            (0x3434, 0xfe36) => Some("Keychron C12 ANSI"),
            (0x3434, 0xfe37) => Some("Keychron C12 ISO"),
            (0x3434, 0xfe38) => Some("Keychron C13 ANSI"),
            (0x3434, 0xfe39) => Some("Keychron C13 ISO"),
            (0x3434, 0xfe3a) => Some("Keychron C14 ANSI"),
            (0x3434, 0xfe3b) => Some("Keychron C14 ISO"),
            (0x3434, 0xfe3c) => Some("Keychron C15 ANSI"),
            (0x3434, 0xfe3d) => Some("Keychron C15 ISO"),
            (0x3434, 0xfe3e) => Some("Keychron C16 ANSI"),
            (0x3434, 0xfe3f) => Some("Keychron C16 ISO"),
            _ => None,
        }
    }
}

/// What enumeration keeps of a host's device list, in order: the entries
/// whose pair is in the catalog of `M`, each pair at its first occurrence only.
pub open spec fn select<M: Mode>(host: Seq<DeviceInfo>) -> Seq<DeviceInfo>
    decreases host.len(),
{
    if host.len() == 0 {
        Seq::empty()
    } else {
        let prev = select::<M>(host.drop_last());
        let d = host.last();
        if M::listed(d.vendor_id, d.product_id) && !has_key(prev, key(d)) {
            prev.push(d)
        } else {
            prev
        }
    }
}

/// Enumeration never yields a pair outside the catalog of its mode.
pub proof fn lemma_select_only_listed<M: Mode>(host: Seq<DeviceInfo>, vendor_id: u16, product_id: u16)
    requires
        !M::listed(vendor_id, product_id),
    ensures
        !has_key(select::<M>(host), (vendor_id, product_id)),
    decreases host.len(),
{
    if host.len() > 0 {
        lemma_select_only_listed::<M>(host.drop_last(), vendor_id, product_id);
        let prev = select::<M>(host.drop_last());
        let d = host.last();
        if M::listed(d.vendor_id, d.product_id) && !has_key(prev, key(d)) {
            let s = prev.push(d);
            assert forall|i: int| 0 <= i < s.len() implies key(#[trigger] s[i]) != (vendor_id, product_id) by {
                if i < prev.len() {
                    assert(s[i] == prev[i]);
                }
            }
        }
    }
}

/// Enumeration never yields two devices with the same pair, whatever
/// duplicates the host reports.
pub proof fn lemma_select_distinct<M: Mode>(host: Seq<DeviceInfo>)
    ensures
        distinct_keys(select::<M>(host)),
    decreases host.len(),
{
    if host.len() > 0 {
        lemma_select_distinct::<M>(host.drop_last());
        let prev = select::<M>(host.drop_last());
        let d = host.last();
        if M::listed(d.vendor_id, d.product_id) && !has_key(prev, key(d)) {
            let s = prev.push(d);
            assert forall|i: int, j: int| 0 <= i < j < s.len() implies key(#[trigger] s[i]) != key(#[trigger] s[j]) by {
                assert(s[i] == prev[i]);
                if j < prev.len() {
                    assert(s[j] == prev[j]);
                }
            }
        }
    }
}

/// Every entry that enumeration yields is in the catalog of its mode.
pub proof fn lemma_select_listed<M: Mode>(host: Seq<DeviceInfo>, i: int)
    requires
        0 <= i < select::<M>(host).len(),
    ensures
        M::listed(select::<M>(host)[i].vendor_id, select::<M>(host)[i].product_id),
{
    let s = select::<M>(host);
    if !M::listed(s[i].vendor_id, s[i].product_id) {
        lemma_select_only_listed::<M>(host, s[i].vendor_id, s[i].product_id);
    }
}

/// A catalogued pair that the host reports is kept by enumeration.
pub proof fn lemma_select_complete<M: Mode>(host: Seq<DeviceInfo>, i: int)
    requires
        0 <= i < host.len(),
        M::listed(host[i].vendor_id, host[i].product_id),
    ensures
        has_key(select::<M>(host), key(host[i])),
    decreases host.len(),
{
    let prev = select::<M>(host.drop_last());
    let s = select::<M>(host);
    if i < host.len() - 1 {
        lemma_select_complete::<M>(host.drop_last(), i);
        let j = choose|j: int| 0 <= j < prev.len() && key(#[trigger] prev[j]) == key(host[i]);
        assert(s[j] == prev[j]);
    } else if !has_key(prev, key(host.last())) {
        assert(s[s.len() - 1] == host.last());
    } else {
        let j = choose|j: int| 0 <= j < prev.len() && key(#[trigger] prev[j]) == key(host.last());
        assert(s[j] == prev[j]);
    }
}

fn contains_key(v: &Vec<DeviceInfo>, vendor_id: u16, product_id: u16) -> (r: bool)
    ensures
        r == has_key(v@, (vendor_id, product_id)),
{
    let mut i: usize = 0;
    while i < v.len()
        invariant
            i <= v@.len(),
            forall|j: int| 0 <= j < i ==> key(#[trigger] v@[j]) != (vendor_id, product_id),
        decreases v.len() - i,
    {
        if v[i].vendor_id == vendor_id && v[i].product_id == product_id {
            return true;
        }
        i = i + 1;
    }
    false
}

/// The position of the first colon of `b` at or after `i`, or `b.len()`.
pub open spec fn first_colon(b: Seq<u8>, i: int) -> int
    decreases b.len() - i,
{
    if i >= b.len() {
        b.len() as int
    } else if b[i] == 0x3a {
        i
    } else {
        first_colon(b, i + 1)
    }
}

/// A device identifier `vendor:product`: both halves, split at the first
/// colon, are 16-bit hex numbers.
pub open spec fn parse_identifier(b: Seq<u8>) -> Option<(u16, u16)> {
    let c = first_colon(b, 0);
    if c < b.len() {
        match (parse_hex_u16(b.subrange(0, c)), parse_hex_u16(b.subrange(c + 1, b.len() as int))) {
            (Some(v), Some(p)) => Some((v, p)),
            _ => None,
        }
    } else {
        None
    }
}

/// Reads a device identifier of the form `vendor:product`.
pub fn identifier_pair(identifier: &str) -> (r: Option<(u16, u16)>)
    ensures
        r == parse_identifier(identifier.spec_bytes()),
{
    let b = identifier.as_bytes();
    let mut c: usize = 0;
    while c < b.len() && b[c] != 0x3a
        invariant
            c <= b@.len(),
            first_colon(b@, 0) == first_colon(b@, c as int),
        decreases b.len() - c,
    {
        c = c + 1;
    }
    if c == b.len() {
        return None;
    }
    let vendor = parse_hex_u16_in(b, 0, c);
    let product = parse_hex_u16_in(b, c + 1, b.len());
    match (vendor, product) {
        (Some(v), Some(p)) => Some((v, p)),
        _ => None,
    }
}

/// The devices of one mode that are attached: catalogued pairs only, each
/// pair once, in the order the host reported them.
pub struct Devices<M: Mode> {
    devices: Vec<DeviceInfo>,
    marker: core::marker::PhantomData<M>,
}

impl<M: Mode> View for Devices<M> {
    type V = Seq<DeviceInfo>;

    closed spec fn view(&self) -> Seq<DeviceInfo> {
        self.devices@
    }
}

impl<M: Mode> Devices<M> {
    /// Every entry is catalogued for `M` and no pair occurs twice.
    pub open spec fn wf(&self) -> bool {
        &&& forall|i: int|
            0 <= i < self@.len() ==> M::listed(#[trigger] self@[i].vendor_id, self@[i].product_id)
        &&& distinct_keys(self@)
    }

    /// Keeps, from what the host reports, the catalogued devices of `M`,
    /// each (vendor, product) pair at its first occurrence. Fails with
    /// `NoDevicesFound` when nothing is left.
    pub fn from_host(host: Vec<DeviceInfo>) -> (r: Result<Self, ErrorKind>)
        ensures
            match r {
                Ok(d) => d@ == select::<M>(host@) && d@.len() > 0 && d.wf(),
                Err(e) => e == ErrorKind::NoDevicesFound && select::<M>(host@).len() == 0,
            },
    {
        let ghost orig = host@;
        let mut host = host;
        let mut out: Vec<DeviceInfo> = Vec::new();
        let ghost mut taken: int = 0;
        while host.len() > 0
            invariant
                0 <= taken <= orig.len(),
                host@ == orig.skip(taken),
                out@ == select::<M>(orig.take(taken)),
            decreases host.len(),
        {
            let d = host.remove(0);
            proof {
                assert(orig.take(taken + 1).drop_last() =~= orig.take(taken));
                assert(orig.take(taken + 1).last() == d);
                assert(host@ =~= orig.skip(taken + 1));
            }
            let listed = M::name_of(d.vendor_id, d.product_id).is_some();
            if listed && !contains_key(&out, d.vendor_id, d.product_id) {
                out.push(d);
            }
            proof {
                taken = taken + 1;
            }
        }
        proof {
            assert(orig.take(taken) =~= orig);
            lemma_select_distinct::<M>(orig);
            assert forall|i: int| 0 <= i < out@.len() implies M::listed(
                #[trigger] out@[i].vendor_id,
                out@[i].product_id,
            ) by {
                lemma_select_listed::<M>(orig, i);
            }
        }
        if out.len() == 0 {
            Err(ErrorKind::NoDevicesFound)
        } else {
            Ok(Devices { devices: out, marker: core::marker::PhantomData })
        }
    }

    /// The devices, in order.
    pub fn devices(&self) -> (r: &Vec<DeviceInfo>)
        ensures
            r@ == self@,
    {
        &self.devices
    }

    pub fn len(&self) -> (r: usize)
        ensures
            r == self@.len(),
    {
        self.devices.len()
    }

    pub fn is_empty(&self) -> (r: bool)
        ensures
            r == (self@.len() == 0),
    {
        self.devices.len() == 0
    }

    /// The first device with the given pair; `DeviceNotFound` if none has it.
    pub fn find(&self, vendor_id: u16, product_id: u16) -> (r: Result<&DeviceInfo, ErrorKind>)
        ensures
            match r {
                Ok(d) => exists|i: int|
                    first_with_key(self@, (vendor_id, product_id), i) && *d == self@[i],
                Err(e) => e == ErrorKind::DeviceNotFound && !has_key(
                    self@,
                    (vendor_id, product_id),
                ),
            },
    {
        let mut i: usize = 0;
        while i < self.devices.len()
            invariant
                i <= self@.len(),
                forall|j: int| 0 <= j < i ==> key(#[trigger] self@[j]) != (vendor_id, product_id),
            decreases self@.len() - i,
        {
            if self.devices[i].vendor_id == vendor_id && self.devices[i].product_id == product_id {
                assert(first_with_key(self@, (vendor_id, product_id), i as int));
                return Ok(&self.devices[i]);
            }
            i = i + 1;
        }
        Err(ErrorKind::DeviceNotFound)
    }

    /// Picks one device. With an identifier `vendor:product` (hex, optional
    /// `0x` on each half) the device with that pair; without one the only
    /// device, and `UnspecifiedDevice` when there are several.
    pub fn decide(&self, identifier: Option<&str>) -> (r: Result<&DeviceInfo, ErrorKind>)
        ensures
            self@.len() == 0 ==> r == Err::<&DeviceInfo, ErrorKind>(ErrorKind::NoDevicesFound),
            self@.len() > 0 ==> match identifier {
                None => if self@.len() == 1 {
                    r matches Ok(d) && *d == self@[0]
                } else {
                    r == Err::<&DeviceInfo, ErrorKind>(ErrorKind::UnspecifiedDevice)
                },
                Some(id) => match parse_identifier(id.spec_bytes()) {
                    None => r matches Err(ErrorKind::InvalidIdentifier(s)) && s@ == id@,
                    Some((v, p)) => match r {
                        Ok(d) => exists|i: int| first_with_key(self@, (v, p), i) && *d == self@[i],
                        Err(e) => e == ErrorKind::DeviceNotFound && !has_key(self@, (v, p)),
                    },
                },
            },
    {
        if self.devices.len() == 0 {
            return Err(ErrorKind::NoDevicesFound);
        }
        match identifier {
            Some(id) => match identifier_pair(id) {
                Some((vendor_id, product_id)) => self.find(vendor_id, product_id),
                None => Err(ErrorKind::InvalidIdentifier(id.to_owned())),
            },
            None => {
                if self.devices.len() == 1 {
                    Ok(&self.devices[0])
                } else {
                    Err(ErrorKind::UnspecifiedDevice)
                }
            },
        }
    }
}

proof fn lemma_first_colon_at(s: Seq<u8>, c: int, i: int)
    requires
        0 <= i <= c < s.len(),
        s[c] == 0x3a,
        forall|j: int| 0 <= j < c ==> s[j] != 0x3a,
    ensures
        first_colon(s, i) == c,
    decreases c - i,
{
    if i < c {
        lemma_first_colon_at(s, c, i + 1);
    }
}

proof fn lemma_first_colon_same(s: Seq<u8>, t: Seq<u8>, i: int)
    requires
        0 <= i <= s.len(),
        s.len() == t.len(),
        forall|j: int| 0 <= j < s.len() ==> (s[j] == 0x3a <==> #[trigger] t[j] == 0x3a),
    ensures
        first_colon(s, i) == first_colon(t, i),
    decreases s.len() - i,
{
    if i < s.len() {
        lemma_first_colon_same(s, t, i + 1);
    }
}

/// An identifier `a:b` whose first half holds no colon is read as its two
/// halves, each a 16-bit hex number.
pub proof fn lemma_identifier_halves(a: Seq<u8>, b: Seq<u8>)
    requires
        forall|i: int| 0 <= i < a.len() ==> a[i] != 0x3a,
    ensures
        parse_identifier(a + seq![0x3au8] + b) == match (parse_hex_u16(a), parse_hex_u16(b)) {
            (Some(v), Some(p)) => Some((v, p)),
            _ => None::<(u16, u16)>,
        },
{
    let s = a + seq![0x3au8] + b;
    let c = a.len() as int;
    assert forall|j: int| 0 <= j < c implies s[j] != 0x3a by {
        assert(s[j] == a[j]);
    }
    lemma_first_colon_at(s, c, 0);
    assert(s.subrange(0, c) =~= a);
    assert(s.subrange(c + 1, s.len() as int) =~= b);
}

/// Writing hex letters of an identifier in upper case does not change which
/// pair it names, nor whether it names one.
pub proof fn lemma_identifier_case_insensitive(s: Seq<u8>, t: Seq<u8>)
    requires
        upper_cased(s, t),
    ensures
        parse_identifier(s) == parse_identifier(t),
{
    assert forall|j: int| 0 <= j < s.len() implies (s[j] == 0x3a <==> #[trigger] t[j] == 0x3a) by {
        assert(t[j] == s[j] || (0x61 <= s[j] <= 0x66 && t[j] == s[j] - 0x20));
    }
    lemma_first_colon_same(s, t, 0);
    let c = first_colon(s, 0);
    if c < s.len() {
        assert(0 <= c) by {
            lemma_first_colon_range(s, 0);
        }
        let (s1, t1) = (s.subrange(0, c), t.subrange(0, c));
        let (s2, t2) = (s.subrange(c + 1, s.len() as int), t.subrange(c + 1, t.len() as int));
        assert(upper_cased(s1, t1)) by {
            assert forall|i: int| 0 <= i < s1.len() implies (#[trigger] t1[i] == s1[i] || (0x61
                <= s1[i] <= 0x66 && t1[i] == s1[i] - 0x20)) by {
                assert(t[i] == s[i] || (0x61 <= s[i] <= 0x66 && t[i] == s[i] - 0x20));
            }
        }
        assert(upper_cased(s2, t2)) by {
            assert forall|i: int| 0 <= i < s2.len() implies (#[trigger] t2[i] == s2[i] || (0x61
                <= s2[i] <= 0x66 && t2[i] == s2[i] - 0x20)) by {
                assert(t[i + c + 1] == s[i + c + 1] || (0x61 <= s[i + c + 1] <= 0x66 && t[i + c
                    + 1] == s[i + c + 1] - 0x20));
            }
        }
        lemma_hex_case_insensitive(s1, t1);
        lemma_hex_case_insensitive(s2, t2);
    }
}

proof fn lemma_first_colon_range(s: Seq<u8>, i: int)
    requires
        0 <= i,
    ensures
        i <= first_colon(s, i) || first_colon(s, i) == s.len(),
        0 <= first_colon(s, i),
    decreases s.len() - i,
{
    if i < s.len() && s[i] != 0x3a {
        lemma_first_colon_range(s, i + 1);
    }
}

/// A `0x` before either half of an identifier, or both, does not change
/// which pair it names, nor whether it names one.
pub proof fn lemma_identifier_prefix_ignored(a: Seq<u8>, b: Seq<u8>)
    requires
        forall|i: int| 0 <= i < a.len() ==> a[i] != 0x3a,
        !(a.len() >= 2 && a[0] == 0x30 && a[1] == 0x78),
        !(b.len() >= 2 && b[0] == 0x30 && b[1] == 0x78),
    ensures
        parse_identifier(seq![0x30u8, 0x78u8] + a + seq![0x3au8] + b) == parse_identifier(
            a + seq![0x3au8] + b,
        ),
        parse_identifier(a + seq![0x3au8] + (seq![0x30u8, 0x78u8] + b)) == parse_identifier(
            a + seq![0x3au8] + b,
        ),
        parse_identifier(seq![0x30u8, 0x78u8] + a + seq![0x3au8] + (seq![0x30u8, 0x78u8] + b))
            == parse_identifier(a + seq![0x3au8] + b),
{
    let pa = seq![0x30u8, 0x78u8] + a;
    let pb = seq![0x30u8, 0x78u8] + b;
    assert forall|i: int| 0 <= i < pa.len() implies pa[i] != 0x3a by {
        if i >= 2 {
            assert(pa[i] == a[i - 2]);
        }
    }
    lemma_identifier_halves(a, b);
    lemma_identifier_halves(pa, b);
    lemma_identifier_halves(a, pb);
    lemma_identifier_halves(pa, pb);
    lemma_hex_prefix_ignored(a);
    lemma_hex_prefix_ignored(b);
}

} // verus!
