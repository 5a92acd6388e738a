//! Motherboard and BIOS inventory.

use vstd::prelude::*;

use super::warning::HdrtWarning;
use super::unknown;

verus! {

/// What is known of the motherboard and its firmware.
#[derive(Debug)]
pub struct MotherboardInfo {
    pub manufacturer: String,
    pub product: String,
    pub version: String,
    pub serial: String,
    pub bios_vendor: String,
    pub bios_version: String,
    pub source: String,
    pub warnings: Vec<HdrtWarning>,
}

impl MotherboardInfo {
    /// Every text field unknown and no warnings.
    pub open spec fn is_blank(self) -> bool {
        &&& self.manufacturer@ == super::unknown_text()
        &&& self.product@ == super::unknown_text()
        &&& self.version@ == super::unknown_text()
        &&& self.serial@ == super::unknown_text()
        &&& self.bios_vendor@ == super::unknown_text()
        &&& self.bios_version@ == super::unknown_text()
        &&& self.source@ == super::unknown_text()
        &&& self.warnings@.len() == 0
    }
}

impl Default for MotherboardInfo {
    fn default() -> (r: Self)
        ensures
            r.is_blank(),
    {
        MotherboardInfo {
            manufacturer: unknown(),
            product: unknown(),
            version: unknown(),
            serial: unknown(),
            bios_vendor: unknown(),
            bios_version: unknown(),
            source: unknown(),
            warnings: Vec::new(),
        }
    }
}

} // verus!
