//! Memory module inventory.

use vstd::prelude::*;

use super::warning::HdrtWarning;
use super::unknown;

verus! {

/// What is known of one memory module (or of the whole system memory).
#[derive(Debug)]
pub struct MemoryDevice {
    pub slot: String,
    pub size: String,
    pub speed: String,
    pub manufacturer: String,
    pub part_number: String,
    pub serial: String,
    pub source: String,
    pub warnings: Vec<HdrtWarning>,
}

impl MemoryDevice {
    /// Every text field unknown and no warnings.
    pub open spec fn is_blank(self) -> bool {
        &&& self.slot@ == super::unknown_text()
        &&& self.size@ == super::unknown_text()
        &&& self.speed@ == super::unknown_text()
        &&& self.manufacturer@ == super::unknown_text()
        &&& self.part_number@ == super::unknown_text()
        &&& self.serial@ == super::unknown_text()
        &&& self.source@ == super::unknown_text()
        &&& self.warnings@.len() == 0
    }
}

impl Default for MemoryDevice {
    fn default() -> (r: Self)
        ensures
            r.is_blank(),
    {
        MemoryDevice {
            slot: unknown(),
            size: unknown(),
            speed: unknown(),
            manufacturer: unknown(),
            part_number: unknown(),
            serial: unknown(),
            source: unknown(),
            warnings: Vec::new(),
        }
    }
}

} // verus!
