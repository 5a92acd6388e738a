//! Processor inventory.

use vstd::prelude::*;

use super::warning::HdrtWarning;
use super::unknown;

verus! {

/// What is known of the processor.
#[derive(Debug)]
pub struct CpuInfo {
    pub model: String,
    pub vendor: String,
    pub physical_cores: Option<usize>,
    pub logical_threads: Option<usize>,
    pub frequency: String,
    pub source: String,
    pub warnings: Vec<HdrtWarning>,
}

impl CpuInfo {
    /// Every text field unknown, no counts and no warnings.
    pub open spec fn is_blank(self) -> bool {
        &&& self.model@ == super::unknown_text()
        &&& self.vendor@ == super::unknown_text()
        &&& self.physical_cores is None
        &&& self.logical_threads is None
        &&& self.frequency@ == super::unknown_text()
        &&& self.source@ == super::unknown_text()
        &&& self.warnings@.len() == 0
    }
}

impl Default for CpuInfo {
    fn default() -> (r: Self)
        ensures
            r.is_blank(),
    {
        CpuInfo {
            model: unknown(),
            vendor: unknown(),
            physical_cores: None,
            logical_threads: None,
            frequency: unknown(),
            source: unknown(),
            warnings: Vec::new(),
        }
    }
}

} // verus!
