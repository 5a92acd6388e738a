//! The hardware inventory model that collectors fill and renderers read.

use vstd::prelude::*;

pub mod capability;
pub mod cpu;
pub mod debug;
pub mod disk;
pub mod memory;
pub mod motherboard;
pub mod report;
pub mod warning;

pub use capability::{CapabilityReport, ToolStatus};
pub use cpu::CpuInfo;
pub use debug::DebugRecord;
pub use disk::{DiskInfo, LogicalDiskInfo};
pub use memory::MemoryDevice;
pub use motherboard::MotherboardInfo;
pub use report::{HardwareReport, Section};
pub use warning::HdrtWarning;

verus! {

/// The placeholder stored in a field whose value could not be collected.
pub const UNKNOWN: &'static str = "Unknown";

/// The characters of the placeholder.
pub open spec fn unknown_text() -> Seq<char> {
    "Unknown"@
}

/// A fresh copy of the placeholder.
pub fn unknown() -> (r: String)
    ensures
        r@ == unknown_text(),
{
    String::from_str("Unknown")
}

/// Whether `value` is exactly the placeholder.
pub fn is_unknown(value: &str) -> (r: bool)
    ensures
        r == (value@ == unknown_text()),
{
    crate::text::eq(value, "Unknown")
}

/// Copies of every string in `v`.
pub fn copy_strings(v: &Vec<String>) -> (r: Vec<String>)
    ensures
        r@ == v@,
{
    let mut r: Vec<String> = Vec::new();
    let mut i: usize = 0;
    while i < v.len()
        invariant
            i <= v.len(),
            r@ == v@.subrange(0, i as int),
        decreases v.len() - i,
    {
        r.push(v[i].clone());
        assert(v@.subrange(0, i + 1) =~= v@.subrange(0, i as int).push(v@[i as int]));
        i += 1;
    }
    assert(v@.subrange(0, v.len() as int) =~= v@);
    r
}

/// A copy of an optional string.
pub fn copy_opt_string(v: &Option<String>) -> (r: Option<String>)
    ensures
        r == *v,
{
    match v {
        Some(s) => Some(s.clone()),
        None => None,
    }
}

} // verus!
