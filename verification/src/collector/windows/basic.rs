//! The basic backend: what the portable system library reports, completed
//! from the registry.

use vstd::prelude::*;

use crate::hardware::{unknown, unknown_text, CpuInfo, MemoryDevice, MotherboardInfo};
use crate::size::bytes_text;
use crate::text::{decimal, decimal_string, views};

use super::util::{first_known, first_known_text, format_bytes};

verus! {

/// The one memory entry the basic backend can give: the whole system memory.
pub fn collect_memory(total_memory: u64) -> (r: Vec<MemoryDevice>)
    ensures
        r@.len() == 1,
        r@[0].slot@ == "System"@,
        r@[0].size@ == bytes_text(total_memory as nat),
        r@[0].speed@ == unknown_text(),
        r@[0].manufacturer@ == unknown_text(),
        r@[0].part_number@ == unknown_text(),
        r@[0].serial@ == unknown_text(),
        r@[0].source@ == "sysinfo"@,
        r@[0].warnings@.len() == 0,
{
    vec![MemoryDevice {
        slot: String::from_str("System"),
        size: format_bytes(total_memory),
        speed: unknown(),
        manufacturer: unknown(),
        part_number: unknown(),
        serial: unknown(),
        source: String::from_str("sysinfo"),
        warnings: Vec::new(),
    }]
}

/// What the system library says of the first processor.
pub struct FirstCpu {
    pub brand: String,
    pub vendor_id: String,
    pub frequency_mhz: u64,
}

/// A registry processor's text field, or the placeholder.
pub open spec fn registry_field(c: Option<CpuInfo>, field: int) -> Seq<char> {
    match c {
        Some(x) => (if field == 0 { x.model } else if field == 1 { x.vendor } else { x.frequency })@,
        None => unknown_text(),
    }
}

/// The processor of the basic backend: the system library's first
/// processor completed from the registry's, or the registry's alone when
/// the library lists no processor.
pub open spec fn basic_cpu(
    first: Option<FirstCpu>,
    physical_cores: Option<usize>,
    cpu_count: usize,
    registry: Option<CpuInfo>,
    r: Option<CpuInfo>,
) -> bool {
    match first {
        None => r == registry,
        Some(c) => {
            &&& r is Some
            &&& r->0.model@ == first_known_text(seq![c.brand@, registry_field(registry, 0)])
            &&& r->0.vendor@ == first_known_text(seq![c.vendor_id@, registry_field(registry, 1)])
            &&& r->0.physical_cores == physical_cores
            &&& r->0.logical_threads == Some(cpu_count)
            &&& r->0.frequency@ == (if c.frequency_mhz > 0 {
                decimal(c.frequency_mhz as nat) + " MHz"@
            } else {
                registry_field(registry, 2)
            })
            &&& r->0.source@ == "sysinfo + registry"@
            &&& r->0.warnings@.len() == 0
        },
    }
}

/// A registry processor's text field, or the placeholder.
fn registry_text_field(c: &Option<CpuInfo>, field: u8) -> (r: String)
    requires
        field < 3,
    ensures
        r@ == registry_field(*c, field as int),
{
    match c {
        Some(x) => {
            let s: &String = if field == 0 { &x.model } else if field == 1 { &x.vendor } else { &x.frequency };
            String::from_str(s.as_str())
        },
        None => unknown(),
    }
}

/// The processor of the basic backend.
pub fn collect_cpu(first: Option<FirstCpu>, physical_cores: Option<usize>, cpu_count: usize, registry: Option<CpuInfo>) -> (r: Option<CpuInfo>)
    ensures
        basic_cpu(first, physical_cores, cpu_count, registry, r),
{
    match first {
        None => registry,
        Some(c) => {
            let models = vec![String::from_str(c.brand.as_str()), registry_text_field(&registry, 0)];
            let vendors = vec![String::from_str(c.vendor_id.as_str()), registry_text_field(&registry, 1)];
            assert(views(models@) =~= seq![c.brand@, registry_field(registry, 0)]);
            assert(views(vendors@) =~= seq![c.vendor_id@, registry_field(registry, 1)]);
            let frequency = if c.frequency_mhz > 0 {
                let mut f = decimal_string(c.frequency_mhz as u128);
                f.append(" MHz");
                f
            } else {
                registry_text_field(&registry, 2)
            };
            Some(CpuInfo {
                model: first_known(&models),
                vendor: first_known(&vendors),
                physical_cores,
                logical_threads: Some(cpu_count),
                frequency,
                source: String::from_str("sysinfo + registry"),
                warnings: Vec::new(),
            })
        },
    }
}

/// The board of the basic backend: the registry's, or an entry that knows
/// nothing but its source.
pub fn collect_motherboard(registry: Option<MotherboardInfo>) -> (r: Option<MotherboardInfo>)
    ensures
        registry is Some ==> r == registry,
        registry is None ==> r is Some && ({
            let b = r->0;
            &&& b.manufacturer@ == unknown_text()
            &&& b.product@ == unknown_text()
            &&& b.version@ == unknown_text()
            &&& b.serial@ == unknown_text()
            &&& b.bios_vendor@ == unknown_text()
            &&& b.bios_version@ == unknown_text()
            &&& b.source@ == "sysinfo"@
            &&& b.warnings@.len() == 0
        }),
{
    match registry {
        Some(b) => Some(b),
        None => Some(MotherboardInfo {
            manufacturer: unknown(),
            product: unknown(),
            version: unknown(),
            serial: unknown(),
            bios_vendor: unknown(),
            bios_version: unknown(),
            source: String::from_str("sysinfo"),
            warnings: Vec::new(),
        }),
    }
}

} // verus!
