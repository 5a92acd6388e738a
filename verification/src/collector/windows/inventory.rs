//! Memory modules, processor and board from the native WMI rows, and the
//! native report they make up.

use vstd::prelude::*;

use crate::hardware::debug::opt_view;
use crate::hardware::warning::warning_is;
use crate::hardware::{
    unknown, unknown_text, CpuInfo, DebugRecord, DiskInfo, HardwareReport, HdrtWarning, MemoryDevice, MotherboardInfo,
};
use crate::size::bytes_text;
use crate::text::{decimal, decimal_string, views};

use super::rows::{Win32BaseBoard, Win32Bios, Win32PhysicalMemory, Win32Processor};
use super::util::{first_known, first_known_text, format_bytes, known, known_text};

verus! {

/// `n` followed by a unit, or the placeholder.
pub open spec fn with_unit(n: Option<u32>, unit: Seq<char>) -> Seq<char> {
    match n {
        Some(v) => decimal(v as nat) + unit,
        None => unknown_text(),
    }
}

/// Writes `n` followed by a unit, or the placeholder.
pub fn unit_string(n: Option<u32>, unit: &str) -> (r: String)
    ensures
        r@ == with_unit(n, unit@),
{
    match n {
        Some(v) => {
            let mut r = decimal_string(v as u128);
            r.append(unit);
            r
        },
        None => unknown(),
    }
}

/// The memory module a `Win32_PhysicalMemory` row describes: the configured
/// clock speed, or the rated speed when that is missing.
pub open spec fn memory_module(m: Win32PhysicalMemory, r: MemoryDevice) -> bool {
    let speed = match m.configured_clock_speed {
        Some(v) => Some(v),
        None => m.speed,
    };
    &&& r.slot@ == first_known_text(seq![known_text(opt_view(m.device_locator)), known_text(opt_view(m.bank_label))])
    &&& r.size@ == (match m.capacity { Some(n) => bytes_text(n as nat), None => unknown_text() })
    &&& r.speed@ == with_unit(speed, " MT/s"@)
    &&& r.manufacturer@ == known_text(opt_view(m.manufacturer))
    &&& r.part_number@ == known_text(opt_view(m.part_number))
    &&& r.serial@ == known_text(opt_view(m.serial_number))
    &&& r.source@ == "native-wmi/Win32_PhysicalMemory"@
    &&& r.warnings@.len() == 0
}

/// The memory module a `Win32_PhysicalMemory` row describes.
pub fn memory_from_row(m: &Win32PhysicalMemory) -> (r: MemoryDevice)
    ensures
        memory_module(*m, r),
{
    let slots = vec![known(&m.device_locator), known(&m.bank_label)];
    assert(views(slots@) =~= seq![known_text(opt_view(m.device_locator)), known_text(opt_view(m.bank_label))]);
    let speed = match m.configured_clock_speed {
        Some(v) => Some(v),
        None => m.speed,
    };
    MemoryDevice {
        slot: first_known(&slots),
        size: match m.capacity {
            Some(n) => format_bytes(n),
            None => unknown(),
        },
        speed: unit_string(speed, " MT/s"),
        manufacturer: known(&m.manufacturer),
        part_number: known(&m.part_number),
        serial: known(&m.serial_number),
        source: String::from_str("native-wmi/Win32_PhysicalMemory"),
        warnings: Vec::new(),
    }
}

/// Appends the warning `code` with the query's error as its message.
fn push_query_warning(warnings: &mut Vec<HdrtWarning>, code: &str, err: &str, hint: &str)
    ensures
        final(warnings)@.len() == old(warnings)@.len() + 1,
        final(warnings)@.drop_last() == old(warnings)@,
        warning_is(final(warnings)@.last(), code@, err@, hint@),
{
    let ghost w0 = warnings@;
    warnings.push(HdrtWarning::with_hint(code, err, hint));
    assert(warnings@.drop_last() =~= w0);
}

/// The modules of the memory query, or none with a warning when it failed.
pub fn memory_from_query(result: &Result<Vec<Win32PhysicalMemory>, String>, warnings: &mut Vec<HdrtWarning>) -> (r: Vec<MemoryDevice>)
    ensures
        match result {
            Ok(rows) => final(warnings)@ == old(warnings)@ && r@.len() == rows@.len() && forall|i: int|
                0 <= i < rows@.len() ==> memory_module(rows@[i], #[trigger] r@[i]),
            Err(err) => r@.len() == 0 && final(warnings)@.len() == old(warnings)@.len() + 1
                && final(warnings)@.drop_last() == old(warnings)@ && warning_is(
                final(warnings)@.last(),
                "windows-native-wmi-memory-unavailable"@,
                err@,
                "Memory module inventory is unavailable from native WMI."@,
            ),
        },
{
    match result {
        Ok(rows) => {
            let mut r: Vec<MemoryDevice> = Vec::new();
            let mut i: usize = 0;
            while i < rows.len()
                invariant
                    i <= rows.len(),
                    r@.len() == i,
                    forall|k: int| 0 <= k < i ==> memory_module(rows@[k], #[trigger] r@[k]),
                decreases rows.len() - i,
            {
                r.push(memory_from_row(&rows[i]));
                i += 1;
            }
            r
        },
        Err(err) => {
            push_query_warning(
                warnings,
                "windows-native-wmi-memory-unavailable",
                err.as_str(),
                "Memory module inventory is unavailable from native WMI.",
            );
            Vec::new()
        },
    }
}

/// A count widened to `usize`.
pub open spec fn as_count(n: Option<u32>) -> Option<usize> {
    match n {
        Some(v) => Some(v as usize),
        None => None,
    }
}

/// The processor a `Win32_Processor` row describes.
pub open spec fn processor(p: Win32Processor, r: CpuInfo) -> bool {
    &&& r.model@ == known_text(opt_view(p.name))
    &&& r.vendor@ == known_text(opt_view(p.manufacturer))
    &&& r.physical_cores == as_count(p.number_of_cores)
    &&& r.logical_threads == as_count(p.number_of_logical_processors)
    &&& r.frequency@ == with_unit(p.max_clock_speed, " MHz"@)
    &&& r.source@ == "native-wmi/Win32_Processor"@
    &&& r.warnings@.len() == 0
}

/// The processor a `Win32_Processor` row describes.
pub fn cpu_from_row(p: &Win32Processor) -> (r: CpuInfo)
    ensures
        processor(*p, r),
{
    CpuInfo {
        model: known(&p.name),
        vendor: known(&p.manufacturer),
        physical_cores: match p.number_of_cores {
            Some(v) => Some(v as usize),
            None => None,
        },
        logical_threads: match p.number_of_logical_processors {
            Some(v) => Some(v as usize),
            None => None,
        },
        frequency: unit_string(p.max_clock_speed, " MHz"),
        source: String::from_str("native-wmi/Win32_Processor"),
        warnings: Vec::new(),
    }
}

/// The processor of the first row of the processor query; none, with a
/// warning, when the query failed.
pub fn cpu_from_query(result: &Result<Vec<Win32Processor>, String>, warnings: &mut Vec<HdrtWarning>) -> (r: Option<CpuInfo>)
    ensures
        match result {
            Ok(rows) => final(warnings)@ == old(warnings)@ && (if rows@.len() == 0 {
                r is None
            } else {
                r is Some && processor(rows@[0], r->0)
            }),
            Err(err) => r is None && final(warnings)@.len() == old(warnings)@.len() + 1
                && final(warnings)@.drop_last() == old(warnings)@ && warning_is(
                final(warnings)@.last(),
                "windows-native-wmi-cpu-unavailable"@,
                err@,
                "CPU inventory is unavailable from native WMI."@,
            ),
        },
{
    match result {
        Ok(rows) => {
            if rows.len() == 0 {
                None
            } else {
                Some(cpu_from_row(&rows[0]))
            }
        },
        Err(err) => {
            push_query_warning(warnings, "windows-native-wmi-cpu-unavailable", err.as_str(), "CPU inventory is unavailable from native WMI.");
            None
        },
    }
}

/// A field of an optional board row (manufacturer, product, version, serial
/// number by `field`), or the placeholder.
pub open spec fn board_field(b: Option<Win32BaseBoard>, field: int) -> Seq<char> {
    match b {
        Some(row) => known_text(opt_view(
            if field == 0 { row.manufacturer } else if field == 1 { row.product } else if field == 2 { row.version } else { row.serial_number },
        )),
        None => unknown_text(),
    }
}

/// The board that a `Win32_BaseBoard` row and a `Win32_BIOS` row describe;
/// none when there is neither.
pub open spec fn board_of(b: Option<Win32BaseBoard>, bios: Option<Win32Bios>, r: Option<MotherboardInfo>) -> bool {
    if b is None && bios is None {
        r is None
    } else {
        &&& r is Some
        &&& r->0.manufacturer@ == board_field(b, 0)
        &&& r->0.product@ == board_field(b, 1)
        &&& r->0.version@ == board_field(b, 2)
        &&& r->0.serial@ == board_field(b, 3)
        &&& r->0.bios_vendor@ == (match bios { Some(x) => known_text(opt_view(x.manufacturer)), None => unknown_text() })
        &&& r->0.bios_version@ == (match bios {
            Some(x) => first_known_text(seq![known_text(opt_view(x.smbios_bios_version)), known_text(opt_view(x.version))]),
            None => unknown_text(),
        })
        &&& r->0.source@ == "native-wmi/Win32_BaseBoard+Win32_BIOS"@
        &&& r->0.warnings@.len() == 0
    }
}

/// A field of an optional board row.
fn board_text(b: Option<&Win32BaseBoard>, field: u8) -> (r: String)
    requires
        field < 4,
    ensures
        r@ == board_field(match b { Some(x) => Some(*x), None => None }, field as int),
{
    match b {
        Some(row) => known(if field == 0 { &row.manufacturer } else if field == 1 { &row.product } else if field == 2 { &row.version } else { &row.serial_number }),
        None => unknown(),
    }
}

/// The first row of a query, if it succeeded and returned one.
pub open spec fn first_row<T>(result: Result<Vec<T>, String>) -> Option<T> {
    match result {
        Ok(rows) => if rows@.len() > 0 { Some(rows@[0]) } else { None },
        Err(_) => None,
    }
}

/// The warnings a failed board or BIOS query adds, in that order.
pub open spec fn board_warnings<T, U>(board: Result<Vec<T>, String>, bios: Result<Vec<U>, String>, added: Seq<HdrtWarning>) -> bool {
    let nb: int = if board is Err { 1 } else { 0 };
    let nbios: int = if bios is Err { 1 } else { 0 };
    &&& added.len() == nb + nbios
    &&& (board matches Err(e) ==> warning_is(
        added[0],
        "windows-native-wmi-baseboard-unavailable"@,
        e@,
        "Baseboard inventory is unavailable from native WMI."@,
    ))
    &&& (bios matches Err(e) ==> warning_is(
        added[nb],
        "windows-native-wmi-bios-unavailable"@,
        e@,
        "BIOS inventory is unavailable from native WMI."@,
    ))
}

/// The board of the first rows of the board and BIOS queries, with a
/// warning for each query that failed.
pub fn motherboard_from_queries(
    board: &Result<Vec<Win32BaseBoard>, String>,
    bios: &Result<Vec<Win32Bios>, String>,
    warnings: &mut Vec<HdrtWarning>,
) -> (r: Option<MotherboardInfo>)
    ensures
        board_of(first_row(*board), first_row(*bios), r),
        final(warnings)@.len() >= old(warnings)@.len(),
        final(warnings)@.take(old(warnings)@.len() as int) == old(warnings)@,
        board_warnings(*board, *bios, final(warnings)@.skip(old(warnings)@.len() as int)),
{
    let ghost w0 = warnings@;
    let b: Option<&Win32BaseBoard> = match board {
        Ok(rows) => if rows.len() > 0 { Some(&rows[0]) } else { None },
        Err(err) => {
            push_query_warning(warnings, "windows-native-wmi-baseboard-unavailable", err.as_str(), "Baseboard inventory is unavailable from native WMI.");
            None
        },
    };
    let ghost w1 = warnings@;
    let x: Option<&Win32Bios> = match bios {
        Ok(rows) => if rows.len() > 0 { Some(&rows[0]) } else { None },
        Err(err) => {
            push_query_warning(warnings, "windows-native-wmi-bios-unavailable", err.as_str(), "BIOS inventory is unavailable from native WMI.");
            None
        },
    };
    assert(warnings@.take(w0.len() as int) =~= w0);
    assert(warnings@.skip(w0.len() as int) =~= w1.skip(w0.len() as int) + warnings@.skip(w1.len() as int));
    if b.is_none() && x.is_none() {
        return None;
    }
    let (bios_vendor, bios_version) = match x {
        Some(row) => {
            let versions = vec![known(&row.smbios_bios_version), known(&row.version)];
            assert(views(versions@) =~= seq![known_text(opt_view(row.smbios_bios_version)), known_text(opt_view(row.version))]);
            (known(&row.manufacturer), first_known(&versions))
        },
        None => (unknown(), unknown()),
    };
    Some(MotherboardInfo {
        manufacturer: board_text(b, 0),
        product: board_text(b, 1),
        version: board_text(b, 2),
        serial: board_text(b, 3),
        bios_vendor,
        bios_version,
        source: String::from_str("native-wmi/Win32_BaseBoard+Win32_BIOS"),
        warnings: Vec::new(),
    })
}

/// The native report, or an error when it holds no hardware at all.
pub fn native_report(
    physical_disks: Vec<DiskInfo>,
    memory: Vec<MemoryDevice>,
    cpu: Option<CpuInfo>,
    motherboard: Option<MotherboardInfo>,
    warnings: Vec<HdrtWarning>,
    debug: Vec<DebugRecord>,
) -> (r: Result<HardwareReport, String>)
    ensures
        (physical_disks@.len() == 0 && memory@.len() == 0 && cpu is None && motherboard is None) <==> (r is Err),
        r is Err ==> r->Err_0@ == "native WMI returned no hardware data"@,
        r is Ok ==> ({
            let rep = r->Ok_0;
            &&& rep.physical_disks == physical_disks
            &&& rep.logical_disks@.len() == 0
            &&& rep.memory == memory
            &&& rep.cpu == cpu
            &&& rep.motherboard == motherboard
            &&& rep.warnings == warnings
            &&& rep.debug == debug
        }),
{
    if physical_disks.len() == 0 && memory.len() == 0 && cpu.is_none() && motherboard.is_none() {
        return Err(String::from_str("native WMI returned no hardware data"));
    }
    Ok(HardwareReport { physical_disks, logical_disks: Vec::new(), memory, cpu, motherboard, warnings, debug })
}

} // verus!
