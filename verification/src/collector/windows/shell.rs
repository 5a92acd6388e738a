//! The shell backend: reading and mapping what the PowerShell/CIM script
//! printed as JSON. The program runs the script and hands over its output;
//! each object the collector reads becomes a row of fields.

use serde_json::Value as V;

use self::JsonEntry::{Array, Missing, Null, Single};
use self::JsonScalar::{Bool, Number, Other, Text};
use vstd::prelude::*;

use crate::hardware::warning::warning_is;
use crate::hardware::{unknown, unknown_text, CpuInfo, DiskInfo, HardwareReport, HdrtWarning, MemoryDevice, MotherboardInfo};
use crate::size::bytes_text;
use crate::text::{chars_of, decimal, decimal_string, parse_unsigned, parse_unsigned_of, trim, trimmed, views};

use super::util::{first_known, first_known_text, format_bytes, known_or_unknown, or_unknown};

verus! {

/// A JSON value as the collector reads a field: text, a number (its
/// printed form, and its value when it is an unsigned integer), a boolean,
/// or anything else (null, missing, array or object).
pub enum JsonScalar {
    Text(String),
    Number(String, Option<u64>),
    Bool(bool),
    Other,
}

/// The fields of one JSON object, in order; a value that is not an object
/// has none.
pub struct JsonRow {
    pub fields: Vec<(String, JsonScalar)>,
}

/// The value of the first field named `key`.
pub open spec fn field_value(fields: Seq<(String, JsonScalar)>, key: Seq<char>) -> Option<JsonScalar>
    decreases fields.len(),
{
    if fields.len() == 0 {
        None
    } else if fields[0].0@ == key {
        Some(fields[0].1)
    } else {
        field_value(fields.drop_first(), key)
    }
}

/// The value of the field `key`.
fn lookup<'a>(row: &'a JsonRow, key: &str) -> (r: Option<&'a JsonScalar>)
    ensures
        match r {
            Some(v) => field_value(row.fields@, key@) == Some(*v),
            None => field_value(row.fields@, key@) is None,
        },
{
    let fs = &row.fields;
    assert(fs@.skip(0) =~= fs@);
    let mut i: usize = 0;
    while i < fs.len()
        invariant
            i <= fs.len(),
            fs@ == row.fields@,
            field_value(fs@, key@) == field_value(fs@.skip(i as int), key@),
        decreases fs.len() - i,
    {
        assert(fs@.skip(i as int)[0] == fs@[i as int]);
        if crate::text::eq(fs[i].0.as_str(), key) {
            assert(fs@.skip(i as int)[0].0@ == key@);
            assert(field_value(fs@.skip(i as int), key@) == Some(fs@[i as int].1));
            return Some(&fs[i].1);
        }
        assert(fs@.skip(i as int).drop_first() =~= fs@.skip(i + 1));
        i += 1;
    }
    None
}

/// A field as text: trimmed text (the placeholder when blank), a number as
/// printed, a boolean as `true`/`false`, and otherwise the placeholder.
pub open spec fn field_text(row: JsonRow, key: Seq<char>) -> Seq<char> {
    match field_value(row.fields@, key) {
        Some(JsonScalar::Text(t)) => or_unknown(trim(t@)),
        Some(JsonScalar::Number(text, _)) => text@,
        Some(JsonScalar::Bool(b)) => if b { "true"@ } else { "false"@ },
        _ => unknown_text(),
    }
}

/// A field as text.
pub fn value_string(row: &JsonRow, key: &str) -> (r: String)
    ensures
        r@ == field_text(*row, key@),
{
    match lookup(row, key) {
        Some(JsonScalar::Text(t)) => {
            let s = trimmed(t.as_str());
            known_or_unknown(s.as_str())
        },
        Some(JsonScalar::Number(text, _)) => String::from_str(text.as_str()),
        Some(JsonScalar::Bool(b)) => String::from_str(if *b { "true" } else { "false" }),
        _ => unknown(),
    }
}

/// A field as an unsigned integer: a number's unsigned value, or the
/// integer its trimmed text writes.
pub open spec fn field_u64(row: JsonRow, key: Seq<char>) -> Option<u64> {
    match field_value(row.fields@, key) {
        Some(JsonScalar::Number(_, unsigned)) => unsigned,
        Some(JsonScalar::Text(t)) => match parse_unsigned(trim(t@), u64::MAX as nat) {
            Some(n) => Some(n as u64),
            None => None,
        },
        _ => None,
    }
}

/// A field as an unsigned integer.
pub fn value_u64(row: &JsonRow, key: &str) -> (r: Option<u64>)
    ensures
        r == field_u64(*row, key@),
{
    match lookup(row, key) {
        Some(JsonScalar::Number(_, unsigned)) => *unsigned,
        Some(JsonScalar::Text(t)) => {
            let s = trimmed(t.as_str());
            parse_unsigned_of(&chars_of(s.as_str()), 0xffff_ffff_ffff_ffff)
        },
        _ => None,
    }
}

/// The JSON objects the script prints, each list as the collector reads it
/// (a single object stands for a list of one; null for an empty list).
pub struct ShellInventory {
    pub physical_disks: Vec<JsonRow>,
    pub disk_drives: Vec<JsonRow>,
    pub memory: Vec<JsonRow>,
    pub cpu: Option<JsonRow>,
    pub base_board: Option<JsonRow>,
    pub bios: Option<JsonRow>,
}

/// What the script's JSON holds under one key of its top object: nothing,
/// `null`, an array (each element as a row), or another value (as a row:
/// an object's fields, none for anything else).
pub enum JsonEntry {
    Missing,
    Null,
    Array(Vec<JsonRow>),
    Single(JsonRow),
}

/// What `serde_json` reads from `bytes` under `key`: the entry, or the
/// text of its error when the bytes are not JSON.
pub uninterp spec fn json_entry(bytes: Seq<u8>, key: Seq<char>) -> Result<JsonEntry, Seq<char>>;

/// Parses `bytes` with `serde_json::from_slice` into a `serde_json::Value`
/// and takes the entry under `key` (`Value::get`), converting each value to
/// rows and fields one for one. Trusted: the result is `json_entry` of the
/// bytes and the key; nothing more is claimed about JSON parsing.
#[verifier::external_body]
fn parse_json_entry(bytes: &Vec<u8>, key: &str) -> (r: Result<JsonEntry, String>)
    ensures
        match r {
            Ok(e) => json_entry(bytes@, key@) == Ok::<JsonEntry, Seq<char>>(e),
            Err(m) => json_entry(bytes@, key@) == Err::<JsonEntry, Seq<char>>(m@),
        },
{
    let row = |v: &V| JsonRow { fields: v.as_object().into_iter().flatten().map(|(k, x)| (k.clone(), match x {
        V::String(t) => Text(t.clone()),
        V::Number(n) => Number(n.to_string(), n.as_u64()),
        V::Bool(b) => Bool(*b),
        _ => Other,
    })).collect() };
    Ok(match serde_json::from_slice::<V>(bytes).map_err(|e| e.to_string())?.get(key) {
        None => Missing,
        Some(V::Null) => Null,
        Some(V::Array(vs)) => Array(vs.iter().map(row).collect()),
        Some(v) => Single(row(v)),
    })
}

/// An entry read as a list: nothing for a missing key or `null`, the
/// elements of an array, and any other value as a list of one.
pub open spec fn entry_list(e: JsonEntry) -> Seq<JsonRow> {
    match e {
        JsonEntry::Missing => Seq::empty(),
        JsonEntry::Null => Seq::empty(),
        JsonEntry::Array(v) => v@,
        JsonEntry::Single(x) => seq![x],
    }
}

/// An entry read as a list.
pub fn entry_rows(e: JsonEntry) -> (r: Vec<JsonRow>)
    ensures
        r@ == entry_list(e),
{
    match e {
        JsonEntry::Missing => Vec::new(),
        JsonEntry::Null => Vec::new(),
        JsonEntry::Array(v) => v,
        JsonEntry::Single(x) => vec![x],
    }
}

/// The fields of an entry read as one object: absent only for a missing
/// key; `null` and an array stand for an object without fields.
pub open spec fn entry_fields(e: JsonEntry) -> Option<Seq<(String, JsonScalar)>> {
    match e {
        JsonEntry::Missing => None,
        JsonEntry::Null => Some(Seq::empty()),
        JsonEntry::Array(_) => Some(Seq::empty()),
        JsonEntry::Single(x) => Some(x.fields@),
    }
}

/// An entry read as one object.
pub fn entry_row(e: JsonEntry) -> (r: Option<JsonRow>)
    ensures
        opt_fields(r) == entry_fields(e),
{
    match e {
        JsonEntry::Missing => None,
        JsonEntry::Null => Some(JsonRow { fields: Vec::new() }),
        JsonEntry::Array(_) => Some(JsonRow { fields: Vec::new() }),
        JsonEntry::Single(x) => Some(x),
    }
}

/// The keys of the script's top object, in the order they are read.
pub open spec fn shell_keys() -> Seq<Seq<char>> {
    seq!["PhysicalDisks"@, "DiskDrives"@, "Memory"@, "Cpu"@, "BaseBoard"@, "Bios"@]
}

/// The error of the first of `keys` whose entry could not be read.
pub open spec fn first_json_error(bytes: Seq<u8>, keys: Seq<Seq<char>>) -> Option<Seq<char>>
    decreases keys.len(),
{
    if keys.len() == 0 {
        None
    } else {
        match json_entry(bytes, keys[0]) {
            Err(m) => Some(m),
            Ok(_) => first_json_error(bytes, keys.drop_first()),
        }
    }
}

/// The entry under `key`, once it is known to be readable.
pub open spec fn read_entry(bytes: Seq<u8>, key: Seq<char>) -> JsonEntry {
    json_entry(bytes, key)->Ok_0
}

/// What the shell backend reads from the script's output: an error when
/// the output is not JSON; otherwise its disks, disk drives and memory as
/// lists, and its processor, base board and BIOS as single objects.
pub fn shell_inventory(stdout: &Vec<u8>) -> (r: Result<ShellInventory, String>)
    ensures
        match first_json_error(stdout@, shell_keys()) {
            Some(m) => r is Err && r->Err_0@ == "bad PowerShell JSON: "@ + m,
            None => r is Ok && ({
                let inv = r->Ok_0;
                &&& inv.physical_disks@ == entry_list(read_entry(stdout@, "PhysicalDisks"@))
                &&& inv.disk_drives@ == entry_list(read_entry(stdout@, "DiskDrives"@))
                &&& inv.memory@ == entry_list(read_entry(stdout@, "Memory"@))
                &&& opt_fields(inv.cpu) == entry_fields(read_entry(stdout@, "Cpu"@))
                &&& opt_fields(inv.base_board) == entry_fields(read_entry(stdout@, "BaseBoard"@))
                &&& opt_fields(inv.bios) == entry_fields(read_entry(stdout@, "Bios"@))
            }),
        },
{
    let ghost b = stdout@;
    proof {
        let k0 = shell_keys();
        let k1 = seq!["DiskDrives"@, "Memory"@, "Cpu"@, "BaseBoard"@, "Bios"@];
        let k2 = seq!["Memory"@, "Cpu"@, "BaseBoard"@, "Bios"@];
        let k3 = seq!["Cpu"@, "BaseBoard"@, "Bios"@];
        let k4 = seq!["BaseBoard"@, "Bios"@];
        let k5 = seq!["Bios"@];
        assert(k0.drop_first() =~= k1);
        assert(k1.drop_first() =~= k2);
        assert(k2.drop_first() =~= k3);
        assert(k3.drop_first() =~= k4);
        assert(k4.drop_first() =~= k5);
        assert(k5.drop_first() =~= Seq::<Seq<char>>::empty());
        assert(first_json_error(b, k5.drop_first()) is None);
        assert(first_json_error(b, k5) == match json_entry(b, "Bios"@) { Err(m) => Some(m), Ok(_) => None::<Seq<char>> });
        assert(first_json_error(b, k4) == match json_entry(b, "BaseBoard"@) { Err(m) => Some(m), Ok(_) => first_json_error(b, k5) });
        assert(first_json_error(b, k3) == match json_entry(b, "Cpu"@) { Err(m) => Some(m), Ok(_) => first_json_error(b, k4) });
        assert(first_json_error(b, k2) == match json_entry(b, "Memory"@) { Err(m) => Some(m), Ok(_) => first_json_error(b, k3) });
        assert(first_json_error(b, k1) == match json_entry(b, "DiskDrives"@) { Err(m) => Some(m), Ok(_) => first_json_error(b, k2) });
        assert(first_json_error(b, k0) == match json_entry(b, "PhysicalDisks"@) { Err(m) => Some(m), Ok(_) => first_json_error(b, k1) });
    }
    let physical = match parse_json_entry(stdout, "PhysicalDisks") {
        Ok(e) => e,
        Err(m) => return Err(bad_json(m)),
    };
    let drives = match parse_json_entry(stdout, "DiskDrives") {
        Ok(e) => e,
        Err(m) => return Err(bad_json(m)),
    };
    let memory = match parse_json_entry(stdout, "Memory") {
        Ok(e) => e,
        Err(m) => return Err(bad_json(m)),
    };
    let cpu = match parse_json_entry(stdout, "Cpu") {
        Ok(e) => e,
        Err(m) => return Err(bad_json(m)),
    };
    let board = match parse_json_entry(stdout, "BaseBoard") {
        Ok(e) => e,
        Err(m) => return Err(bad_json(m)),
    };
    let bios = match parse_json_entry(stdout, "Bios") {
        Ok(e) => e,
        Err(m) => return Err(bad_json(m)),
    };
    Ok(ShellInventory {
        physical_disks: entry_rows(physical),
        disk_drives: entry_rows(drives),
        memory: entry_rows(memory),
        cpu: entry_row(cpu),
        base_board: entry_row(board),
        bios: entry_row(bios),
    })
}

/// The fields of an optional object.
pub open spec fn opt_fields(r: Option<JsonRow>) -> Option<Seq<(String, JsonScalar)>> {
    match r {
        Some(x) => Some(x.fields@),
        None => None,
    }
}

/// The error of output that is not JSON.
fn bad_json(m: String) -> (r: String)
    ensures
        r@ == "bad PowerShell JSON: "@ + m@,
{
    let mut r = String::from_str("bad PowerShell JSON: ");
    r.append(m.as_str());
    r
}

/// A byte count field shown in binary units, or the placeholder.
pub open spec fn size_text(row: JsonRow, key: Seq<char>) -> Seq<char> {
    match field_u64(row, key) {
        Some(n) => bytes_text(n as nat),
        None => unknown_text(),
    }
}

/// Writes a byte count field in binary units, or the placeholder.
fn size_string(row: &JsonRow, key: &str) -> (r: String)
    ensures
        r@ == size_text(*row, key@),
{
    match value_u64(row, key) {
        Some(n) => format_bytes(n),
        None => unknown(),
    }
}

/// The disk a `Get-PhysicalDisk` object describes.
pub open spec fn physical_disk_of(row: JsonRow, r: DiskInfo) -> bool {
    &&& r.device@ == field_text(row, "DeviceId"@)
    &&& r.model@ == first_known_text(seq![field_text(row, "FriendlyName"@), field_text(row, "Model"@)])
    &&& r.serial@ == field_text(row, "SerialNumber"@)
    &&& r.size@ == size_text(row, "Size"@)
    &&& r.media_type@ == field_text(row, "MediaType"@)
    &&& r.bus@ == field_text(row, "BusType"@)
    &&& r.firmware@ == field_text(row, "FirmwareVersion"@)
    &&& r.health@ == field_text(row, "HealthStatus"@)
    &&& r.source@ == "Get-PhysicalDisk"@
    &&& r.warnings@.len() == 0
}

/// The disk a `Win32_DiskDrive` object describes.
pub open spec fn disk_drive_of(row: JsonRow, r: DiskInfo) -> bool {
    &&& r.device@ == field_text(row, "DeviceID"@)
    &&& r.model@ == field_text(row, "Model"@)
    &&& r.serial@ == field_text(row, "SerialNumber"@)
    &&& r.size@ == size_text(row, "Size"@)
    &&& r.media_type@ == field_text(row, "MediaType"@)
    &&& r.bus@ == field_text(row, "InterfaceType"@)
    &&& r.firmware@ == field_text(row, "FirmwareRevision"@)
    &&& r.health@ == unknown_text()
    &&& r.source@ == "Win32_DiskDrive"@
    &&& r.warnings@.len() == 0
}

/// The disk a `Get-PhysicalDisk` object describes.
fn physical_disk_from(row: &JsonRow) -> (r: DiskInfo)
    ensures
        physical_disk_of(*row, r),
{
    let models = vec![value_string(row, "FriendlyName"), value_string(row, "Model")];
    assert(views(models@) =~= seq![field_text(*row, "FriendlyName"@), field_text(*row, "Model"@)]);
    DiskInfo {
        device: value_string(row, "DeviceId"),
        model: first_known(&models),
        serial: value_string(row, "SerialNumber"),
        size: size_string(row, "Size"),
        media_type: value_string(row, "MediaType"),
        bus: value_string(row, "BusType"),
        firmware: value_string(row, "FirmwareVersion"),
        health: value_string(row, "HealthStatus"),
        source: String::from_str("Get-PhysicalDisk"),
        warnings: Vec::new(),
    }
}

/// The disk a `Win32_DiskDrive` object describes.
fn disk_drive_from(row: &JsonRow) -> (r: DiskInfo)
    ensures
        disk_drive_of(*row, r),
{
    DiskInfo {
        device: value_string(row, "DeviceID"),
        model: value_string(row, "Model"),
        serial: value_string(row, "SerialNumber"),
        size: size_string(row, "Size"),
        media_type: value_string(row, "MediaType"),
        bus: value_string(row, "InterfaceType"),
        firmware: value_string(row, "FirmwareRevision"),
        health: unknown(),
        source: String::from_str("Win32_DiskDrive"),
        warnings: Vec::new(),
    }
}

/// The disks of the shell backend: one per `Get-PhysicalDisk` object, or,
/// when there are none, one per `Win32_DiskDrive` object.
pub fn collect_disks(inv: &ShellInventory) -> (r: Vec<DiskInfo>)
    ensures
        inv.physical_disks@.len() > 0 ==> r@.len() == inv.physical_disks@.len() && forall|i: int|
            0 <= i < r@.len() ==> physical_disk_of(inv.physical_disks@[i], #[trigger] r@[i]),
        inv.physical_disks@.len() == 0 ==> r@.len() == inv.disk_drives@.len() && forall|i: int|
            0 <= i < r@.len() ==> disk_drive_of(inv.disk_drives@[i], #[trigger] r@[i]),
{
    let mut r: Vec<DiskInfo> = Vec::new();
    if inv.physical_disks.len() > 0 {
        let mut i: usize = 0;
        while i < inv.physical_disks.len()
            invariant
                i <= inv.physical_disks.len(),
                r@.len() == i,
                forall|k: int| 0 <= k < i ==> physical_disk_of(inv.physical_disks@[k], #[trigger] r@[k]),
            decreases inv.physical_disks.len() - i,
        {
            r.push(physical_disk_from(&inv.physical_disks[i]));
            i += 1;
        }
    } else {
        let mut i: usize = 0;
        while i < inv.disk_drives.len()
            invariant
                i <= inv.disk_drives.len(),
                r@.len() == i,
                forall|k: int| 0 <= k < i ==> disk_drive_of(inv.disk_drives@[k], #[trigger] r@[k]),
            decreases inv.disk_drives.len() - i,
        {
            r.push(disk_drive_from(&inv.disk_drives[i]));
            i += 1;
        }
    }
    r
}

/// The speed of a memory object: its configured clock speed, or its rated
/// speed when that is unknown, with "MT/s" unless still unknown.
pub open spec fn memory_speed(row: JsonRow) -> Seq<char> {
    let configured = field_text(row, "ConfiguredClockSpeed"@);
    let speed = if configured == unknown_text() { field_text(row, "Speed"@) } else { configured };
    if speed == unknown_text() { speed } else { speed + " MT/s"@ }
}

/// The module a `Win32_PhysicalMemory` object describes.
pub open spec fn memory_of(row: JsonRow, r: MemoryDevice) -> bool {
    &&& r.slot@ == first_known_text(seq![field_text(row, "DeviceLocator"@), field_text(row, "BankLabel"@)])
    &&& r.size@ == size_text(row, "Capacity"@)
    &&& r.speed@ == memory_speed(row)
    &&& r.manufacturer@ == field_text(row, "Manufacturer"@)
    &&& r.part_number@ == field_text(row, "PartNumber"@)
    &&& r.serial@ == field_text(row, "SerialNumber"@)
    &&& r.source@ == "Win32_PhysicalMemory"@
    &&& r.warnings@.len() == 0
}

/// The module a `Win32_PhysicalMemory` object describes.
fn memory_from(row: &JsonRow) -> (r: MemoryDevice)
    ensures
        memory_of(*row, r),
{
    let configured = value_string(row, "ConfiguredClockSpeed");
    let speed = if crate::hardware::is_unknown(configured.as_str()) { value_string(row, "Speed") } else { configured };
    let speed = if crate::hardware::is_unknown(speed.as_str()) {
        speed
    } else {
        let mut s = speed;
        s.append(" MT/s");
        s
    };
    let slots = vec![value_string(row, "DeviceLocator"), value_string(row, "BankLabel")];
    assert(views(slots@) =~= seq![field_text(*row, "DeviceLocator"@), field_text(*row, "BankLabel"@)]);
    MemoryDevice {
        slot: first_known(&slots),
        size: size_string(row, "Capacity"),
        speed,
        manufacturer: value_string(row, "Manufacturer"),
        part_number: value_string(row, "PartNumber"),
        serial: value_string(row, "SerialNumber"),
        source: String::from_str("Win32_PhysicalMemory"),
        warnings: Vec::new(),
    }
}

/// The memory of the shell backend: one module per object, or, when there
/// are none, a single system entry that carries a warning.
pub fn collect_memory(inv: &ShellInventory) -> (r: Vec<MemoryDevice>)
    ensures
        inv.memory@.len() > 0 ==> r@.len() == inv.memory@.len() && forall|i: int|
            0 <= i < r@.len() ==> memory_of(inv.memory@[i], #[trigger] r@[i]),
        inv.memory@.len() == 0 ==> r@.len() == 1 && ({
            let m = r@[0];
            &&& m.slot@ == "System"@
            &&& m.size@ == unknown_text()
            &&& m.speed@ == unknown_text()
            &&& m.manufacturer@ == unknown_text()
            &&& m.part_number@ == unknown_text()
            &&& m.serial@ == unknown_text()
            &&& m.source@ == "Win32_PhysicalMemory"@
            &&& m.warnings@.len() == 1
            &&& warning_is(
                m.warnings@[0],
                "memory-unavailable"@,
                "Windows memory module information was not returned by CIM."@,
                "Run hdrt --backend shell from Administrator PowerShell and try again."@,
            )
        }),
{
    if inv.memory.len() == 0 {
        return vec![MemoryDevice {
            slot: String::from_str("System"),
            size: unknown(),
            speed: unknown(),
            manufacturer: unknown(),
            part_number: unknown(),
            serial: unknown(),
            source: String::from_str("Win32_PhysicalMemory"),
            warnings: vec![HdrtWarning::with_hint(
                "memory-unavailable",
                "Windows memory module information was not returned by CIM.",
                "Run hdrt --backend shell from Administrator PowerShell and try again.",
            )],
        }];
    }
    let mut r: Vec<MemoryDevice> = Vec::new();
    let mut i: usize = 0;
    while i < inv.memory.len()
        invariant
            i <= inv.memory.len(),
            r@.len() == i,
            forall|k: int| 0 <= k < i ==> memory_of(inv.memory@[k], #[trigger] r@[k]),
        decreases inv.memory.len() - i,
    {
        r.push(memory_from(&inv.memory[i]));
        i += 1;
    }
    r
}

/// A count field, as the platform's `usize` (`u64` truncated by `as`).
pub open spec fn count_of(row: JsonRow, key: Seq<char>) -> Option<usize> {
    match field_u64(row, key) {
        Some(n) => Some(n as usize),
        None => None,
    }
}

/// The processor of the shell backend, when the script printed one.
pub fn collect_cpu(inv: &ShellInventory) -> (r: Option<CpuInfo>)
    ensures
        inv.cpu is None ==> r is None,
        inv.cpu is Some ==> r is Some && ({
            let row = inv.cpu->0;
            let c = r->0;
            &&& c.model@ == field_text(row, "Name"@)
            &&& c.vendor@ == field_text(row, "Manufacturer"@)
            &&& c.physical_cores == count_of(row, "NumberOfCores"@)
            &&& c.logical_threads == count_of(row, "NumberOfLogicalProcessors"@)
            &&& c.frequency@ == (match field_u64(row, "MaxClockSpeed"@) {
                Some(n) => decimal(n as nat) + " MHz"@,
                None => unknown_text(),
            })
            &&& c.source@ == "Win32_Processor"@
            &&& c.warnings@.len() == 0
        }),
{
    match &inv.cpu {
        None => None,
        Some(row) => {
            let frequency = match value_u64(row, "MaxClockSpeed") {
                Some(n) => {
                    let mut f = decimal_string(n as u128);
                    f.append(" MHz");
                    f
                },
                None => unknown(),
            };
            Some(CpuInfo {
                model: value_string(row, "Name"),
                vendor: value_string(row, "Manufacturer"),
                physical_cores: match value_u64(row, "NumberOfCores") {
                    Some(n) => Some(n as usize),
                    None => None,
                },
                logical_threads: match value_u64(row, "NumberOfLogicalProcessors") {
                    Some(n) => Some(n as usize),
                    None => None,
                },
                frequency,
                source: String::from_str("Win32_Processor"),
                warnings: Vec::new(),
            })
        },
    }
}

/// A field of the BIOS object, as text.
fn bios_string(bios: &Option<JsonRow>, key: &str) -> (r: String)
    ensures
        r@ == (match bios {
            Some(row) => field_text(*row, key@),
            None => unknown_text(),
        }),
{
    match bios {
        Some(row) => value_string(row, key),
        None => unknown(),
    }
}

/// The board of the shell backend, when the script printed a base board.
pub fn collect_motherboard(inv: &ShellInventory) -> (r: Option<MotherboardInfo>)
    ensures
        inv.base_board is None ==> r is None,
        inv.base_board is Some ==> r is Some && ({
            let row = inv.base_board->0;
            let bios_field = |key: Seq<char>| match inv.bios {
                Some(b) => field_text(b, key),
                None => unknown_text(),
            };
            let b = r->0;
            &&& b.manufacturer@ == field_text(row, "Manufacturer"@)
            &&& b.product@ == field_text(row, "Product"@)
            &&& b.version@ == field_text(row, "Version"@)
            &&& b.serial@ == field_text(row, "SerialNumber"@)
            &&& b.bios_vendor@ == bios_field("Manufacturer"@)
            &&& b.bios_version@ == first_known_text(seq![bios_field("SMBIOSBIOSVersion"@), bios_field("Version"@)])
            &&& b.source@ == "Win32_BaseBoard + Win32_BIOS"@
            &&& b.warnings@.len() == 0
        }),
{
    match &inv.base_board {
        None => None,
        Some(row) => {
            let versions = vec![bios_string(&inv.bios, "SMBIOSBIOSVersion"), bios_string(&inv.bios, "Version")];
            let ghost bios_field = |key: Seq<char>| match inv.bios {
                Some(b) => field_text(b, key),
                None => unknown_text(),
            };
            assert(views(versions@) =~= seq![bios_field("SMBIOSBIOSVersion"@), bios_field("Version"@)]);
            Some(MotherboardInfo {
                manufacturer: value_string(row, "Manufacturer"),
                product: value_string(row, "Product"),
                version: value_string(row, "Version"),
                serial: value_string(row, "SerialNumber"),
                bios_vendor: bios_string(&inv.bios, "Manufacturer"),
                bios_version: first_known(&versions),
                source: String::from_str("Win32_BaseBoard + Win32_BIOS"),
                warnings: Vec::new(),
            })
        },
    }
}

/// The disks of the shell backend: one per `Get-PhysicalDisk` object, or,
/// when there are none, one per `Win32_DiskDrive` object.
pub open spec fn shell_disks(inv: ShellInventory, r: Seq<DiskInfo>) -> bool {
    &&& inv.physical_disks@.len() > 0 ==> r.len() == inv.physical_disks@.len() && forall|i: int|
        0 <= i < r.len() ==> physical_disk_of(inv.physical_disks@[i], #[trigger] r[i])
    &&& inv.physical_disks@.len() == 0 ==> r.len() == inv.disk_drives@.len() && forall|i: int|
        0 <= i < r.len() ==> disk_drive_of(inv.disk_drives@[i], #[trigger] r[i])
}

/// The memory of the shell backend: one module per object, or, when there
/// are none, a single system entry that carries a warning.
pub open spec fn shell_memory(inv: ShellInventory, r: Seq<MemoryDevice>) -> bool {
    &&& inv.memory@.len() > 0 ==> r.len() == inv.memory@.len() && forall|i: int|
        0 <= i < r.len() ==> memory_of(inv.memory@[i], #[trigger] r[i])
    &&& inv.memory@.len() == 0 ==> r.len() == 1 && ({
        let m = r[0];
        &&& m.slot@ == "System"@
        &&& m.size@ == unknown_text()
        &&& m.speed@ == unknown_text()
        &&& m.manufacturer@ == unknown_text()
        &&& m.part_number@ == unknown_text()
        &&& m.serial@ == unknown_text()
        &&& m.source@ == "Win32_PhysicalMemory"@
        &&& m.warnings@.len() == 1
        &&& warning_is(
            m.warnings@[0],
            "memory-unavailable"@,
            "Windows memory module information was not returned by CIM."@,
            "Run hdrt --backend shell from Administrator PowerShell and try again."@,
        )
    })
}

/// The processor of the shell backend, when the script printed one.
pub open spec fn shell_cpu(inv: ShellInventory, r: Option<CpuInfo>) -> bool {
    &&& inv.cpu is None ==> r is None
    &&& inv.cpu is Some ==> r is Some && ({
        let row = inv.cpu->0;
        let c = r->0;
        &&& c.model@ == field_text(row, "Name"@)
        &&& c.vendor@ == field_text(row, "Manufacturer"@)
        &&& c.physical_cores == count_of(row, "NumberOfCores"@)
        &&& c.logical_threads == count_of(row, "NumberOfLogicalProcessors"@)
        &&& c.frequency@ == (match field_u64(row, "MaxClockSpeed"@) {
            Some(n) => decimal(n as nat) + " MHz"@,
            None => unknown_text(),
        })
        &&& c.source@ == "Win32_Processor"@
        &&& c.warnings@.len() == 0
    })
}

/// A field of the BIOS object as text, or the placeholder without one.
pub open spec fn bios_text(bios: Option<JsonRow>, key: Seq<char>) -> Seq<char> {
    match bios {
        Some(b) => field_text(b, key),
        None => unknown_text(),
    }
}

/// The board of the shell backend, when the script printed a base board.
pub open spec fn shell_board(inv: ShellInventory, r: Option<MotherboardInfo>) -> bool {
    &&& inv.base_board is None ==> r is None
    &&& inv.base_board is Some ==> r is Some && ({
        let row = inv.base_board->0;
        let b = r->0;
        &&& b.manufacturer@ == field_text(row, "Manufacturer"@)
        &&& b.product@ == field_text(row, "Product"@)
        &&& b.version@ == field_text(row, "Version"@)
        &&& b.serial@ == field_text(row, "SerialNumber"@)
        &&& b.bios_vendor@ == bios_text(inv.bios, "Manufacturer"@)
        &&& b.bios_version@ == first_known_text(
            seq![bios_text(inv.bios, "SMBIOSBIOSVersion"@), bios_text(inv.bios, "Version"@)],
        )
        &&& b.source@ == "Win32_BaseBoard + Win32_BIOS"@
        &&& b.warnings@.len() == 0
    })
}

/// The report of the shell backend: its disks, memory, processor and board
/// as `collect_disks`, `collect_memory`, `collect_cpu` and
/// `collect_motherboard` give them, no volumes, no warnings and no debug
/// records.
pub fn collect_report(inv: &ShellInventory) -> (r: HardwareReport)
    ensures
        shell_disks(*inv, r.physical_disks@),
        shell_memory(*inv, r.memory@),
        shell_cpu(*inv, r.cpu),
        shell_board(*inv, r.motherboard),
        r.logical_disks@.len() == 0,
        r.warnings@.len() == 0,
        r.debug@.len() == 0,
{
    HardwareReport {
        physical_disks: collect_disks(inv),
        logical_disks: Vec::new(),
        memory: collect_memory(inv),
        cpu: collect_cpu(inv),
        motherboard: collect_motherboard(inv),
        warnings: Vec::new(),
        debug: Vec::new(),
    }
}

/// The placeholder report when the shell backend failed with `err` on the
/// system `os`/`arch`: a system memory entry, a processor named after the
/// system, a blank board, and a warning carrying the error.
pub fn fallback_report(err: &str, os: &str, arch: &str) -> (r: HardwareReport)
    ensures
        r.physical_disks@.len() == 0,
        r.logical_disks@.len() == 0,
        r.memory@.len() == 1,
        r.memory@[0].slot@ == "System"@,
        r.memory@[0].source@ == "placeholder/windows"@,
        r.cpu is Some,
        r.cpu->0.model@ == os@ + " "@ + arch@,
        r.cpu->0.source@ == "placeholder/windows"@,
        r.motherboard is Some,
        r.motherboard->0.source@ == "placeholder/windows"@,
        r.warnings@.len() == 1,
        warning_is(
            r.warnings@[0],
            "windows-shell-collector-failed"@,
            err@,
            "Run hdrt --backend shell from PowerShell or Administrator PowerShell and try again."@,
        ),
        r.debug@.len() == 0,
{
    let mut model = String::from_str(os);
    model.append(" ");
    model.append(arch);
    HardwareReport {
        physical_disks: Vec::new(),
        logical_disks: Vec::new(),
        memory: vec![MemoryDevice {
            slot: String::from_str("System"),
            size: unknown(),
            speed: unknown(),
            manufacturer: unknown(),
            part_number: unknown(),
            serial: unknown(),
            source: String::from_str("placeholder/windows"),
            warnings: Vec::new(),
        }],
        cpu: Some(CpuInfo {
            model,
            vendor: unknown(),
            physical_cores: None,
            logical_threads: None,
            frequency: unknown(),
            source: String::from_str("placeholder/windows"),
            warnings: Vec::new(),
        }),
        motherboard: Some(MotherboardInfo {
            manufacturer: unknown(),
            product: unknown(),
            version: unknown(),
            serial: unknown(),
            bios_vendor: unknown(),
            bios_version: unknown(),
            source: String::from_str("placeholder/windows"),
            warnings: Vec::new(),
        }),
        warnings: vec![HdrtWarning::with_hint(
            "windows-shell-collector-failed",
            err,
            "Run hdrt --backend shell from PowerShell or Administrator PowerShell and try again.",
        )],
        debug: Vec::new(),
    }
}

/// A module's speed is its configured clock speed whenever that is known;
/// its rated speed counts only when the configured one is unknown.
pub proof fn lemma_memory_speed_prefers_configured(row: JsonRow, r: MemoryDevice)
    requires
        memory_of(row, r),
    ensures
        field_text(row, "ConfiguredClockSpeed"@) != unknown_text() ==> r.speed@ == field_text(
            row,
            "ConfiguredClockSpeed"@,
        ) + " MT/s"@,
        field_text(row, "ConfiguredClockSpeed"@) == unknown_text() && field_text(row, "Speed"@) != unknown_text()
            ==> r.speed@ == field_text(row, "Speed"@) + " MT/s"@,
        field_text(row, "ConfiguredClockSpeed"@) == unknown_text() && field_text(row, "Speed"@) == unknown_text()
            ==> r.speed@ == unknown_text(),
{
}

} // verus!
