//! Merging the disk rows of `MSFT_PhysicalDisk`, `Win32_DiskDrive` and the
//! storage descriptors into one inventory. The program runs the WMI queries
//! and the device calls; this module decides which rows belong together
//! and what each field becomes.

use std::collections::BTreeSet;
use vstd::prelude::*;

use crate::hardware::debug::{distinct_keys, has_key, keys_sorted, opt_view, pair_views};
use crate::hardware::{unknown, unknown_text, DebugRecord, DiskInfo, HdrtWarning};
use crate::size::bytes_text;
use crate::text::{
    chars_of, decimal, decimal_string, find, find_from, lower, lower_of, parse_unsigned, parse_unsigned_of,
    string_of_range, trim, trim_bounds, upper, upper_of, views, join, join_strings, chars_eq,
};

use super::native_storage::{drive_name, drive_name_string, StorageDescriptor};
use super::rows::{MsftPhysicalDisk, Win32DiskDrive};
use super::util::{first_known, first_known_text, format_bytes, known, known_text};
use super::values::{bus_type_text, health_status, health_text, media_type_text, physical_media_type, storage_bus_type};

verus! {

// --- drive numbers ---------------------------------------------------------------

/// The digits at the start of `s`.
pub open spec fn leading_digits(s: Seq<char>) -> Seq<char>
    decreases s.len(),
{
    if s.len() > 0 && '0' <= s[0] && s[0] <= '9' {
        seq![s[0]] + leading_digits(s.drop_first())
    } else {
        Seq::empty()
    }
}

/// The drive number a device identifier names: the whole trimmed text as a
/// number, or the digits after `PHYSICALDRIVE` (in any letter case).
pub open spec fn physical_index(value: Seq<char>) -> Option<u32> {
    let t = trim(value);
    match parse_unsigned(t, u32::MAX as nat) {
        Some(n) => Some(n as u32),
        None => {
            let at = find(upper(t), "PHYSICALDRIVE"@);
            if at < 0 {
                None
            } else {
                match parse_unsigned(leading_digits(t.skip(at + 13)), u32::MAX as nat) {
                    Some(n) => Some(n as u32),
                    None => None,
                }
            }
        },
    }
}

/// The digits at the start of `v[from..]`.
fn leading_digits_of(v: &Vec<char>, from: usize) -> (r: Vec<char>)
    requires
        from <= v.len(),
    ensures
        r@ == leading_digits(v@.skip(from as int)),
{
    let mut end = from;
    while end < v.len() && '0' <= v[end] && v[end] <= '9'
        invariant
            from <= end <= v.len(),
            leading_digits(v@.skip(from as int)) == v@.subrange(from as int, end as int) + leading_digits(v@.skip(end as int)),
        decreases v.len() - end,
    {
        assert(v@.skip(end as int).drop_first() =~= v@.skip(end + 1));
        assert(v@.subrange(from as int, end + 1) =~= v@.subrange(from as int, end as int) + seq![v@[end as int]]);
        end += 1;
    }
    assert(leading_digits(v@.skip(end as int)) =~= Seq::<char>::empty());
    let mut r: Vec<char> = Vec::new();
    let mut i = from;
    while i < end
        invariant
            from <= i <= end <= v.len(),
            r@ == v@.subrange(from as int, i as int),
        decreases end - i,
    {
        r.push(v[i]);
        assert(v@.subrange(from as int, i + 1) =~= v@.subrange(from as int, i as int).push(v@[i as int]));
        i += 1;
    }
    assert(v@.subrange(from as int, end as int) + Seq::<char>::empty() =~= r@);
    r
}

/// The drive number a device identifier names.
pub fn parse_physical_index(value: &str) -> (r: Option<u32>)
    ensures
        r == physical_index(value@),
{
    let v = chars_of(value);
    let (lo, hi) = trim_bounds(&v);
    let t = chars_of(string_of_range(&v, lo, hi).as_str());
    match parse_unsigned_of(&t, 0xffff_ffff) {
        Some(n) => {
            return Some(n as u32);
        },
        None => {},
    }
    let u = upper_of(&t);
    let marker = chars_of("PHYSICALDRIVE");
    proof {
        reveal_strlit("PHYSICALDRIVE");
    }
    assert(u@.skip(0) =~= u@);
    match find_from(&u, &marker, 0) {
        Some(at) => {
            proof {
                crate::text::lemma_find_bounds(u@, marker@);
            }
            let digits = leading_digits_of(&t, at + 13);
            match parse_unsigned_of(&digits, 0xffff_ffff) {
                Some(n) => Some(n as u32),
                None => None,
            }
        },
        None => None,
    }
}

/// The drive number of a `Win32_DiskDrive` row: its `Index`, or the number
/// its `DeviceID` names.
pub open spec fn drive_row_index(d: Win32DiskDrive) -> Option<u32> {
    match d.index {
        Some(i) => Some(i),
        None => match d.device_id {
            Some(id) => physical_index(id@),
            None => None,
        },
    }
}

/// The drive number of a `Win32_DiskDrive` row.
pub fn disk_drive_index(d: &Win32DiskDrive) -> (r: Option<u32>)
    ensures
        r == drive_row_index(*d),
{
    match d.index {
        Some(i) => Some(i),
        None => match &d.device_id {
            Some(id) => parse_physical_index(id.as_str()),
            None => None,
        },
    }
}

/// The drive number of an `MSFT_PhysicalDisk` row, from its `DeviceId`.
pub open spec fn storage_row_index(d: MsftPhysicalDisk) -> Option<u32> {
    match d.device_id {
        Some(id) => physical_index(id@),
        None => None,
    }
}

/// The drive number of an `MSFT_PhysicalDisk` row.
pub fn storage_disk_index(d: &MsftPhysicalDisk) -> (r: Option<u32>)
    ensures
        r == storage_row_index(*d),
{
    match &d.device_id {
        Some(id) => parse_physical_index(id.as_str()),
        None => None,
    }
}

// --- finding the rows that belong together -------------------------------------------

/// The position of the first of `items` that `p` holds of.
pub open spec fn first_index<T>(items: Seq<T>, p: spec_fn(T) -> bool) -> Option<int>
    decreases items.len(),
{
    if items.len() == 0 {
        None
    } else if p(items[0]) {
        Some(0)
    } else {
        match first_index(items.drop_first(), p) {
            Some(k) => Some(k + 1),
            None => None,
        }
    }
}

/// The first descriptor of drive `index`.
pub open spec fn descriptor_for(ds: Seq<StorageDescriptor>, index: u32) -> Option<int> {
    first_index(ds, |d: StorageDescriptor| d.index == index)
}

/// The position of the first descriptor of drive `index`.
pub fn find_descriptor(ds: &Vec<StorageDescriptor>, index: u32) -> (r: Option<usize>)
    ensures
        match r {
            Some(k) => k < ds@.len() && descriptor_for(ds@, index) == Some(k as int),
            None => descriptor_for(ds@, index) is None,
        },
{
    let ghost p = |d: StorageDescriptor| d.index == index;
    assert(ds@.skip(0) =~= ds@);
    let mut i: usize = 0;
    while i < ds.len()
        invariant
            i <= ds.len(),
            p == (|d: StorageDescriptor| d.index == index),
            descriptor_for(ds@, index) == (match first_index(ds@.skip(i as int), p) {
                Some(k) => Some(k + i),
                None => None,
            }),
        decreases ds.len() - i,
    {
        assert(ds@.skip(i as int)[0] == ds@[i as int]);
        if ds[i].index == index {
            return Some(i);
        }
        assert(ds@.skip(i as int).drop_first() =~= ds@.skip(i + 1));
        i += 1;
    }
    None
}

/// The first `Win32_DiskDrive` row of drive `index`.
pub open spec fn drive_for(drives: Seq<Win32DiskDrive>, index: u32) -> Option<int> {
    first_index(drives, |d: Win32DiskDrive| drive_row_index(d) == Some(index))
}

/// The position of the first `Win32_DiskDrive` row of drive `index`.
pub fn find_disk_drive(drives: &Vec<Win32DiskDrive>, index: u32) -> (r: Option<usize>)
    ensures
        match r {
            Some(k) => k < drives@.len() && drive_for(drives@, index) == Some(k as int),
            None => drive_for(drives@, index) is None,
        },
{
    let ghost p = |d: Win32DiskDrive| drive_row_index(d) == Some(index);
    assert(drives@.skip(0) =~= drives@);
    let mut i: usize = 0;
    while i < drives.len()
        invariant
            i <= drives.len(),
            p == (|d: Win32DiskDrive| drive_row_index(d) == Some(index)),
            drive_for(drives@, index) == (match first_index(drives@.skip(i as int), p) {
                Some(k) => Some(k + i),
                None => None,
            }),
        decreases drives.len() - i,
    {
        assert(drives@.skip(i as int)[0] == drives@[i as int]);
        if disk_drive_index(&drives[i]) == Some(index) {
            return Some(i);
        }
        assert(drives@.skip(i as int).drop_first() =~= drives@.skip(i + 1));
        i += 1;
    }
    None
}

/// Two texts equal when ASCII letter case is ignored (`eq_ignore_ascii_case`).
pub open spec fn same_ignoring_case(a: Seq<char>, b: Seq<char>) -> bool {
    lower(a) == lower(b)
}

/// Whether two texts are equal when ASCII letter case is ignored.
pub fn eq_ignore_case(a: &str, b: &str) -> (r: bool)
    ensures
        r == same_ignoring_case(a@, b@),
{
    let la = lower_of(&chars_of(a));
    let lb = lower_of(&chars_of(b));
    chars_eq(&la, &lb)
}

/// The first row whose serial number matches `serial`.
pub open spec fn drive_by_serial(drives: Seq<Win32DiskDrive>, serial: Seq<char>) -> Option<int> {
    first_index(drives, |d: Win32DiskDrive| same_ignoring_case(known_text(opt_view(d.serial_number)), serial))
}

/// The first row whose model matches `model`.
pub open spec fn drive_by_model(drives: Seq<Win32DiskDrive>, model: Seq<char>) -> Option<int> {
    first_index(drives, |d: Win32DiskDrive| same_ignoring_case(known_text(opt_view(d.model)), model))
}

/// The model an `MSFT_PhysicalDisk` row names.
pub open spec fn storage_model(s: MsftPhysicalDisk) -> Seq<char> {
    first_known_text(seq![known_text(opt_view(s.friendly_name)), known_text(opt_view(s.model))])
}

/// The `Win32_DiskDrive` row that an `MSFT_PhysicalDisk` row describes: the
/// one with its drive number; failing that the first with its serial
/// number; failing that (when the serial is unknown or matches none) the
/// first with its model.
pub open spec fn drive_for_storage(drives: Seq<Win32DiskDrive>, s: MsftPhysicalDisk, index: Option<u32>) -> Option<int> {
    let by_index = match index { Some(i) => drive_for(drives, i), None => None };
    let serial = known_text(opt_view(s.serial_number));
    let by_serial = if serial != unknown_text() { drive_by_serial(drives, trim(serial)) } else { None };
    let model = storage_model(s);
    if by_index is Some {
        by_index
    } else if by_serial is Some {
        by_serial
    } else if model != unknown_text() {
        drive_by_model(drives, trim(model))
    } else {
        None
    }
}

/// The position of the first row whose serial number or model (`by_model`)
/// matches `key`.
fn find_drive_by(drives: &Vec<Win32DiskDrive>, key: &str, by_model: bool) -> (r: Option<usize>)
    ensures
        match r {
            Some(k) => k < drives@.len() && (if by_model { drive_by_model(drives@, key@) } else { drive_by_serial(drives@, key@) }) == Some(k as int),
            None => (if by_model { drive_by_model(drives@, key@) } else { drive_by_serial(drives@, key@) }) is None,
        },
{
    let ghost p = if by_model {
        |d: Win32DiskDrive| same_ignoring_case(known_text(opt_view(d.model)), key@)
    } else {
        |d: Win32DiskDrive| same_ignoring_case(known_text(opt_view(d.serial_number)), key@)
    };
    assert(drives@.skip(0) =~= drives@);
    let mut i: usize = 0;
    while i < drives.len()
        invariant
            i <= drives.len(),
            p == (if by_model {
                |d: Win32DiskDrive| same_ignoring_case(known_text(opt_view(d.model)), key@)
            } else {
                |d: Win32DiskDrive| same_ignoring_case(known_text(opt_view(d.serial_number)), key@)
            }),
            (if by_model { drive_by_model(drives@, key@) } else { drive_by_serial(drives@, key@) }) == (match first_index(
                drives@.skip(i as int),
                p,
            ) {
                Some(k) => Some(k + i),
                None => None,
            }),
        decreases drives.len() - i,
    {
        assert(drives@.skip(i as int)[0] == drives@[i as int]);
        let text = if by_model { known(&drives[i].model) } else { known(&drives[i].serial_number) };
        if eq_ignore_case(text.as_str(), key) {
            return Some(i);
        }
        assert(drives@.skip(i as int).drop_first() =~= drives@.skip(i + 1));
        i += 1;
    }
    None
}

/// The position of the `Win32_DiskDrive` row that an `MSFT_PhysicalDisk`
/// row describes.
pub fn find_disk_drive_for_storage(drives: &Vec<Win32DiskDrive>, s: &MsftPhysicalDisk, index: Option<u32>) -> (r: Option<usize>)
    ensures
        match r {
            Some(k) => k < drives@.len() && drive_for_storage(drives@, *s, index) == Some(k as int),
            None => drive_for_storage(drives@, *s, index) is None,
        },
{
    match index {
        Some(i) => match find_disk_drive(drives, i) {
            Some(k) => {
                return Some(k);
            },
            None => {},
        },
        None => {},
    }
    let serial = known(&s.serial_number);
    if !crate::hardware::is_unknown(serial.as_str()) {
        let key = crate::text::trimmed(serial.as_str());
        match find_drive_by(drives, key.as_str(), false) {
            Some(k) => {
                return Some(k);
            },
            None => {},
        }
    }
    let candidates = vec![known(&s.friendly_name), known(&s.model)];
    assert(views(candidates@) =~= seq![known_text(opt_view(s.friendly_name)), known_text(opt_view(s.model))]);
    let model = first_known(&candidates);
    if !crate::hardware::is_unknown(model.as_str()) {
        let key = crate::text::trimmed(model.as_str());
        return find_drive_by(drives, key.as_str(), true);
    }
    None
}

// --- building a disk -------------------------------------------------------------

/// The present parts joined by " + ", or the placeholder when that is empty.
pub open spec fn joined_source_text(parts: Seq<Option<Seq<char>>>) -> Seq<char> {
    let j = join(present(parts), " + "@);
    if j.len() == 0 { unknown_text() } else { j }
}

/// The values of the present parts, in order.
pub open spec fn present(parts: Seq<Option<Seq<char>>>) -> Seq<Seq<char>>
    decreases parts.len(),
{
    if parts.len() == 0 {
        Seq::empty()
    } else {
        match parts.last() {
            Some(p) => present(parts.drop_last()).push(p),
            None => present(parts.drop_last()),
        }
    }
}

/// The views of optional string slices.
pub open spec fn opt_str_views(parts: Seq<Option<&str>>) -> Seq<Option<Seq<char>>> {
    parts.map_values(|o: Option<&str>| match o { Some(s) => Some(s@), None => None })
}

/// The present parts joined by " + ", or the placeholder when that is empty.
pub fn joined_source(parts: &Vec<Option<&str>>) -> (r: String)
    ensures
        r@ == joined_source_text(opt_str_views(parts@)),
{
    let ghost pv = opt_str_views(parts@);
    let mut kept: Vec<String> = Vec::new();
    let mut i: usize = 0;
    while i < parts.len()
        invariant
            i <= parts.len(),
            pv == opt_str_views(parts@),
            views(kept@) == present(pv.take(i as int)),
        decreases parts.len() - i,
    {
        assert(pv.take(i + 1).drop_last() =~= pv.take(i as int));
        match parts[i] {
            Some(p) => {
                let ghost before = views(kept@);
                kept.push(String::from_str(p));
                assert(views(kept@) =~= before.push(p@));
            },
            None => {},
        }
        i += 1;
    }
    assert(pv.take(i as int) =~= pv);
    let j = join_strings(&kept, " + ");
    if j.unicode_len() == 0 {
        unknown()
    } else {
        j
    }
}

/// A text of an optional row, or the placeholder without the row.
pub open spec fn or_unknown_row(t: Option<Seq<char>>) -> Seq<char> {
    match t {
        Some(s) => s,
        None => unknown_text(),
    }
}

/// A field of an optional `Win32_DiskDrive` row (model, serial number,
/// media type, interface, firmware revision by `field`), or the placeholder.
pub open spec fn row_known(w: Option<Win32DiskDrive>, field: int) -> Seq<char> {
    match w {
        Some(row) => known_text(opt_view(
            if field == 0 { row.model } else if field == 1 { row.serial_number } else if field == 2 { row.media_type } else if field == 3 { row.interface_type } else { row.firmware_revision },
        )),
        None => unknown_text(),
    }
}

/// A field of an optional descriptor (product, serial number, revision,
/// bus by `field`), or the placeholder.
pub open spec fn desc_known(d: Option<StorageDescriptor>, field: int) -> Seq<char> {
    match d {
        Some(desc) => (if field == 0 { desc.product } else if field == 1 { desc.serial } else if field == 2 { desc.revision } else { desc.bus })@,
        None => unknown_text(),
    }
}

/// The disk that an `MSFT_PhysicalDisk` row, with the `Win32_DiskDrive` row
/// and the descriptor of the same drive, describes: each field is taken
/// from the first source that knows it.
pub open spec fn storage_disk(
    s: MsftPhysicalDisk,
    w: Option<Win32DiskDrive>,
    d: Option<StorageDescriptor>,
    r: DiskInfo,
) -> bool {
    let size = match s.size {
        Some(n) => Some(n),
        None => match w { Some(row) => row.size, None => None },
    };
    &&& r.device@ == known_text(opt_view(s.device_id))
    &&& r.model@ == first_known_text(seq![
        known_text(opt_view(s.friendly_name)),
        known_text(opt_view(s.model)),
        row_known(w, 0),
        desc_known(d, 0),
    ])
    &&& r.serial@ == first_known_text(seq![known_text(opt_view(s.serial_number)), row_known(w, 1), desc_known(d, 1)])
    &&& r.size@ == (match size { Some(n) => bytes_text(n as nat), None => unknown_text() })
    &&& r.media_type@ == first_known_text(seq![media_type_text(s.media_type), row_known(w, 2)])
    &&& r.bus@ == first_known_text(seq![bus_type_text(s.bus_type), desc_known(d, 3), row_known(w, 3)])
    &&& r.firmware@ == first_known_text(seq![known_text(opt_view(s.firmware_version)), row_known(w, 4), desc_known(d, 2)])
    &&& r.health@ == health_text(s.health_status)
    &&& r.source@ == joined_source_text(seq![
        Some("native-wmi/MSFT_PhysicalDisk"@),
        if w is Some { Some("native-wmi/Win32_DiskDrive"@) } else { None },
        if d is Some { Some("DeviceIoControl/storage-descriptor"@) } else { None },
    ])
    &&& r.warnings@.len() == 0
}

/// The row a reference option points at.
pub open spec fn row_of(w: Option<&Win32DiskDrive>) -> Option<Win32DiskDrive> {
    match w {
        Some(row) => Some(*row),
        None => None,
    }
}

/// The descriptor a reference option points at.
pub open spec fn desc_of(d: Option<&StorageDescriptor>) -> Option<StorageDescriptor> {
    match d {
        Some(x) => Some(*x),
        None => None,
    }
}

/// A text of an optional `Win32_DiskDrive` row.
fn row_text(w: Option<&Win32DiskDrive>, field: u8) -> (r: String)
    requires
        field < 5,
    ensures
        r@ == row_known(row_of(w), field as int),
{
    match w {
        Some(row) => known(
            if field == 0 { &row.model } else if field == 1 { &row.serial_number } else if field == 2 { &row.media_type } else if field == 3 { &row.interface_type } else { &row.firmware_revision },
        ),
        None => unknown(),
    }
}

/// A text of an optional descriptor.
fn descriptor_text(d: Option<&StorageDescriptor>, field: u8) -> (r: String)
    requires
        field < 3,
    ensures
        r@ == desc_known(desc_of(d), field as int),
{
    match d {
        Some(desc) => {
            let s: &String = if field == 0 { &desc.product } else if field == 1 { &desc.serial } else { &desc.revision };
            String::from_str(s.as_str())
        },
        None => unknown(),
    }
}

/// The bus of an optional descriptor.
fn descriptor_bus(d: Option<&StorageDescriptor>) -> (r: String)
    ensures
        r@ == desc_known(desc_of(d), 3),
{
    match d {
        Some(desc) => String::from_str(desc.bus.as_str()),
        None => unknown(),
    }
}

/// The disk that an `MSFT_PhysicalDisk` row, with the `Win32_DiskDrive` row
/// and the descriptor of the same drive, describes.
pub fn disk_from_storage_row(s: &MsftPhysicalDisk, w: Option<&Win32DiskDrive>, d: Option<&StorageDescriptor>) -> (r: DiskInfo)
    ensures
        storage_disk(*s, row_of(w), desc_of(d), r),
{
    let models = vec![known(&s.friendly_name), known(&s.model), row_text(w, 0), descriptor_text(d, 0)];
    let serials = vec![known(&s.serial_number), row_text(w, 1), descriptor_text(d, 1)];
    let medias = vec![physical_media_type(s.media_type), row_text(w, 2)];
    let buses = vec![storage_bus_type(s.bus_type), descriptor_bus(d), row_text(w, 3)];
    let firmwares = vec![known(&s.firmware_version), row_text(w, 4), descriptor_text(d, 2)];
    let size_bytes: Option<u64> = match s.size {
        Some(n) => Some(n),
        None => match w {
            Some(row) => row.size,
            None => None,
        },
    };
    let size = match size_bytes {
        Some(n) => format_bytes(n),
        None => unknown(),
    };
    let parts: Vec<Option<&str>> = vec![
        Some("native-wmi/MSFT_PhysicalDisk"),
        if w.is_some() { Some("native-wmi/Win32_DiskDrive") } else { None },
        if d.is_some() { Some("DeviceIoControl/storage-descriptor") } else { None },
    ];
    assert(opt_str_views(parts@) =~= seq![
        Some("native-wmi/MSFT_PhysicalDisk"@),
        if w is Some { Some("native-wmi/Win32_DiskDrive"@) } else { None },
        if d is Some { Some("DeviceIoControl/storage-descriptor"@) } else { None },
    ]);
    let source = joined_source(&parts);
    let r = DiskInfo {
        device: known(&s.device_id),
        model: first_known(&models),
        serial: first_known(&serials),
        size,
        media_type: first_known(&medias),
        bus: first_known(&buses),
        firmware: first_known(&firmwares),
        health: health_status(s.health_status),
        source,
        warnings: Vec::new(),
    };
    let ghost wv = row_of(w);
    let ghost dv = desc_of(d);
    assert(views(models@) =~= seq![known_text(opt_view(s.friendly_name)), known_text(opt_view(s.model)), row_known(wv, 0), desc_known(dv, 0)]);
    assert(views(serials@) =~= seq![known_text(opt_view(s.serial_number)), row_known(wv, 1), desc_known(dv, 1)]);
    assert(views(medias@) =~= seq![media_type_text(s.media_type), row_known(wv, 2)]);
    assert(views(buses@) =~= seq![bus_type_text(s.bus_type), desc_known(dv, 3), row_known(wv, 3)]);
    assert(views(firmwares@) =~= seq![known_text(opt_view(s.firmware_version)), row_known(wv, 4), desc_known(dv, 2)]);
    r
}

/// The disk that a `Win32_DiskDrive` row, with the descriptor of the same
/// drive, describes.
pub open spec fn drive_disk(w: Win32DiskDrive, d: Option<StorageDescriptor>, r: DiskInfo) -> bool {
    let index = drive_row_index(w);
    &&& r.device@ == first_known_text(seq![
        known_text(opt_view(w.device_id)),
        match index { Some(i) => drive_name(i), None => unknown_text() },
    ])
    &&& r.model@ == first_known_text(seq![known_text(opt_view(w.model)), desc_known(d, 0)])
    &&& r.serial@ == first_known_text(seq![known_text(opt_view(w.serial_number)), desc_known(d, 1)])
    &&& r.size@ == (match w.size { Some(n) => bytes_text(n as nat), None => unknown_text() })
    &&& r.media_type@ == known_text(opt_view(w.media_type))
    &&& r.bus@ == first_known_text(seq![desc_known(d, 3), known_text(opt_view(w.interface_type))])
    &&& r.firmware@ == first_known_text(seq![known_text(opt_view(w.firmware_revision)), desc_known(d, 2)])
    &&& r.health@ == unknown_text()
    &&& r.source@ == joined_source_text(seq![
        Some("native-wmi/Win32_DiskDrive"@),
        if d is Some { Some("DeviceIoControl/storage-descriptor"@) } else { None },
    ])
    &&& r.warnings@.len() == 0
}

/// The disk that a `Win32_DiskDrive` row, with the descriptor of the same
/// drive, describes.
pub fn disk_from_disk_drive_row(w: &Win32DiskDrive, d: Option<&StorageDescriptor>) -> (r: DiskInfo)
    ensures
        drive_disk(*w, desc_of(d), r),
{
    let index = disk_drive_index(w);
    let devices = vec![
        known(&w.device_id),
        match index {
            Some(i) => drive_name_string(i),
            None => unknown(),
        },
    ];
    let models = vec![known(&w.model), descriptor_text(d, 0)];
    let serials = vec![known(&w.serial_number), descriptor_text(d, 1)];
    let buses = vec![descriptor_bus(d), known(&w.interface_type)];
    let firmwares = vec![known(&w.firmware_revision), descriptor_text(d, 2)];
    let parts: Vec<Option<&str>> = vec![
        Some("native-wmi/Win32_DiskDrive"),
        if d.is_some() { Some("DeviceIoControl/storage-descriptor") } else { None },
    ];
    assert(opt_str_views(parts@) =~= seq![
        Some("native-wmi/Win32_DiskDrive"@),
        if d is Some { Some("DeviceIoControl/storage-descriptor"@) } else { None },
    ]);
    let ghost dv = desc_of(d);
    assert(views(devices@) =~= seq![
        known_text(opt_view(w.device_id)),
        match index { Some(i) => drive_name(i), None => unknown_text() },
    ]);
    assert(views(models@) =~= seq![known_text(opt_view(w.model)), desc_known(dv, 0)]);
    assert(views(serials@) =~= seq![known_text(opt_view(w.serial_number)), desc_known(dv, 1)]);
    assert(views(buses@) =~= seq![desc_known(dv, 3), known_text(opt_view(w.interface_type))]);
    assert(views(firmwares@) =~= seq![known_text(opt_view(w.firmware_revision)), desc_known(dv, 2)]);
    DiskInfo {
        device: first_known(&devices),
        model: first_known(&models),
        serial: first_known(&serials),
        size: match w.size {
            Some(n) => format_bytes(n),
            None => unknown(),
        },
        media_type: known(&w.media_type),
        bus: first_known(&buses),
        firmware: first_known(&firmwares),
        health: unknown(),
        source: joined_source(&parts),
        warnings: Vec::new(),
    }
}

/// "true" or "false".
pub open spec fn bool_text(b: bool) -> Seq<char> {
    if b { "true"@ } else { "false"@ }
}

/// The fields of the record that shows how a disk was merged.
pub open spec fn merge_fields(d: DiskInfo, index: Option<u32>, has_win32: bool, has_descriptor: bool) -> Seq<(Seq<char>, Seq<char>)> {
    seq![
        ("physical_index"@, match index { Some(i) => decimal(i as nat), None => unknown_text() }),
        ("model"@, d.model@),
        ("serial"@, d.serial@),
        ("size"@, d.size@),
        ("media_type"@, d.media_type@),
        ("bus"@, d.bus@),
        ("firmware"@, d.firmware@),
        ("health"@, d.health@),
        ("source"@, d.source@),
        ("win32_joined"@, bool_text(has_win32)),
        ("descriptor_joined"@, bool_text(has_descriptor)),
    ]
}

/// The record that shows how a disk was merged: its fields and which
/// sources were joined.
pub open spec fn merge_record(d: DiskInfo, index: Option<u32>, has_win32: bool, has_descriptor: bool, r: DebugRecord) -> bool {
    &&& r@.target == d.device@
    &&& r@.source == "final-disk-merge"@
    &&& r@.note is None
    &&& forall|e: (Seq<char>, Seq<char>)|
        #![trigger r@.fields.contains(e)]
        r@.fields.contains(e) <==> merge_fields(d, index, has_win32, has_descriptor).contains(e)
}

/// Writes "true" or "false".
fn bool_string(b: bool) -> (r: String)
    ensures
        r@ == bool_text(b),
{
    String::from_str(if b { "true" } else { "false" })
}

/// The record that shows how a disk was merged.
pub fn debug_final_disk(d: &DiskInfo, index: Option<u32>, has_win32: bool, has_descriptor: bool) -> (r: DebugRecord)
    ensures
        merge_record(*d, index, has_win32, has_descriptor, r),
{
    let idx = match index {
        Some(i) => decimal_string(i as u128),
        None => unknown(),
    };
    let pairs = vec![
        (String::from_str("physical_index"), idx),
        (String::from_str("model"), String::from_str(d.model.as_str())),
        (String::from_str("serial"), String::from_str(d.serial.as_str())),
        (String::from_str("size"), String::from_str(d.size.as_str())),
        (String::from_str("media_type"), String::from_str(d.media_type.as_str())),
        (String::from_str("bus"), String::from_str(d.bus.as_str())),
        (String::from_str("firmware"), String::from_str(d.firmware.as_str())),
        (String::from_str("health"), String::from_str(d.health.as_str())),
        (String::from_str("source"), String::from_str(d.source.as_str())),
        (String::from_str("win32_joined"), bool_string(has_win32)),
        (String::from_str("descriptor_joined"), bool_string(has_descriptor)),
    ];
    proof {
        reveal_strlit("physical_index");
        reveal_strlit("model");
        reveal_strlit("serial");
        reveal_strlit("size");
        reveal_strlit("media_type");
        reveal_strlit("bus");
        reveal_strlit("firmware");
        reveal_strlit("health");
        reveal_strlit("source");
        reveal_strlit("win32_joined");
        reveal_strlit("descriptor_joined");
    }
    assert(pair_views(pairs@) =~= merge_fields(*d, index, has_win32, has_descriptor));
    let ghost ps = pair_views(pairs@);
    assert(distinct_keys(ps)) by {
        assert forall|i: int, j: int| 0 <= i < j < ps.len() implies #[trigger] ps[i].0 != #[trigger] ps[j].0 by {
            assert(ps[i].0.len() != ps[j].0.len() || ps[i].0[0] != ps[j].0[0] || ps[i].0[1] != ps[j].0[1]);
        }
    }
    let rec = DebugRecord::new(d.device.as_str(), "final-disk-merge");
    rec.with_fields(&pairs)
}

/// The item at an optional position.
pub open spec fn opt_at<T>(items: Seq<T>, k: Option<int>) -> Option<T> {
    match k {
        Some(i) => Some(items[i]),
        None => None,
    }
}

/// The `Win32_DiskDrive` row merged with an `MSFT_PhysicalDisk` row.
pub open spec fn storage_match(drives: Seq<Win32DiskDrive>, s: MsftPhysicalDisk) -> Option<int> {
    drive_for_storage(drives, s, storage_row_index(s))
}

/// The drive number whose descriptor is merged with an `MSFT_PhysicalDisk`
/// row: its own, or that of its `Win32_DiskDrive` row.
pub open spec fn storage_descriptor_index(drives: Seq<Win32DiskDrive>, s: MsftPhysicalDisk) -> Option<u32> {
    match storage_row_index(s) {
        Some(i) => Some(i),
        None => match storage_match(drives, s) {
            Some(k) => drive_row_index(drives[k]),
            None => None,
        },
    }
}

/// The descriptor of a drive number, if there is one.
pub open spec fn descriptor_of_index(ds: Seq<StorageDescriptor>, index: Option<u32>) -> Option<int> {
    match index {
        Some(i) => descriptor_for(ds, i),
        None => None,
    }
}

/// The disks that the `MSFT_PhysicalDisk` rows describe, one per row, each
/// merged with its `Win32_DiskDrive` row and descriptor; with
/// `debug_enabled`, one merge record per disk is appended to `debug`.
pub fn storage_rows_to_disks(
    storage: &Vec<MsftPhysicalDisk>,
    drives: &Vec<Win32DiskDrive>,
    ds: &Vec<StorageDescriptor>,
    debug_enabled: bool,
    debug: &mut Vec<DebugRecord>,
) -> (r: Vec<DiskInfo>)
    ensures
        r@.len() == storage@.len(),
        forall|i: int|
            0 <= i < storage@.len() ==> storage_disk(
                storage@[i],
                opt_at(drives@, storage_match(drives@, storage@[i])),
                opt_at(ds@, descriptor_of_index(ds@, storage_descriptor_index(drives@, storage@[i]))),
                #[trigger] r@[i],
            ),
        final(debug)@.len() == old(debug)@.len() + if debug_enabled { storage@.len() } else { 0 },
        forall|j: int| 0 <= j < old(debug)@.len() ==> #[trigger] final(debug)@[j] == old(debug)@[j],
        debug_enabled ==> forall|i: int|
            0 <= i < storage@.len() ==> merge_record(
                r@[i],
                storage_descriptor_index(drives@, storage@[i]),
                storage_match(drives@, storage@[i]) is Some,
                descriptor_of_index(ds@, storage_descriptor_index(drives@, storage@[i])) is Some,
                #[trigger] final(debug)@[old(debug)@.len() + i],
            ),
{
    let ghost d0 = debug@;
    let mut disks: Vec<DiskInfo> = Vec::new();
    let mut i: usize = 0;
    while i < storage.len()
        invariant
            i <= storage.len(),
            disks@.len() == i,
            forall|k: int|
                0 <= k < i ==> storage_disk(
                    storage@[k],
                    opt_at(drives@, storage_match(drives@, storage@[k])),
                    opt_at(ds@, descriptor_of_index(ds@, storage_descriptor_index(drives@, storage@[k]))),
                    #[trigger] disks@[k],
                ),
            debug@.len() == d0.len() + if debug_enabled { i as int } else { 0 },
            forall|j: int| 0 <= j < d0.len() ==> #[trigger] debug@[j] == d0[j],
            debug_enabled ==> forall|k: int|
                0 <= k < i ==> merge_record(
                    disks@[k],
                    storage_descriptor_index(drives@, storage@[k]),
                    storage_match(drives@, storage@[k]) is Some,
                    descriptor_of_index(ds@, storage_descriptor_index(drives@, storage@[k])) is Some,
                    #[trigger] debug@[d0.len() + k],
                ),
        decreases storage.len() - i,
    {
        let s = &storage[i];
        let index = storage_disk_index(s);
        let win32 = find_disk_drive_for_storage(drives, s, index);
        let descriptor_index = match index {
            Some(x) => Some(x),
            None => match win32 {
                Some(k) => disk_drive_index(&drives[k]),
                None => None,
            },
        };
        let descriptor = match descriptor_index {
            Some(x) => find_descriptor(ds, x),
            None => None,
        };
        let w: Option<&Win32DiskDrive> = match win32 {
            Some(k) => Some(&drives[k]),
            None => None,
        };
        let d: Option<&StorageDescriptor> = match descriptor {
            Some(k) => Some(&ds[k]),
            None => None,
        };
        let disk = disk_from_storage_row(s, w, d);
        if debug_enabled {
            let rec = debug_final_disk(&disk, descriptor_index, win32.is_some(), descriptor.is_some());
            debug.push(rec);
        }
        disks.push(disk);
        i += 1;
    }
    disks
}

/// The disks that the `Win32_DiskDrive` rows describe, one per row, each
/// merged with its descriptor; with `debug_enabled`, one merge record per
/// disk is appended to `debug`.
pub fn disk_drive_rows_to_disks(
    drives: &Vec<Win32DiskDrive>,
    ds: &Vec<StorageDescriptor>,
    debug_enabled: bool,
    debug: &mut Vec<DebugRecord>,
) -> (r: Vec<DiskInfo>)
    ensures
        r@.len() == drives@.len(),
        forall|i: int|
            0 <= i < drives@.len() ==> drive_disk(
                drives@[i],
                opt_at(ds@, descriptor_of_index(ds@, drive_row_index(drives@[i]))),
                #[trigger] r@[i],
            ),
        final(debug)@.len() == old(debug)@.len() + if debug_enabled { drives@.len() } else { 0 },
        forall|j: int| 0 <= j < old(debug)@.len() ==> #[trigger] final(debug)@[j] == old(debug)@[j],
        debug_enabled ==> forall|i: int|
            0 <= i < drives@.len() ==> merge_record(
                r@[i],
                drive_row_index(drives@[i]),
                true,
                descriptor_of_index(ds@, drive_row_index(drives@[i])) is Some,
                #[trigger] final(debug)@[old(debug)@.len() + i],
            ),
{
    let ghost d0 = debug@;
    let mut disks: Vec<DiskInfo> = Vec::new();
    let mut i: usize = 0;
    while i < drives.len()
        invariant
            i <= drives.len(),
            disks@.len() == i,
            forall|k: int|
                0 <= k < i ==> drive_disk(
                    drives@[k],
                    opt_at(ds@, descriptor_of_index(ds@, drive_row_index(drives@[k]))),
                    #[trigger] disks@[k],
                ),
            debug@.len() == d0.len() + if debug_enabled { i as int } else { 0 },
            forall|j: int| 0 <= j < d0.len() ==> #[trigger] debug@[j] == d0[j],
            debug_enabled ==> forall|k: int|
                0 <= k < i ==> merge_record(
                    disks@[k],
                    drive_row_index(drives@[k]),
                    true,
                    descriptor_of_index(ds@, drive_row_index(drives@[k])) is Some,
                    #[trigger] debug@[d0.len() + k],
                ),
        decreases drives.len() - i,
    {
        let w = &drives[i];
        let index = disk_drive_index(w);
        let descriptor = match index {
            Some(x) => find_descriptor(ds, x),
            None => None,
        };
        let d: Option<&StorageDescriptor> = match descriptor {
            Some(k) => Some(&ds[k]),
            None => None,
        };
        let disk = disk_from_disk_drive_row(w, d);
        if debug_enabled {
            let rec = debug_final_disk(&disk, index, true, descriptor.is_some());
            debug.push(rec);
        }
        disks.push(disk);
        i += 1;
    }
    disks
}

// --- the queries ----------------------------------------------------------------

/// The `MSFT_PhysicalDisk` query with every column the collector reads.
pub const FULL_STORAGE_QUERY: &'static str = "SELECT DeviceId, FriendlyName, Model, SerialNumber, Size, MediaType, BusType, FirmwareVersion, HealthStatus FROM MSFT_PhysicalDisk";

/// The `MSFT_PhysicalDisk` query without `Model`, for systems that lack it.
pub const BASE_STORAGE_QUERY: &'static str = "SELECT DeviceId, FriendlyName, SerialNumber, Size, MediaType, BusType, FirmwareVersion, HealthStatus FROM MSFT_PhysicalDisk";

/// The `Win32_DiskDrive` query.
pub const DISK_DRIVE_QUERY: &'static str = "SELECT DeviceID, Index, Model, SerialNumber, Size, MediaType, InterfaceType, FirmwareRevision FROM Win32_DiskDrive";

/// The record of which storage query gave the rows.
pub open spec fn query_record(r: DebugRecord, query: Seq<char>, rows: nat, note: Option<Seq<char>>) -> bool {
    &&& r@.target == "MSFT_PhysicalDisk"@
    &&& r@.source == "native-wmi"@
    &&& r@.note == note
    &&& forall|e: (Seq<char>, Seq<char>)|
        #![trigger r@.fields.contains(e)]
        r@.fields.contains(e) <==> (e == ("query"@, query) || e == ("rows"@, decimal(rows)))
}

/// The record of which storage query gave the rows.
fn storage_query_record(query: &str, rows: usize, note: Option<&str>) -> (r: DebugRecord)
    ensures
        query_record(r, query@, rows as nat, match note { Some(n) => Some(n@), None => None }),
{
    proof {
        reveal_strlit("query");
        reveal_strlit("rows");
    }
    let rec = DebugRecord::new("MSFT_PhysicalDisk", "native-wmi");
    let rec = rec.field("query", query);
    let count = decimal_string(rows as u128);
    let rec = rec.field("rows", count.as_str());
    assert("query"@ != "rows"@) by {
        assert("query"@.len() != "rows"@.len());
    }
    assert forall|e: (Seq<char>, Seq<char>)| rec@.fields.contains(e) <==> (e == ("query"@, query@) || e == ("rows"@, decimal(rows as nat))) by {}
    match note {
        Some(n) => rec.note(n),
        None => rec,
    }
}

/// The error when both storage queries failed.
pub open spec fn both_failed_text(full_err: Seq<char>, base_err: Seq<char>) -> Seq<char> {
    "full MSFT_PhysicalDisk query failed: "@ + full_err + "; base query failed: "@ + base_err
}

/// The `MSFT_PhysicalDisk` rows, from the full query or, when it failed,
/// from the base query (`base` is its result, run only then); with
/// `debug_enabled`, a record of the query used is appended to `debug`.
pub fn storage_rows_outcome(
    full: Result<Vec<MsftPhysicalDisk>, String>,
    base: Option<Result<Vec<MsftPhysicalDisk>, String>>,
    debug_enabled: bool,
    debug: &mut Vec<DebugRecord>,
) -> (r: Result<Vec<MsftPhysicalDisk>, String>)
    requires
        full is Err ==> base is Some,
    ensures
        match full {
            Ok(rows) => r == Ok::<Vec<MsftPhysicalDisk>, String>(rows) && (if debug_enabled {
                final(debug)@.len() == old(debug)@.len() + 1 && query_record(final(debug)@.last(), FULL_STORAGE_QUERY@, rows@.len(), None)
            } else {
                final(debug)@ == old(debug)@
            }),
            Err(full_err) => match base.unwrap() {
                Ok(rows) => r == Ok::<Vec<MsftPhysicalDisk>, String>(rows) && (if debug_enabled {
                    final(debug)@.len() == old(debug)@.len() + 1 && query_record(
                        final(debug)@.last(),
                        BASE_STORAGE_QUERY@,
                        rows@.len(),
                        Some("Model query failed; used base query: "@ + full_err@),
                    )
                } else {
                    final(debug)@ == old(debug)@
                }),
                Err(base_err) => r is Err && r->Err_0@ == both_failed_text(full_err@, base_err@) && final(debug)@ == old(debug)@,
            },
        },
        final(debug)@.len() >= old(debug)@.len(),
        forall|j: int| 0 <= j < old(debug)@.len() ==> #[trigger] final(debug)@[j] == old(debug)@[j],
{
    match full {
        Ok(rows) => {
            if debug_enabled {
                debug.push(storage_query_record(FULL_STORAGE_QUERY, rows.len(), None));
            }
            Ok(rows)
        },
        Err(full_err) => match base.unwrap() {
            Ok(rows) => {
                if debug_enabled {
                    let mut note = String::from_str("Model query failed; used base query: ");
                    note.append(full_err.as_str());
                    debug.push(storage_query_record(BASE_STORAGE_QUERY, rows.len(), Some(note.as_str())));
                }
                Ok(rows)
            },
            Err(base_err) => {
                let mut e = String::from_str("full MSFT_PhysicalDisk query failed: ");
                e.append(full_err.as_str());
                e.append("; base query failed: ");
                e.append(base_err.as_str());
                Err(e)
            },
        },
    }
}

/// The rows of a query, or none with the warning `code` (whose message is
/// the query's error) appended.
pub open spec fn rows_or_warning<T>(
    result: Result<Vec<T>, String>,
    code: Seq<char>,
    hint: Seq<char>,
    old_warnings: Seq<HdrtWarning>,
    new_warnings: Seq<HdrtWarning>,
    r: Vec<T>,
) -> bool {
    match result {
        Ok(rows) => r == rows && new_warnings == old_warnings,
        Err(err) => r@.len() == 0 && new_warnings.len() == old_warnings.len() + 1
            && new_warnings.drop_last() == old_warnings
            && crate::hardware::warning::warning_is(new_warnings.last(), code, err@, hint),
    }
}

/// The storage rows, or none with a warning that disks fall back to `Win32_DiskDrive`.
pub fn storage_disks_or_warning(result: Result<Vec<MsftPhysicalDisk>, String>, warnings: &mut Vec<HdrtWarning>) -> (r: Vec<MsftPhysicalDisk>)
    ensures
        rows_or_warning(
            result,
            "windows-native-wmi-storage-unavailable"@,
            "Falling back to Win32_DiskDrive for disk inventory."@,
            old(warnings)@,
            final(warnings)@,
            r,
        ),
{
    match result {
        Ok(rows) => rows,
        Err(err) => {
            let ghost w0 = warnings@;
            warnings.push(HdrtWarning::with_hint(
                "windows-native-wmi-storage-unavailable",
                err.as_str(),
                "Falling back to Win32_DiskDrive for disk inventory.",
            ));
            assert(warnings@.drop_last() =~= w0);
            Vec::new()
        },
    }
}

/// The `Win32_DiskDrive` rows, or none with a warning.
pub fn disk_drives_or_warning(result: Result<Vec<Win32DiskDrive>, String>, warnings: &mut Vec<HdrtWarning>) -> (r: Vec<Win32DiskDrive>)
    ensures
        rows_or_warning(
            result,
            "windows-native-wmi-disk-unavailable"@,
            "Falling back may leave disk inventory incomplete."@,
            old(warnings)@,
            final(warnings)@,
            r,
        ),
{
    match result {
        Ok(rows) => rows,
        Err(err) => {
            let ghost w0 = warnings@;
            warnings.push(HdrtWarning::with_hint(
                "windows-native-wmi-disk-unavailable",
                err.as_str(),
                "Falling back may leave disk inventory incomplete.",
            ));
            assert(warnings@.drop_last() =~= w0);
            Vec::new()
        },
    }
}

// --- descriptors ------------------------------------------------------------------

/// Whether a drive number is named by a storage row or a disk-drive row.
pub open spec fn named_index(storage: Seq<MsftPhysicalDisk>, drives: Seq<Win32DiskDrive>, x: u32) -> bool {
    ||| exists|i: int| 0 <= i < storage.len() && storage_row_index(#[trigger] storage[i]) == Some(x)
    ||| exists|i: int| 0 <= i < drives.len() && drive_row_index(#[trigger] drives[i]) == Some(x)
}

/// The values strictly increase.
pub open spec fn increasing(v: Seq<u32>) -> bool {
    forall|i: int, j: int| 0 <= i < j < v.len() ==> #[trigger] v[i] < #[trigger] v[j]
}

/// The drive numbers whose descriptors are read: every number a storage
/// row or a disk-drive row names, once each, in increasing order.
pub fn descriptor_indexes(storage: &Vec<MsftPhysicalDisk>, drives: &Vec<Win32DiskDrive>) -> (r: Vec<u32>)
    ensures
        increasing(r@),
        forall|x: u32| r@.contains(x) <==> named_index(storage@, drives@, x),
{
    broadcast use vstd::std_specs::btree::group_btree_axioms;

    proof {
        lemma_u32_keys_ordered();
    }
    let mut set: BTreeSet<u32> = BTreeSet::new();
    let mut i: usize = 0;
    while i < storage.len()
        invariant
            i <= storage.len(),
            forall|x: u32| set@.contains(x) <==> (exists|k: int| 0 <= k < i && storage_row_index(#[trigger] storage@[k]) == Some(x)),
        decreases storage.len() - i,
    {
        match storage_disk_index(&storage[i]) {
            Some(x) => {
                set.insert(x);
            },
            None => {},
        }
        assert forall|x: u32| set@.contains(x) <==> (exists|k: int| 0 <= k < i + 1 && storage_row_index(#[trigger] storage@[k]) == Some(x)) by {
            if storage_row_index(storage@[i as int]) == Some(x) {
                assert(0 <= i < i + 1);
            }
        }
        i += 1;
    }
    let mut j: usize = 0;
    while j < drives.len()
        invariant
            j <= drives.len(),
            forall|x: u32| set@.contains(x) <==> ((exists|k: int| 0 <= k < storage@.len() && storage_row_index(#[trigger] storage@[k]) == Some(x))
                || (exists|k: int| 0 <= k < j && drive_row_index(#[trigger] drives@[k]) == Some(x))),
        decreases drives.len() - j,
    {
        match disk_drive_index(&drives[j]) {
            Some(x) => {
                set.insert(x);
            },
            None => {},
        }
        assert forall|x: u32| set@.contains(x) <==> ((exists|k: int| 0 <= k < storage@.len() && storage_row_index(#[trigger] storage@[k]) == Some(x))
            || (exists|k: int| 0 <= k < j + 1 && drive_row_index(#[trigger] drives@[k]) == Some(x))) by {
            if drive_row_index(drives@[j as int]) == Some(x) {
                assert(0 <= j < j + 1);
            }
        }
        j += 1;
    }
    let mut r: Vec<u32> = Vec::new();
    let ghost keys = vstd::std_specs::iter::IteratorSpec::remaining(&vstd::std_specs::btree::spec_btree_keys_iter(&set));
    for x in it: set.iter()
        invariant
            it.seq() == keys,
            r@ == keys.take(it.index()).unref(),
    {
        r.push(*x);
        assert(keys.take(it.index() + 1).unref() =~= keys.take(it.index()).unref().push(*x));
    }
    proof {
        assert(r@ =~= keys.unref());
        assert(keys.unref().to_set() =~= set@);
        lemma_sorted_keys(keys);
        assert forall|x: u32| r@.contains(x) <==> named_index(storage@, drives@, x) by {
            if r@.contains(x) {
                assert(r@.to_set().contains(x));
            }
            if set@.contains(x) {
                assert(keys.unref().to_set().contains(x));
            }
        }
    }
    r
}

/// `u32` keys are ordered as the sets and maps of `std` expect.
proof fn lemma_u32_keys_ordered()
    ensures
        vstd::laws_cmp::obeys_cmp::<u32>(),
        vstd::std_specs::btree::key_obeys_cmp_spec::<u32>(),
{
    broadcast use vstd::std_specs::btree::group_btree_axioms, vstd::laws_cmp::group_laws_cmp;

}

/// Keys that a `BTreeSet<u32>` yields in increasing order increase.
proof fn lemma_sorted_keys(keys: Seq<&u32>)
    requires
        vstd::std_specs::btree::increasing_seq(keys),
    ensures
        increasing(keys.unref()),
{
    broadcast use vstd::std_specs::btree::group_btree_axioms, vstd::laws_cmp::group_laws_cmp;

    let r = keys.unref();
    assert(vstd::laws_cmp::obeys_cmp::<u32>());
    assert(vstd::laws_cmp::obeys_cmp::<&u32>());
    assert forall|a: int, b: int| 0 <= a < b < r.len() implies #[trigger] r[a] < #[trigger] r[b] by {
        assert(vstd::std_specs::cmp::OrdSpec::cmp_spec(&keys[a], &keys[b]) is Less);
    }
}

/// The source name of descriptor records.
pub open spec fn descriptor_source() -> Seq<char> {
    "DeviceIoControl(IOCTL_STORAGE_QUERY_PROPERTY)"@
}

/// The record of a descriptor read, or of a failed read of drive `index`.
pub open spec fn descriptor_record(index: u32, result: Result<StorageDescriptor, String>, r: DebugRecord) -> bool {
    &&& r@.source == descriptor_source()
    &&& match result {
        Ok(d) => {
            &&& r@.target == d.device@
            &&& r@.note is None
            &&& forall|e: (Seq<char>, Seq<char>)|
                #![trigger r@.fields.contains(e)]
                r@.fields.contains(e) <==> seq![
                    ("vendor"@, d.vendor@),
                    ("product"@, d.product@),
                    ("revision"@, d.revision@),
                    ("serial"@, d.serial@),
                    ("bus"@, d.bus@),
                    ("raw_size"@, decimal(d.raw_size as nat)),
                ].contains(e)
        },
        Err(err) => {
            &&& r@.target == drive_name(index)
            &&& r@.note == Some(err@)
            &&& forall|e: (Seq<char>, Seq<char>)|
                #![trigger r@.fields.contains(e)]
                r@.fields.contains(e) <==> e == ("status"@, "failed"@)
        },
    }
}

/// The record of a descriptor read, or of a failed read of drive `index`.
pub fn descriptor_debug(index: u32, result: &Result<StorageDescriptor, String>) -> (r: DebugRecord)
    ensures
        descriptor_record(index, *result, r),
{
    match result {
        Ok(d) => {
            let pairs = vec![
                (String::from_str("vendor"), String::from_str(d.vendor.as_str())),
                (String::from_str("product"), String::from_str(d.product.as_str())),
                (String::from_str("revision"), String::from_str(d.revision.as_str())),
                (String::from_str("serial"), String::from_str(d.serial.as_str())),
                (String::from_str("bus"), String::from_str(d.bus.as_str())),
                (String::from_str("raw_size"), decimal_string(d.raw_size as u128)),
            ];
            proof {
                reveal_strlit("vendor");
                reveal_strlit("product");
                reveal_strlit("revision");
                reveal_strlit("serial");
                reveal_strlit("bus");
                reveal_strlit("raw_size");
            }
            let ghost ps = pair_views(pairs@);
            assert(ps =~= seq![
                ("vendor"@, d.vendor@),
                ("product"@, d.product@),
                ("revision"@, d.revision@),
                ("serial"@, d.serial@),
                ("bus"@, d.bus@),
                ("raw_size"@, decimal(d.raw_size as nat)),
            ]);
            assert(distinct_keys(ps)) by {
                assert forall|i: int, j: int| 0 <= i < j < ps.len() implies #[trigger] ps[i].0 != #[trigger] ps[j].0 by {
                    assert(ps[i].0.len() != ps[j].0.len() || ps[i].0[0] != ps[j].0[0] || ps[i].0[1] != ps[j].0[1]);
                }
            }
            DebugRecord::new(d.device.as_str(), "DeviceIoControl(IOCTL_STORAGE_QUERY_PROPERTY)").with_fields(&pairs)
        },
        Err(err) => {
            let name = drive_name_string(index);
            DebugRecord::new(name.as_str(), "DeviceIoControl(IOCTL_STORAGE_QUERY_PROPERTY)").field("status", "failed").note(
                err.as_str(),
            )
        },
    }
}

/// The descriptors that were read, in order.
pub open spec fn read_descriptors(results: Seq<Result<StorageDescriptor, String>>) -> Seq<StorageDescriptor>
    decreases results.len(),
{
    if results.len() == 0 {
        Seq::empty()
    } else {
        match results.last() {
            Ok(d) => read_descriptors(results.drop_last()).push(d),
            Err(_) => read_descriptors(results.drop_last()),
        }
    }
}

/// The descriptors that were read, given the result of reading each of
/// `indexes`; with `debug_enabled`, one record per read is appended.
pub fn descriptor_outcomes(
    indexes: &Vec<u32>,
    results: Vec<Result<StorageDescriptor, String>>,
    debug_enabled: bool,
    debug: &mut Vec<DebugRecord>,
) -> (r: Vec<StorageDescriptor>)
    requires
        results@.len() == indexes@.len(),
    ensures
        r@ == read_descriptors(results@),
        final(debug)@.len() == old(debug)@.len() + if debug_enabled { results@.len() } else { 0 },
        forall|j: int| 0 <= j < old(debug)@.len() ==> #[trigger] final(debug)@[j] == old(debug)@[j],
        debug_enabled ==> forall|i: int|
            0 <= i < results@.len() ==> descriptor_record(indexes@[i], results@[i], #[trigger] final(debug)@[old(debug)@.len() + i]),
{
    let ghost d0 = debug@;
    let ghost rs = results@;
    let mut kept: Vec<StorageDescriptor> = Vec::new();
    let mut rest = results;
    let n = rest.len();
    let mut i: usize = 0;
    while i < n
        invariant
            i <= n == rs.len() == indexes@.len(),
            rest@ == rs.skip(i as int),
            kept@ == read_descriptors(rs.take(i as int)),
            debug@.len() == d0.len() + if debug_enabled { i as int } else { 0 },
            forall|j: int| 0 <= j < d0.len() ==> #[trigger] debug@[j] == d0[j],
            debug_enabled ==> forall|k: int| 0 <= k < i ==> descriptor_record(indexes@[k], rs[k], #[trigger] debug@[d0.len() + k]),
        decreases n - i,
    {
        let res = rest.remove(0);
        assert(res == rs[i as int]);
        assert(rest@ =~= rs.skip(i + 1));
        if debug_enabled {
            debug.push(descriptor_debug(indexes[i], &res));
        }
        assert(rs.take(i + 1).drop_last() =~= rs.take(i as int));
        match res {
            Ok(d) => {
                kept.push(d);
            },
            Err(_) => {},
        }
        i += 1;
    }
    assert(rs.take(i as int) =~= rs);
    kept
}

/// The disks of the native collector: from the storage rows when there
/// are any, otherwise from the disk-drive rows.
pub fn native_disks(
    storage: &Vec<MsftPhysicalDisk>,
    drives: &Vec<Win32DiskDrive>,
    ds: &Vec<StorageDescriptor>,
    debug_enabled: bool,
    debug: &mut Vec<DebugRecord>,
) -> (r: Vec<DiskInfo>)
    ensures
        storage@.len() == 0 ==> r@.len() == drives@.len() && forall|i: int|
            0 <= i < drives@.len() ==> drive_disk(
                drives@[i],
                opt_at(ds@, descriptor_of_index(ds@, drive_row_index(drives@[i]))),
                #[trigger] r@[i],
            ),
        storage@.len() > 0 ==> r@.len() == storage@.len() && forall|i: int|
            0 <= i < storage@.len() ==> storage_disk(
                storage@[i],
                opt_at(drives@, storage_match(drives@, storage@[i])),
                opt_at(ds@, descriptor_of_index(ds@, storage_descriptor_index(drives@, storage@[i]))),
                #[trigger] r@[i],
            ),
        final(debug)@.len() == old(debug)@.len() + if debug_enabled { r@.len() } else { 0 },
        forall|j: int| 0 <= j < old(debug)@.len() ==> #[trigger] final(debug)@[j] == old(debug)@[j],
{
    if storage.len() == 0 {
        disk_drive_rows_to_disks(drives, ds, debug_enabled, debug)
    } else {
        storage_rows_to_disks(storage, drives, ds, debug_enabled, debug)
    }
}

} // verus!
