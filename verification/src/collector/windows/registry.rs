//! The inventory that the Windows registry alone gives: disks from the disk
//! driver's enumeration, the processor from its description key, and the
//! board from the BIOS key. The program reads the raw registry values; this
//! module turns them into inventory.

use vstd::prelude::*;

use crate::hardware::debug::opt_view;
use crate::hardware::{unknown, unknown_text, CpuInfo, DiskInfo, MotherboardInfo};
use crate::text::{
    chars_of, decimal, decimal_string, find, find_from, lemma_split_on_len, occurs_at, replace_char, replace_char_of,
    split_of, split_on, squeeze, squeeze_of, starts_with, string_of, trim, trim_bounds, trim_char, trim_char_of,
    trimmed, upper, upper_of, views, join, join_strings,
};

use super::native_storage::{drive_name, drive_name_string};
use super::util::{first_known, first_known_text};

verus! {

/// A registry text as collectors use it: trimmed, and absent when blank.
pub open spec fn registry_text(raw: Option<Seq<char>>) -> Option<Seq<char>> {
    match raw {
        Some(s) => if trim(s).len() > 0 { Some(trim(s)) } else { None },
        None => None,
    }
}

/// A registry text as collectors use it: trimmed, and absent when blank.
pub fn read_string(raw: &Option<String>) -> (r: Option<String>)
    ensures
        opt_view(r) == registry_text(opt_view(*raw)),
{
    match raw {
        Some(s) => {
            let t = trimmed(s.as_str());
            if t.unicode_len() > 0 {
                Some(t)
            } else {
                None
            }
        },
        None => None,
    }
}

/// The non-blank trimmed entries of a list.
pub open spec fn kept_entries(values: Seq<Seq<char>>) -> Seq<Seq<char>>
    decreases values.len(),
{
    if values.len() == 0 {
        Seq::empty()
    } else {
        let rest = kept_entries(values.drop_last());
        if trim(values.last()).len() > 0 {
            rest.push(trim(values.last()))
        } else {
            rest
        }
    }
}

/// A multi-string registry value as one text: its non-blank entries,
/// trimmed and joined by spaces, and absent when nothing is left.
pub open spec fn registry_multi_text(raw: Option<Seq<Seq<char>>>) -> Option<Seq<char>> {
    match raw {
        Some(values) => {
            let joined = join(kept_entries(values), " "@);
            if joined.len() > 0 { Some(joined) } else { None }
        },
        None => None,
    }
}

/// The views of an optional list of strings.
pub open spec fn opt_views(v: Option<Vec<String>>) -> Option<Seq<Seq<char>>> {
    match v {
        Some(list) => Some(views(list@)),
        None => None,
    }
}

/// A multi-string registry value as one text.
pub fn read_multi_string(raw: &Option<Vec<String>>) -> (r: Option<String>)
    ensures
        opt_view(r) == registry_multi_text(opt_views(*raw)),
{
    match raw {
        Some(values) => {
            let mut kept: Vec<String> = Vec::new();
            let mut i: usize = 0;
            while i < values.len()
                invariant
                    i <= values.len(),
                    views(kept@) == kept_entries(views(values@).take(i as int)),
                decreases values.len() - i,
            {
                let t = trimmed(values[i].as_str());
                let ghost before = views(kept@);
                assert(views(values@).take(i + 1).drop_last() =~= views(values@).take(i as int));
                assert(views(values@).take(i + 1).last() == values@[i as int]@);
                if t.unicode_len() > 0 {
                    kept.push(t);
                    assert(views(kept@) =~= before.push(t@));
                }
                i += 1;
            }
            assert(views(values@).take(i as int) =~= views(values@));
            let joined = join_strings(&kept, " ");
            if joined.unicode_len() > 0 {
                Some(joined)
            } else {
                None
            }
        },
        None => None,
    }
}

/// A disk identifier part made readable: trimmed, stripped of enclosing
/// underscores, underscores turned into spaces and white space collapsed.
pub open spec fn clean_text(value: Seq<char>) -> Seq<char> {
    squeeze(replace_char(trim_char(trim(value), '_'), '_', ' '))
}

/// A disk identifier part made readable.
pub fn clean_disk_value(value: &str) -> (r: String)
    ensures
        r@ == clean_text(value@),
{
    let v = chars_of(value);
    let (lo, hi) = trim_bounds(&v);
    let t = chars_of(crate::text::string_of_range(&v, lo, hi).as_str());
    let stripped = trim_char_of(&t, '_');
    let spaced = replace_char_of(&stripped, '_', ' ');
    string_of(&squeeze_of(&spaced))
}

/// What follows `prefix` in the first of `parts` that starts with it.
pub open spec fn after_prefix(parts: Seq<Seq<char>>, prefix: Seq<char>) -> Option<Seq<char>>
    decreases parts.len(),
{
    if parts.len() == 0 {
        None
    } else if starts_with(parts[0], prefix) {
        Some(parts[0].skip(prefix.len() as int))
    } else {
        after_prefix(parts.drop_first(), prefix)
    }
}

/// One `&`-separated component of a device descriptor such as
/// `Disk&Ven_Samsung&Prod_SSD&Rev_1.0`: the cleaned text after the first
/// part that starts with `prefix`, or the placeholder.
pub open spec fn component_text(descriptor: Seq<char>, prefix: Seq<char>) -> Seq<char> {
    match after_prefix(split_on(descriptor, '&'), prefix) {
        Some(rest) => if clean_text(rest).len() > 0 { clean_text(rest) } else { unknown_text() },
        None => unknown_text(),
    }
}

/// One `&`-separated component of a device descriptor.
pub fn disk_component(descriptor: &str, prefix: &str) -> (r: String)
    ensures
        r@ == component_text(descriptor@, prefix@),
{
    let parts = split_of(descriptor, '&');
    let p = chars_of(prefix);
    let ghost ps = views(parts@);
    assert(ps.skip(0) =~= ps);
    let mut i: usize = 0;
    while i < parts.len()
        invariant
            i <= parts.len(),
            ps == views(parts@),
            ps == split_on(descriptor@, '&'),
            p@ == prefix@,
            after_prefix(ps, prefix@) == after_prefix(ps.skip(i as int), prefix@),
        decreases parts.len() - i,
    {
        let v = chars_of(parts[i].as_str());
        assert(ps.skip(i as int)[0] == v@);
        if occurs_at(&v, &p, 0) {
            assert(v@.subrange(0, p@.len() as int) =~= v@.subrange(0, (0 + p@.len()) as int));
            let rest = crate::text::string_of_range(&v, p.len(), v.len());
            assert(rest@ =~= v@.skip(p@.len() as int));
            assert(starts_with(ps.skip(i as int)[0], prefix@));
            assert(after_prefix(ps.skip(i as int), prefix@) == Some(rest@));
            let c = clean_disk_value(rest.as_str());
            if c.unicode_len() > 0 {
                return c;
            }
            return unknown();
        }
        assert(ps.skip(i as int).drop_first() =~= ps.skip(i + 1));
        i += 1;
    }
    assert(ps.skip(i as int).len() == 0);
    unknown()
}

/// Whether `p` occurs in `s`.
pub open spec fn contains_text(s: Seq<char>, p: Seq<char>) -> bool {
    find(s, p) >= 0
}

/// The bus a device instance path implies: USB storage, NVMe, SCSI or IDE
/// by its prefix or vendor, and otherwise the cleaned enumerator name.
pub open spec fn bus_text(bus: Seq<char>, id: Seq<char>) -> Seq<char> {
    let u = upper(id);
    if starts_with(u, "USBSTOR"@) {
        "USB"@
    } else if contains_text(u, "VEN_NVME"@) || contains_text(u, "\\NVME"@) {
        "NVMe"@
    } else if starts_with(u, "SCSI"@) {
        "SCSI/SATA"@
    } else if starts_with(u, "IDE"@) {
        "IDE/SATA"@
    } else {
        clean_text(bus)
    }
}

/// Whether `p` occurs in `v`.
fn contains_chars(v: &Vec<char>, p: &str) -> (r: bool)
    ensures
        r == contains_text(v@, p@),
{
    let pc = chars_of(p);
    assert(v@.skip(0) =~= v@);
    find_from(v, &pc, 0).is_some()
}

/// Whether `v` starts with `p`.
fn starts_with_chars(v: &Vec<char>, p: &str) -> (r: bool)
    ensures
        r == starts_with(v@, p@),
{
    let pc = chars_of(p);
    let r = occurs_at(v, &pc, 0);
    assert(v@.subrange(0, (0 + pc@.len()) as int) =~= v@.subrange(0, pc@.len() as int));
    r
}

/// The bus a device instance path implies.
pub fn disk_bus(bus: &str, id: &str) -> (r: String)
    ensures
        r@ == bus_text(bus@, id@),
{
    let u = upper_of(&chars_of(id));
    if starts_with_chars(&u, "USBSTOR") {
        String::from_str("USB")
    } else if contains_chars(&u, "VEN_NVME") || contains_chars(&u, "\\NVME") {
        String::from_str("NVMe")
    } else if starts_with_chars(&u, "SCSI") {
        String::from_str("SCSI/SATA")
    } else if starts_with_chars(&u, "IDE") {
        String::from_str("IDE/SATA")
    } else {
        clean_disk_value(bus)
    }
}

/// A brand and a product name together, leaving out whichever is unknown.
pub open spec fn joined_known(left: Seq<char>, right: Seq<char>) -> Seq<char> {
    if left == unknown_text() && right == unknown_text() {
        unknown_text()
    } else if left == unknown_text() {
        right
    } else if right == unknown_text() {
        left
    } else {
        left + " "@ + right
    }
}

/// A brand and a product name together, leaving out whichever is unknown.
pub fn join_known(left: &str, right: &str) -> (r: String)
    ensures
        r@ == joined_known(left@, right@),
{
    let lu = crate::hardware::is_unknown(left);
    let ru = crate::hardware::is_unknown(right);
    if lu && ru {
        unknown()
    } else if lu {
        String::from_str(right)
    } else if ru {
        String::from_str(left)
    } else {
        let mut r = String::from_str(left);
        r.append(" ");
        r.append(right);
        r
    }
}

/// The parts of a device instance path, `bus\descriptor\instance`.
pub open spec fn id_parts(id: Seq<char>) -> Seq<Seq<char>> {
    split_on(id, '\\')
}

/// The descriptor part of a device instance path, or nothing.
pub open spec fn id_descriptor(id: Seq<char>) -> Seq<char> {
    if id_parts(id).len() > 1 { id_parts(id)[1] } else { Seq::empty() }
}

/// The serial number a device instance path carries in its third part.
pub open spec fn id_serial(id: Seq<char>) -> Seq<char> {
    if id_parts(id).len() > 2 && clean_text(id_parts(id)[2]).len() > 0 {
        clean_text(id_parts(id)[2])
    } else {
        unknown_text()
    }
}

/// The model a device instance path names: brand and product, the
/// product, the cleaned descriptor, or the whole path.
pub open spec fn id_model(id: Seq<char>) -> Seq<char> {
    let d = id_descriptor(id);
    first_known_text(seq![
        joined_known(component_text(d, "Ven_"@), component_text(d, "Prod_"@)),
        component_text(d, "Prod_"@),
        clean_text(d),
        id,
    ])
}

/// The disk that the driver's enumeration entry `index`, with device
/// instance path `id`, describes.
pub open spec fn pnp_disk(index: u32, id: Seq<char>, d: DiskInfo) -> bool {
    &&& d.device@ == drive_name(index)
    &&& d.model@ == id_model(id)
    &&& d.serial@ == id_serial(id)
    &&& d.size@ == unknown_text()
    &&& d.media_type@ == "Physical"@
    &&& d.bus@ == bus_text(id_parts(id)[0], id)
    &&& d.firmware@ == component_text(id_descriptor(id), "Rev_"@)
    &&& d.health@ == unknown_text()
    &&& d.source@ == "registry"@
    &&& d.warnings@.len() == 0
}

/// The disk that the driver's enumeration entry `index` describes.
pub fn disk_from_pnp_id(index: u32, id: &str) -> (r: DiskInfo)
    ensures
        pnp_disk(index, id@, r),
{
    let parts = split_of(id, '\\');
    proof {
        lemma_split_on_len(id@, '\\');
    }
    let bus = disk_bus(parts[0].as_str(), id);
    let descriptor: &str = if parts.len() > 1 { parts[1].as_str() } else { "" };
    proof {
        reveal_strlit("");
        if parts.len() > 1 {
            assert(views(parts@)[1] == parts@[1]@);
        }
    }
    assert(descriptor@ == id_descriptor(id@));
    let serial = if parts.len() > 2 {
        let c = clean_disk_value(parts[2].as_str());
        if c.unicode_len() > 0 { c } else { unknown() }
    } else {
        unknown()
    };
    let brand = disk_component(descriptor, "Ven_");
    let product = disk_component(descriptor, "Prod_");
    let firmware = disk_component(descriptor, "Rev_");
    let candidates = vec![join_known(brand.as_str(), product.as_str()), product, clean_disk_value(descriptor), String::from_str(id)];
    assert(views(candidates@) =~= seq![
        joined_known(component_text(descriptor@, "Ven_"@), component_text(descriptor@, "Prod_"@)),
        component_text(descriptor@, "Prod_"@),
        clean_text(descriptor@),
        id@,
    ]);
    let model = first_known(&candidates);
    DiskInfo {
        device: drive_name_string(index),
        model,
        serial,
        size: unknown(),
        media_type: String::from_str("Physical"),
        bus,
        firmware,
        health: unknown(),
        source: String::from_str("registry"),
        warnings: Vec::new(),
    }
}

/// The enumeration entries that hold a device path, with their index.
pub open spec fn listed_disks(ids: Seq<Option<Seq<char>>>, disks: Seq<DiskInfo>) -> bool
    decreases ids.len(),
{
    if ids.len() == 0 {
        disks.len() == 0
    } else {
        match registry_text(ids.last()) {
            Some(id) => disks.len() > 0 && pnp_disk((ids.len() - 1) as u32, id, disks.last())
                && listed_disks(ids.drop_last(), disks.drop_last()),
            None => listed_disks(ids.drop_last(), disks),
        }
    }
}

/// The views of a list of optional strings.
pub open spec fn opt_list_view(v: Seq<Option<String>>) -> Seq<Option<Seq<char>>> {
    v.map_values(|o: Option<String>| opt_view(o))
}

/// The disks of the disk driver's enumeration: entry `i` of `ids` is the
/// raw value named `i` under its key (the key's `Count` gives how many
/// there are); each entry that holds a device path gives one disk, in order.
pub fn physical_disks(ids: &Vec<Option<String>>) -> (r: Vec<DiskInfo>)
    requires
        ids@.len() <= u32::MAX,
    ensures
        listed_disks(opt_list_view(ids@), r@),
{
    let ghost iv = opt_list_view(ids@);
    let mut disks: Vec<DiskInfo> = Vec::new();
    let mut i: usize = 0;
    while i < ids.len()
        invariant
            i <= ids.len() <= u32::MAX,
            iv == opt_list_view(ids@),
            listed_disks(iv.take(i as int), disks@),
        decreases ids.len() - i,
    {
        assert(iv.take(i + 1).drop_last() =~= iv.take(i as int));
        assert(iv.take(i + 1).last() == opt_view(ids@[i as int]));
        match read_string(&ids[i]) {
            Some(id) => {
                let d = disk_from_pnp_id(i as u32, id.as_str());
                let ghost before = disks@;
                disks.push(d);
                assert(disks@.drop_last() =~= before);
            },
            None => {},
        }
        i += 1;
    }
    assert(iv.take(i as int) =~= iv);
    disks
}

/// The processor that the registry describes, unless it names none of
/// model, vendor and clock: `threads` is the number of processor subkeys
/// (absent when the key cannot be opened).
pub open spec fn registry_cpu(
    model: Option<Seq<char>>,
    vendor: Option<Seq<char>>,
    mhz: Option<u32>,
    threads: Option<usize>,
    r: Option<CpuInfo>,
) -> bool {
    let m = match registry_text(model) { Some(s) => s, None => unknown_text() };
    let v = match registry_text(vendor) { Some(s) => s, None => unknown_text() };
    let f = match mhz { Some(x) => decimal(x as nat) + " MHz"@, None => unknown_text() };
    if m == unknown_text() && v == unknown_text() && f == unknown_text() {
        r is None
    } else {
        &&& r is Some
        &&& r->0.model@ == m
        &&& r->0.vendor@ == v
        &&& r->0.frequency@ == f
        &&& r->0.physical_cores is None
        &&& r->0.logical_threads == (match threads { Some(n) => if n > 0 { Some(n) } else { None }, None => None })
        &&& r->0.source@ == "registry"@
        &&& r->0.warnings@.len() == 0
    }
}

/// The processor that the registry describes: `model` and `vendor` are the
/// raw `ProcessorNameString` and `VendorIdentifier`, `mhz` the `~MHz` value.
pub fn cpu_info(model: &Option<String>, vendor: &Option<String>, mhz: Option<u32>, threads: Option<usize>) -> (r: Option<CpuInfo>)
    ensures
        registry_cpu(opt_view(*model), opt_view(*vendor), mhz, threads, r),
{
    let m = match read_string(model) {
        Some(s) => s,
        None => unknown(),
    };
    let v = match read_string(vendor) {
        Some(s) => s,
        None => unknown(),
    };
    let f = match mhz {
        Some(x) => {
            let mut f = decimal_string(x as u128);
            f.append(" MHz");
            f
        },
        None => unknown(),
    };
    if crate::hardware::is_unknown(m.as_str()) && crate::hardware::is_unknown(v.as_str()) && crate::hardware::is_unknown(
        f.as_str(),
    ) {
        return None;
    }
    let logical_threads = match threads {
        Some(n) => if n > 0 { Some(n) } else { None },
        None => None,
    };
    Some(CpuInfo {
        model: m,
        vendor: v,
        physical_cores: None,
        logical_threads,
        frequency: f,
        source: String::from_str("registry"),
        warnings: Vec::new(),
    })
}

/// The raw values of the BIOS key that the board is read from.
pub struct BiosValues {
    pub base_board_manufacturer: Option<String>,
    pub system_manufacturer: Option<String>,
    pub base_board_product: Option<String>,
    pub system_product_name: Option<String>,
    pub base_board_version: Option<String>,
    pub base_board_serial_number: Option<String>,
    pub bios_vendor: Option<String>,
    pub bios_version: Option<String>,
    pub bios_version_list: Option<Vec<String>>,
    pub system_bios_version: Option<String>,
}

/// A registry text, or the placeholder.
pub open spec fn text_or_unknown(raw: Option<String>) -> Seq<char> {
    match registry_text(opt_view(raw)) {
        Some(s) => s,
        None => unknown_text(),
    }
}

/// The board that the BIOS key describes, unless it names none of
/// manufacturer, product, BIOS vendor and BIOS version.
pub open spec fn registry_board(b: BiosValues, r: Option<MotherboardInfo>) -> bool {
    let manufacturer = first_known_text(seq![text_or_unknown(b.base_board_manufacturer), text_or_unknown(b.system_manufacturer)]);
    let product = first_known_text(seq![text_or_unknown(b.base_board_product), text_or_unknown(b.system_product_name)]);
    let bios_vendor = text_or_unknown(b.bios_vendor);
    let bios_version = first_known_text(seq![
        text_or_unknown(b.bios_version),
        match registry_multi_text(opt_views(b.bios_version_list)) { Some(s) => s, None => unknown_text() },
        text_or_unknown(b.system_bios_version),
    ]);
    if manufacturer == unknown_text() && product == unknown_text() && bios_vendor == unknown_text()
        && bios_version == unknown_text() {
        r is None
    } else {
        &&& r is Some
        &&& r->0.manufacturer@ == manufacturer
        &&& r->0.product@ == product
        &&& r->0.version@ == text_or_unknown(b.base_board_version)
        &&& r->0.serial@ == text_or_unknown(b.base_board_serial_number)
        &&& r->0.bios_vendor@ == bios_vendor
        &&& r->0.bios_version@ == bios_version
        &&& r->0.source@ == "registry"@
        &&& r->0.warnings@.len() == 0
    }
}

/// A registry text, or the placeholder.
fn string_or_unknown(raw: &Option<String>) -> (r: String)
    ensures
        r@ == text_or_unknown(*raw),
{
    match read_string(raw) {
        Some(s) => s,
        None => unknown(),
    }
}

/// The board that the BIOS key describes.
pub fn motherboard_info(b: &BiosValues) -> (r: Option<MotherboardInfo>)
    ensures
        registry_board(*b, r),
{
    let c1 = vec![string_or_unknown(&b.base_board_manufacturer), string_or_unknown(&b.system_manufacturer)];
    assert(views(c1@) =~= seq![text_or_unknown(b.base_board_manufacturer), text_or_unknown(b.system_manufacturer)]);
    let manufacturer = first_known(&c1);
    let c2 = vec![string_or_unknown(&b.base_board_product), string_or_unknown(&b.system_product_name)];
    assert(views(c2@) =~= seq![text_or_unknown(b.base_board_product), text_or_unknown(b.system_product_name)]);
    let product = first_known(&c2);
    let listed = match read_multi_string(&b.bios_version_list) {
        Some(s) => s,
        None => unknown(),
    };
    let c3 = vec![string_or_unknown(&b.bios_version), listed, string_or_unknown(&b.system_bios_version)];
    assert(views(c3@) =~= seq![
        text_or_unknown(b.bios_version),
        match registry_multi_text(opt_views(b.bios_version_list)) { Some(s) => s, None => unknown_text() },
        text_or_unknown(b.system_bios_version),
    ]);
    let bios_version = first_known(&c3);
    let bios_vendor = string_or_unknown(&b.bios_vendor);
    if crate::hardware::is_unknown(manufacturer.as_str()) && crate::hardware::is_unknown(product.as_str())
        && crate::hardware::is_unknown(bios_vendor.as_str()) && crate::hardware::is_unknown(bios_version.as_str()) {
        return None;
    }
    Some(MotherboardInfo {
        manufacturer,
        product,
        version: string_or_unknown(&b.base_board_version),
        serial: string_or_unknown(&b.base_board_serial_number),
        bios_vendor,
        bios_version,
        source: String::from_str("registry"),
        warnings: Vec::new(),
    })
}

/// The registry never gives a physical core count; its thread count is the
/// number of processor subkeys, when there is at least one.
pub proof fn lemma_registry_cpu_counts(
    model: Option<Seq<char>>,
    vendor: Option<Seq<char>>,
    mhz: Option<u32>,
    threads: Option<usize>,
    r: Option<CpuInfo>,
)
    requires
        registry_cpu(model, vendor, mhz, threads, r),
    ensures
        r matches Some(c) ==> c.physical_cores is None,
        r is Some && threads is Some && threads->0 > 0 ==> r->0.logical_threads == threads,
        r is Some && (threads is None || threads == Some(0usize)) ==> r->0.logical_threads is None,
{
}

} // verus!
