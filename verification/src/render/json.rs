//! The title and label table that decorate JSON output when emoji are on.
//! The JSON text itself is written by the program around the library.

use vstd::prelude::*;

use crate::hardware::debug::{keys_sorted, pair_views, set_sorted};
use crate::hardware::Section;
use crate::i18n::Lang;

use super::table::key_views;
use super::{label, label_text};

verus! {

/// The label key of a section's title.
pub open spec fn section_key_text(section: Section) -> Seq<char> {
    match section {
        Section::Disk => "section.disk"@,
        Section::PhysicalDisk => "section.physical_disk"@,
        Section::LogicalDisk => "section.logical_disk"@,
        Section::Memory => "section.memory"@,
        Section::Cpu => "section.cpu"@,
        Section::Motherboard => "section.motherboard"@,
        Section::All => "section.all"@,
    }
}

/// The label key of a section's title.
pub fn section_key(section: Section) -> (r: &'static str)
    ensures
        r@ == section_key_text(section),
{
    match section {
        Section::Disk => "section.disk",
        Section::PhysicalDisk => "section.physical_disk",
        Section::LogicalDisk => "section.logical_disk",
        Section::Memory => "section.memory",
        Section::Cpu => "section.cpu",
        Section::Motherboard => "section.motherboard",
        Section::All => "section.all",
    }
}

/// The title of a section's JSON output.
pub fn section_title(section: Section, lang: Lang, emoji: bool) -> (r: String)
    ensures
        r@ == label_text(lang, section_key_text(section), emoji),
{
    label(lang, section_key(section), emoji)
}

/// The physical-disk label keys.
pub open spec fn disk_label_keys() -> Seq<Seq<char>> {
    seq![
        "disk.device"@,
        "disk.model"@,
        "disk.brand"@,
        "disk.serial"@,
        "disk.size"@,
        "disk.kind"@,
        "disk.bus"@,
        "disk.firmware"@,
        "disk.health"@,
    ]
}

/// The logical-disk label keys.
pub open spec fn volume_label_keys() -> Seq<Seq<char>> {
    seq!["disk.device"@, "disk.mount"@, "disk.filesystem"@, "disk.size"@, "disk.used"@, "disk.available"@, "disk.used_percent"@]
}

/// The memory label keys.
pub open spec fn memory_label_keys() -> Seq<Seq<char>> {
    seq!["memory.slot"@, "memory.size"@, "memory.speed"@, "memory.manufacturer"@, "memory.part_number"@, "memory.serial"@]
}

/// The processor label keys.
pub open spec fn cpu_label_keys() -> Seq<Seq<char>> {
    seq!["cpu.model"@, "cpu.vendor"@, "cpu.physical_cores"@, "cpu.logical_threads"@, "cpu.frequency"@]
}

/// The motherboard label keys.
pub open spec fn board_label_keys() -> Seq<Seq<char>> {
    seq![
        "motherboard.manufacturer"@,
        "motherboard.product"@,
        "motherboard.version"@,
        "motherboard.serial"@,
        "motherboard.bios_vendor"@,
        "motherboard.bios_version"@,
    ]
}

/// The label keys a section's JSON output explains: its title, its fields,
/// and the warning labels.
pub open spec fn label_keys(section: Section) -> Seq<Seq<char>> {
    let tail = seq!["warnings"@, "hint"@];
    match section {
        Section::Disk => seq!["section.disk"@] + disk_label_keys() + tail,
        Section::PhysicalDisk => seq!["section.physical_disk"@] + disk_label_keys() + tail,
        Section::LogicalDisk => seq!["section.logical_disk"@] + volume_label_keys() + tail,
        Section::Memory => seq!["section.memory"@] + memory_label_keys() + tail,
        Section::Cpu => seq!["section.cpu"@] + cpu_label_keys() + tail,
        Section::Motherboard => seq!["section.motherboard"@] + board_label_keys() + tail,
        Section::All => seq!["section.all"@, "section.disk"@, "section.memory"@, "section.cpu"@, "section.motherboard"@]
            + disk_label_keys() + memory_label_keys() + cpu_label_keys() + board_label_keys() + tail,
    }
}

/// The label keys a section's JSON output explains.
pub fn report_label_keys(section: Section) -> (r: Vec<&'static str>)
    ensures
        key_views(r@) == label_keys(section),
{
    let r = match section {
        Section::Disk => vec![
            "section.disk", "disk.device", "disk.model", "disk.brand", "disk.serial", "disk.size", "disk.kind",
            "disk.bus", "disk.firmware", "disk.health", "warnings", "hint",
        ],
        Section::PhysicalDisk => vec![
            "section.physical_disk", "disk.device", "disk.model", "disk.brand", "disk.serial", "disk.size",
            "disk.kind", "disk.bus", "disk.firmware", "disk.health", "warnings", "hint",
        ],
        Section::LogicalDisk => vec![
            "section.logical_disk", "disk.device", "disk.mount", "disk.filesystem", "disk.size", "disk.used",
            "disk.available", "disk.used_percent", "warnings", "hint",
        ],
        Section::Memory => vec![
            "section.memory", "memory.slot", "memory.size", "memory.speed", "memory.manufacturer",
            "memory.part_number", "memory.serial", "warnings", "hint",
        ],
        Section::Cpu => vec![
            "section.cpu", "cpu.model", "cpu.vendor", "cpu.physical_cores", "cpu.logical_threads", "cpu.frequency",
            "warnings", "hint",
        ],
        Section::Motherboard => vec![
            "section.motherboard", "motherboard.manufacturer", "motherboard.product", "motherboard.version",
            "motherboard.serial", "motherboard.bios_vendor", "motherboard.bios_version", "warnings", "hint",
        ],
        Section::All => vec![
            "section.all", "section.disk", "section.memory", "section.cpu", "section.motherboard", "disk.device",
            "disk.model", "disk.brand", "disk.serial", "disk.size", "disk.kind", "disk.bus", "disk.firmware",
            "disk.health", "memory.slot", "memory.size", "memory.speed", "memory.manufacturer",
            "memory.part_number", "memory.serial", "cpu.model", "cpu.vendor", "cpu.physical_cores",
            "cpu.logical_threads", "cpu.frequency", "motherboard.manufacturer", "motherboard.product",
            "motherboard.version", "motherboard.serial", "motherboard.bios_vendor", "motherboard.bios_version",
            "warnings", "hint",
        ],
    };
    assert(key_views(r@) =~= label_keys(section));
    r
}

/// `m` maps each of `keys` to its label, in key order, each key once.
pub open spec fn is_label_map(keys: Seq<Seq<char>>, m: Seq<(Seq<char>, Seq<char>)>, lang: Lang, emoji: bool) -> bool {
    &&& keys_sorted(m)
    &&& forall|e: (Seq<char>, Seq<char>)|
        #![trigger m.contains(e)]
        m.contains(e) <==> (keys.contains(e.0) && e.1 == label_text(lang, e.0, emoji))
}

/// The labels of `keys`, as a key-ordered table.
pub fn labels(keys: &Vec<&str>, lang: Lang, emoji: bool) -> (r: Vec<(String, String)>)
    ensures
        is_label_map(key_views(keys@), pair_views(r@), lang, emoji),
{
    let ghost ks = key_views(keys@);
    let mut r: Vec<(String, String)> = Vec::new();
    assert(pair_views(r@) =~= Seq::empty());
    let mut i: usize = 0;
    while i < keys.len()
        invariant
            i <= keys.len(),
            ks == key_views(keys@),
            is_label_map(ks.take(i as int), pair_views(r@), lang, emoji),
        decreases keys.len() - i,
    {
        let ghost before = pair_views(r@);
        let l = label(lang, keys[i], emoji);
        set_sorted(&mut r, keys[i], l.as_str());
        let ghost after = pair_views(r@);
        let ghost k = keys@[i as int]@;
        assert(ks[i as int] == k);
        assert(ks.take(i + 1) =~= ks.take(i as int).push(k));
        assert forall|e: (Seq<char>, Seq<char>)|
            #![trigger after.contains(e)]
            after.contains(e) <==> (ks.take(i + 1).contains(e.0) && e.1 == label_text(lang, e.0, emoji)) by {
            if after.contains(e) {
                if e == (k, l@) {
                    assert(ks.take(i + 1)[i as int] == k);
                } else {
                    assert(before.contains(e));
                    let pre = ks.take(i as int);
                    let j = choose|j: int| 0 <= j < pre.len() && pre[j] == e.0;
                    assert(ks.take(i + 1)[j] == e.0);
                }
            }
            if ks.take(i + 1).contains(e.0) && e.1 == label_text(lang, e.0, emoji) {
                if e.0 != k {
                    let pre = ks.take(i + 1);
                    let j = choose|j: int| 0 <= j < pre.len() && pre[j] == e.0;
                    assert(j != i as int);
                    assert(ks.take(i as int)[j] == e.0);
                    assert(ks.take(i as int).contains(e.0));
                    assert(before.contains(e));
                }
            }
        }
        i += 1;
    }
    assert(ks.take(i as int) =~= ks);
    r
}

} // verus!
