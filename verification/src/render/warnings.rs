//! Gathering the warnings a section shows, and listing them in a table report.

use vstd::prelude::*;

use crate::hardware::warning::{copy_warnings, extend_warnings};
use crate::hardware::{CpuInfo, DiskInfo, HardwareReport, HdrtWarning, LogicalDiskInfo, MemoryDevice, MotherboardInfo, Section};
use crate::i18n::Lang;
use crate::text::{join, views};

use super::label_text;
use super::style::{key_text, warning_text, TextStyle};

verus! {

/// Whether `section` shows physical disks.
pub open spec fn shows_physical(section: Section) -> bool {
    section == Section::Disk || section == Section::PhysicalDisk || section == Section::All
}

/// Whether `section` shows logical disks.
pub open spec fn shows_logical(section: Section) -> bool {
    section == Section::Disk || section == Section::LogicalDisk || section == Section::All
}

/// Whether `section` shows memory modules.
pub open spec fn shows_memory(section: Section) -> bool {
    section == Section::Memory || section == Section::All
}

/// Whether `section` shows the processor.
pub open spec fn shows_cpu(section: Section) -> bool {
    section == Section::Cpu || section == Section::All
}

/// Whether `section` shows the motherboard.
pub open spec fn shows_motherboard(section: Section) -> bool {
    section == Section::Motherboard || section == Section::All
}

/// The warnings of every physical disk, disk by disk.
pub open spec fn physical_disk_warnings(ds: Seq<DiskInfo>) -> Seq<HdrtWarning>
    decreases ds.len(),
{
    if ds.len() == 0 {
        Seq::empty()
    } else {
        physical_disk_warnings(ds.drop_last()) + ds.last().warnings@
    }
}

/// The warnings of every logical disk, disk by disk.
pub open spec fn logical_disk_warnings(ds: Seq<LogicalDiskInfo>) -> Seq<HdrtWarning>
    decreases ds.len(),
{
    if ds.len() == 0 {
        Seq::empty()
    } else {
        logical_disk_warnings(ds.drop_last()) + ds.last().warnings@
    }
}

/// The warnings of every memory module, module by module.
pub open spec fn memory_warnings(ms: Seq<MemoryDevice>) -> Seq<HdrtWarning>
    decreases ms.len(),
{
    if ms.len() == 0 {
        Seq::empty()
    } else {
        memory_warnings(ms.drop_last()) + ms.last().warnings@
    }
}

/// The warnings a section shows: the report's own, then those of each kind
/// of entry the section shows, in the order disks, volumes, memory, CPU, board.
pub open spec fn section_warnings(report: HardwareReport, section: Section) -> Seq<HdrtWarning> {
    report.warnings@
        + (if shows_physical(section) { physical_disk_warnings(report.physical_disks@) } else { Seq::empty() })
        + (if shows_logical(section) { logical_disk_warnings(report.logical_disks@) } else { Seq::empty() })
        + (if shows_memory(section) { memory_warnings(report.memory@) } else { Seq::empty() })
        + (if shows_cpu(section) && report.cpu is Some { report.cpu.unwrap().warnings@ } else { Seq::empty() })
        + (if shows_motherboard(section) && report.motherboard is Some {
            report.motherboard.unwrap().warnings@
        } else {
            Seq::empty()
        })
}

/// The warnings shown with `section`.
pub fn collect(report: &HardwareReport, section: Section) -> (r: Vec<HdrtWarning>)
    ensures
        r@ == section_warnings(*report, section),
{
    let mut warnings = copy_warnings(&report.warnings);
    let ghost w0 = warnings@;
    if section == Section::Disk || section == Section::PhysicalDisk || section == Section::All {
        let mut i: usize = 0;
        while i < report.physical_disks.len()
            invariant
                i <= report.physical_disks.len(),
                warnings@ == w0 + physical_disk_warnings(report.physical_disks@.take(i as int)),
            decreases report.physical_disks.len() - i,
        {
            extend_warnings(&mut warnings, &report.physical_disks[i].warnings);
            assert(report.physical_disks@.take(i + 1).drop_last() =~= report.physical_disks@.take(i as int));
            i += 1;
        }
        assert(report.physical_disks@.take(i as int) =~= report.physical_disks@);
    }
    let ghost w1 = warnings@;
    if section == Section::Disk || section == Section::LogicalDisk || section == Section::All {
        let mut i: usize = 0;
        while i < report.logical_disks.len()
            invariant
                i <= report.logical_disks.len(),
                warnings@ == w1 + logical_disk_warnings(report.logical_disks@.take(i as int)),
            decreases report.logical_disks.len() - i,
        {
            extend_warnings(&mut warnings, &report.logical_disks[i].warnings);
            assert(report.logical_disks@.take(i + 1).drop_last() =~= report.logical_disks@.take(i as int));
            i += 1;
        }
        assert(report.logical_disks@.take(i as int) =~= report.logical_disks@);
    }
    let ghost w2 = warnings@;
    if section == Section::Memory || section == Section::All {
        let mut i: usize = 0;
        while i < report.memory.len()
            invariant
                i <= report.memory.len(),
                warnings@ == w2 + memory_warnings(report.memory@.take(i as int)),
            decreases report.memory.len() - i,
        {
            extend_warnings(&mut warnings, &report.memory[i].warnings);
            assert(report.memory@.take(i + 1).drop_last() =~= report.memory@.take(i as int));
            i += 1;
        }
        assert(report.memory@.take(i as int) =~= report.memory@);
    }
    let ghost w3 = warnings@;
    if section == Section::Cpu || section == Section::All {
        if let Some(cpu) = &report.cpu {
            extend_warnings(&mut warnings, &cpu.warnings);
        }
    }
    let ghost w4 = warnings@;
    if section == Section::Motherboard || section == Section::All {
        if let Some(board) = &report.motherboard {
            extend_warnings(&mut warnings, &board.warnings);
        }
    }
    assert(warnings@ =~= section_warnings(*report, section));
    warnings
}

/// The lines listing `ws`: each warning as `- [code] message`, followed by
/// an indented hint line when it has a hint.
pub open spec fn warning_item_lines(ws: Seq<HdrtWarning>, lang: Lang, emoji: bool, style: TextStyle) -> Seq<Seq<char>>
    decreases ws.len(),
{
    if ws.len() == 0 {
        Seq::empty()
    } else {
        let w = ws.last();
        let item = "- ["@ + warning_text(style, w.code@) + "] "@ + w.message@;
        warning_item_lines(ws.drop_last(), lang, emoji, style) + match w.hint {
            Some(h) => seq![item, "  "@ + key_text(style, label_text(lang, "hint"@, emoji)) + ": "@ + h@],
            None => seq![item],
        }
    }
}

/// The warnings block of a table report.
pub open spec fn warnings_block(ws: Seq<HdrtWarning>, lang: Lang, emoji: bool, style: TextStyle) -> Seq<char> {
    join(
        seq![warning_text(style, label_text(lang, "warnings"@, emoji)) + ":"@] + warning_item_lines(ws, lang, emoji, style),
        "\n"@,
    )
}

/// Lists `warnings` under a "Warnings:" heading.
pub fn render(warnings: &Vec<HdrtWarning>, lang: Lang, emoji_enabled: bool, style: TextStyle) -> (r: String)
    ensures
        r@ == warnings_block(warnings@, lang, emoji_enabled, style),
{
    let warning_label = super::label(lang, "warnings", emoji_enabled);
    let hint_label = super::label(lang, "hint", emoji_enabled);
    let mut lines: Vec<String> = Vec::new();
    let mut head = style.warning(warning_label.as_str());
    head.append(":");
    lines.push(head);
    let ghost first = views(lines@);
    let mut i: usize = 0;
    while i < warnings.len()
        invariant
            i <= warnings.len(),
            views(lines@) == first + warning_item_lines(warnings@.take(i as int), lang, emoji_enabled, style),
            first == seq![warning_text(style, label_text(lang, "warnings"@, emoji_enabled)) + ":"@],
            hint_label@ == label_text(lang, "hint"@, emoji_enabled),
        decreases warnings.len() - i,
    {
        let w = &warnings[i];
        let ghost before = views(lines@);
        let mut item = String::from_str("- [");
        item.append(style.warning(w.code.as_str()).as_str());
        item.append("] ");
        item.append(w.message.as_str());
        let ghost item_v = item@;
        lines.push(item);
        match &w.hint {
            Some(h) => {
                let mut line = String::from_str("  ");
                line.append(style.key(hint_label.as_str()).as_str());
                line.append(": ");
                line.append(h.as_str());
                let ghost line_v = line@;
                lines.push(line);
                assert(views(lines@) =~= before + seq![item_v, line_v]);
            },
            None => {
                assert(views(lines@) =~= before + seq![item_v]);
            },
        }
        assert(warnings@.take(i + 1).drop_last() =~= warnings@.take(i as int));
        assert(warnings@.take(i + 1).last() == warnings@[i as int]);
        assert(views(lines@) =~= first + warning_item_lines(warnings@.take(i + 1), lang, emoji_enabled, style));
        i += 1;
    }
    assert(warnings@.take(i as int) =~= warnings@);
    crate::text::join_strings(&lines, "\n")
}

} // verus!
