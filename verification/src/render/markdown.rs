//! Reports written as Markdown.

use vstd::prelude::*;

use crate::collector::BenchmarkReport;
use crate::emoji::{decorate, decorated};
use crate::hardware::debug::{pair_views, DebugRecordView};
use crate::hardware::{CapabilityReport, DebugRecord, HardwareReport, HdrtWarning, LogicalDiskInfo, Section};
use crate::i18n::{display_optional, display_value, shown, shown_count, t, tr, Lang};
use crate::text::{decimal, decimal_string, join, join_strings, views};

use super::debug::{record_sources, source_counts, volume_label};
use super::table::{
    bench_row, bench_rows, key_labels, key_views, logical_row, logical_rows, memory_row, memory_rows, physical_row,
    physical_rows, tool_row, tool_rows, headers, logical_cells, memory_cells, percent_string, physical_cells,
};
use super::tabled::cells;
use super::tally::{is_tally, tally_view};
use super::warnings::{section_warnings, shows_cpu, shows_logical, shows_memory, shows_motherboard, shows_physical};
use super::{label, label_text, value, yes_no, yes_no_text};

verus! {

/// A table row: the cells between pipes.
pub open spec fn md_row(cells: Seq<Seq<char>>) -> Seq<char> {
    "| "@ + join(cells, " | "@) + " |"@
}

/// Each row of a table as a Markdown line.
pub open spec fn md_rows(rows: Seq<Seq<Seq<char>>>) -> Seq<Seq<char>>
    decreases rows.len(),
{
    if rows.len() == 0 {
        Seq::empty()
    } else {
        md_rows(rows.drop_last()).push(md_row(rows.last()))
    }
}

/// A level-two section holding a table: its title, the header row (labels
/// with their emoji), the rule line, then one line per row.
pub open spec fn md_table(
    title_key: Seq<char>,
    keys: Seq<Seq<char>>,
    rule: Seq<char>,
    rows: Seq<Seq<Seq<char>>>,
    lang: Lang,
    emoji: bool,
) -> Seq<char> {
    join(
        seq!["## "@ + label_text(lang, title_key, emoji), Seq::empty(), md_row(key_labels(keys, lang, emoji)), rule]
            + md_rows(rows),
        "\n"@,
    )
}

/// A bullet naming a label and a value in code quotes.
pub open spec fn md_item(lang: Lang, key: Seq<char>, emoji: bool, v: Seq<char>) -> Seq<char> {
    "- "@ + label_text(lang, key, emoji) + ": `"@ + v + "`"@
}

/// Writes `cells` as one table row.
pub fn row_line(cells: &Vec<String>) -> (r: String)
    ensures
        r@ == md_row(views(cells@)),
{
    let mut r = String::from_str("| ");
    r.append(join_strings(cells, " | ").as_str());
    r.append(" |");
    r
}

/// Writes the bullet `- label: `v``.
pub fn item_line(lang: Lang, key: &str, emoji: bool, v: &str) -> (r: String)
    ensures
        r@ == md_item(lang, key@, emoji, v@),
{
    let mut r = String::from_str("- ");
    r.append(label(lang, key, emoji).as_str());
    r.append(": `");
    r.append(v);
    r.append("`");
    r
}

/// Writes a section holding a table.
pub fn table_section(
    title_key: &str,
    keys: &Vec<&str>,
    rule: &str,
    rows: &Vec<Vec<String>>,
    lang: Lang,
    emoji: bool,
) -> (r: String)
    ensures
        r@ == md_table(title_key@, key_views(keys@), rule@, cells(rows@), lang, emoji),
{
    let mut lines: Vec<String> = Vec::new();
    let mut title = String::from_str("## ");
    title.append(label(lang, title_key, emoji).as_str());
    let ghost tv = title@;
    lines.push(title);
    lines.push(String::new());
    let head = row_line(&headers(keys, lang, emoji));
    let ghost hv = head@;
    lines.push(head);
    lines.push(String::from_str(rule));
    let ghost l0 = views(lines@);
    assert(l0 =~= seq![tv, Seq::empty(), hv, rule@]);
    let ghost rv = cells(rows@);
    let mut i: usize = 0;
    while i < rows.len()
        invariant
            i <= rows.len(),
            rv == cells(rows@),
            views(lines@) == l0 + md_rows(rv.take(i as int)),
        decreases rows.len() - i,
    {
        let line = row_line(&rows[i]);
        let ghost before = views(lines@);
        lines.push(line);
        assert(views(lines@) =~= before.push(line@));
        assert(rv.take(i + 1).drop_last() =~= rv.take(i as int));
        i += 1;
    }
    assert(rv.take(i as int) =~= rv);
    assert(views(lines@) =~= seq!["## "@ + label_text(lang, title_key@, emoji), Seq::empty(), md_row(key_labels(key_views(keys@), lang, emoji)), rule@]
        + md_rows(rv));
    join_strings(&lines, "\n")
}

// --- sections -----------------------------------------------------------------

/// The physical-disk section.
pub open spec fn md_physical(report: HardwareReport, lang: Lang, emoji: bool) -> Seq<char> {
    md_table(
        "section.physical_disk"@,
        super::table::physical_keys(),
        "| --- | --- | --- | --- | --- | --- | --- | --- |"@,
        physical_rows(report.physical_disks@, lang),
        lang,
        emoji,
    )
}

/// The logical-disk section.
pub open spec fn md_logical(report: HardwareReport, lang: Lang, emoji: bool) -> Seq<char> {
    md_table(
        "section.logical_disk"@,
        super::table::logical_keys(),
        "| --- | --- | --- | --- | --- | --- | --- |"@,
        logical_rows(report.logical_disks@, lang),
        lang,
        emoji,
    )
}

/// The memory section.
pub open spec fn md_memory(report: HardwareReport, lang: Lang, emoji: bool) -> Seq<char> {
    md_table(
        "section.memory"@,
        super::table::memory_keys(),
        "| --- | --- | --- | --- | --- | --- |"@,
        memory_rows(report.memory@, lang),
        lang,
        emoji,
    )
}

/// A bullet-list section without data.
pub open spec fn md_no_data(title_key: Seq<char>, lang: Lang, emoji: bool) -> Seq<char> {
    "## "@ + label_text(lang, title_key, emoji) + "\n\n"@ + tr(lang, "no_data"@)
}

/// The processor section.
pub open spec fn md_cpu(report: HardwareReport, lang: Lang, emoji: bool) -> Seq<char> {
    match report.cpu {
        None => md_no_data("section.cpu"@, lang, emoji),
        Some(c) => join(
            seq![
                "## "@ + label_text(lang, "section.cpu"@, emoji),
                Seq::empty(),
                md_item(lang, "cpu.model"@, emoji, shown(lang, c.model@)),
                md_item(lang, "cpu.vendor"@, emoji, shown(lang, c.vendor@)),
                md_item(lang, "cpu.physical_cores"@, emoji, shown_count(lang, c.physical_cores)),
                md_item(lang, "cpu.logical_threads"@, emoji, shown_count(lang, c.logical_threads)),
                md_item(lang, "cpu.frequency"@, emoji, shown(lang, c.frequency@)),
            ],
            "\n"@,
        ),
    }
}

/// The motherboard section; the serial number is left to debug output.
pub open spec fn md_board(report: HardwareReport, lang: Lang, emoji: bool) -> Seq<char> {
    match report.motherboard {
        None => md_no_data("section.motherboard"@, lang, emoji),
        Some(b) => join(
            seq![
                "## "@ + label_text(lang, "section.motherboard"@, emoji),
                Seq::empty(),
                md_item(lang, "motherboard.manufacturer"@, emoji, shown(lang, b.manufacturer@)),
                md_item(lang, "motherboard.product"@, emoji, shown(lang, b.product@)),
                md_item(lang, "motherboard.version"@, emoji, shown(lang, b.version@)),
                md_item(lang, "motherboard.bios_vendor"@, emoji, shown(lang, b.bios_vendor@)),
                md_item(lang, "motherboard.bios_version"@, emoji, shown(lang, b.bios_version@)),
            ],
            "\n"@,
        ),
    }
}

/// Writes the physical-disk section.
pub fn render_physical_disks(report: &HardwareReport, lang: Lang, emoji: bool) -> (r: String)
    ensures
        r@ == md_physical(*report, lang, emoji),
{
    let mut rows: Vec<Vec<String>> = Vec::new();
    let mut i: usize = 0;
    while i < report.physical_disks.len()
        invariant
            i <= report.physical_disks.len(),
            cells(rows@) == physical_rows(report.physical_disks@.take(i as int), lang),
        decreases report.physical_disks.len() - i,
    {
        let row = physical_cells(&report.physical_disks[i], lang);
        let ghost before = cells(rows@);
        let ghost rowv = views(row@);
        rows.push(row);
        assert(cells(rows@) =~= before.push(rowv));
        assert(report.physical_disks@.take(i + 1).drop_last() =~= report.physical_disks@.take(i as int));
        i += 1;
    }
    assert(report.physical_disks@.take(i as int) =~= report.physical_disks@);
    let keys = vec!["disk.device", "disk.model", "disk.serial", "disk.size", "disk.kind", "disk.bus", "disk.firmware", "disk.health"];
    assert(key_views(keys@) =~= super::table::physical_keys());
    table_section("section.physical_disk", &keys, "| --- | --- | --- | --- | --- | --- | --- | --- |", &rows, lang, emoji)
}

/// Writes the logical-disk section.
pub fn render_logical_disks(report: &HardwareReport, lang: Lang, emoji: bool) -> (r: String)
    ensures
        r@ == md_logical(*report, lang, emoji),
{
    let mut rows: Vec<Vec<String>> = Vec::new();
    let mut i: usize = 0;
    while i < report.logical_disks.len()
        invariant
            i <= report.logical_disks.len(),
            cells(rows@) == logical_rows(report.logical_disks@.take(i as int), lang),
        decreases report.logical_disks.len() - i,
    {
        let row = logical_cells(&report.logical_disks[i], lang);
        let ghost before = cells(rows@);
        let ghost rowv = views(row@);
        rows.push(row);
        assert(cells(rows@) =~= before.push(rowv));
        assert(report.logical_disks@.take(i + 1).drop_last() =~= report.logical_disks@.take(i as int));
        i += 1;
    }
    assert(report.logical_disks@.take(i as int) =~= report.logical_disks@);
    let keys = vec!["disk.device", "disk.mount", "disk.filesystem", "disk.size", "disk.used", "disk.available", "disk.used_percent"];
    assert(key_views(keys@) =~= super::table::logical_keys());
    table_section("section.logical_disk", &keys, "| --- | --- | --- | --- | --- | --- | --- |", &rows, lang, emoji)
}

/// Writes the memory section.
pub fn render_memory(report: &HardwareReport, lang: Lang, emoji: bool) -> (r: String)
    ensures
        r@ == md_memory(*report, lang, emoji),
{
    let mut rows: Vec<Vec<String>> = Vec::new();
    let mut i: usize = 0;
    while i < report.memory.len()
        invariant
            i <= report.memory.len(),
            cells(rows@) == memory_rows(report.memory@.take(i as int), lang),
        decreases report.memory.len() - i,
    {
        let row = memory_cells(&report.memory[i], lang);
        let ghost before = cells(rows@);
        let ghost rowv = views(row@);
        rows.push(row);
        assert(cells(rows@) =~= before.push(rowv));
        assert(report.memory@.take(i + 1).drop_last() =~= report.memory@.take(i as int));
        i += 1;
    }
    assert(report.memory@.take(i as int) =~= report.memory@);
    let keys = vec!["memory.slot", "memory.size", "memory.speed", "memory.manufacturer", "memory.part_number", "memory.serial"];
    assert(key_views(keys@) =~= super::table::memory_keys());
    table_section("section.memory", &keys, "| --- | --- | --- | --- | --- | --- |", &rows, lang, emoji)
}

/// Writes a section that has no data.
fn no_data_section(title_key: &str, lang: Lang, emoji: bool) -> (r: String)
    ensures
        r@ == md_no_data(title_key@, lang, emoji),
{
    let mut r = String::from_str("## ");
    r.append(label(lang, title_key, emoji).as_str());
    r.append("\n\n");
    r.append(t(lang, "no_data"));
    r
}

/// Writes the processor section.
pub fn render_cpu(report: &HardwareReport, lang: Lang, emoji: bool) -> (r: String)
    ensures
        r@ == md_cpu(*report, lang, emoji),
{
    match &report.cpu {
        None => no_data_section("section.cpu", lang, emoji),
        Some(c) => {
            let mut title = String::from_str("## ");
            title.append(label(lang, "section.cpu", emoji).as_str());
            let lines = vec![
                title,
                String::new(),
                item_line(lang, "cpu.model", emoji, value(c.model.as_str(), lang).as_str()),
                item_line(lang, "cpu.vendor", emoji, value(c.vendor.as_str(), lang).as_str()),
                item_line(lang, "cpu.physical_cores", emoji, display_optional(lang, c.physical_cores).as_str()),
                item_line(lang, "cpu.logical_threads", emoji, display_optional(lang, c.logical_threads).as_str()),
                item_line(lang, "cpu.frequency", emoji, value(c.frequency.as_str(), lang).as_str()),
            ];
            let r = join_strings(&lines, "\n");
            assert(views(lines@) =~= seq![
                "## "@ + label_text(lang, "section.cpu"@, emoji),
                Seq::empty(),
                md_item(lang, "cpu.model"@, emoji, shown(lang, c.model@)),
                md_item(lang, "cpu.vendor"@, emoji, shown(lang, c.vendor@)),
                md_item(lang, "cpu.physical_cores"@, emoji, shown_count(lang, c.physical_cores)),
                md_item(lang, "cpu.logical_threads"@, emoji, shown_count(lang, c.logical_threads)),
                md_item(lang, "cpu.frequency"@, emoji, shown(lang, c.frequency@)),
            ]);
            r
        },
    }
}

/// Writes the motherboard section.
pub fn render_motherboard(report: &HardwareReport, lang: Lang, emoji: bool) -> (r: String)
    ensures
        r@ == md_board(*report, lang, emoji),
{
    match &report.motherboard {
        None => no_data_section("section.motherboard", lang, emoji),
        Some(b) => {
            let mut title = String::from_str("## ");
            title.append(label(lang, "section.motherboard", emoji).as_str());
            let lines = vec![
                title,
                String::new(),
                item_line(lang, "motherboard.manufacturer", emoji, value(b.manufacturer.as_str(), lang).as_str()),
                item_line(lang, "motherboard.product", emoji, value(b.product.as_str(), lang).as_str()),
                item_line(lang, "motherboard.version", emoji, value(b.version.as_str(), lang).as_str()),
                item_line(lang, "motherboard.bios_vendor", emoji, value(b.bios_vendor.as_str(), lang).as_str()),
                item_line(lang, "motherboard.bios_version", emoji, value(b.bios_version.as_str(), lang).as_str()),
            ];
            let r = join_strings(&lines, "\n");
            assert(views(lines@) =~= seq![
                "## "@ + label_text(lang, "section.motherboard"@, emoji),
                Seq::empty(),
                md_item(lang, "motherboard.manufacturer"@, emoji, shown(lang, b.manufacturer@)),
                md_item(lang, "motherboard.product"@, emoji, shown(lang, b.product@)),
                md_item(lang, "motherboard.version"@, emoji, shown(lang, b.version@)),
                md_item(lang, "motherboard.bios_vendor"@, emoji, shown(lang, b.bios_vendor@)),
                md_item(lang, "motherboard.bios_version"@, emoji, shown(lang, b.bios_version@)),
            ]);
            r
        },
    }
}

// --- warnings -----------------------------------------------------------------

/// The lines listing `ws`: each warning as ``- `code`: message``, followed by
/// a nested hint bullet when it has a hint.
pub open spec fn md_warning_lines(ws: Seq<HdrtWarning>, lang: Lang, emoji: bool) -> Seq<Seq<char>>
    decreases ws.len(),
{
    if ws.len() == 0 {
        Seq::empty()
    } else {
        let w = ws.last();
        let item = "- `"@ + w.code@ + "`: "@ + w.message@;
        md_warning_lines(ws.drop_last(), lang, emoji) + match w.hint {
            Some(h) => seq![item, "  - "@ + label_text(lang, "hint"@, emoji) + ": "@ + h@],
            None => seq![item],
        }
    }
}

/// The warnings section.
pub open spec fn md_warnings(ws: Seq<HdrtWarning>, lang: Lang, emoji: bool) -> Seq<char> {
    join(seq!["## "@ + label_text(lang, "warnings"@, emoji), Seq::empty()] + md_warning_lines(ws, lang, emoji), "\n"@)
}

/// Writes the warnings section.
pub fn render_warnings(warnings: &Vec<HdrtWarning>, lang: Lang, emoji: bool) -> (r: String)
    ensures
        r@ == md_warnings(warnings@, lang, emoji),
{
    let hint_label = label(lang, "hint", emoji);
    let mut lines: Vec<String> = Vec::new();
    let mut title = String::from_str("## ");
    title.append(label(lang, "warnings", emoji).as_str());
    let ghost tv = title@;
    lines.push(title);
    lines.push(String::new());
    let ghost l0 = views(lines@);
    assert(l0 =~= seq!["## "@ + label_text(lang, "warnings"@, emoji), Seq::empty()]);
    let mut i: usize = 0;
    while i < warnings.len()
        invariant
            i <= warnings.len(),
            hint_label@ == label_text(lang, "hint"@, emoji),
            views(lines@) == l0 + md_warning_lines(warnings@.take(i as int), lang, emoji),
        decreases warnings.len() - i,
    {
        let w = &warnings[i];
        let mut item = String::from_str("- `");
        item.append(w.code.as_str());
        item.append("`: ");
        item.append(w.message.as_str());
        let ghost before = views(lines@);
        let ghost item_v = item@;
        lines.push(item);
        match &w.hint {
            Some(h) => {
                let mut line = String::from_str("  - ");
                line.append(hint_label.as_str());
                line.append(": ");
                line.append(h.as_str());
                let ghost line_v = line@;
                lines.push(line);
                assert(views(lines@) =~= before + seq![item_v, line_v]);
            },
            None => {
                assert(views(lines@) =~= before + seq![item_v]);
            },
        }
        assert(warnings@.take(i + 1).drop_last() =~= warnings@.take(i as int));
        assert(warnings@.take(i + 1).last() == warnings@[i as int]);
        assert(views(lines@) =~= l0 + md_warning_lines(warnings@.take(i + 1), lang, emoji));
        i += 1;
    }
    assert(warnings@.take(i as int) =~= warnings@);
    join_strings(&lines, "\n")
}

// --- debug ----------------------------------------------------------------------

/// One line of the collector summary.
pub open spec fn md_count_line(e: (Seq<char>, nat), lang: Lang) -> Seq<char> {
    "- `"@ + e.0 + "`: "@ + decimal(e.1) + " "@ + tr(lang, "debug.records_count"@)
}

/// The summary lines for `counts`, in order.
pub open spec fn md_count_lines(counts: Seq<(Seq<char>, nat)>, lang: Lang) -> Seq<Seq<char>>
    decreases counts.len(),
{
    if counts.len() == 0 {
        Seq::empty()
    } else {
        md_count_lines(counts.drop_last(), lang).push(md_count_line(counts.last(), lang))
    }
}

/// The hidden-field line for one volume.
pub open spec fn md_volume_line(d: LogicalDiskInfo, lang: Lang) -> Seq<char> {
    "- `logical_disk.source["@ + volume_label(d) + "]`: `"@ + shown(lang, d.source@) + "`"@
}

/// The hidden-field lines for `ds`, in order.
pub open spec fn md_volume_lines(ds: Seq<LogicalDiskInfo>, lang: Lang) -> Seq<Seq<char>>
    decreases ds.len(),
{
    if ds.len() == 0 {
        Seq::empty()
    } else {
        md_volume_lines(ds.drop_last(), lang).push(md_volume_line(ds.last(), lang))
    }
}

/// The fields that only debug output shows: where each volume's data came
/// from, and the motherboard serial number.
pub open spec fn md_hidden(report: HardwareReport, section: Section, lang: Lang) -> Seq<Seq<char>> {
    (if shows_logical(section) { md_volume_lines(report.logical_disks@, lang) } else { Seq::empty() })
        + if shows_motherboard(section) && report.motherboard is Some {
        seq!["- `motherboard.serial`: `"@ + shown(lang, report.motherboard.unwrap().serial@) + "`"@]
    } else {
        Seq::empty()
    }
}

/// The line for one field of a record.
pub open spec fn md_field_line(f: (Seq<char>, Seq<char>)) -> Seq<char> {
    "  - `"@ + f.0 + "`: `"@ + f.1 + "`"@
}

/// The lines for the fields of a record, in order.
pub open spec fn md_field_lines(fs: Seq<(Seq<char>, Seq<char>)>) -> Seq<Seq<char>>
    decreases fs.len(),
{
    if fs.len() == 0 {
        Seq::empty()
    } else {
        md_field_lines(fs.drop_last()).push(md_field_line(fs.last()))
    }
}

/// The lines for the record numbered `n` (counting from one).
pub open spec fn md_record_lines(n: nat, r: DebugRecordView, lang: Lang) -> Seq<Seq<char>> {
    seq![Seq::empty(), "### "@ + decimal(n) + ". "@ + r.target, Seq::empty(), "- source: `"@ + r.source + "`"@]
        + (if r.note is Some && r.note.unwrap().len() > 0 {
        seq!["- note: "@ + r.note.unwrap()]
    } else {
        Seq::empty()
    }) + if r.fields.len() == 0 {
        seq!["- fields: "@ + tr(lang, "debug.none"@)]
    } else {
        seq!["- fields:"@] + md_field_lines(r.fields)
    }
}

/// The lines for every record, numbered from one.
pub open spec fn md_all_record_lines(rs: Seq<DebugRecord>, lang: Lang) -> Seq<Seq<char>>
    decreases rs.len(),
{
    if rs.len() == 0 {
        Seq::empty()
    } else {
        md_all_record_lines(rs.drop_last(), lang) + md_record_lines(rs.len(), rs.last()@, lang)
    }
}

/// The debug section, given the per-collector counts.
pub open spec fn md_debug(report: HardwareReport, section: Section, counts: Seq<(Seq<char>, nat)>, lang: Lang, emoji: bool) -> Seq<char> {
    let empty = report.debug@.len() == 0;
    let hidden = md_hidden(report, section, lang);
    join(
        seq![
            "## "@ + label_text(lang, "debug.summary"@, emoji),
            Seq::empty(),
            "### "@ + label_text(lang, "debug.collector_summary"@, emoji),
        ] + (if empty { seq!["- "@ + tr(lang, "debug.no_records"@)] } else { md_count_lines(counts, lang) })
            + seq![Seq::empty(), "### "@ + label_text(lang, "debug.hidden_fields"@, emoji)]
            + (if hidden.len() == 0 { seq!["- "@ + tr(lang, "debug.none"@)] } else { hidden })
            + seq![Seq::empty(), "## "@ + label_text(lang, "debug.records"@, emoji)]
            + if empty { seq!["- "@ + tr(lang, "debug.no_records"@)] } else { md_all_record_lines(report.debug@, lang) },
        "\n"@,
    )
}

/// Appends the collector summary for `counts`.
fn push_counts(lines: &mut Vec<String>, counts: &Vec<(String, usize)>, lang: Lang)
    ensures
        views(final(lines)@) == views(old(lines)@) + md_count_lines(tally_view(counts@), lang),
{
    let ghost cv = tally_view(counts@);
    let ghost l0 = views(lines@);
    let mut k: usize = 0;
    while k < counts.len()
        invariant
            k <= counts.len(),
            cv == tally_view(counts@),
            views(lines@) == l0 + md_count_lines(cv.take(k as int), lang),
        decreases counts.len() - k,
    {
        let mut line = String::from_str("- `");
        line.append(counts[k].0.as_str());
        line.append("`: ");
        line.append(decimal_string(counts[k].1 as u128).as_str());
        line.append(" ");
        line.append(t(lang, "debug.records_count"));
        let ghost before = views(lines@);
        assert(cv[k as int] == (counts@[k as int].0@, counts@[k as int].1 as nat));
        assert(line@ == md_count_line(cv[k as int], lang));
        lines.push(line);
        assert(views(lines@) =~= before.push(line@));
        assert(cv.take(k + 1).drop_last() =~= cv.take(k as int));
        k += 1;
    }
    assert(cv.take(k as int) =~= cv);
}

/// The fields only debug output shows, one line each.
fn hidden_lines(report: &HardwareReport, section: Section, lang: Lang) -> (r: Vec<String>)
    ensures
        views(r@) == md_hidden(*report, section, lang),
{
    let mut hidden: Vec<String> = Vec::new();
    if section == Section::Disk || section == Section::LogicalDisk || section == Section::All {
        let mut i: usize = 0;
        while i < report.logical_disks.len()
            invariant
                i <= report.logical_disks.len(),
                views(hidden@) == md_volume_lines(report.logical_disks@.take(i as int), lang),
            decreases report.logical_disks.len() - i,
        {
            let disk = &report.logical_disks[i];
            let name = if crate::text::is_blank(disk.mount_point.as_str()) {
                disk.device.as_str()
            } else {
                disk.mount_point.as_str()
            };
            let mut line = String::from_str("- `logical_disk.source[");
            line.append(name);
            line.append("]`: `");
            line.append(display_value(lang, disk.source.as_str()).as_str());
            line.append("`");
            let ghost before = views(hidden@);
            assert(line@ == md_volume_line(report.logical_disks@[i as int], lang));
            hidden.push(line);
            assert(views(hidden@) =~= before.push(line@));
            assert(report.logical_disks@.take(i + 1).drop_last() =~= report.logical_disks@.take(i as int));
            i += 1;
        }
        assert(report.logical_disks@.take(i as int) =~= report.logical_disks@);
    }
    let ghost h1 = views(hidden@);
    if section == Section::Motherboard || section == Section::All {
        if let Some(board) = &report.motherboard {
            let mut line = String::from_str("- `motherboard.serial`: `");
            line.append(display_value(lang, board.serial.as_str()).as_str());
            line.append("`");
            hidden.push(line);
            assert(views(hidden@) =~= h1.push(line@));
        }
    }
    assert(views(hidden@) =~= md_hidden(*report, section, lang));
    hidden
}

/// Appends the lines of the record at `index`.
fn push_record(lines: &mut Vec<String>, index: usize, record: &DebugRecord, lang: Lang)
    requires
        index < usize::MAX,
    ensures
        views(final(lines)@) == views(old(lines)@) + md_record_lines((index + 1) as nat, record@, lang),
{
    let ghost l0 = views(lines@);
    lines.push(String::new());
    let mut heading = String::from_str("### ");
    heading.append(decimal_string((index + 1) as u128).as_str());
    heading.append(". ");
    heading.append(record.target());
    lines.push(heading);
    lines.push(String::new());
    let mut src = String::from_str("- source: `");
    src.append(record.source());
    src.append("`");
    lines.push(src);
    let ghost l1 = views(lines@);
    assert(l1 =~= l0 + seq![Seq::empty(), "### "@ + decimal((index + 1) as nat) + ". "@ + record@.target, Seq::empty(), "- source: `"@ + record@.source + "`"@]);
    match record.note_text() {
        Some(note) => {
            if !note.as_str().is_empty() {
                let mut line = String::from_str("- note: ");
                line.append(note.as_str());
                lines.push(line);
            }
        },
        None => {},
    }
    let ghost l2 = views(lines@);
    assert(l2 =~= l1 + if record@.note is Some && record@.note.unwrap().len() > 0 {
        seq!["- note: "@ + record@.note.unwrap()]
    } else {
        Seq::empty()
    });
    let fields = record.fields();
    let ghost fv = pair_views(fields@);
    if fields.len() == 0 {
        let mut line = String::from_str("- fields: ");
        line.append(t(lang, "debug.none"));
        lines.push(line);
    } else {
        lines.push(String::from_str("- fields:"));
        let ghost l3 = views(lines@);
        let mut k: usize = 0;
        while k < fields.len()
            invariant
                k <= fields.len(),
                fv == pair_views(fields@),
                views(lines@) == l3 + md_field_lines(fv.take(k as int)),
            decreases fields.len() - k,
        {
            let mut line = String::from_str("  - `");
            line.append(fields[k].0.as_str());
            line.append("`: `");
            line.append(fields[k].1.as_str());
            line.append("`");
            let ghost before = views(lines@);
            assert(line@ == md_field_line(fv[k as int]));
            lines.push(line);
            assert(views(lines@) =~= before.push(line@));
            assert(fv.take(k + 1).drop_last() =~= fv.take(k as int));
            k += 1;
        }
        assert(fv.take(k as int) =~= fv);
    }
    assert(views(lines@) =~= l0 + md_record_lines((index + 1) as nat, record@, lang));
}

/// Writes the debug section: collector summary, hidden fields, then every record.
pub fn render_debug(report: &HardwareReport, section: Section, lang: Lang, emoji: bool) -> (r: String)
    ensures
        exists|counts: Seq<(Seq<char>, nat)>|
            #![trigger md_debug(*report, section, counts, lang, emoji)]
            is_tally(record_sources(report.debug@), counts) && r@ == md_debug(*report, section, counts, lang, emoji),
{
    let mut lines: Vec<String> = Vec::new();
    let mut l = String::from_str("## ");
    l.append(label(lang, "debug.summary", emoji).as_str());
    lines.push(l);
    lines.push(String::new());
    let mut l = String::from_str("### ");
    l.append(label(lang, "debug.collector_summary", emoji).as_str());
    lines.push(l);
    let ghost l0 = views(lines@);
    assert(l0 =~= seq![
        "## "@ + label_text(lang, "debug.summary"@, emoji),
        Seq::empty(),
        "### "@ + label_text(lang, "debug.collector_summary"@, emoji),
    ]);
    let counts = source_counts(report);
    let ghost cv = tally_view(counts@);
    if report.debug.len() == 0 {
        let mut l = String::from_str("- ");
        l.append(t(lang, "debug.no_records"));
        lines.push(l);
    } else {
        push_counts(&mut lines, &counts, lang);
    }
    let ghost l1 = views(lines@);
    assert(l1 =~= l0 + if report.debug@.len() == 0 { seq!["- "@ + tr(lang, "debug.no_records"@)] } else { md_count_lines(cv, lang) });
    lines.push(String::new());
    let mut l = String::from_str("### ");
    l.append(label(lang, "debug.hidden_fields", emoji).as_str());
    lines.push(l);
    let hidden = hidden_lines(report, section, lang);
    let ghost hv = views(hidden@);
    let ghost l2 = views(lines@);
    assert(l2 =~= l1 + seq![Seq::empty(), "### "@ + label_text(lang, "debug.hidden_fields"@, emoji)]);
    if hidden.len() == 0 {
        let mut l = String::from_str("- ");
        l.append(t(lang, "debug.none"));
        lines.push(l);
    } else {
        let mut hidden = hidden;
        lines.append(&mut hidden);
    }
    let ghost l3 = views(lines@);
    assert(l3 =~= l2 + if hv.len() == 0 { seq!["- "@ + tr(lang, "debug.none"@)] } else { hv });
    lines.push(String::new());
    let mut l = String::from_str("## ");
    l.append(label(lang, "debug.records", emoji).as_str());
    lines.push(l);
    let ghost l4 = views(lines@);
    assert(l4 =~= l3 + seq![Seq::empty(), "## "@ + label_text(lang, "debug.records"@, emoji)]);
    if report.debug.len() == 0 {
        let mut l = String::from_str("- ");
        l.append(t(lang, "debug.no_records"));
        lines.push(l);
    } else {
        let mut i: usize = 0;
        while i < report.debug.len()
            invariant
                i <= report.debug.len(),
                views(lines@) == l4 + md_all_record_lines(report.debug@.take(i as int), lang),
            decreases report.debug.len() - i,
        {
            push_record(&mut lines, i, &report.debug[i], lang);
            assert(report.debug@.take(i + 1).drop_last() =~= report.debug@.take(i as int));
            i += 1;
        }
        assert(report.debug@.take(i as int) =~= report.debug@);
    }
    let ghost empty = report.debug@.len() == 0;
    assert(views(lines@) =~= l4 + if empty { seq!["- "@ + tr(lang, "debug.no_records"@)] } else { md_all_record_lines(report.debug@, lang) });
    assert(views(lines@) =~= seq![
        "## "@ + label_text(lang, "debug.summary"@, emoji),
        Seq::empty(),
        "### "@ + label_text(lang, "debug.collector_summary"@, emoji),
    ] + (if empty { seq!["- "@ + tr(lang, "debug.no_records"@)] } else { md_count_lines(cv, lang) })
        + seq![Seq::empty(), "### "@ + label_text(lang, "debug.hidden_fields"@, emoji)]
        + (if hv.len() == 0 { seq!["- "@ + tr(lang, "debug.none"@)] } else { hv })
        + seq![Seq::empty(), "## "@ + label_text(lang, "debug.records"@, emoji)]
        + if empty { seq!["- "@ + tr(lang, "debug.no_records"@)] } else { md_all_record_lines(report.debug@, lang) });
    let r = join_strings(&lines, "\n");
    assert(r@ == md_debug(*report, section, cv, lang, emoji));
    r
}

// --- report, doctor and bench -----------------------------------------------------

/// The hardware sections of a Markdown report that `section` selects, in
/// order, with the disk hint first for the combined disk view.
pub open spec fn md_section_blocks(report: HardwareReport, section: Section, lang: Lang, emoji: bool) -> Seq<Seq<char>> {
    (if section == Section::Disk { seq![tr(lang, "disk.combined_hint"@)] } else { Seq::empty() })
        + (if shows_physical(section) { seq![md_physical(report, lang, emoji)] } else { Seq::empty() })
        + (if shows_logical(section) { seq![md_logical(report, lang, emoji)] } else { Seq::empty() })
        + (if shows_memory(section) { seq![md_memory(report, lang, emoji)] } else { Seq::empty() })
        + (if shows_cpu(section) { seq![md_cpu(report, lang, emoji)] } else { Seq::empty() })
        + (if shows_motherboard(section) { seq![md_board(report, lang, emoji)] } else { Seq::empty() })
}

/// The sections of a Markdown report, given the per-collector counts of the
/// debug section; they are joined by blank lines.
pub open spec fn md_blocks(
    report: HardwareReport,
    section: Section,
    debug_requested: bool,
    counts: Seq<(Seq<char>, nat)>,
    lang: Lang,
    emoji: bool,
) -> Seq<Seq<char>> {
    let ws = section_warnings(report, section);
    md_section_blocks(report, section, lang, emoji)
        + (if ws.len() > 0 { seq![md_warnings(ws, lang, emoji)] } else { Seq::empty() })
        + (if debug_requested || report.debug@.len() > 0 {
            seq![md_debug(report, section, counts, lang, emoji)]
        } else {
            Seq::empty()
        })
}

/// The hardware sections that `section` selects, as Markdown blocks.
fn section_blocks(report: &HardwareReport, section: Section, lang: Lang, emoji: bool) -> (output: Vec<String>)
    ensures
        views(output@) == md_section_blocks(*report, section, lang, emoji),
{
    let mut output: Vec<String> = Vec::new();
    if section == Section::Disk {
        output.push(String::from_str(t(lang, "disk.combined_hint")));
    }
    let ghost o0 = views(output@);
    assert(o0 =~= if section == Section::Disk { seq![tr(lang, "disk.combined_hint"@)] } else { Seq::empty() });
    if section == Section::Disk || section == Section::PhysicalDisk || section == Section::All {
        let b = render_physical_disks(report, lang, emoji);
        let ghost bv = b@;
        output.push(b);
        assert(views(output@) =~= o0.push(bv));
    }
    let ghost o1 = views(output@);
    assert(o1 =~= o0 + if shows_physical(section) { seq![md_physical(*report, lang, emoji)] } else { Seq::empty() });
    if section == Section::Disk || section == Section::LogicalDisk || section == Section::All {
        let b = render_logical_disks(report, lang, emoji);
        let ghost bv = b@;
        output.push(b);
        assert(views(output@) =~= o1.push(bv));
    }
    let ghost o2 = views(output@);
    assert(o2 =~= o1 + if shows_logical(section) { seq![md_logical(*report, lang, emoji)] } else { Seq::empty() });
    if section == Section::Memory || section == Section::All {
        let b = render_memory(report, lang, emoji);
        let ghost bv = b@;
        output.push(b);
        assert(views(output@) =~= o2.push(bv));
    }
    let ghost o3 = views(output@);
    assert(o3 =~= o2 + if shows_memory(section) { seq![md_memory(*report, lang, emoji)] } else { Seq::empty() });
    if section == Section::Cpu || section == Section::All {
        let b = render_cpu(report, lang, emoji);
        let ghost bv = b@;
        output.push(b);
        assert(views(output@) =~= o3.push(bv));
    }
    let ghost o4 = views(output@);
    assert(o4 =~= o3 + if shows_cpu(section) { seq![md_cpu(*report, lang, emoji)] } else { Seq::empty() });
    if section == Section::Motherboard || section == Section::All {
        let b = render_motherboard(report, lang, emoji);
        let ghost bv = b@;
        output.push(b);
        assert(views(output@) =~= o4.push(bv));
    }
    assert(views(output@) =~= o4 + if shows_motherboard(section) { seq![md_board(*report, lang, emoji)] } else { Seq::empty() });
    output
}

/// Writes a report as Markdown: the sections `section` selects, its
/// warnings, and the debug section when asked for or when there are records.
pub fn render_report(report: &HardwareReport, section: Section, debug_requested: bool, lang: Lang, emoji: bool) -> (r: String)
    ensures
        exists|counts: Seq<(Seq<char>, nat)>|
            #![trigger md_blocks(*report, section, debug_requested, counts, lang, emoji)]
            ((debug_requested || report.debug@.len() > 0) ==> is_tally(record_sources(report.debug@), counts))
                && r@ == join(md_blocks(*report, section, debug_requested, counts, lang, emoji), "\n\n"@),
{
    let mut output = section_blocks(report, section, lang, emoji);
    let ghost o5 = views(output@);
    let warnings = super::warnings::collect(report, section);
    if warnings.len() > 0 {
        let b = render_warnings(&warnings, lang, emoji);
        let ghost bv = b@;
        output.push(b);
        assert(views(output@) =~= o5.push(bv));
    }
    let ghost o6 = views(output@);
    let ghost ws = section_warnings(*report, section);
    assert(o6 =~= o5 + if ws.len() > 0 { seq![md_warnings(ws, lang, emoji)] } else { Seq::empty() });
    let ghost mut counts: Seq<(Seq<char>, nat)> = Seq::empty();
    if debug_requested || report.debug.len() > 0 {
        let d = render_debug(report, section, lang, emoji);
        proof {
            counts = choose|c: Seq<(Seq<char>, nat)>| is_tally(record_sources(report.debug@), c) && d@ == md_debug(*report, section, c, lang, emoji);
        }
        let ghost dv = d@;
        output.push(d);
        assert(views(output@) =~= o6.push(dv));
    }
    assert(views(output@) =~= md_blocks(*report, section, debug_requested, counts, lang, emoji));
    let r = join_strings(&output, "\n\n");
    assert(((debug_requested || report.debug@.len() > 0) ==> is_tally(record_sources(report.debug@), counts))
        && r@ == join(md_blocks(*report, section, debug_requested, counts, lang, emoji), "\n\n"@));
    r
}

/// A tool's row: its path when known, shown as a value.
pub open spec fn md_tool_rows(report: CapabilityReport, lang: Lang) -> Seq<Seq<char>> {
    md_rows(tool_rows(report.tools@, lang))
}

/// Each note as a bullet.
pub open spec fn md_note_items(notes: Seq<String>) -> Seq<Seq<char>>
    decreases notes.len(),
{
    if notes.len() == 0 {
        Seq::empty()
    } else {
        md_note_items(notes.drop_last()).push("- "@ + notes.last()@)
    }
}

/// The `doctor` report as Markdown.
pub open spec fn md_capabilities(report: CapabilityReport, lang: Lang, emoji: bool) -> Seq<char> {
    join(
        seq![
            "# "@ + decorated(emoji, "doctor.title"@, "hdrt doctor"@),
            Seq::empty(),
            md_item(lang, "platform"@, emoji, report.platform@),
            md_item(lang, "arch"@, emoji, report.arch@),
            md_item(lang, "elevated"@, emoji, yes_no_text(report.elevated, lang)),
            Seq::empty(),
            md_row(key_labels(super::table::doctor_keys(), lang, emoji)),
            "| --- | --- | --- | --- |"@,
        ] + md_tool_rows(report, lang) + if report.notes@.len() > 0 {
            seq![Seq::empty(), "## "@ + label_text(lang, "notes"@, emoji)] + md_note_items(report.notes@)
        } else {
            Seq::empty()
        },
        "\n"@,
    )
}

/// Writes the `doctor` report as Markdown.
pub fn render_capabilities(report: &CapabilityReport, lang: Lang, emoji: bool) -> (r: String)
    ensures
        r@ == md_capabilities(*report, lang, emoji),
{
    let mut lines: Vec<String> = Vec::new();
    let mut title = String::from_str("# ");
    title.append(decorate(emoji, "doctor.title", "hdrt doctor").as_str());
    lines.push(title);
    lines.push(String::new());
    lines.push(item_line(lang, "platform", emoji, report.platform.as_str()));
    lines.push(item_line(lang, "arch", emoji, report.arch.as_str()));
    lines.push(item_line(lang, "elevated", emoji, yes_no(report.elevated, lang).as_str()));
    lines.push(String::new());
    let keys = vec!["doctor.name", "doctor.available", "doctor.path", "doctor.purpose"];
    assert(key_views(keys@) =~= super::table::doctor_keys());
    lines.push(row_line(&headers(&keys, lang, emoji)));
    lines.push(String::from_str("| --- | --- | --- | --- |"));
    let ghost l0 = views(lines@);
    let ghost rows = tool_rows(report.tools@, lang);
    let mut i: usize = 0;
    while i < report.tools.len()
        invariant
            i <= report.tools.len(),
            views(lines@) == l0 + md_rows(tool_rows(report.tools@.take(i as int), lang)),
        decreases report.tools.len() - i,
    {
        let tool = &report.tools[i];
        let path = match &tool.path {
            Some(p) => value(p.as_str(), lang),
            None => String::from_str(t(lang, "unknown")),
        };
        let row = vec![tool.name.clone(), yes_no(tool.available, lang), path, tool.purpose.clone()];
        assert(views(row@) =~= tool_row(*tool, lang));
        let line = row_line(&row);
        let ghost before = views(lines@);
        lines.push(line);
        assert(views(lines@) =~= before.push(line@));
        assert(report.tools@.take(i + 1).drop_last() =~= report.tools@.take(i as int));
        assert(tool_rows(report.tools@.take(i + 1), lang) == tool_rows(report.tools@.take(i as int), lang).push(tool_row(*tool, lang)));
        assert(tool_rows(report.tools@.take(i + 1), lang).drop_last() =~= tool_rows(report.tools@.take(i as int), lang));
        i += 1;
    }
    assert(report.tools@.take(i as int) =~= report.tools@);
    let ghost l1 = views(lines@);
    if report.notes.len() > 0 {
        lines.push(String::new());
        let mut head = String::from_str("## ");
        head.append(label(lang, "notes", emoji).as_str());
        let ghost hv = head@;
        lines.push(head);
        let ghost l2 = views(lines@);
        assert(l2 =~= l1 + seq![Seq::empty(), hv]);
        let mut k: usize = 0;
        while k < report.notes.len()
            invariant
                k <= report.notes.len(),
                views(lines@) == l2 + md_note_items(report.notes@.take(k as int)),
            decreases report.notes.len() - k,
        {
            let mut item = String::from_str("- ");
            item.append(report.notes[k].as_str());
            let ghost before = views(lines@);
            lines.push(item);
            assert(views(lines@) =~= before.push(item@));
            assert(report.notes@.take(k + 1).drop_last() =~= report.notes@.take(k as int));
            k += 1;
        }
        assert(report.notes@.take(k as int) =~= report.notes@);
    }
    assert(views(lines@) =~= seq![
        "# "@ + decorated(emoji, "doctor.title"@, "hdrt doctor"@),
        Seq::empty(),
        md_item(lang, "platform"@, emoji, report.platform@),
        md_item(lang, "arch"@, emoji, report.arch@),
        md_item(lang, "elevated"@, emoji, yes_no_text(report.elevated, lang)),
        Seq::empty(),
        md_row(key_labels(super::table::doctor_keys(), lang, emoji)),
        "| --- | --- | --- | --- |"@,
    ] + md_tool_rows(*report, lang) + if report.notes@.len() > 0 {
        seq![Seq::empty(), "## "@ + label_text(lang, "notes"@, emoji)] + md_note_items(report.notes@)
    } else {
        Seq::empty()
    });
    join_strings(&lines, "\n")
}

/// The `bench` report as Markdown.
pub open spec fn md_benchmarks(report: BenchmarkReport, lang: Lang, emoji: bool) -> Seq<char> {
    join(
        seq![
            "# "@ + decorated(emoji, "bench.title"@, "hdrt backend benchmark"@),
            Seq::empty(),
            md_item(lang, "platform"@, emoji, report.platform@),
            md_item(lang, "arch"@, emoji, report.arch@),
            Seq::empty(),
            md_row(key_labels(super::table::bench_keys(), lang, emoji)),
            "| --- | --- | --- | --- | --- | --- | --- |"@,
        ] + md_rows(bench_rows(report.rows@, lang)),
        "\n"@,
    )
}

/// Writes the `bench` report as Markdown.
pub fn render_benchmarks(report: &BenchmarkReport, lang: Lang, emoji: bool) -> (r: String)
    ensures
        r@ == md_benchmarks(*report, lang, emoji),
{
    let mut lines: Vec<String> = Vec::new();
    let mut title = String::from_str("# ");
    title.append(decorate(emoji, "bench.title", "hdrt backend benchmark").as_str());
    lines.push(title);
    lines.push(String::new());
    lines.push(item_line(lang, "platform", emoji, report.platform.as_str()));
    lines.push(item_line(lang, "arch", emoji, report.arch.as_str()));
    lines.push(String::new());
    let keys = vec!["bench.backend", "bench.ok", "bench.elapsed", "bench.disks", "bench.memory", "bench.warnings", "bench.note"];
    assert(key_views(keys@) =~= super::table::bench_keys());
    lines.push(row_line(&headers(&keys, lang, emoji)));
    lines.push(String::from_str("| --- | --- | --- | --- | --- | --- | --- |"));
    let ghost l0 = views(lines@);
    let mut i: usize = 0;
    while i < report.rows.len()
        invariant
            i <= report.rows.len(),
            views(lines@) == l0 + md_rows(bench_rows(report.rows@.take(i as int), lang)),
        decreases report.rows.len() - i,
    {
        let b = &report.rows[i];
        let mut elapsed = decimal_string(b.elapsed_ms);
        elapsed.append(" ms");
        let row = vec![
            b.backend.clone(),
            yes_no(b.ok, lang),
            elapsed,
            decimal_string(b.disks as u128),
            decimal_string(b.memory as u128),
            decimal_string(b.warnings as u128),
            b.note.clone(),
        ];
        assert(views(row@) =~= bench_row(*b, lang));
        let line = row_line(&row);
        let ghost before = views(lines@);
        lines.push(line);
        assert(views(lines@) =~= before.push(line@));
        assert(report.rows@.take(i + 1).drop_last() =~= report.rows@.take(i as int));
        assert(bench_rows(report.rows@.take(i + 1), lang) == bench_rows(report.rows@.take(i as int), lang).push(bench_row(*b, lang)));
        assert(bench_rows(report.rows@.take(i + 1), lang).drop_last() =~= bench_rows(report.rows@.take(i as int), lang));
        i += 1;
    }
    assert(report.rows@.take(i as int) =~= report.rows@);
    assert(views(lines@) =~= seq![
        "# "@ + decorated(emoji, "bench.title"@, "hdrt backend benchmark"@),
        Seq::empty(),
        md_item(lang, "platform"@, emoji, report.platform@),
        md_item(lang, "arch"@, emoji, report.arch@),
        Seq::empty(),
        md_row(key_labels(super::table::bench_keys(), lang, emoji)),
        "| --- | --- | --- | --- | --- | --- | --- |"@,
    ] + md_rows(bench_rows(report.rows@, lang)));
    join_strings(&lines, "\n")
}

} // verus!
