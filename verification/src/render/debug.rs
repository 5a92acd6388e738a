//! The `--debug` block of a table report.

use vstd::prelude::*;

use crate::hardware::debug::{opt_view, pair_views, DebugRecordView};
use crate::hardware::{DebugRecord, HardwareReport, LogicalDiskInfo, Section};
use crate::i18n::{display_value, shown, t, tr, Lang};
use crate::text::{decimal, decimal_string, join, trim, views};

use super::label_text;
use super::style::{header_text, key_text, note_text, TextStyle};
use super::tally::{is_tally, tally, tally_view};
use super::warnings::{shows_logical, shows_motherboard};

verus! {

/// The collectors that made `records`, record by record.
pub open spec fn record_sources(records: Seq<DebugRecord>) -> Seq<Seq<char>>
    decreases records.len(),
{
    if records.len() == 0 {
        Seq::empty()
    } else {
        record_sources(records.drop_last()).push(records.last()@.source)
    }
}

/// One line of the collector summary.
pub open spec fn count_line(e: (Seq<char>, nat), lang: Lang, style: TextStyle) -> Seq<char> {
    "    "@ + key_text(style, e.0 + ":"@) + " "@ + decimal(e.1) + " "@ + tr(lang, "debug.records_count"@)
}

/// The summary lines for `counts`, in order.
pub open spec fn count_lines(counts: Seq<(Seq<char>, nat)>, lang: Lang, style: TextStyle) -> Seq<Seq<char>>
    decreases counts.len(),
{
    if counts.len() == 0 {
        Seq::empty()
    } else {
        count_lines(counts.drop_last(), lang, style).push(count_line(counts.last(), lang, style))
    }
}

/// The collector summary: one line per collector, in name order, with its record count.
pub open spec fn summary_lines(empty: bool, counts: Seq<(Seq<char>, nat)>, lang: Lang, style: TextStyle) -> Seq<Seq<char>> {
    seq!["  "@ + header_text(style, tr(lang, "debug.collector_summary"@))] + if empty {
        seq!["    "@ + tr(lang, "debug.no_records"@)]
    } else {
        count_lines(counts, lang, style)
    }
}

/// The name a volume is listed under: its mount point, or its device when
/// the mount point is blank.
pub open spec fn volume_label(d: LogicalDiskInfo) -> Seq<char> {
    if trim(d.mount_point@).len() == 0 {
        d.device@
    } else {
        d.mount_point@
    }
}

/// The hidden-field line for one volume.
pub open spec fn volume_line(d: LogicalDiskInfo, lang: Lang) -> Seq<char> {
    "      "@ + shown(lang, volume_label(d)) + " = "@ + shown(lang, d.source@)
}

/// The hidden-field lines for `ds`, in order.
pub open spec fn volume_lines(ds: Seq<LogicalDiskInfo>, lang: Lang) -> Seq<Seq<char>>
    decreases ds.len(),
{
    if ds.len() == 0 {
        Seq::empty()
    } else {
        volume_lines(ds.drop_last(), lang).push(volume_line(ds.last(), lang))
    }
}

/// Each item indented by four spaces.
pub open spec fn indented(items: Seq<Seq<char>>) -> Seq<Seq<char>>
    decreases items.len(),
{
    if items.len() == 0 {
        Seq::empty()
    } else {
        indented(items.drop_last()).push("    "@ + items.last())
    }
}

/// The line for one field of a record.
pub open spec fn field_line(f: (Seq<char>, Seq<char>), style: TextStyle) -> Seq<char> {
    "      "@ + key_text(style, f.0 + ":"@) + " "@ + f.1
}

/// The lines for the fields of a record, in order.
pub open spec fn field_lines(fs: Seq<(Seq<char>, Seq<char>)>, style: TextStyle) -> Seq<Seq<char>>
    decreases fs.len(),
{
    if fs.len() == 0 {
        Seq::empty()
    } else {
        field_lines(fs.drop_last(), style).push(field_line(fs.last(), style))
    }
}

/// The fields that only debug output shows: where each volume's data came
/// from, and the motherboard serial number.
pub open spec fn hidden_items(report: HardwareReport, section: Section, lang: Lang, style: TextStyle) -> Seq<Seq<char>> {
    (if shows_logical(section) && report.logical_disks@.len() > 0 {
        seq![key_text(style, "logical_disk.source:"@)] + volume_lines(report.logical_disks@, lang)
    } else {
        Seq::empty()
    }) + (if shows_motherboard(section) && report.motherboard is Some {
        seq![key_text(style, "motherboard.serial:"@) + " "@ + shown(lang, report.motherboard.unwrap().serial@)]
    } else {
        Seq::empty()
    })
}

/// The hidden-fields part of the summary.
pub open spec fn hidden_lines(items: Seq<Seq<char>>, lang: Lang, style: TextStyle) -> Seq<Seq<char>> {
    seq!["  "@ + header_text(style, tr(lang, "debug.hidden_fields"@))] + if items.len() == 0 {
        seq!["    "@ + tr(lang, "debug.none"@)]
    } else {
        indented(items)
    }
}

/// The lines for the record numbered `n` (counting from one).
pub open spec fn record_lines(n: nat, r: DebugRecordView, lang: Lang, style: TextStyle) -> Seq<Seq<char>> {
    seq![
        Seq::empty(),
        header_text(style, "  ["@ + decimal(n) + "] "@ + r.target),
        "    "@ + key_text(style, "source:"@) + " "@ + r.source,
    ] + (if r.note is Some && r.note.unwrap().len() > 0 {
        seq!["    "@ + key_text(style, "note:"@) + " "@ + note_text(style, r.note.unwrap())]
    } else {
        Seq::empty()
    }) + if r.fields.len() == 0 {
        seq!["    "@ + key_text(style, "fields:"@) + " "@ + tr(lang, "debug.none"@)]
    } else {
        seq!["    "@ + key_text(style, "fields:"@)] + field_lines(r.fields, style)
    }
}

/// The lines for every record, numbered from one.
pub open spec fn all_record_lines(rs: Seq<DebugRecord>, lang: Lang, style: TextStyle) -> Seq<Seq<char>>
    decreases rs.len(),
{
    if rs.len() == 0 {
        Seq::empty()
    } else {
        all_record_lines(rs.drop_last(), lang, style) + record_lines(rs.len(), rs.last()@, lang, style)
    }
}

/// The whole debug block, given the per-collector counts.
pub open spec fn debug_block(
    report: HardwareReport,
    section: Section,
    counts: Seq<(Seq<char>, nat)>,
    lang: Lang,
    emoji: bool,
    style: TextStyle,
) -> Seq<char> {
    let empty = report.debug@.len() == 0;
    join(
        seq![header_text(style, label_text(lang, "debug.summary"@, emoji)), Seq::empty()]
            + summary_lines(empty, counts, lang, style)
            + hidden_lines(hidden_items(report, section, lang, style), lang, style)
            + seq![Seq::empty(), header_text(style, label_text(lang, "debug.records"@, emoji))]
            + if empty {
            seq!["  "@ + tr(lang, "debug.no_records"@)]
        } else {
            all_record_lines(report.debug@, lang, style)
        },
        "\n"@,
    )
}

/// Renders the debug block: collector summary, hidden fields, then every record.
pub fn render(report: &HardwareReport, section: Section, lang: Lang, emoji_enabled: bool, style: TextStyle) -> (r: String)
    ensures
        exists|counts: Seq<(Seq<char>, nat)>|
            is_tally(record_sources(report.debug@), counts) && r@ == debug_block(
                *report,
                section,
                counts,
                lang,
                emoji_enabled,
                style,
            ),
{
    let mut lines: Vec<String> = Vec::new();
    let title = style.title(super::label(lang, "debug.summary", emoji_enabled).as_str());
    let ghost tv = title@;
    lines.push(title);
    lines.push(String::new());
    let ghost l0 = views(lines@);
    assert(l0 =~= seq![header_text(style, label_text(lang, "debug.summary"@, emoji_enabled)), Seq::empty()]);
    let counts = push_collector_summary(&mut lines, report, lang, style);
    let ghost l1 = views(lines@);
    push_hidden_fields(&mut lines, report, section, lang, style);
    let ghost l2 = views(lines@);
    lines.push(String::new());
    let title2 = style.title(super::label(lang, "debug.records", emoji_enabled).as_str());
    let ghost t2 = title2@;
    lines.push(title2);
    let ghost l3 = views(lines@);
    assert(l3 =~= l2 + seq![Seq::empty(), header_text(style, label_text(lang, "debug.records"@, emoji_enabled))]);
    push_records(&mut lines, report, lang, style);
    let ghost counts_v = tally_view(counts@);
    assert(views(lines@) =~= seq![header_text(style, label_text(lang, "debug.summary"@, emoji_enabled)), Seq::empty()]
        + summary_lines(report.debug@.len() == 0, counts_v, lang, style)
        + hidden_lines(hidden_items(*report, section, lang, style), lang, style)
        + seq![Seq::empty(), header_text(style, label_text(lang, "debug.records"@, emoji_enabled))]
        + if report.debug@.len() == 0 {
            seq!["  "@ + tr(lang, "debug.no_records"@)]
        } else {
            all_record_lines(report.debug@, lang, style)
        });
    crate::text::join_strings(&lines, "\n")
}

/// How many records each collector made, in collector-name order.
pub fn source_counts(report: &HardwareReport) -> (counts: Vec<(String, usize)>)
    ensures
        is_tally(record_sources(report.debug@), tally_view(counts@)),
{
    let mut srcs: Vec<&str> = Vec::new();
    let mut i: usize = 0;
    while i < report.debug.len()
        invariant
            i <= report.debug.len(),
            srcs@.map_values(|s: &str| s@) == record_sources(report.debug@.take(i as int)),
        decreases report.debug.len() - i,
    {
        let ghost before = srcs@.map_values(|s: &str| s@);
        let src = report.debug[i].source();
        srcs.push(src);
        assert(srcs@.map_values(|s: &str| s@) =~= before.push(src@));
        assert(report.debug@.take(i + 1).drop_last() =~= report.debug@.take(i as int));
        i += 1;
    }
    assert(report.debug@.take(i as int) =~= report.debug@);
    tally(&srcs)
}

/// Appends the collector summary; returns the per-collector counts it lists.
pub fn push_collector_summary(lines: &mut Vec<String>, report: &HardwareReport, lang: Lang, style: TextStyle) -> (counts: Vec<(String, usize)>)
    ensures
        is_tally(record_sources(report.debug@), tally_view(counts@)),
        views(final(lines)@) == views(old(lines)@) + summary_lines(report.debug@.len() == 0, tally_view(counts@), lang, style),
{
    let mut head = String::from_str("  ");
    head.append(style.header(t(lang, "debug.collector_summary")).as_str());
    let ghost l0 = views(lines@);
    lines.push(head);
    let counts = source_counts(report);
    let ghost cv = tally_view(counts@);
    if report.debug.len() == 0 {
        let mut line = String::from_str("    ");
        line.append(t(lang, "debug.no_records"));
        lines.push(line);
        assert(views(lines@) =~= l0 + summary_lines(true, cv, lang, style));
        return counts;
    }
    let ghost l1 = views(lines@);
    let mut k: usize = 0;
    while k < counts.len()
        invariant
            k <= counts.len(),
            cv == tally_view(counts@),
            views(lines@) == l1 + count_lines(cv.take(k as int), lang, style),
        decreases counts.len() - k,
    {
        let mut name = counts[k].0.clone();
        name.append(":");
        let mut line = String::from_str("    ");
        line.append(style.key(name.as_str()).as_str());
        line.append(" ");
        line.append(decimal_string(counts[k].1 as u128).as_str());
        line.append(" ");
        line.append(t(lang, "debug.records_count"));
        let ghost before = views(lines@);
        assert(cv[k as int] == (counts@[k as int].0@, counts@[k as int].1 as nat));
        assert(line@ == count_line(cv[k as int], lang, style));
        lines.push(line);
        assert(views(lines@) =~= before.push(line@));
        assert(cv.take(k + 1).drop_last() =~= cv.take(k as int));
        assert(views(lines@) =~= l1 + count_lines(cv.take(k + 1), lang, style));
        k += 1;
    }
    assert(cv.take(k as int) =~= cv);
    assert(views(lines@) =~= l0 + summary_lines(false, cv, lang, style));
    counts
}

/// Appends the hidden-fields part of the summary.
pub fn push_hidden_fields(lines: &mut Vec<String>, report: &HardwareReport, section: Section, lang: Lang, style: TextStyle)
    ensures
        views(final(lines)@) == views(old(lines)@) + hidden_lines(hidden_items(*report, section, lang, style), lang, style),
{
    let mut hidden: Vec<String> = Vec::new();
    if (section == Section::Disk || section == Section::LogicalDisk || section == Section::All)
        && report.logical_disks.len() > 0 {
        hidden.push(style.key("logical_disk.source:"));
        let ghost h0 = views(hidden@);
        let mut i: usize = 0;
        while i < report.logical_disks.len()
            invariant
                i <= report.logical_disks.len(),
                views(hidden@) == h0 + volume_lines(report.logical_disks@.take(i as int), lang),
            decreases report.logical_disks.len() - i,
        {
            let disk = &report.logical_disks[i];
            let label = if crate::text::is_blank(disk.mount_point.as_str()) {
                disk.device.as_str()
            } else {
                disk.mount_point.as_str()
            };
            let mut line = String::from_str("      ");
            line.append(display_value(lang, label).as_str());
            line.append(" = ");
            line.append(display_value(lang, disk.source.as_str()).as_str());
            let ghost before = views(hidden@);
            assert(line@ == volume_line(report.logical_disks@[i as int], lang));
            hidden.push(line);
            assert(views(hidden@) =~= before.push(line@));
            assert(report.logical_disks@.take(i + 1).drop_last() =~= report.logical_disks@.take(i as int));
            assert(views(hidden@) =~= h0 + volume_lines(report.logical_disks@.take(i + 1), lang));
            i += 1;
        }
        assert(report.logical_disks@.take(i as int) =~= report.logical_disks@);
    }
    let ghost hv1 = views(hidden@);
    if section == Section::Motherboard || section == Section::All {
        if let Some(board) = &report.motherboard {
            let mut line = style.key("motherboard.serial:");
            line.append(" ");
            line.append(display_value(lang, board.serial.as_str()).as_str());
            let ghost before = views(hidden@);
            hidden.push(line);
            assert(views(hidden@) =~= before.push(line@));
        }
    }
    let ghost items = views(hidden@);
    assert(items =~= hidden_items(*report, section, lang, style));
    let mut head = String::from_str("  ");
    head.append(style.header(t(lang, "debug.hidden_fields")).as_str());
    let ghost l0 = views(lines@);
    lines.push(head);
    let ghost l1 = views(lines@);
    if hidden.len() == 0 {
        let mut line = String::from_str("    ");
        line.append(t(lang, "debug.none"));
        lines.push(line);
    } else {
        let mut i: usize = 0;
        while i < hidden.len()
            invariant
                i <= hidden.len(),
                items == views(hidden@),
                views(lines@) == l1 + indented(items.take(i as int)),
            decreases hidden.len() - i,
        {
            let mut line = String::from_str("    ");
            line.append(hidden[i].as_str());
            let ghost before = views(lines@);
            lines.push(line);
            assert(views(lines@) =~= before.push(line@));
            assert(items.take(i + 1).drop_last() =~= items.take(i as int));
            assert(views(lines@) =~= l1 + indented(items.take(i + 1)));
            i += 1;
        }
        assert(items.take(i as int) =~= items);
    }
    assert(views(lines@) =~= l0 + hidden_lines(items, lang, style));
}

/// Appends every record.
pub fn push_records(lines: &mut Vec<String>, report: &HardwareReport, lang: Lang, style: TextStyle)
    ensures
        views(final(lines)@) == views(old(lines)@) + if report.debug@.len() == 0 {
            seq!["  "@ + tr(lang, "debug.no_records"@)]
        } else {
            all_record_lines(report.debug@, lang, style)
        },
{
    let ghost l0 = views(lines@);
    if report.debug.len() == 0 {
        let mut line = String::from_str("  ");
        line.append(t(lang, "debug.no_records"));
        lines.push(line);
        assert(views(lines@) =~= l0 + seq!["  "@ + tr(lang, "debug.no_records"@)]);
        return;
    }
    let mut i: usize = 0;
    while i < report.debug.len()
        invariant
            i <= report.debug.len(),
            views(lines@) == l0 + all_record_lines(report.debug@.take(i as int), lang, style),
        decreases report.debug.len() - i,
    {
        let record = &report.debug[i];
        let ghost before = views(lines@);
        push_record(lines, i, record, lang, style);
        assert(report.debug@.take(i + 1).drop_last() =~= report.debug@.take(i as int));
        assert(views(lines@) =~= l0 + all_record_lines(report.debug@.take(i + 1), lang, style));
        i += 1;
    }
    assert(report.debug@.take(i as int) =~= report.debug@);
}

/// Appends the lines of the record at `index`.
pub fn push_record(lines: &mut Vec<String>, index: usize, record: &DebugRecord, lang: Lang, style: TextStyle)
    requires
        index < usize::MAX,
    ensures
        views(final(lines)@) == views(old(lines)@) + record_lines((index + 1) as nat, record@, lang, style),
{
    let ghost l0 = views(lines@);
    lines.push(String::new());
    let mut heading = String::from_str("  [");
    heading.append(decimal_string((index + 1) as u128).as_str());
    heading.append("] ");
    heading.append(record.target());
    lines.push(style.header(heading.as_str()));
    let mut src = String::from_str("    ");
    src.append(style.key("source:").as_str());
    src.append(" ");
    src.append(record.source());
    lines.push(src);
    let ghost l1 = views(lines@);
    assert(l1 =~= l0 + seq![
        Seq::empty(),
        header_text(style, "  ["@ + decimal((index + 1) as nat) + "] "@ + record@.target),
        "    "@ + key_text(style, "source:"@) + " "@ + record@.source,
    ]);
    match record.note_text() {
        Some(note) => {
            if !note.as_str().is_empty() {
                let mut line = String::from_str("    ");
                line.append(style.key("note:").as_str());
                line.append(" ");
                line.append(style.note(note.as_str()).as_str());
                lines.push(line);
            }
        },
        None => {},
    }
    let ghost l2 = views(lines@);
    assert(l2 =~= l1 + if record@.note is Some && record@.note.unwrap().len() > 0 {
        seq!["    "@ + key_text(style, "note:"@) + " "@ + note_text(style, record@.note.unwrap())]
    } else {
        Seq::empty()
    });
    let fields = record.fields();
    let ghost fv = pair_views(fields@);
    if fields.len() == 0 {
        let mut line = String::from_str("    ");
        line.append(style.key("fields:").as_str());
        line.append(" ");
        line.append(t(lang, "debug.none"));
        lines.push(line);
    } else {
        let mut line = String::from_str("    ");
        line.append(style.key("fields:").as_str());
        lines.push(line);
        let ghost l3 = views(lines@);
        let mut k: usize = 0;
        while k < fields.len()
            invariant
                k <= fields.len(),
                fv == pair_views(fields@),
                views(lines@) == l3 + field_lines(fv.take(k as int), style),
            decreases fields.len() - k,
        {
            let mut name = fields[k].0.clone();
            name.append(":");
            let mut line = String::from_str("      ");
            line.append(style.key(name.as_str()).as_str());
            line.append(" ");
            line.append(fields[k].1.as_str());
            let ghost before = views(lines@);
            assert(line@ == field_line(fv[k as int], style));
            lines.push(line);
            assert(views(lines@) =~= before.push(line@));
            assert(fv.take(k + 1).drop_last() =~= fv.take(k as int));
            assert(views(lines@) =~= l3 + field_lines(fv.take(k + 1), style));
            k += 1;
        }
        assert(fv.take(k as int) =~= fv);
    }
    assert(views(lines@) =~= l0 + record_lines((index + 1) as nat, record@, lang, style));
}

} // verus!
