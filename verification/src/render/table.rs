//! Reports drawn as CLI tables.

use vstd::prelude::*;

use crate::collector::{BenchmarkReport, BenchmarkRow};
use crate::hardware::{CapabilityReport, CpuInfo, DiskInfo, HardwareReport, LogicalDiskInfo, MemoryDevice, MotherboardInfo, Section, ToolStatus};
use crate::i18n::{display_optional, shown, shown_count, t, tr, Lang};
use crate::options::TableStyle;
use crate::text::{decimal, decimal_string, join, views};

use super::debug::{debug_block, record_sources};
use super::style::{header_text, styled_table, style_table_header, TextStyle};
use super::tabled::{cells, draw_table, style_number, tabled_text};
use super::tally::is_tally;
use super::warnings::{section_warnings, shows_cpu, shows_logical, shows_memory, shows_motherboard, shows_physical, warnings_block};
use super::{label, label_text, value, yes_no, yes_no_text};

verus! {

/// The character sequences of a list of label keys.
pub open spec fn key_views(keys: Seq<&str>) -> Seq<Seq<char>> {
    keys.map_values(|k: &str| k@)
}

/// The labels for `keys`, in order.
pub open spec fn key_labels(keys: Seq<Seq<char>>, lang: Lang, emoji: bool) -> Seq<Seq<char>>
    decreases keys.len(),
{
    if keys.len() == 0 {
        Seq::empty()
    } else {
        key_labels(keys.drop_last(), lang, emoji).push(label_text(lang, keys.last(), emoji))
    }
}

/// The labels for `keys`.
pub fn headers(keys: &Vec<&str>, lang: Lang, emoji: bool) -> (r: Vec<String>)
    ensures
        views(r@) == key_labels(key_views(keys@), lang, emoji),
{
    let ghost ks = key_views(keys@);
    let mut r: Vec<String> = Vec::new();
    let mut i: usize = 0;
    while i < keys.len()
        invariant
            i <= keys.len(),
            ks == key_views(keys@),
            views(r@) == key_labels(ks.take(i as int), lang, emoji),
        decreases keys.len() - i,
    {
        let l = label(lang, keys[i], emoji);
        let ghost before = views(r@);
        r.push(l);
        assert(views(r@) =~= before.push(l@));
        assert(ks.take(i + 1).drop_last() =~= ks.take(i as int));
        i += 1;
    }
    assert(ks.take(i as int) =~= ks);
    r
}

/// Table column headers: labels without emoji, whose varying widths would
/// break the borders.
pub fn table_headers(keys: &Vec<&str>, lang: Lang) -> (r: Vec<String>)
    ensures
        views(r@) == key_labels(key_views(keys@), lang, false),
{
    headers(keys, lang, false)
}

/// A table of `headers` over `rows` with decorated header cells.
pub open spec fn table_text(headers: Seq<Seq<char>>, rows: Seq<Seq<Seq<char>>>, table_style: TableStyle, style: TextStyle) -> Seq<char> {
    styled_table(tabled_text(seq![headers] + rows, style_number(table_style)), headers, table_style, style)
}

/// Draws `rows` under `headers` and decorates the header cells.
pub fn make_table(headers: Vec<String>, rows: Vec<Vec<String>>, table_style: TableStyle, text_style: TextStyle) -> (r: String)
    ensures
        r@ == table_text(views(headers@), cells(rows@), table_style, text_style),
{
    let styled_headers = crate::hardware::copy_strings(&headers);
    let mut records: Vec<Vec<String>> = Vec::new();
    records.push(headers);
    let mut rows = rows;
    let ghost rv = cells(rows@);
    records.append(&mut rows);
    assert(cells(records@) =~= seq![views(styled_headers@)] + rv);
    let table = draw_table(records, table_style);
    style_table_header(table.as_str(), &styled_headers, table_style, text_style)
}

/// A section: its title, then its table, or a no-data line when there are no rows.
pub open spec fn section_text(
    title_key: Seq<char>,
    headers: Seq<Seq<char>>,
    rows: Seq<Seq<Seq<char>>>,
    table_style: TableStyle,
    style: TextStyle,
    lang: Lang,
    emoji: bool,
) -> Seq<char> {
    let title = header_text(style, label_text(lang, title_key, emoji));
    if rows.len() == 0 {
        title + "\n"@ + tr(lang, "no_data"@)
    } else {
        title + "\n"@ + table_text(headers, rows, table_style, style)
    }
}

/// Renders one section.
pub fn section_with_table(
    title_key: &str,
    headers: Vec<String>,
    rows: Vec<Vec<String>>,
    table_style: TableStyle,
    text_style: TextStyle,
    lang: Lang,
    emoji: bool,
) -> (r: String)
    ensures
        r@ == section_text(title_key@, views(headers@), cells(rows@), table_style, text_style, lang, emoji),
{
    let mut out = text_style.title(label(lang, title_key, emoji).as_str());
    out.append("\n");
    if rows.len() == 0 {
        out.append(t(lang, "no_data"));
        return out;
    }
    out.append(make_table(headers, rows, table_style, text_style).as_str());
    out
}

/// A used share in tenths of a percent, printed with one decimal and a percent sign.
pub open spec fn percent_text(tenths: u64) -> Seq<char> {
    decimal((tenths / 10) as nat) + "."@ + decimal((tenths % 10) as nat) + "%"@
}

/// Prints a used share given in tenths of a percent.
pub fn percent_string(tenths: u64) -> (r: String)
    ensures
        r@ == percent_text(tenths),
{
    let mut r = decimal_string((tenths / 10) as u128);
    r.append(".");
    r.append(decimal_string((tenths % 10) as u128).as_str());
    r.append("%");
    r
}

// --- rows -----------------------------------------------------------------

/// The cells of a physical disk.
pub open spec fn physical_row(d: DiskInfo, lang: Lang) -> Seq<Seq<char>> {
    seq![
        shown(lang, d.device@),
        shown(lang, d.model@),
        shown(lang, d.serial@),
        shown(lang, d.size@),
        shown(lang, d.media_type@),
        shown(lang, d.bus@),
        shown(lang, d.firmware@),
        shown(lang, d.health@),
    ]
}

/// The cells of a volume.
pub open spec fn logical_row(d: LogicalDiskInfo, lang: Lang) -> Seq<Seq<char>> {
    seq![
        shown(lang, d.device@),
        shown(lang, d.mount_point@),
        shown(lang, d.file_system@),
        shown(lang, d.total@),
        shown(lang, d.used@),
        shown(lang, d.available@),
        percent_text(d.used_percent_tenths),
    ]
}

/// The cells of a memory module.
pub open spec fn memory_row(m: MemoryDevice, lang: Lang) -> Seq<Seq<char>> {
    seq![
        shown(lang, m.slot@),
        shown(lang, m.size@),
        shown(lang, m.speed@),
        shown(lang, m.manufacturer@),
        shown(lang, m.part_number@),
        shown(lang, m.serial@),
    ]
}

/// The cells of the processor.
pub open spec fn cpu_row(c: CpuInfo, lang: Lang) -> Seq<Seq<char>> {
    seq![
        shown(lang, c.model@),
        shown(lang, c.vendor@),
        shown_count(lang, c.physical_cores),
        shown_count(lang, c.logical_threads),
        shown(lang, c.frequency@),
    ]
}

/// The cells of the motherboard; the serial number is left to debug output.
pub open spec fn board_row(b: MotherboardInfo, lang: Lang) -> Seq<Seq<char>> {
    seq![
        shown(lang, b.manufacturer@),
        shown(lang, b.product@),
        shown(lang, b.version@),
        shown(lang, b.bios_vendor@),
        shown(lang, b.bios_version@),
    ]
}

/// The rows of the physical-disk table.
pub open spec fn physical_rows(ds: Seq<DiskInfo>, lang: Lang) -> Seq<Seq<Seq<char>>>
    decreases ds.len(),
{
    if ds.len() == 0 {
        Seq::empty()
    } else {
        physical_rows(ds.drop_last(), lang).push(physical_row(ds.last(), lang))
    }
}

/// The rows of the volume table.
pub open spec fn logical_rows(ds: Seq<LogicalDiskInfo>, lang: Lang) -> Seq<Seq<Seq<char>>>
    decreases ds.len(),
{
    if ds.len() == 0 {
        Seq::empty()
    } else {
        logical_rows(ds.drop_last(), lang).push(logical_row(ds.last(), lang))
    }
}

/// The rows of the memory table.
pub open spec fn memory_rows(ms: Seq<MemoryDevice>, lang: Lang) -> Seq<Seq<Seq<char>>>
    decreases ms.len(),
{
    if ms.len() == 0 {
        Seq::empty()
    } else {
        memory_rows(ms.drop_last(), lang).push(memory_row(ms.last(), lang))
    }
}

/// The column keys of the physical-disk table.
pub open spec fn physical_keys() -> Seq<Seq<char>> {
    seq!["disk.device"@, "disk.model"@, "disk.serial"@, "disk.size"@, "disk.kind"@, "disk.bus"@, "disk.firmware"@, "disk.health"@]
}

/// The column keys of the volume table.
pub open spec fn logical_keys() -> Seq<Seq<char>> {
    seq!["disk.device"@, "disk.mount"@, "disk.filesystem"@, "disk.size"@, "disk.used"@, "disk.available"@, "disk.used_percent"@]
}

/// The column keys of the memory table.
pub open spec fn memory_keys() -> Seq<Seq<char>> {
    seq!["memory.slot"@, "memory.size"@, "memory.speed"@, "memory.manufacturer"@, "memory.part_number"@, "memory.serial"@]
}

/// The column keys of the processor table.
pub open spec fn cpu_keys() -> Seq<Seq<char>> {
    seq!["cpu.model"@, "cpu.vendor"@, "cpu.physical_cores"@, "cpu.logical_threads"@, "cpu.frequency"@]
}

/// The column keys of the motherboard table.
pub open spec fn board_keys() -> Seq<Seq<char>> {
    seq!["motherboard.manufacturer"@, "motherboard.product"@, "motherboard.version"@, "motherboard.bios_vendor"@, "motherboard.bios_version"@]
}

/// The physical-disk section.
pub open spec fn physical_section(report: HardwareReport, ts: TableStyle, st: TextStyle, lang: Lang, emoji: bool) -> Seq<char> {
    section_text("section.physical_disk"@, key_labels(physical_keys(), lang, false), physical_rows(report.physical_disks@, lang), ts, st, lang, emoji)
}

/// The volume section.
pub open spec fn logical_section(report: HardwareReport, ts: TableStyle, st: TextStyle, lang: Lang, emoji: bool) -> Seq<char> {
    section_text("section.logical_disk"@, key_labels(logical_keys(), lang, false), logical_rows(report.logical_disks@, lang), ts, st, lang, emoji)
}

/// The memory section.
pub open spec fn memory_section(report: HardwareReport, ts: TableStyle, st: TextStyle, lang: Lang, emoji: bool) -> Seq<char> {
    section_text("section.memory"@, key_labels(memory_keys(), lang, false), memory_rows(report.memory@, lang), ts, st, lang, emoji)
}

/// The processor section.
pub open spec fn cpu_section(report: HardwareReport, ts: TableStyle, st: TextStyle, lang: Lang, emoji: bool) -> Seq<char> {
    section_text(
        "section.cpu"@,
        key_labels(cpu_keys(), lang, false),
        if report.cpu is Some { seq![cpu_row(report.cpu.unwrap(), lang)] } else { Seq::empty() },
        ts,
        st,
        lang,
        emoji,
    )
}

/// The motherboard section.
pub open spec fn board_section(report: HardwareReport, ts: TableStyle, st: TextStyle, lang: Lang, emoji: bool) -> Seq<char> {
    section_text(
        "section.motherboard"@,
        key_labels(board_keys(), lang, false),
        if report.motherboard is Some { seq![board_row(report.motherboard.unwrap(), lang)] } else { Seq::empty() },
        ts,
        st,
        lang,
        emoji,
    )
}

/// The blocks of a table report, in order: the combined-disk hint, each
/// section the command shows, the warnings (if any) and the debug block
/// (when asked for or when there are records).
pub open spec fn report_blocks(
    report: HardwareReport,
    section: Section,
    ts: TableStyle,
    st: TextStyle,
    debug_requested: bool,
    counts: Seq<(Seq<char>, nat)>,
    lang: Lang,
    emoji: bool,
) -> Seq<Seq<char>> {
    let ws = section_warnings(report, section);
    (if section == Section::Disk { seq![tr(lang, "disk.combined_hint"@)] } else { Seq::empty() })
        + (if shows_physical(section) { seq![physical_section(report, ts, st, lang, emoji)] } else { Seq::empty() })
        + (if shows_logical(section) { seq![logical_section(report, ts, st, lang, emoji)] } else { Seq::empty() })
        + (if shows_memory(section) { seq![memory_section(report, ts, st, lang, emoji)] } else { Seq::empty() })
        + (if shows_cpu(section) { seq![cpu_section(report, ts, st, lang, emoji)] } else { Seq::empty() })
        + (if shows_motherboard(section) { seq![board_section(report, ts, st, lang, emoji)] } else { Seq::empty() })
        + (if ws.len() > 0 { seq![warnings_block(ws, lang, emoji, st)] } else { Seq::empty() })
        + (if debug_requested || report.debug@.len() > 0 {
            seq![debug_block(report, section, counts, lang, emoji, st)]
        } else {
            Seq::empty()
        })
}


// --- key lists --------------------------------------------------------------

fn physical_key_list() -> (r: Vec<&'static str>)
    ensures
        key_views(r@) == physical_keys(),
{
    let r = vec!["disk.device", "disk.model", "disk.serial", "disk.size", "disk.kind", "disk.bus", "disk.firmware", "disk.health"];
    assert(key_views(r@) =~= physical_keys());
    r
}

fn logical_key_list() -> (r: Vec<&'static str>)
    ensures
        key_views(r@) == logical_keys(),
{
    let r = vec!["disk.device", "disk.mount", "disk.filesystem", "disk.size", "disk.used", "disk.available", "disk.used_percent"];
    assert(key_views(r@) =~= logical_keys());
    r
}

fn memory_key_list() -> (r: Vec<&'static str>)
    ensures
        key_views(r@) == memory_keys(),
{
    let r = vec!["memory.slot", "memory.size", "memory.speed", "memory.manufacturer", "memory.part_number", "memory.serial"];
    assert(key_views(r@) =~= memory_keys());
    r
}

fn cpu_key_list() -> (r: Vec<&'static str>)
    ensures
        key_views(r@) == cpu_keys(),
{
    let r = vec!["cpu.model", "cpu.vendor", "cpu.physical_cores", "cpu.logical_threads", "cpu.frequency"];
    assert(key_views(r@) =~= cpu_keys());
    r
}

fn board_key_list() -> (r: Vec<&'static str>)
    ensures
        key_views(r@) == board_keys(),
{
    let r = vec!["motherboard.manufacturer", "motherboard.product", "motherboard.version", "motherboard.bios_vendor", "motherboard.bios_version"];
    assert(key_views(r@) =~= board_keys());
    r
}

// --- sections ---------------------------------------------------------------

/// The hint shown above the combined disk view.
pub fn render_disk_hint(lang: Lang) -> (r: String)
    ensures
        r@ == tr(lang, "disk.combined_hint"@),
{
    String::from_str(t(lang, "disk.combined_hint"))
}

/// The cells of one physical disk.
pub fn physical_cells(d: &DiskInfo, lang: Lang) -> (r: Vec<String>)
    ensures
        views(r@) == physical_row(*d, lang),
{
    let r = vec![
        value(d.device.as_str(), lang),
        value(d.model.as_str(), lang),
        value(d.serial.as_str(), lang),
        value(d.size.as_str(), lang),
        value(d.media_type.as_str(), lang),
        value(d.bus.as_str(), lang),
        value(d.firmware.as_str(), lang),
        value(d.health.as_str(), lang),
    ];
    assert(views(r@) =~= physical_row(*d, lang));
    r
}

/// The cells of one volume.
pub fn logical_cells(d: &LogicalDiskInfo, lang: Lang) -> (r: Vec<String>)
    ensures
        views(r@) == logical_row(*d, lang),
{
    let r = vec![
        value(d.device.as_str(), lang),
        value(d.mount_point.as_str(), lang),
        value(d.file_system.as_str(), lang),
        value(d.total.as_str(), lang),
        value(d.used.as_str(), lang),
        value(d.available.as_str(), lang),
        percent_string(d.used_percent_tenths),
    ];
    assert(views(r@) =~= logical_row(*d, lang));
    r
}

/// The cells of one memory module.
pub fn memory_cells(m: &MemoryDevice, lang: Lang) -> (r: Vec<String>)
    ensures
        views(r@) == memory_row(*m, lang),
{
    let r = vec![
        value(m.slot.as_str(), lang),
        value(m.size.as_str(), lang),
        value(m.speed.as_str(), lang),
        value(m.manufacturer.as_str(), lang),
        value(m.part_number.as_str(), lang),
        value(m.serial.as_str(), lang),
    ];
    assert(views(r@) =~= memory_row(*m, lang));
    r
}

/// The physical-disk section.
pub fn render_physical_disks(report: &HardwareReport, table_style: TableStyle, text_style: TextStyle, lang: Lang, emoji: bool) -> (r: String)
    ensures
        r@ == physical_section(*report, table_style, text_style, lang, emoji),
{
    let mut rows: Vec<Vec<String>> = Vec::new();
    let mut i: usize = 0;
    while i < report.physical_disks.len()
        invariant
            i <= report.physical_disks.len(),
            cells(rows@) == physical_rows(report.physical_disks@.take(i as int), lang),
        decreases report.physical_disks.len() - i,
    {
        let row = physical_cells(&report.physical_disks[i], lang);
        let ghost before = cells(rows@);
        let ghost rowv = views(row@);
        rows.push(row);
        assert(cells(rows@) =~= before.push(rowv));
        assert(report.physical_disks@.take(i + 1).drop_last() =~= report.physical_disks@.take(i as int));
        i += 1;
    }
    assert(report.physical_disks@.take(i as int) =~= report.physical_disks@);
    section_with_table("section.physical_disk", table_headers(&physical_key_list(), lang), rows, table_style, text_style, lang, emoji)
}

/// The volume section.
pub fn render_logical_disks(report: &HardwareReport, table_style: TableStyle, text_style: TextStyle, lang: Lang, emoji: bool) -> (r: String)
    ensures
        r@ == logical_section(*report, table_style, text_style, lang, emoji),
{
    let mut rows: Vec<Vec<String>> = Vec::new();
    let mut i: usize = 0;
    while i < report.logical_disks.len()
        invariant
            i <= report.logical_disks.len(),
            cells(rows@) == logical_rows(report.logical_disks@.take(i as int), lang),
        decreases report.logical_disks.len() - i,
    {
        let row = logical_cells(&report.logical_disks[i], lang);
        let ghost before = cells(rows@);
        let ghost rowv = views(row@);
        rows.push(row);
        assert(cells(rows@) =~= before.push(rowv));
        assert(report.logical_disks@.take(i + 1).drop_last() =~= report.logical_disks@.take(i as int));
        i += 1;
    }
    assert(report.logical_disks@.take(i as int) =~= report.logical_disks@);
    section_with_table("section.logical_disk", table_headers(&logical_key_list(), lang), rows, table_style, text_style, lang, emoji)
}

/// The memory section.
pub fn render_memory(report: &HardwareReport, table_style: TableStyle, text_style: TextStyle, lang: Lang, emoji: bool) -> (r: String)
    ensures
        r@ == memory_section(*report, table_style, text_style, lang, emoji),
{
    let mut rows: Vec<Vec<String>> = Vec::new();
    let mut i: usize = 0;
    while i < report.memory.len()
        invariant
            i <= report.memory.len(),
            cells(rows@) == memory_rows(report.memory@.take(i as int), lang),
        decreases report.memory.len() - i,
    {
        let row = memory_cells(&report.memory[i], lang);
        let ghost before = cells(rows@);
        let ghost rowv = views(row@);
        rows.push(row);
        assert(cells(rows@) =~= before.push(rowv));
        assert(report.memory@.take(i + 1).drop_last() =~= report.memory@.take(i as int));
        i += 1;
    }
    assert(report.memory@.take(i as int) =~= report.memory@);
    section_with_table("section.memory", table_headers(&memory_key_list(), lang), rows, table_style, text_style, lang, emoji)
}

/// The processor section.
pub fn render_cpu(report: &HardwareReport, table_style: TableStyle, text_style: TextStyle, lang: Lang, emoji: bool) -> (r: String)
    ensures
        r@ == cpu_section(*report, table_style, text_style, lang, emoji),
{
    let mut rows: Vec<Vec<String>> = Vec::new();
    if let Some(cpu) = &report.cpu {
        let row = vec![
            value(cpu.model.as_str(), lang),
            value(cpu.vendor.as_str(), lang),
            display_optional(lang, cpu.physical_cores),
            display_optional(lang, cpu.logical_threads),
            value(cpu.frequency.as_str(), lang),
        ];
        assert(views(row@) =~= cpu_row(*cpu, lang));
        rows.push(row);
    }
    assert(cells(rows@) =~= if report.cpu is Some { seq![cpu_row(report.cpu.unwrap(), lang)] } else { Seq::empty() });
    section_with_table("section.cpu", table_headers(&cpu_key_list(), lang), rows, table_style, text_style, lang, emoji)
}

/// The motherboard section.
pub fn render_motherboard(report: &HardwareReport, table_style: TableStyle, text_style: TextStyle, lang: Lang, emoji: bool) -> (r: String)
    ensures
        r@ == board_section(*report, table_style, text_style, lang, emoji),
{
    let mut rows: Vec<Vec<String>> = Vec::new();
    if let Some(board) = &report.motherboard {
        let row = vec![
            value(board.manufacturer.as_str(), lang),
            value(board.product.as_str(), lang),
            value(board.version.as_str(), lang),
            value(board.bios_vendor.as_str(), lang),
            value(board.bios_version.as_str(), lang),
        ];
        assert(views(row@) =~= board_row(*board, lang));
        rows.push(row);
    }
    assert(cells(rows@) =~= if report.motherboard is Some { seq![board_row(report.motherboard.unwrap(), lang)] } else { Seq::empty() });
    section_with_table("section.motherboard", table_headers(&board_key_list(), lang), rows, table_style, text_style, lang, emoji)
}

#[verifier::rlimit(50)]
/// Renders the sections `section` shows, then its warnings, then the debug
/// block when asked for or when the report carries debug records; the blocks
/// are separated by blank lines.
pub fn render_report(
    report: &HardwareReport,
    section: Section,
    table_style: TableStyle,
    text_style: TextStyle,
    debug_requested: bool,
    lang: Lang,
    emoji: bool,
) -> (r: String)
    ensures
        exists|counts: Seq<(Seq<char>, nat)>|
            #![trigger report_blocks(*report, section, table_style, text_style, debug_requested, counts, lang, emoji)]
            ((debug_requested || report.debug@.len() > 0) ==> is_tally(record_sources(report.debug@), counts))
                && r@ == join(
                report_blocks(*report, section, table_style, text_style, debug_requested, counts, lang, emoji),
                "\n\n"@,
            ),
{
    let mut output: Vec<String> = Vec::new();
    if section == Section::Disk {
        output.push(render_disk_hint(lang));
    }
    let ghost o0 = views(output@);
    assert(o0 =~= if section == Section::Disk { seq![tr(lang, "disk.combined_hint"@)] } else { Seq::empty() });
    if section == Section::Disk || section == Section::PhysicalDisk || section == Section::All {
        let b = render_physical_disks(report, table_style, text_style, lang, emoji);
        let ghost bv = b@;
        output.push(b);
        assert(views(output@) =~= o0.push(bv));
    }
    let ghost o1 = views(output@);
    assert(o1 =~= o0 + if shows_physical(section) { seq![physical_section(*report, table_style, text_style, lang, emoji)] } else { Seq::empty() });
    if section == Section::Disk || section == Section::LogicalDisk || section == Section::All {
        let b = render_logical_disks(report, table_style, text_style, lang, emoji);
        let ghost bv = b@;
        output.push(b);
        assert(views(output@) =~= o1.push(bv));
    }
    let ghost o2 = views(output@);
    assert(o2 =~= o1 + if shows_logical(section) { seq![logical_section(*report, table_style, text_style, lang, emoji)] } else { Seq::empty() });
    if section == Section::Memory || section == Section::All {
        let b = render_memory(report, table_style, text_style, lang, emoji);
        let ghost bv = b@;
        output.push(b);
        assert(views(output@) =~= o2.push(bv));
    }
    let ghost o3 = views(output@);
    assert(o3 =~= o2 + if shows_memory(section) { seq![memory_section(*report, table_style, text_style, lang, emoji)] } else { Seq::empty() });
    if section == Section::Cpu || section == Section::All {
        let b = render_cpu(report, table_style, text_style, lang, emoji);
        let ghost bv = b@;
        output.push(b);
        assert(views(output@) =~= o3.push(bv));
    }
    let ghost o4 = views(output@);
    assert(o4 =~= o3 + if shows_cpu(section) { seq![cpu_section(*report, table_style, text_style, lang, emoji)] } else { Seq::empty() });
    if section == Section::Motherboard || section == Section::All {
        let b = render_motherboard(report, table_style, text_style, lang, emoji);
        let ghost bv = b@;
        output.push(b);
        assert(views(output@) =~= o4.push(bv));
    }
    let ghost o5 = views(output@);
    assert(o5 =~= o4 + if shows_motherboard(section) { seq![board_section(*report, table_style, text_style, lang, emoji)] } else { Seq::empty() });
    let warnings = super::warnings::collect(report, section);
    if warnings.len() > 0 {
        let b = super::warnings::render(&warnings, lang, emoji, text_style);
        let ghost bv = b@;
        output.push(b);
        assert(views(output@) =~= o5.push(bv));
    }
    let ghost o6 = views(output@);
    let ghost ws = section_warnings(*report, section);
    assert(o6 =~= o5 + if ws.len() > 0 { seq![warnings_block(ws, lang, emoji, text_style)] } else { Seq::empty() });
    let ghost mut counts: Seq<(Seq<char>, nat)> = Seq::empty();
    if debug_requested || report.debug.len() > 0 {
        let d = super::debug::render(report, section, lang, emoji, text_style);
        proof {
            counts = choose|c: Seq<(Seq<char>, nat)>| is_tally(record_sources(report.debug@), c) && d@ == debug_block(*report, section, c, lang, emoji, text_style);
        }
        let ghost dv = d@;
        output.push(d);
        assert(views(output@) =~= o6.push(dv));
    }
    let ghost blocks = report_blocks(*report, section, table_style, text_style, debug_requested, counts, lang, emoji);
    assert(views(output@) =~= blocks);
    let r = crate::text::join_strings(&output, "\n\n");
    assert(((debug_requested || report.debug@.len() > 0) ==> is_tally(record_sources(report.debug@), counts))
        && r@ == join(report_blocks(*report, section, table_style, text_style, debug_requested, counts, lang, emoji), "\n\n"@));
    r
}

// --- doctor and bench ---------------------------------------------------------

/// The cells of one helper tool.
pub open spec fn tool_row(tool: ToolStatus, lang: Lang) -> Seq<Seq<char>> {
    seq![
        tool.name@,
        yes_no_text(tool.available, lang),
        match tool.path {
            Some(p) => shown(lang, p@),
            None => tr(lang, "unknown"@),
        },
        tool.purpose@,
    ]
}

/// The rows of the tool table.
pub open spec fn tool_rows(tools: Seq<ToolStatus>, lang: Lang) -> Seq<Seq<Seq<char>>>
    decreases tools.len(),
{
    if tools.len() == 0 {
        Seq::empty()
    } else {
        tool_rows(tools.drop_last(), lang).push(tool_row(tools.last(), lang))
    }
}

/// Each note as a list item.
pub open spec fn note_items(notes: Seq<String>) -> Seq<Seq<char>>
    decreases notes.len(),
{
    if notes.len() == 0 {
        Seq::empty()
    } else {
        note_items(notes.drop_last()).push("- "@ + notes.last()@)
    }
}

/// The column keys of the tool table.
pub open spec fn doctor_keys() -> Seq<Seq<char>> {
    seq!["doctor.name"@, "doctor.available"@, "doctor.path"@, "doctor.purpose"@]
}

/// The `doctor` report as a table.
pub open spec fn capabilities_text(report: CapabilityReport, ts: TableStyle, st: TextStyle, lang: Lang, emoji: bool) -> Seq<char> {
    join(
        seq![
            label_text(lang, "platform"@, emoji) + ": "@ + report.platform@ + " / "@ + report.arch@,
            label_text(lang, "elevated"@, emoji) + ": "@ + yes_no_text(report.elevated, lang),
            table_text(key_labels(doctor_keys(), lang, false), tool_rows(report.tools@, lang), ts, st),
        ] + if report.notes@.len() > 0 {
            seq![label_text(lang, "notes"@, emoji) + ":"@] + note_items(report.notes@)
        } else {
            Seq::empty()
        },
        "\n"@,
    )
}

/// Renders the `doctor` report.
pub fn render_capabilities(report: &CapabilityReport, table_style: TableStyle, text_style: TextStyle, lang: Lang, emoji: bool) -> (r: String)
    ensures
        r@ == capabilities_text(*report, table_style, text_style, lang, emoji),
{
    let mut rows: Vec<Vec<String>> = Vec::new();
    let mut i: usize = 0;
    while i < report.tools.len()
        invariant
            i <= report.tools.len(),
            cells(rows@) == tool_rows(report.tools@.take(i as int), lang),
        decreases report.tools.len() - i,
    {
        let tool = &report.tools[i];
        let path = match &tool.path {
            Some(p) => value(p.as_str(), lang),
            None => String::from_str(t(lang, "unknown")),
        };
        let row = vec![tool.name.clone(), yes_no(tool.available, lang), path, tool.purpose.clone()];
        assert(views(row@) =~= tool_row(*tool, lang));
        let ghost before = cells(rows@);
        let ghost rowv = views(row@);
        rows.push(row);
        assert(cells(rows@) =~= before.push(rowv));
        assert(report.tools@.take(i + 1).drop_last() =~= report.tools@.take(i as int));
        i += 1;
    }
    assert(report.tools@.take(i as int) =~= report.tools@);
    let keys = vec!["doctor.name", "doctor.available", "doctor.path", "doctor.purpose"];
    assert(key_views(keys@) =~= doctor_keys());
    let mut output: Vec<String> = Vec::new();
    let mut l1 = label(lang, "platform", emoji);
    l1.append(": ");
    l1.append(report.platform.as_str());
    l1.append(" / ");
    l1.append(report.arch.as_str());
    output.push(l1);
    let mut l2 = label(lang, "elevated", emoji);
    l2.append(": ");
    l2.append(yes_no(report.elevated, lang).as_str());
    output.push(l2);
    output.push(make_table(table_headers(&keys, lang), rows, table_style, text_style));
    let ghost o0 = views(output@);
    if report.notes.len() > 0 {
        let mut l = label(lang, "notes", emoji);
        l.append(":");
        output.push(l);
        let ghost o1 = views(output@);
        let mut k: usize = 0;
        while k < report.notes.len()
            invariant
                k <= report.notes.len(),
                views(output@) == o1 + note_items(report.notes@.take(k as int)),
            decreases report.notes.len() - k,
        {
            let mut item = String::from_str("- ");
            item.append(report.notes[k].as_str());
            let ghost before = views(output@);
            output.push(item);
            assert(views(output@) =~= before.push(item@));
            assert(report.notes@.take(k + 1).drop_last() =~= report.notes@.take(k as int));
            k += 1;
        }
        assert(report.notes@.take(k as int) =~= report.notes@);
    }
    assert(views(output@) =~= seq![
        label_text(lang, "platform"@, emoji) + ": "@ + report.platform@ + " / "@ + report.arch@,
        label_text(lang, "elevated"@, emoji) + ": "@ + yes_no_text(report.elevated, lang),
        table_text(key_labels(doctor_keys(), lang, false), tool_rows(report.tools@, lang), table_style, text_style),
    ] + if report.notes@.len() > 0 {
        seq![label_text(lang, "notes"@, emoji) + ":"@] + note_items(report.notes@)
    } else {
        Seq::empty()
    });
    crate::text::join_strings(&output, "\n")
}

/// The cells of one benchmark run.
pub open spec fn bench_row(row: BenchmarkRow, lang: Lang) -> Seq<Seq<char>> {
    seq![
        row.backend@,
        yes_no_text(row.ok, lang),
        decimal(row.elapsed_ms as nat) + " ms"@,
        decimal(row.disks as nat),
        decimal(row.memory as nat),
        decimal(row.warnings as nat),
        row.note@,
    ]
}

/// The rows of the benchmark table.
pub open spec fn bench_rows(rows: Seq<BenchmarkRow>, lang: Lang) -> Seq<Seq<Seq<char>>>
    decreases rows.len(),
{
    if rows.len() == 0 {
        Seq::empty()
    } else {
        bench_rows(rows.drop_last(), lang).push(bench_row(rows.last(), lang))
    }
}

/// The column keys of the benchmark table.
pub open spec fn bench_keys() -> Seq<Seq<char>> {
    seq!["bench.backend"@, "bench.ok"@, "bench.elapsed"@, "bench.disks"@, "bench.memory"@, "bench.warnings"@, "bench.note"@]
}

/// The `bench` report as a table.
pub open spec fn benchmarks_text(report: BenchmarkReport, ts: TableStyle, st: TextStyle, lang: Lang, emoji: bool) -> Seq<char> {
    join(
        seq![
            label_text(lang, "platform"@, emoji) + ": "@ + report.platform@ + " / "@ + report.arch@,
            table_text(key_labels(bench_keys(), lang, false), bench_rows(report.rows@, lang), ts, st),
        ],
        "\n"@,
    )
}

/// Renders the `bench` report.
pub fn render_benchmarks(report: &BenchmarkReport, table_style: TableStyle, text_style: TextStyle, lang: Lang, emoji: bool) -> (r: String)
    ensures
        r@ == benchmarks_text(*report, table_style, text_style, lang, emoji),
{
    let mut rows: Vec<Vec<String>> = Vec::new();
    let mut i: usize = 0;
    while i < report.rows.len()
        invariant
            i <= report.rows.len(),
            cells(rows@) == bench_rows(report.rows@.take(i as int), lang),
        decreases report.rows.len() - i,
    {
        let b = &report.rows[i];
        let mut elapsed = decimal_string(b.elapsed_ms);
        elapsed.append(" ms");
        let row = vec![
            b.backend.clone(),
            yes_no(b.ok, lang),
            elapsed,
            decimal_string(b.disks as u128),
            decimal_string(b.memory as u128),
            decimal_string(b.warnings as u128),
            b.note.clone(),
        ];
        assert(views(row@) =~= bench_row(*b, lang));
        let ghost before = cells(rows@);
        let ghost rowv = views(row@);
        rows.push(row);
        assert(cells(rows@) =~= before.push(rowv));
        assert(report.rows@.take(i + 1).drop_last() =~= report.rows@.take(i as int));
        i += 1;
    }
    assert(report.rows@.take(i as int) =~= report.rows@);
    let keys = vec!["bench.backend", "bench.ok", "bench.elapsed", "bench.disks", "bench.memory", "bench.warnings", "bench.note"];
    assert(key_views(keys@) =~= bench_keys());
    let mut output: Vec<String> = Vec::new();
    let mut l1 = label(lang, "platform", emoji);
    l1.append(": ");
    l1.append(report.platform.as_str());
    l1.append(" / ");
    l1.append(report.arch.as_str());
    output.push(l1);
    output.push(make_table(table_headers(&keys, lang), rows, table_style, text_style));
    assert(views(output@) =~= seq![
        label_text(lang, "platform"@, emoji) + ": "@ + report.platform@ + " / "@ + report.arch@,
        table_text(key_labels(bench_keys(), lang, false), bench_rows(report.rows@, lang), table_style, text_style),
    ]);
    crate::text::join_strings(&output, "\n")
}

} // verus!
