use std::collections::HashSet;

use hdrt::collector::{BenchmarkReport, BenchmarkRow};
use hdrt::hardware::{
    CapabilityReport, CpuInfo, DebugRecord, DiskInfo, HardwareReport, HdrtWarning, LogicalDiskInfo, MemoryDevice,
    MotherboardInfo, Section, ToolStatus,
};
use hdrt::i18n::Lang;
use hdrt::options::{RenderFormat, TableStyle};
use hdrt::render::{render_benchmarks, render_capabilities, render_report};

fn fixture_report() -> HardwareReport {
    HardwareReport {
        physical_disks: vec![DiskInfo {
            device: "0".to_string(),
            model: "Fixture SSD".to_string(),
            serial: "DISK-SERIAL".to_string(),
            size: "512.00 GiB".to_string(),
            media_type: "SSD".to_string(),
            bus: "NVMe".to_string(),
            firmware: "1.0".to_string(),
            health: "Healthy".to_string(),
            source: "fixture-physical".to_string(),
            warnings: Vec::new(),
        }],
        logical_disks: vec![LogicalDiskInfo {
            device: "/dev/test1".to_string(),
            mount_point: "/fixture".to_string(),
            file_system: "ext4".to_string(),
            total: "100.00 GiB".to_string(),
            used: "25.00 GiB".to_string(),
            available: "75.00 GiB".to_string(),
            used_percent_tenths: 250,
            source: "logical-source".to_string(),
            warnings: Vec::new(),
        }],
        memory: vec![MemoryDevice {
            slot: "DIMM0".to_string(),
            size: "16.00 GiB".to_string(),
            speed: "3200 MT/s".to_string(),
            manufacturer: "Fixture Memory".to_string(),
            part_number: "PART-1".to_string(),
            serial: "MEM-SERIAL".to_string(),
            source: "fixture-memory".to_string(),
            warnings: Vec::new(),
        }],
        cpu: Some(fixture_cpu()),
        motherboard: Some(MotherboardInfo {
            manufacturer: "Fixture Board".to_string(),
            product: "Board 1".to_string(),
            version: "1.0".to_string(),
            serial: "BOARD-SECRET".to_string(),
            bios_vendor: "Fixture BIOS".to_string(),
            bios_version: "2.0".to_string(),
            source: "fixture-board".to_string(),
            warnings: Vec::new(),
        }),
        warnings: vec![HdrtWarning::with_hint(
            "fixture-warning",
            "Fixture warning message.",
            "Fixture warning hint.",
        )],
        debug: Vec::new(),
    }
}

fn fixture_cpu() -> CpuInfo {
    CpuInfo {
        model: "Test CPU".to_string(),
        vendor: "Test Vendor".to_string(),
        physical_cores: Some(6),
        logical_threads: Some(12),
        frequency: "2500 MHz".to_string(),
        source: "fixture".to_string(),
        warnings: Vec::new(),
    }
}

fn cpu_report(with_debug: bool) -> HardwareReport {
    HardwareReport {
        cpu: Some(fixture_cpu()),
        debug: if with_debug {
            vec![DebugRecord::new("cpu0", "fixture").field("cores", "6").note("deterministic fixture")]
        } else {
            Vec::new()
        },
        ..HardwareReport::default()
    }
}

fn table(style: TableStyle, color: bool, bold: bool, debug: bool) -> String {
    let mut report = fixture_report();
    if debug {
        report.debug.push(DebugRecord::new("cpu0", "fixture").field("cores", "6").note("deterministic fixture"));
    }
    table_report(&report, style, color, bold, debug)
}

fn table_report(report: &HardwareReport, style: TableStyle, color: bool, bold: bool, debug: bool) -> String {
    render_report(report, Section::All, RenderFormat::Table, style, color, bold, debug, Lang::EnUs, false)
        .expect("table rendering should succeed")
}

fn markdown(report: &HardwareReport, section: Section, debug: bool) -> String {
    render_report(report, section, RenderFormat::Markdown, TableStyle::Rounded, false, false, debug, Lang::EnUs, false)
        .expect("markdown rendering should succeed")
}

#[test]
fn all_table_styles_produce_distinct_output() {
    let mut report = fixture_report();
    let mut second_disk = fixture_report().physical_disks.remove(0);
    second_disk.device = "1".to_string();
    second_disk.model = "Second Fixture SSD".to_string();
    report.physical_disks.push(second_disk);

    let outputs = [
        TableStyle::Rounded,
        TableStyle::Modern,
        TableStyle::Sharp,
        TableStyle::Psql,
        TableStyle::Ascii,
        TableStyle::Blank,
    ]
    .into_iter()
    .map(|style| table_report(&report, style, false, false, false))
    .collect::<HashSet<_>>();

    assert_eq!(outputs.len(), 6);
}

#[test]
fn ascii_style_avoids_unicode_box_drawing() {
    let output = table(TableStyle::Ascii, false, false, false);

    assert!(output.contains('+'));
    assert!(!output.chars().any(|character| ['╭', '┌', '╔', '│'].contains(&character)));
}

#[test]
fn blank_style_omits_visible_box_borders() {
    let output = table(TableStyle::Blank, false, false, false);

    assert!(!output.chars().any(|character| ['╭', '┌', '╔', '│', '+'].contains(&character)));
    assert!(output.contains("Fixture SSD"));
}

#[test]
fn honors_color_and_bold_switches_independently() {
    let color_only = table(TableStyle::Rounded, true, false, false);
    let bold_only = table(TableStyle::Rounded, false, true, false);
    let plain = table(TableStyle::Rounded, false, false, false);

    assert!(color_only.contains("\x1b[36mdevice\x1b[0m"));
    assert!(bold_only.contains("\x1b[1mdevice\x1b[0m"));
    assert!(!plain.contains("\x1b["));
}

#[test]
fn normal_table_hides_debug_only_fields() {
    let output = table(TableStyle::Rounded, false, false, false);

    assert!(!output.contains("logical-source"));
    assert!(!output.contains("BOARD-SECRET"));
}

#[test]
fn debug_table_restores_hidden_fields_in_summary_order() {
    let output = table(TableStyle::Rounded, false, false, true);
    let collector = output.find("Collector Summary").unwrap();
    let hidden = output.find("Hidden Fields").unwrap();
    let records = output.find("Debug Records").unwrap();

    assert!(collector < hidden && hidden < records);
    assert!(output.contains("logical-source"));
    assert!(output.contains("BOARD-SECRET"));
}

#[test]
fn normal_markdown_hides_debug_only_fields() {
    let output = markdown(&fixture_report(), Section::All, false);

    assert!(!output.contains("logical-source"));
    assert!(!output.contains("BOARD-SECRET"));
}

#[test]
fn json_is_left_to_the_caller() {
    let output = render_report(
        &fixture_report(),
        Section::All,
        RenderFormat::Json,
        TableStyle::Rounded,
        false,
        false,
        false,
        Lang::EnUs,
        false,
    );
    assert!(output.is_none());
}

#[test]
fn markdown_cpu_section_lists_every_field() {
    let output = markdown(&cpu_report(false), Section::Cpu, false);
    assert_eq!(
        output,
        "## CPU\n\n- model: `Test CPU`\n- vendor: `Test Vendor`\n- physical cores: `6`\n- logical threads: `12`\n- frequency: `2500 MHz`"
    );
}

#[test]
fn markdown_debug_section_counts_records_per_collector() {
    let output = markdown(&cpu_report(true), Section::Cpu, true);
    let expected = "## CPU\n\n- model: `Test CPU`\n- vendor: `Test Vendor`\n- physical cores: `6`\n- logical threads: `12`\n- frequency: `2500 MHz`\n\n## Debug Summary\n\n### Collector Summary\n- `fixture`: 1 record(s)\n\n### Hidden Fields\n- none\n\n## Debug Records\n\n### 1. cpu0\n\n- source: `fixture`\n- note: deterministic fixture\n- fields:\n  - `cores`: `6`";
    assert_eq!(output, expected);
}

#[test]
fn markdown_debug_section_without_records_says_so() {
    let output = markdown(&cpu_report(false), Section::Cpu, true);
    assert!(output.contains("### Collector Summary\n- no debug records"));
    assert!(output.ends_with("## Debug Records\n- no debug records"));
}

#[test]
fn markdown_logical_disk_row_prints_one_decimal_percent() {
    let output = markdown(&fixture_report(), Section::LogicalDisk, false);
    assert!(output.contains("| /dev/test1 | /fixture | ext4 | 100.00 GiB | 25.00 GiB | 75.00 GiB | 25.0% |"));
}

#[test]
fn markdown_warning_lists_code_message_and_hint() {
    let output = markdown(&fixture_report(), Section::Cpu, false);
    assert!(output.contains("## Warnings\n\n- `fixture-warning`: Fixture warning message.\n  - Hint: Fixture warning hint."));
}

#[test]
fn disk_section_starts_with_combined_hint() {
    let output = markdown(&fixture_report(), Section::Disk, false);
    assert!(output.starts_with("Showing physical and logical disks"));
    assert!(output.contains("## Physical Disks"));
    assert!(output.contains("## Logical Disks"));
}

#[test]
fn unknown_values_show_the_language_marker() {
    let mut report = cpu_report(false);
    if let Some(cpu) = report.cpu.as_mut() {
        cpu.vendor = "To Be Filled By O.E.M.".to_string();
    }
    let en = markdown(&report, Section::Cpu, false);
    assert!(en.contains("- vendor: `【--UNKNOWN--】`"));
    let zh = render_report(&report, Section::Cpu, RenderFormat::Markdown, TableStyle::Rounded, false, false, false, Lang::ZhCn, false)
        .unwrap();
    assert!(zh.contains("`【--未知--】`"));
}

#[test]
fn missing_cpu_says_no_data() {
    let output = markdown(&HardwareReport::default(), Section::Cpu, false);
    assert_eq!(output, "## CPU\n\nNo data");
}

#[test]
fn emoji_decorates_markdown_titles() {
    let output = render_report(&cpu_report(false), Section::Cpu, RenderFormat::Markdown, TableStyle::Rounded, false, false, false, Lang::EnUs, true)
        .unwrap();
    let plain = markdown(&cpu_report(false), Section::Cpu, false);
    assert_ne!(output, plain);
    assert!(output.contains("CPU"));
}

fn capabilities() -> CapabilityReport {
    CapabilityReport {
        platform: "linux".to_string(),
        arch: "x86_64".to_string(),
        elevated: false,
        tools: vec![
            ToolStatus {
                name: "smartctl".to_string(),
                available: true,
                path: Some("/usr/sbin/smartctl".to_string()),
                purpose: "disk health".to_string(),
            },
            ToolStatus { name: "dmidecode".to_string(), available: false, path: None, purpose: "memory slots".to_string() },
        ],
        notes: vec!["run with sudo".to_string()],
    }
}

#[test]
fn markdown_doctor_report_lists_tools_and_notes() {
    let output = render_capabilities(&capabilities(), RenderFormat::Markdown, TableStyle::Rounded, false, false, Lang::EnUs, false)
        .unwrap();
    let expected = "# hdrt doctor\n\n- Platform: `linux`\n- Architecture: `x86_64`\n- Elevated: `no`\n\n| name | available | path | purpose |\n| --- | --- | --- | --- |\n| smartctl | yes | /usr/sbin/smartctl | disk health |\n| dmidecode | no | 【--UNKNOWN--】 | memory slots |\n\n## Notes\n- run with sudo";
    assert_eq!(output, expected);
}

#[test]
fn table_doctor_report_names_platform_and_tools() {
    let output = render_capabilities(&capabilities(), RenderFormat::Table, TableStyle::Ascii, false, false, Lang::EnUs, false)
        .unwrap();
    assert!(output.starts_with("Platform: linux / x86_64\nElevated: no\n"));
    assert!(output.contains("smartctl"));
    assert!(output.contains("Notes:\n- run with sudo"));
}

#[test]
fn markdown_bench_report_lists_rows() {
    let report = BenchmarkReport {
        platform: "windows".to_string(),
        arch: "x86_64".to_string(),
        rows: vec![BenchmarkRow {
            backend: "native".to_string(),
            ok: true,
            elapsed_ms: 42,
            disks: 2,
            memory: 4,
            warnings: 1,
            note: "fast".to_string(),
        }],
    };
    let output = render_benchmarks(&report, RenderFormat::Markdown, TableStyle::Rounded, false, false, Lang::EnUs, false).unwrap();
    assert!(output.ends_with("| native | yes | 42 ms | 2 | 4 | 1 | fast |"));
    assert!(output.starts_with("# hdrt backend benchmark\n\n- Platform: `windows`\n- Architecture: `x86_64`\n"));
}

fn assert_golden(actual: &str, expected: &str) {
    let actual = actual.replace("\r\n", "\n");
    let expected = expected.replace("\r\n", "\n");
    assert_eq!(actual.trim_end(), expected.trim_end());
}

const CPU_MARKDOWN: &str = "## CPU

- model: `Test CPU`
- vendor: `Test Vendor`
- physical cores: `6`
- logical threads: `12`
- frequency: `2500 MHz`
";

const CPU_DEBUG_MARKDOWN: &str = "## CPU

- model: `Test CPU`
- vendor: `Test Vendor`
- physical cores: `6`
- logical threads: `12`
- frequency: `2500 MHz`

## Debug Summary

### Collector Summary
- `fixture`: 1 record(s)

### Hidden Fields
- none

## Debug Records

### 1. cpu0

- source: `fixture`
- note: deterministic fixture
- fields:
  - `cores`: `6`
";

#[test]
fn markdown_snapshot_matches_fixture() {
    let output = render_report(
        &cpu_report(false),
        Section::Cpu,
        RenderFormat::Markdown,
        TableStyle::Rounded,
        false,
        false,
        false,
        Lang::EnUs,
        false,
    )
    .unwrap();
    assert_golden(&output, CPU_MARKDOWN);
}

#[test]
fn debug_snapshot_matches_fixture() {
    let output = render_report(
        &cpu_report(true),
        Section::Cpu,
        RenderFormat::Markdown,
        TableStyle::Rounded,
        false,
        false,
        true,
        Lang::EnUs,
        false,
    )
    .unwrap();
    assert_golden(&output, CPU_DEBUG_MARKDOWN);
}
