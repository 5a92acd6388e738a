//! How the Windows backends fall back on one another, and what a benchmark
//! run records. The program runs each backend; these functions decide what
//! the report says about it.

use vstd::prelude::*;

use crate::collector::BenchmarkRow;
use crate::hardware::warning::warning_is;
use crate::hardware::{HardwareReport, HdrtWarning};

verus! {

/// The report after a run: when the process is not elevated, a warning
/// that some fields may be hidden is appended.
pub open spec fn with_admin_warning(old_report: HardwareReport, new_report: HardwareReport, elevated: bool) -> bool {
    &&& new_report.physical_disks == old_report.physical_disks
    &&& new_report.logical_disks == old_report.logical_disks
    &&& new_report.memory == old_report.memory
    &&& new_report.cpu == old_report.cpu
    &&& new_report.motherboard == old_report.motherboard
    &&& new_report.debug == old_report.debug
    &&& if elevated {
        new_report.warnings == old_report.warnings
    } else {
        &&& new_report.warnings@.len() == old_report.warnings@.len() + 1
        &&& new_report.warnings@.drop_last() == old_report.warnings@
        &&& warning_is(
            new_report.warnings@.last(),
            "not-administrator"@,
            "Some Windows hardware fields may be hidden without Administrator privileges."@,
            "Run hdrt from an Administrator terminal for more complete disk, board, and BIOS details."@,
        )
    }
}

/// Appends the not-administrator warning unless the process is elevated.
pub fn add_administrator_warning(report: &mut HardwareReport, elevated: bool)
    ensures
        with_admin_warning(*old(report), *final(report), elevated),
{
    if !elevated {
        let ghost w0 = report.warnings@;
        report.warnings.push(HdrtWarning::with_hint(
            "not-administrator",
            "Some Windows hardware fields may be hidden without Administrator privileges.",
            "Run hdrt from an Administrator terminal for more complete disk, board, and BIOS details.",
        ));
        assert(report.warnings@.drop_last() =~= w0);
    }
}

/// The report with one fallback warning and then, unless elevated, the
/// not-administrator warning appended.
pub open spec fn fallback_report_of(
    old_report: HardwareReport,
    new_report: HardwareReport,
    code: Seq<char>,
    message: Seq<char>,
    hint: Seq<char>,
    elevated: bool,
) -> bool {
    let n = old_report.warnings@.len();
    &&& new_report.physical_disks == old_report.physical_disks
    &&& new_report.logical_disks == old_report.logical_disks
    &&& new_report.memory == old_report.memory
    &&& new_report.cpu == old_report.cpu
    &&& new_report.motherboard == old_report.motherboard
    &&& new_report.debug == old_report.debug
    &&& new_report.warnings@.len() == n + 1 + (if elevated { 0int } else { 1int })
    &&& new_report.warnings@.take(n as int) == old_report.warnings@
    &&& warning_is(new_report.warnings@[n as int], code, message, hint)
    &&& !elevated ==> warning_is(
        new_report.warnings@[(n + 1) as int],
        "not-administrator"@,
        "Some Windows hardware fields may be hidden without Administrator privileges."@,
        "Run hdrt from an Administrator terminal for more complete disk, board, and BIOS details."@,
    )
}

/// Appends a fallback warning, then the not-administrator warning.
fn push_fallback(report: &mut HardwareReport, code: &str, message: &str, hint: &str, elevated: bool)
    ensures
        fallback_report_of(*old(report), *final(report), code@, message@, hint@, elevated),
{
    let ghost w0 = report.warnings@;
    report.warnings.push(HdrtWarning::with_hint(code, message, hint));
    let ghost w1 = report.warnings@;
    add_administrator_warning(report, elevated);
    assert(report.warnings@.take(w0.len() as int) =~= w0);
    if !elevated {
        assert(report.warnings@.drop_last() == w1);
        assert(report.warnings@[w0.len() as int] == w1[w0.len() as int]);
    }
}

/// "Native WMI backend failed: " and the error.
pub open spec fn native_failed_text(err: Seq<char>) -> Seq<char> {
    "Native WMI backend failed: "@ + err
}

/// The automatic backend's report when native WMI failed and the shell
/// backend gave `shell`.
pub fn auto_with_shell(native_err: &str, shell: HardwareReport, elevated: bool) -> (r: HardwareReport)
    ensures
        fallback_report_of(
            shell,
            r,
            "windows-auto-shell-fallback"@,
            native_failed_text(native_err@),
            "Using the shell backend because --backend auto permits external collectors."@,
            elevated,
        ),
{
    let mut report = shell;
    let mut message = String::from_str("Native WMI backend failed: ");
    message.append(native_err);
    push_fallback(
        &mut report,
        "windows-auto-shell-fallback",
        message.as_str(),
        "Using the shell backend because --backend auto permits external collectors.",
        elevated,
    );
    report
}

/// The automatic backend's report when native WMI and the shell backend
/// both failed and the basic backend gave `basic`.
pub fn auto_with_basic(native_err: &str, shell_err: &str, basic: HardwareReport, elevated: bool) -> (r: HardwareReport)
    ensures
        fallback_report_of(
            basic,
            r,
            "windows-auto-basic-fallback"@,
            native_failed_text(native_err@) + "; shell backend failed: "@ + shell_err@,
            "Using the basic sysinfo + registry backend."@,
            elevated,
        ),
{
    let mut report = basic;
    let mut message = String::from_str("Native WMI backend failed: ");
    message.append(native_err);
    message.append("; shell backend failed: ");
    message.append(shell_err);
    push_fallback(&mut report, "windows-auto-basic-fallback", message.as_str(), "Using the basic sysinfo + registry backend.", elevated);
    report
}

/// The native backend's report when native WMI failed and the basic
/// backend gave `basic`.
pub fn native_with_basic(err: &str, basic: HardwareReport, elevated: bool) -> (r: HardwareReport)
    ensures
        fallback_report_of(
            basic,
            r,
            "windows-native-basic-fallback"@,
            native_failed_text(err@),
            "Using the native basic sysinfo + registry backend."@,
            elevated,
        ),
{
    let mut report = basic;
    let mut message = String::from_str("Native WMI backend failed: ");
    message.append(err);
    push_fallback(&mut report, "windows-native-basic-fallback", message.as_str(), "Using the native basic sysinfo + registry backend.", elevated);
    report
}

/// The row of a backend run that produced `report` in `elapsed_ms`.
pub fn benchmark_ok(backend: &str, elapsed_ms: u128, report: &HardwareReport, note: &str) -> (r: BenchmarkRow)
    ensures
        r.backend@ == backend@,
        r.ok,
        r.elapsed_ms == elapsed_ms,
        r.disks == report.physical_disks@.len(),
        r.memory == report.memory@.len(),
        r.warnings == report.warnings@.len(),
        r.note@ == note@,
{
    BenchmarkRow {
        backend: String::from_str(backend),
        ok: true,
        elapsed_ms,
        disks: report.physical_disks.len(),
        memory: report.memory.len(),
        warnings: report.warnings.len(),
        note: String::from_str(note),
    }
}

/// The row of a backend run that failed with `err` after `elapsed_ms`.
pub fn benchmark_err(backend: &str, elapsed_ms: u128, err: &str) -> (r: BenchmarkRow)
    ensures
        r.backend@ == backend@,
        !r.ok,
        r.elapsed_ms == elapsed_ms,
        r.disks == 0,
        r.memory == 0,
        r.warnings == 0,
        r.note@ == err@,
{
    BenchmarkRow {
        backend: String::from_str(backend),
        ok: false,
        elapsed_ms,
        disks: 0,
        memory: 0,
        warnings: 0,
        note: String::from_str(err),
    }
}

} // verus!
