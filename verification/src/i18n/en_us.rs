//! English (United States) display texts.

use vstd::prelude::*;

use crate::text::{chars_eq, chars_of};

verus! {

/// The English (United States) text for `key`; a marker for keys without one.
pub open spec fn text(key: Seq<char>) -> Seq<char> {
    if key == "unknown"@ {
        "【--UNKNOWN--】"@
    } else if key == "yes"@ {
        "yes"@
    } else if key == "no"@ {
        "no"@
    } else if key == "no_data"@ {
        "No data"@
    } else if key == "warnings"@ {
        "Warnings"@
    } else if key == "hint"@ {
        "Hint"@
    } else if key == "notes"@ {
        "Notes"@
    } else if key == "platform"@ {
        "Platform"@
    } else if key == "arch"@ {
        "Architecture"@
    } else if key == "elevated"@ {
        "Elevated"@
    } else if key == "doctor.name"@ {
        "name"@
    } else if key == "doctor.available"@ {
        "available"@
    } else if key == "doctor.path"@ {
        "path"@
    } else if key == "doctor.purpose"@ {
        "purpose"@
    } else if key == "bench.backend"@ {
        "backend"@
    } else if key == "bench.ok"@ {
        "ok"@
    } else if key == "bench.elapsed"@ {
        "elapsed"@
    } else if key == "bench.disks"@ {
        "disks"@
    } else if key == "bench.memory"@ {
        "memory"@
    } else if key == "bench.warnings"@ {
        "warnings"@
    } else if key == "bench.note"@ {
        "note"@
    } else if key == "section.all"@ {
        "Hardware"@
    } else if key == "section.overview"@ {
        "Overview"@
    } else if key == "section.disk"@ {
        "Disks"@
    } else if key == "section.physical_disk"@ {
        "Physical Disks"@
    } else if key == "section.logical_disk"@ {
        "Logical Disks"@
    } else if key == "section.memory"@ {
        "Memory"@
    } else if key == "section.cpu"@ {
        "CPU"@
    } else if key == "section.motherboard"@ {
        "Motherboard"@
    } else if key == "section.health"@ {
        "Health"@
    } else if key == "disk.device"@ {
        "device"@
    } else if key == "disk.model"@ {
        "model"@
    } else if key == "disk.brand"@ {
        "brand"@
    } else if key == "disk.serial"@ {
        "serial"@
    } else if key == "disk.size"@ {
        "size"@
    } else if key == "disk.kind"@ {
        "kind"@
    } else if key == "disk.bus"@ {
        "bus"@
    } else if key == "disk.firmware"@ {
        "firmware"@
    } else if key == "disk.health"@ {
        "health"@
    } else if key == "disk.mount"@ {
        "mount"@
    } else if key == "disk.filesystem"@ {
        "filesystem"@
    } else if key == "disk.used"@ {
        "used"@
    } else if key == "disk.available"@ {
        "available"@
    } else if key == "disk.used_percent"@ {
        "used %"@
    } else if key == "disk.combined_hint"@ {
        "Showing physical and logical disks; use `hdrt pd` or `hdrt ld` for one kind."@
    } else if key == "memory.slot"@ {
        "slot"@
    } else if key == "memory.size"@ {
        "size"@
    } else if key == "memory.speed"@ {
        "speed"@
    } else if key == "memory.manufacturer"@ {
        "manufacturer"@
    } else if key == "memory.part_number"@ {
        "part number"@
    } else if key == "memory.serial"@ {
        "serial"@
    } else if key == "cpu.model"@ {
        "model"@
    } else if key == "cpu.vendor"@ {
        "vendor"@
    } else if key == "cpu.physical_cores"@ {
        "physical cores"@
    } else if key == "cpu.logical_threads"@ {
        "logical threads"@
    } else if key == "cpu.frequency"@ {
        "frequency"@
    } else if key == "motherboard.manufacturer"@ {
        "manufacturer"@
    } else if key == "motherboard.product"@ {
        "product"@
    } else if key == "motherboard.version"@ {
        "version"@
    } else if key == "motherboard.serial"@ {
        "serial"@
    } else if key == "motherboard.bios_vendor"@ {
        "BIOS vendor"@
    } else if key == "motherboard.bios_version"@ {
        "BIOS version"@
    } else if key == "debug.summary"@ {
        "Debug Summary"@
    } else if key == "debug.collector_summary"@ {
        "Collector Summary"@
    } else if key == "debug.hidden_fields"@ {
        "Hidden Fields"@
    } else if key == "debug.records"@ {
        "Debug Records"@
    } else if key == "debug.no_records"@ {
        "no debug records"@
    } else if key == "debug.records_count"@ {
        "record(s)"@
    } else if key == "debug.none"@ {
        "none"@
    } else if key == "tui.interval"@ {
        "interval"@
    } else if key == "tui.refreshed"@ {
        "inventory refreshed"@
    } else if key == "tui.chart_mode"@ {
        "chart"@
    } else if key == "tui.chart.line"@ {
        "line"@
    } else if key == "tui.chart.scatter"@ {
        "scatter"@
    } else if key == "tui.chart.bar"@ {
        "bar"@
    } else if key == "tui.chart.sparkline"@ {
        "sparkline"@
    } else if key == "tui.chart.gauge"@ {
        "gauge"@
    } else if key == "tui.cpu_cores"@ {
        "CPU cores"@
    } else if key == "tui.cpu_usage"@ {
        "CPU usage"@
    } else if key == "tui.memory_usage"@ {
        "Memory usage"@
    } else if key == "tui.swap_usage"@ {
        "Swap usage"@
    } else if key == "tui.disk_usage"@ {
        "Disk usage"@
    } else if key == "tui.disk_io"@ {
        "Disk I/O"@
    } else if key == "tui.read"@ {
        "read"@
    } else if key == "tui.write"@ {
        "write"@
    } else if key == "tui.help.live"@ {
        "Tab/Left/Right/WASD: tabs | j/k: disks | z/c: chart | r: refresh | q/Esc: quit"@
    } else if key == "tui.too_small"@ {
        "Terminal too small; enlarge the window."@
    } else if key == "tui.no_warnings"@ {
        "No warnings."@
    } else if key == "spinner.collect"@ {
        "Collecting hardware inventory"@
    } else if key == "spinner.doctor"@ {
        "Checking the environment"@
    } else if key == "spinner.bench"@ {
        "Benchmarking backends"@
    } else if key == "spinner.tui"@ {
        "Starting the live view"@
    } else {
        "【--MISSING--】"@
    }
}

/// The English (United States) text for `key`.
pub fn t(key: &str) -> (r: &'static str)
    ensures
        r@ == text(key@),
{
    let k = chars_of(key);
    if chars_eq(&k, &chars_of("unknown")) {
        "【--UNKNOWN--】"
    } else if chars_eq(&k, &chars_of("yes")) {
        "yes"
    } else if chars_eq(&k, &chars_of("no")) {
        "no"
    } else if chars_eq(&k, &chars_of("no_data")) {
        "No data"
    } else if chars_eq(&k, &chars_of("warnings")) {
        "Warnings"
    } else if chars_eq(&k, &chars_of("hint")) {
        "Hint"
    } else if chars_eq(&k, &chars_of("notes")) {
        "Notes"
    } else if chars_eq(&k, &chars_of("platform")) {
        "Platform"
    } else if chars_eq(&k, &chars_of("arch")) {
        "Architecture"
    } else if chars_eq(&k, &chars_of("elevated")) {
        "Elevated"
    } else if chars_eq(&k, &chars_of("doctor.name")) {
        "name"
    } else if chars_eq(&k, &chars_of("doctor.available")) {
        "available"
    } else if chars_eq(&k, &chars_of("doctor.path")) {
        "path"
    } else if chars_eq(&k, &chars_of("doctor.purpose")) {
        "purpose"
    } else if chars_eq(&k, &chars_of("bench.backend")) {
        "backend"
    } else if chars_eq(&k, &chars_of("bench.ok")) {
        "ok"
    } else if chars_eq(&k, &chars_of("bench.elapsed")) {
        "elapsed"
    } else if chars_eq(&k, &chars_of("bench.disks")) {
        "disks"
    } else if chars_eq(&k, &chars_of("bench.memory")) {
        "memory"
    } else if chars_eq(&k, &chars_of("bench.warnings")) {
        "warnings"
    } else if chars_eq(&k, &chars_of("bench.note")) {
        "note"
    } else if chars_eq(&k, &chars_of("section.all")) {
        "Hardware"
    } else if chars_eq(&k, &chars_of("section.overview")) {
        "Overview"
    } else if chars_eq(&k, &chars_of("section.disk")) {
        "Disks"
    } else if chars_eq(&k, &chars_of("section.physical_disk")) {
        "Physical Disks"
    } else if chars_eq(&k, &chars_of("section.logical_disk")) {
        "Logical Disks"
    } else if chars_eq(&k, &chars_of("section.memory")) {
        "Memory"
    } else if chars_eq(&k, &chars_of("section.cpu")) {
        "CPU"
    } else if chars_eq(&k, &chars_of("section.motherboard")) {
        "Motherboard"
    } else if chars_eq(&k, &chars_of("section.health")) {
        "Health"
    } else if chars_eq(&k, &chars_of("disk.device")) {
        "device"
    } else if chars_eq(&k, &chars_of("disk.model")) {
        "model"
    } else if chars_eq(&k, &chars_of("disk.brand")) {
        "brand"
    } else if chars_eq(&k, &chars_of("disk.serial")) {
        "serial"
    } else if chars_eq(&k, &chars_of("disk.size")) {
        "size"
    } else if chars_eq(&k, &chars_of("disk.kind")) {
        "kind"
    } else if chars_eq(&k, &chars_of("disk.bus")) {
        "bus"
    } else if chars_eq(&k, &chars_of("disk.firmware")) {
        "firmware"
    } else if chars_eq(&k, &chars_of("disk.health")) {
        "health"
    } else if chars_eq(&k, &chars_of("disk.mount")) {
        "mount"
    } else if chars_eq(&k, &chars_of("disk.filesystem")) {
        "filesystem"
    } else if chars_eq(&k, &chars_of("disk.used")) {
        "used"
    } else if chars_eq(&k, &chars_of("disk.available")) {
        "available"
    } else if chars_eq(&k, &chars_of("disk.used_percent")) {
        "used %"
    } else if chars_eq(&k, &chars_of("disk.combined_hint")) {
        "Showing physical and logical disks; use `hdrt pd` or `hdrt ld` for one kind."
    } else if chars_eq(&k, &chars_of("memory.slot")) {
        "slot"
    } else if chars_eq(&k, &chars_of("memory.size")) {
        "size"
    } else if chars_eq(&k, &chars_of("memory.speed")) {
        "speed"
    } else if chars_eq(&k, &chars_of("memory.manufacturer")) {
        "manufacturer"
    } else if chars_eq(&k, &chars_of("memory.part_number")) {
        "part number"
    } else if chars_eq(&k, &chars_of("memory.serial")) {
        "serial"
    } else if chars_eq(&k, &chars_of("cpu.model")) {
        "model"
    } else if chars_eq(&k, &chars_of("cpu.vendor")) {
        "vendor"
    } else if chars_eq(&k, &chars_of("cpu.physical_cores")) {
        "physical cores"
    } else if chars_eq(&k, &chars_of("cpu.logical_threads")) {
        "logical threads"
    } else if chars_eq(&k, &chars_of("cpu.frequency")) {
        "frequency"
    } else if chars_eq(&k, &chars_of("motherboard.manufacturer")) {
        "manufacturer"
    } else if chars_eq(&k, &chars_of("motherboard.product")) {
        "product"
    } else if chars_eq(&k, &chars_of("motherboard.version")) {
        "version"
    } else if chars_eq(&k, &chars_of("motherboard.serial")) {
        "serial"
    } else if chars_eq(&k, &chars_of("motherboard.bios_vendor")) {
        "BIOS vendor"
    } else if chars_eq(&k, &chars_of("motherboard.bios_version")) {
        "BIOS version"
    } else if chars_eq(&k, &chars_of("debug.summary")) {
        "Debug Summary"
    } else if chars_eq(&k, &chars_of("debug.collector_summary")) {
        "Collector Summary"
    } else if chars_eq(&k, &chars_of("debug.hidden_fields")) {
        "Hidden Fields"
    } else if chars_eq(&k, &chars_of("debug.records")) {
        "Debug Records"
    } else if chars_eq(&k, &chars_of("debug.no_records")) {
        "no debug records"
    } else if chars_eq(&k, &chars_of("debug.records_count")) {
        "record(s)"
    } else if chars_eq(&k, &chars_of("debug.none")) {
        "none"
    } else if chars_eq(&k, &chars_of("tui.interval")) {
        "interval"
    } else if chars_eq(&k, &chars_of("tui.refreshed")) {
        "inventory refreshed"
    } else if chars_eq(&k, &chars_of("tui.chart_mode")) {
        "chart"
    } else if chars_eq(&k, &chars_of("tui.chart.line")) {
        "line"
    } else if chars_eq(&k, &chars_of("tui.chart.scatter")) {
        "scatter"
    } else if chars_eq(&k, &chars_of("tui.chart.bar")) {
        "bar"
    } else if chars_eq(&k, &chars_of("tui.chart.sparkline")) {
        "sparkline"
    } else if chars_eq(&k, &chars_of("tui.chart.gauge")) {
        "gauge"
    } else if chars_eq(&k, &chars_of("tui.cpu_cores")) {
        "CPU cores"
    } else if chars_eq(&k, &chars_of("tui.cpu_usage")) {
        "CPU usage"
    } else if chars_eq(&k, &chars_of("tui.memory_usage")) {
        "Memory usage"
    } else if chars_eq(&k, &chars_of("tui.swap_usage")) {
        "Swap usage"
    } else if chars_eq(&k, &chars_of("tui.disk_usage")) {
        "Disk usage"
    } else if chars_eq(&k, &chars_of("tui.disk_io")) {
        "Disk I/O"
    } else if chars_eq(&k, &chars_of("tui.read")) {
        "read"
    } else if chars_eq(&k, &chars_of("tui.write")) {
        "write"
    } else if chars_eq(&k, &chars_of("tui.help.live")) {
        "Tab/Left/Right/WASD: tabs | j/k: disks | z/c: chart | r: refresh | q/Esc: quit"
    } else if chars_eq(&k, &chars_of("tui.too_small")) {
        "Terminal too small; enlarge the window."
    } else if chars_eq(&k, &chars_of("tui.no_warnings")) {
        "No warnings."
    } else if chars_eq(&k, &chars_of("spinner.collect")) {
        "Collecting hardware inventory"
    } else if chars_eq(&k, &chars_of("spinner.doctor")) {
        "Checking the environment"
    } else if chars_eq(&k, &chars_of("spinner.bench")) {
        "Benchmarking backends"
    } else if chars_eq(&k, &chars_of("spinner.tui")) {
        "Starting the live view"
    } else {
        "【--MISSING--】"
    }
}

} // verus!
