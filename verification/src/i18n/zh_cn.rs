//! Simplified Chinese display texts.

use vstd::prelude::*;

use crate::text::{chars_eq, chars_of};

verus! {

/// The Simplified Chinese text for `key`; a marker for keys without one.
pub open spec fn text(key: Seq<char>) -> Seq<char> {
    if key == "unknown"@ {
        "【--未知--】"@
    } else if key == "yes"@ {
        "是"@
    } else if key == "no"@ {
        "否"@
    } else if key == "no_data"@ {
        "暂无数据"@
    } else if key == "warnings"@ {
        "警告"@
    } else if key == "hint"@ {
        "提示"@
    } else if key == "notes"@ {
        "备注"@
    } else if key == "platform"@ {
        "平台"@
    } else if key == "arch"@ {
        "架构"@
    } else if key == "elevated"@ {
        "管理员权限"@
    } else if key == "doctor.name"@ {
        "名称"@
    } else if key == "doctor.available"@ {
        "可用"@
    } else if key == "doctor.path"@ {
        "路径"@
    } else if key == "doctor.purpose"@ {
        "用途"@
    } else if key == "bench.backend"@ {
        "后端"@
    } else if key == "bench.ok"@ {
        "成功"@
    } else if key == "bench.elapsed"@ {
        "耗时"@
    } else if key == "bench.disks"@ {
        "磁盘"@
    } else if key == "bench.memory"@ {
        "内存"@
    } else if key == "bench.warnings"@ {
        "警告"@
    } else if key == "bench.note"@ {
        "说明"@
    } else if key == "section.all"@ {
        "硬件"@
    } else if key == "section.overview"@ {
        "总览"@
    } else if key == "section.disk"@ {
        "磁盘"@
    } else if key == "section.physical_disk"@ {
        "物理磁盘"@
    } else if key == "section.logical_disk"@ {
        "逻辑磁盘"@
    } else if key == "section.memory"@ {
        "内存"@
    } else if key == "section.cpu"@ {
        "处理器"@
    } else if key == "section.motherboard"@ {
        "主板"@
    } else if key == "section.health"@ {
        "健康"@
    } else if key == "disk.device"@ {
        "设备"@
    } else if key == "disk.model"@ {
        "型号"@
    } else if key == "disk.brand"@ {
        "品牌"@
    } else if key == "disk.serial"@ {
        "序列号"@
    } else if key == "disk.size"@ {
        "容量"@
    } else if key == "disk.kind"@ {
        "类型"@
    } else if key == "disk.bus"@ {
        "总线"@
    } else if key == "disk.firmware"@ {
        "固件"@
    } else if key == "disk.health"@ {
        "健康"@
    } else if key == "disk.mount"@ {
        "挂载点"@
    } else if key == "disk.filesystem"@ {
        "文件系统"@
    } else if key == "disk.used"@ {
        "已用"@
    } else if key == "disk.available"@ {
        "可用"@
    } else if key == "disk.used_percent"@ {
        "使用率"@
    } else if key == "disk.combined_hint"@ {
        "同时显示物理磁盘和逻辑磁盘；使用 `hdrt pd` 或 `hdrt ld` 只看其中一种。"@
    } else if key == "memory.slot"@ {
        "插槽"@
    } else if key == "memory.size"@ {
        "容量"@
    } else if key == "memory.speed"@ {
        "频率"@
    } else if key == "memory.manufacturer"@ {
        "厂商"@
    } else if key == "memory.part_number"@ {
        "料号"@
    } else if key == "memory.serial"@ {
        "序列号"@
    } else if key == "cpu.model"@ {
        "型号"@
    } else if key == "cpu.vendor"@ {
        "厂商"@
    } else if key == "cpu.physical_cores"@ {
        "物理核心"@
    } else if key == "cpu.logical_threads"@ {
        "逻辑线程"@
    } else if key == "cpu.frequency"@ {
        "频率"@
    } else if key == "motherboard.manufacturer"@ {
        "厂商"@
    } else if key == "motherboard.product"@ {
        "产品"@
    } else if key == "motherboard.version"@ {
        "版本"@
    } else if key == "motherboard.serial"@ {
        "序列号"@
    } else if key == "motherboard.bios_vendor"@ {
        "BIOS 厂商"@
    } else if key == "motherboard.bios_version"@ {
        "BIOS 版本"@
    } else if key == "debug.summary"@ {
        "调试摘要"@
    } else if key == "debug.collector_summary"@ {
        "采集器摘要"@
    } else if key == "debug.hidden_fields"@ {
        "隐藏字段"@
    } else if key == "debug.records"@ {
        "调试记录"@
    } else if key == "debug.no_records"@ {
        "没有调试记录"@
    } else if key == "debug.records_count"@ {
        "条记录"@
    } else if key == "debug.none"@ {
        "无"@
    } else if key == "tui.interval"@ {
        "刷新间隔"@
    } else if key == "tui.refreshed"@ {
        "硬件信息已刷新"@
    } else if key == "tui.chart_mode"@ {
        "图表"@
    } else if key == "tui.chart.line"@ {
        "折线"@
    } else if key == "tui.chart.scatter"@ {
        "散点"@
    } else if key == "tui.chart.bar"@ {
        "柱状"@
    } else if key == "tui.chart.sparkline"@ {
        "迷你图"@
    } else if key == "tui.chart.gauge"@ {
        "仪表"@
    } else if key == "tui.cpu_cores"@ {
        "CPU 核心"@
    } else if key == "tui.cpu_usage"@ {
        "CPU 使用率"@
    } else if key == "tui.memory_usage"@ {
        "内存使用率"@
    } else if key == "tui.swap_usage"@ {
        "交换区使用率"@
    } else if key == "tui.disk_usage"@ {
        "磁盘使用率"@
    } else if key == "tui.disk_io"@ {
        "磁盘读写"@
    } else if key == "tui.read"@ {
        "读取"@
    } else if key == "tui.write"@ {
        "写入"@
    } else if key == "tui.help.live"@ {
        "Tab/左/右/WASD：切换页 | j/k：选择磁盘 | z/c：图表 | r：刷新 | q/Esc：退出"@
    } else if key == "tui.too_small"@ {
        "终端窗口太小，请放大窗口。"@
    } else if key == "tui.no_warnings"@ {
        "没有警告。"@
    } else if key == "spinner.collect"@ {
        "正在采集硬件信息"@
    } else if key == "spinner.doctor"@ {
        "正在检查环境"@
    } else if key == "spinner.bench"@ {
        "正在测试后端"@
    } else if key == "spinner.tui"@ {
        "正在启动实时界面"@
    } else {
        "【--MISSING--】"@
    }
}

/// The Simplified Chinese text for `key`.
pub fn t(key: &str) -> (r: &'static str)
    ensures
        r@ == text(key@),
{
    let k = chars_of(key);
    if chars_eq(&k, &chars_of("unknown")) {
        "【--未知--】"
    } else if chars_eq(&k, &chars_of("yes")) {
        "是"
    } else if chars_eq(&k, &chars_of("no")) {
        "否"
    } else if chars_eq(&k, &chars_of("no_data")) {
        "暂无数据"
    } else if chars_eq(&k, &chars_of("warnings")) {
        "警告"
    } else if chars_eq(&k, &chars_of("hint")) {
        "提示"
    } else if chars_eq(&k, &chars_of("notes")) {
        "备注"
    } else if chars_eq(&k, &chars_of("platform")) {
        "平台"
    } else if chars_eq(&k, &chars_of("arch")) {
        "架构"
    } else if chars_eq(&k, &chars_of("elevated")) {
        "管理员权限"
    } else if chars_eq(&k, &chars_of("doctor.name")) {
        "名称"
    } else if chars_eq(&k, &chars_of("doctor.available")) {
        "可用"
    } else if chars_eq(&k, &chars_of("doctor.path")) {
        "路径"
    } else if chars_eq(&k, &chars_of("doctor.purpose")) {
        "用途"
    } else if chars_eq(&k, &chars_of("bench.backend")) {
        "后端"
    } else if chars_eq(&k, &chars_of("bench.ok")) {
        "成功"
    } else if chars_eq(&k, &chars_of("bench.elapsed")) {
        "耗时"
    } else if chars_eq(&k, &chars_of("bench.disks")) {
        "磁盘"
    } else if chars_eq(&k, &chars_of("bench.memory")) {
        "内存"
    } else if chars_eq(&k, &chars_of("bench.warnings")) {
        "警告"
    } else if chars_eq(&k, &chars_of("bench.note")) {
        "说明"
    } else if chars_eq(&k, &chars_of("section.all")) {
        "硬件"
    } else if chars_eq(&k, &chars_of("section.overview")) {
        "总览"
    } else if chars_eq(&k, &chars_of("section.disk")) {
        "磁盘"
    } else if chars_eq(&k, &chars_of("section.physical_disk")) {
        "物理磁盘"
    } else if chars_eq(&k, &chars_of("section.logical_disk")) {
        "逻辑磁盘"
    } else if chars_eq(&k, &chars_of("section.memory")) {
        "内存"
    } else if chars_eq(&k, &chars_of("section.cpu")) {
        "处理器"
    } else if chars_eq(&k, &chars_of("section.motherboard")) {
        "主板"
    } else if chars_eq(&k, &chars_of("section.health")) {
        "健康"
    } else if chars_eq(&k, &chars_of("disk.device")) {
        "设备"
    } else if chars_eq(&k, &chars_of("disk.model")) {
        "型号"
    } else if chars_eq(&k, &chars_of("disk.brand")) {
        "品牌"
    } else if chars_eq(&k, &chars_of("disk.serial")) {
        "序列号"
    } else if chars_eq(&k, &chars_of("disk.size")) {
        "容量"
    } else if chars_eq(&k, &chars_of("disk.kind")) {
        "类型"
    } else if chars_eq(&k, &chars_of("disk.bus")) {
        "总线"
    } else if chars_eq(&k, &chars_of("disk.firmware")) {
        "固件"
    } else if chars_eq(&k, &chars_of("disk.health")) {
        "健康"
    } else if chars_eq(&k, &chars_of("disk.mount")) {
        "挂载点"
    } else if chars_eq(&k, &chars_of("disk.filesystem")) {
        "文件系统"
    } else if chars_eq(&k, &chars_of("disk.used")) {
        "已用"
    } else if chars_eq(&k, &chars_of("disk.available")) {
        "可用"
    } else if chars_eq(&k, &chars_of("disk.used_percent")) {
        "使用率"
    } else if chars_eq(&k, &chars_of("disk.combined_hint")) {
        "同时显示物理磁盘和逻辑磁盘；使用 `hdrt pd` 或 `hdrt ld` 只看其中一种。"
    } else if chars_eq(&k, &chars_of("memory.slot")) {
        "插槽"
    } else if chars_eq(&k, &chars_of("memory.size")) {
        "容量"
    } else if chars_eq(&k, &chars_of("memory.speed")) {
        "频率"
    } else if chars_eq(&k, &chars_of("memory.manufacturer")) {
        "厂商"
    } else if chars_eq(&k, &chars_of("memory.part_number")) {
        "料号"
    } else if chars_eq(&k, &chars_of("memory.serial")) {
        "序列号"
    } else if chars_eq(&k, &chars_of("cpu.model")) {
        "型号"
    } else if chars_eq(&k, &chars_of("cpu.vendor")) {
        "厂商"
    } else if chars_eq(&k, &chars_of("cpu.physical_cores")) {
        "物理核心"
    } else if chars_eq(&k, &chars_of("cpu.logical_threads")) {
        "逻辑线程"
    } else if chars_eq(&k, &chars_of("cpu.frequency")) {
        "频率"
    } else if chars_eq(&k, &chars_of("motherboard.manufacturer")) {
        "厂商"
    } else if chars_eq(&k, &chars_of("motherboard.product")) {
        "产品"
    } else if chars_eq(&k, &chars_of("motherboard.version")) {
        "版本"
    } else if chars_eq(&k, &chars_of("motherboard.serial")) {
        "序列号"
    } else if chars_eq(&k, &chars_of("motherboard.bios_vendor")) {
        "BIOS 厂商"
    } else if chars_eq(&k, &chars_of("motherboard.bios_version")) {
        "BIOS 版本"
    } else if chars_eq(&k, &chars_of("debug.summary")) {
        "调试摘要"
    } else if chars_eq(&k, &chars_of("debug.collector_summary")) {
        "采集器摘要"
    } else if chars_eq(&k, &chars_of("debug.hidden_fields")) {
        "隐藏字段"
    } else if chars_eq(&k, &chars_of("debug.records")) {
        "调试记录"
    } else if chars_eq(&k, &chars_of("debug.no_records")) {
        "没有调试记录"
    } else if chars_eq(&k, &chars_of("debug.records_count")) {
        "条记录"
    } else if chars_eq(&k, &chars_of("debug.none")) {
        "无"
    } else if chars_eq(&k, &chars_of("tui.interval")) {
        "刷新间隔"
    } else if chars_eq(&k, &chars_of("tui.refreshed")) {
        "硬件信息已刷新"
    } else if chars_eq(&k, &chars_of("tui.chart_mode")) {
        "图表"
    } else if chars_eq(&k, &chars_of("tui.chart.line")) {
        "折线"
    } else if chars_eq(&k, &chars_of("tui.chart.scatter")) {
        "散点"
    } else if chars_eq(&k, &chars_of("tui.chart.bar")) {
        "柱状"
    } else if chars_eq(&k, &chars_of("tui.chart.sparkline")) {
        "迷你图"
    } else if chars_eq(&k, &chars_of("tui.chart.gauge")) {
        "仪表"
    } else if chars_eq(&k, &chars_of("tui.cpu_cores")) {
        "CPU 核心"
    } else if chars_eq(&k, &chars_of("tui.cpu_usage")) {
        "CPU 使用率"
    } else if chars_eq(&k, &chars_of("tui.memory_usage")) {
        "内存使用率"
    } else if chars_eq(&k, &chars_of("tui.swap_usage")) {
        "交换区使用率"
    } else if chars_eq(&k, &chars_of("tui.disk_usage")) {
        "磁盘使用率"
    } else if chars_eq(&k, &chars_of("tui.disk_io")) {
        "磁盘读写"
    } else if chars_eq(&k, &chars_of("tui.read")) {
        "读取"
    } else if chars_eq(&k, &chars_of("tui.write")) {
        "写入"
    } else if chars_eq(&k, &chars_of("tui.help.live")) {
        "Tab/左/右/WASD：切换页 | j/k：选择磁盘 | z/c：图表 | r：刷新 | q/Esc：退出"
    } else if chars_eq(&k, &chars_of("tui.too_small")) {
        "终端窗口太小，请放大窗口。"
    } else if chars_eq(&k, &chars_of("tui.no_warnings")) {
        "没有警告。"
    } else if chars_eq(&k, &chars_of("spinner.collect")) {
        "正在采集硬件信息"
    } else if chars_eq(&k, &chars_of("spinner.doctor")) {
        "正在检查环境"
    } else if chars_eq(&k, &chars_of("spinner.bench")) {
        "正在测试后端"
    } else if chars_eq(&k, &chars_of("spinner.tui")) {
        "正在启动实时界面"
    } else {
        "【--MISSING--】"
    }
}

} // verus!
