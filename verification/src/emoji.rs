//! Optional emoji decorations for labels.

use vstd::prelude::*;

use crate::text::{chars_eq, chars_of};

verus! {

/// The emoji shown before the label `key`, if it has one.
pub open spec fn icon_of(key: Seq<char>) -> Option<Seq<char>> {
    if key == "app.title"@ {
        Some("🖥️"@)
    } else if key == "section.all"@ {
        Some("🖥️"@)
    } else if key == "section.overview"@ {
        Some("🏠"@)
    } else if key == "section.disk"@ {
        Some("💽"@)
    } else if key == "section.memory"@ {
        Some("🧠"@)
    } else if key == "section.cpu"@ {
        Some("🧩"@)
    } else if key == "section.motherboard"@ {
        Some("🧱"@)
    } else if key == "section.health"@ {
        Some("💚"@)
    } else if key == "warnings"@ {
        Some("⚠️"@)
    } else if key == "hint"@ {
        Some("💡"@)
    } else if key == "notes"@ {
        Some("📝"@)
    } else if key == "platform"@ {
        Some("🖥️"@)
    } else if key == "arch"@ {
        Some("🧬"@)
    } else if key == "elevated"@ {
        Some("🔐"@)
    } else if key == "doctor.title"@ {
        Some("🩺"@)
    } else if key == "doctor.name"@ {
        Some("🏷️"@)
    } else if key == "doctor.available"@ {
        Some("✅"@)
    } else if key == "doctor.path"@ {
        Some("📍"@)
    } else if key == "doctor.purpose"@ {
        Some("📝"@)
    } else if key == "bench.title"@ {
        Some("🧪"@)
    } else if key == "bench.backend"@ {
        Some("🧩"@)
    } else if key == "bench.ok"@ {
        Some("✅"@)
    } else if key == "bench.elapsed"@ {
        Some("⏱️"@)
    } else if key == "bench.disks"@ {
        Some("💽"@)
    } else if key == "bench.memory"@ {
        Some("🧠"@)
    } else if key == "bench.warnings"@ {
        Some("⚠️"@)
    } else if key == "bench.note"@ {
        Some("📝"@)
    } else if key == "disk.device"@ {
        Some("🔢"@)
    } else if key == "disk.model"@ {
        Some("🏷️"@)
    } else if key == "disk.serial"@ {
        Some("🔐"@)
    } else if key == "disk.size"@ {
        Some("📦"@)
    } else if key == "disk.kind"@ {
        Some("💾"@)
    } else if key == "disk.bus"@ {
        Some("🔌"@)
    } else if key == "disk.firmware"@ {
        Some("🧬"@)
    } else if key == "disk.health"@ {
        Some("💚"@)
    } else if key == "memory.slot"@ {
        Some("📍"@)
    } else if key == "memory.size"@ {
        Some("📦"@)
    } else if key == "memory.speed"@ {
        Some("⚡"@)
    } else if key == "memory.manufacturer"@ {
        Some("🏭"@)
    } else if key == "memory.part_number"@ {
        Some("🏷️"@)
    } else if key == "memory.serial"@ {
        Some("🔐"@)
    } else if key == "cpu.model"@ {
        Some("🧠"@)
    } else if key == "cpu.vendor"@ {
        Some("🏭"@)
    } else if key == "cpu.physical_cores"@ {
        Some("🧩"@)
    } else if key == "cpu.logical_threads"@ {
        Some("🧵"@)
    } else if key == "cpu.frequency"@ {
        Some("⚡"@)
    } else if key == "motherboard.manufacturer"@ {
        Some("🏭"@)
    } else if key == "motherboard.product"@ {
        Some("🧱"@)
    } else if key == "motherboard.version"@ {
        Some("🏷️"@)
    } else if key == "motherboard.serial"@ {
        Some("🔐"@)
    } else if key == "motherboard.bios_vendor"@ {
        Some("🧬"@)
    } else if key == "motherboard.bios_version"@ {
        Some("🏷️"@)
    } else if key == "spinner.collect"@ {
        Some("🖥️"@)
    } else if key == "spinner.doctor"@ {
        Some("🩺"@)
    } else if key == "spinner.bench"@ {
        Some("🧪"@)
    } else if key == "tui.subtitle"@ {
        Some("🖥️"@)
    } else if key == "tui.memory_hint"@ {
        Some("🧠"@)
    } else if key == "tui.placeholder"@ {
        Some("🚧"@)
    } else if key == "tui.help"@ {
        Some("⌨️"@)
    } else {
        None
    }
}

/// `text` as shown for `key`: preceded by the key's emoji and a space when
/// decorations are enabled and the key has one, unchanged otherwise.
pub open spec fn decorated(enabled: bool, key: Seq<char>, text: Seq<char>) -> Seq<char> {
    if enabled && icon_of(key) is Some {
        icon_of(key).unwrap() + " "@ + text
    } else {
        text
    }
}

/// Without emoji (the default) a label is its text, unchanged.
pub proof fn lemma_decoration_off_is_identity(key: Seq<char>, text: Seq<char>)
    ensures
        decorated(false, key, text) == text,
{
}

/// The emoji for `key`.
pub fn icon(key: &str) -> (r: Option<&'static str>)
    ensures
        match r {
            Some(s) => icon_of(key@) == Some(s@),
            None => icon_of(key@) is None,
        },
{
    let k = chars_of(key);
    if chars_eq(&k, &chars_of("app.title")) {
        Some("🖥️")
    } else if chars_eq(&k, &chars_of("section.all")) {
        Some("🖥️")
    } else if chars_eq(&k, &chars_of("section.overview")) {
        Some("🏠")
    } else if chars_eq(&k, &chars_of("section.disk")) {
        Some("💽")
    } else if chars_eq(&k, &chars_of("section.memory")) {
        Some("🧠")
    } else if chars_eq(&k, &chars_of("section.cpu")) {
        Some("🧩")
    } else if chars_eq(&k, &chars_of("section.motherboard")) {
        Some("🧱")
    } else if chars_eq(&k, &chars_of("section.health")) {
        Some("💚")
    } else if chars_eq(&k, &chars_of("warnings")) {
        Some("⚠️")
    } else if chars_eq(&k, &chars_of("hint")) {
        Some("💡")
    } else if chars_eq(&k, &chars_of("notes")) {
        Some("📝")
    } else if chars_eq(&k, &chars_of("platform")) {
        Some("🖥️")
    } else if chars_eq(&k, &chars_of("arch")) {
        Some("🧬")
    } else if chars_eq(&k, &chars_of("elevated")) {
        Some("🔐")
    } else if chars_eq(&k, &chars_of("doctor.title")) {
        Some("🩺")
    } else if chars_eq(&k, &chars_of("doctor.name")) {
        Some("🏷️")
    } else if chars_eq(&k, &chars_of("doctor.available")) {
        Some("✅")
    } else if chars_eq(&k, &chars_of("doctor.path")) {
        Some("📍")
    } else if chars_eq(&k, &chars_of("doctor.purpose")) {
        Some("📝")
    } else if chars_eq(&k, &chars_of("bench.title")) {
        Some("🧪")
    } else if chars_eq(&k, &chars_of("bench.backend")) {
        Some("🧩")
    } else if chars_eq(&k, &chars_of("bench.ok")) {
        Some("✅")
    } else if chars_eq(&k, &chars_of("bench.elapsed")) {
        Some("⏱️")
    } else if chars_eq(&k, &chars_of("bench.disks")) {
        Some("💽")
    } else if chars_eq(&k, &chars_of("bench.memory")) {
        Some("🧠")
    } else if chars_eq(&k, &chars_of("bench.warnings")) {
        Some("⚠️")
    } else if chars_eq(&k, &chars_of("bench.note")) {
        Some("📝")
    } else if chars_eq(&k, &chars_of("disk.device")) {
        Some("🔢")
    } else if chars_eq(&k, &chars_of("disk.model")) {
        Some("🏷️")
    } else if chars_eq(&k, &chars_of("disk.serial")) {
        Some("🔐")
    } else if chars_eq(&k, &chars_of("disk.size")) {
        Some("📦")
    } else if chars_eq(&k, &chars_of("disk.kind")) {
        Some("💾")
    } else if chars_eq(&k, &chars_of("disk.bus")) {
        Some("🔌")
    } else if chars_eq(&k, &chars_of("disk.firmware")) {
        Some("🧬")
    } else if chars_eq(&k, &chars_of("disk.health")) {
        Some("💚")
    } else if chars_eq(&k, &chars_of("memory.slot")) {
        Some("📍")
    } else if chars_eq(&k, &chars_of("memory.size")) {
        Some("📦")
    } else if chars_eq(&k, &chars_of("memory.speed")) {
        Some("⚡")
    } else if chars_eq(&k, &chars_of("memory.manufacturer")) {
        Some("🏭")
    } else if chars_eq(&k, &chars_of("memory.part_number")) {
        Some("🏷️")
    } else if chars_eq(&k, &chars_of("memory.serial")) {
        Some("🔐")
    } else if chars_eq(&k, &chars_of("cpu.model")) {
        Some("🧠")
    } else if chars_eq(&k, &chars_of("cpu.vendor")) {
        Some("🏭")
    } else if chars_eq(&k, &chars_of("cpu.physical_cores")) {
        Some("🧩")
    } else if chars_eq(&k, &chars_of("cpu.logical_threads")) {
        Some("🧵")
    } else if chars_eq(&k, &chars_of("cpu.frequency")) {
        Some("⚡")
    } else if chars_eq(&k, &chars_of("motherboard.manufacturer")) {
        Some("🏭")
    } else if chars_eq(&k, &chars_of("motherboard.product")) {
        Some("🧱")
    } else if chars_eq(&k, &chars_of("motherboard.version")) {
        Some("🏷️")
    } else if chars_eq(&k, &chars_of("motherboard.serial")) {
        Some("🔐")
    } else if chars_eq(&k, &chars_of("motherboard.bios_vendor")) {
        Some("🧬")
    } else if chars_eq(&k, &chars_of("motherboard.bios_version")) {
        Some("🏷️")
    } else if chars_eq(&k, &chars_of("spinner.collect")) {
        Some("🖥️")
    } else if chars_eq(&k, &chars_of("spinner.doctor")) {
        Some("🩺")
    } else if chars_eq(&k, &chars_of("spinner.bench")) {
        Some("🧪")
    } else if chars_eq(&k, &chars_of("tui.subtitle")) {
        Some("🖥️")
    } else if chars_eq(&k, &chars_of("tui.memory_hint")) {
        Some("🧠")
    } else if chars_eq(&k, &chars_of("tui.placeholder")) {
        Some("🚧")
    } else if chars_eq(&k, &chars_of("tui.help")) {
        Some("⌨️")
    } else {
        None
    }
}

/// `text` decorated with the emoji for `key` when `enabled`.
pub fn decorate(enabled: bool, key: &str, text: &str) -> (r: String)
    ensures
        r@ == decorated(enabled, key@, text@),
{
    if !enabled {
        return String::from_str(text);
    }
    match icon(key) {
        Some(icon) => {
            let mut r = String::from_str(icon);
            r.append(" ");
            r.append(text);
            r
        },
        None => String::from_str(text),
    }
}

} // verus!
