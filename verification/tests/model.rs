use hdrt::emoji::{decorate, icon};
use hdrt::hardware::{is_unknown, unknown, DebugRecord, HdrtWarning};
use hdrt::i18n::{display_optional, display_value, t, Lang};
use hdrt::privilege::{elevated_hint, is_elevated, ElevationProbe};
use hdrt::render::json::{labels, report_label_keys, section_title};
use hdrt::hardware::Section;
use hdrt::hardware::disk::{used_percent_tenths, volume_info};

#[test]
fn debug_fields_are_sorted_and_replaced() {
    let record = DebugRecord::new("disk0", "probe").field("b", "1").field("a", "2").field("b", "3");
    let fields: Vec<(String, String)> = record.fields().clone();
    assert_eq!(fields, vec![("a".to_string(), "2".to_string()), ("b".to_string(), "3".to_string())]);
    assert_eq!(record.target(), "disk0");
    assert_eq!(record.source(), "probe");
    assert!(record.note_text().is_none());
}

#[test]
fn placeholders_are_recognised() {
    assert_eq!(unknown(), "Unknown");
    assert!(is_unknown("Unknown"));
    assert!(!is_unknown("unknown"));
    assert_eq!(display_value(Lang::EnUs, " to be filled by O.E.M. "), "【--UNKNOWN--】");
    assert_eq!(display_value(Lang::ZhCn, ""), "【--未知--】");
    assert_eq!(display_value(Lang::EnUs, "Samsung"), "Samsung");
    assert_eq!(display_value(Lang::EnUs, "【--UNKNOWN--】"), "【--UNKNOWN--】");
    assert_eq!(display_optional(Lang::EnUs, Some(8)), "8");
    assert_eq!(display_optional(Lang::EnUs, None), "【--UNKNOWN--】");
}

#[test]
fn translations_cover_both_languages() {
    assert_eq!(t(Lang::EnUs, "disk.device"), "device");
    assert_eq!(t(Lang::ZhCn, "section.cpu"), "处理器");
    assert_eq!(t(Lang::EnUs, "no such key"), "【--MISSING--】");
}

#[test]
fn emoji_only_when_enabled() {
    assert_eq!(decorate(false, "section.cpu", "CPU"), "CPU");
    let icon_text = icon("section.cpu").unwrap();
    assert_eq!(decorate(true, "section.cpu", "CPU"), format!("{icon_text} CPU"));
    assert_eq!(decorate(true, "no such key", "x"), "x");
}

#[test]
fn warnings_carry_hints() {
    let w = HdrtWarning::with_hint("code", "message", "hint");
    assert_eq!(w.hint.as_deref(), Some("hint"));
}

#[test]
fn elevation_is_read_from_the_probe() {
    assert!(is_elevated(&ElevationProbe::Uid(0)));
    assert!(!is_elevated(&ElevationProbe::Uid(1000)));
    assert!(is_elevated(&ElevationProbe::PowerShell(Some(" True\r\n".to_string()))));
    assert!(!is_elevated(&ElevationProbe::PowerShell(None)));
    assert!(!is_elevated(&ElevationProbe::Unsupported));
    assert_eq!(elevated_hint(false), "Run sudo hdrt for more complete hardware fields.");
}

#[test]
fn json_labels_are_sorted_by_key() {
    let keys = report_label_keys(Section::Cpu);
    assert_eq!(keys[0], "section.cpu");
    let table = labels(&keys, Lang::EnUs, false);
    assert_eq!(table.len(), keys.len());
    assert!(table.windows(2).all(|w| w[0].0 < w[1].0));
    assert!(table.contains(&("cpu.model".to_string(), "model".to_string())));
    assert_eq!(section_title(Section::All, Lang::EnUs, false), "Hardware");
}

#[test]
fn volume_info_prints_counts_and_share() {
    let v = volume_info("/dev/sda1", "/", "ext4", 4096, 1024, "sysinfo");
    assert_eq!(v.device, "/dev/sda1");
    assert_eq!(v.mount_point, "/");
    assert_eq!(v.file_system, "ext4");
    assert_eq!(v.total, "4.00 KiB");
    assert_eq!(v.used, "3.00 KiB");
    assert_eq!(v.available, "1.00 KiB");
    assert_eq!(v.used_percent_tenths, 750);
    assert_eq!(v.source, "sysinfo");
    let over = volume_info("x", "y", "z", 10, 20, "s");
    assert_eq!(over.used, "0 B");
    assert_eq!(over.used_percent_tenths, 0);
}

#[test]
fn used_share_rounds_to_the_nearest_tenth() {
    assert_eq!(used_percent_tenths(0, 0), 0);
    assert_eq!(used_percent_tenths(1, 3), 333);
    assert_eq!(used_percent_tenths(2, 3), 667);
    assert_eq!(used_percent_tenths(1, 2000), 1);
    assert_eq!(used_percent_tenths(u64::MAX, u64::MAX), 1000);
}

#[test]
fn used_share_saturates_at_all_of_it() {
    assert_eq!(used_percent_tenths(3, 2), 1000);
    assert_eq!(used_percent_tenths(u64::MAX, 1), 1000);
}
