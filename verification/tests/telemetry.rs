use hdrt::hardware::{LogicalDiskInfo, UNKNOWN};
use hdrt::telemetry::disk_io::{decode_mount_field, device_io, pair_mounts, parse_diskstats, parse_mountinfo, RawDiskIo};
use hdrt::telemetry::{
    format_bytes, merge_disk_inventory, normalize_disk_key, normalized_interval_ms, parse_storage_bytes, preferred_text,
    same_identity, LiveDisk,
};

fn inventory_disk() -> LogicalDiskInfo {
    LogicalDiskInfo {
        device: "/dev/block/dm-8".to_string(),
        mount_point: "/data".to_string(),
        file_system: "ext4".to_string(),
        total: "2.00 GiB".to_string(),
        used: "1.00 GiB".to_string(),
        available: "1.00 GiB".to_string(),
        used_percent_tenths: 500,
        source: "df".to_string(),
        warnings: Vec::new(),
    }
}

#[test]
fn inventory_identity_is_kept_while_live_capacity_is_refreshed() {
    let inventory = vec![inventory_disk()];
    let live = vec![LiveDisk {
        name: "/dev/block/dm-8".to_string(),
        mount_point: "/data/".to_string(),
        file_system: "f2fs".to_string(),
        total_bytes: 3_000,
        available_bytes: 1_000,
        used_bytes: 2_000,
    }];
    let io = vec!["/data".to_string()];

    let merged = merge_disk_inventory(&inventory, &live, &io);

    assert_eq!(merged.len(), 1);
    assert_eq!(merged[0].name, "/dev/block/dm-8");
    assert_eq!(merged[0].mount_point, "/data");
    assert_eq!(merged[0].file_system, "ext4");
    assert_eq!(merged[0].used_bytes, 2_000);
    assert_eq!(merged[0].live, Some(0));
    assert_eq!(merged[0].io, Some(0));
}

#[test]
fn inventory_rows_survive_when_sysinfo_cannot_see_the_mount() {
    let merged = merge_disk_inventory(&vec![inventory_disk()], &Vec::new(), &Vec::new());

    assert_eq!(merged.len(), 1);
    assert_eq!(merged[0].total_bytes, 2 * 1024 * 1024 * 1024);
    assert_eq!(merged[0].used_bytes, 1024 * 1024 * 1024);
    assert_eq!(merged[0].io, None);
    assert_eq!(merged[0].live, None);
}

#[test]
fn live_disks_are_listed_without_an_inventory() {
    let live = vec![LiveDisk {
        name: "sda1".to_string(),
        mount_point: "/".to_string(),
        file_system: "ext4".to_string(),
        total_bytes: 10,
        available_bytes: 4,
        used_bytes: 6,
    }];
    let merged = merge_disk_inventory(&Vec::new(), &live, &vec!["/".to_string()]);
    assert_eq!(merged.len(), 1);
    assert_eq!(merged[0].name, "sda1");
    assert_eq!(merged[0].live, Some(0));
    assert_eq!(merged[0].io, Some(0));
}

#[test]
fn root_mount_key_is_not_trimmed_to_empty() {
    assert_eq!(normalize_disk_key("/"), "/");
    assert_eq!(normalize_disk_key("C:\\"), "C:");
}

#[test]
fn disk_keys_drop_trailing_separators_and_blanks() {
    assert_eq!(normalize_disk_key("  /data//  "), "/data");
    assert_eq!(normalize_disk_key("\\"), "\\");
}

#[test]
fn parses_formatted_storage_sizes() {
    assert_eq!(parse_storage_bytes("1.50 KiB"), Some(1_536));
    assert_eq!(parse_storage_bytes("2 B"), Some(2));
    assert_eq!(parse_storage_bytes(UNKNOWN), None);
}

#[test]
fn storage_sizes_round_half_up_and_reject_bad_amounts() {
    assert_eq!(parse_storage_bytes("0.0005 KiB"), Some(1));
    assert_eq!(parse_storage_bytes("0.0004 KiB"), Some(0));
    assert_eq!(parse_storage_bytes("1.2.3 GiB"), None);
    assert_eq!(parse_storage_bytes(". GiB"), None);
    assert_eq!(parse_storage_bytes("   "), None);
    assert_eq!(parse_storage_bytes("16.00 GiB"), Some(17_179_869_184));
    assert_eq!(parse_storage_bytes("1. TiB"), Some(1_099_511_627_776));
    assert_eq!(parse_storage_bytes("99999999999999999999 TiB"), Some(u64::MAX));
}

#[test]
fn small_sizes_read_back_exactly() {
    for b in [0u64, 1, 2, 512, 1023] {
        assert_eq!(parse_storage_bytes(&format_bytes(b)), Some(b));
    }
}

#[test]
fn formats_sizes_in_binary_units() {
    assert_eq!(format_bytes(0), "0 B");
    assert_eq!(format_bytes(1023), "1023 B");
    assert_eq!(format_bytes(1024), "1.00 KiB");
    assert_eq!(format_bytes(1536), "1.50 KiB");
    assert_eq!(format_bytes(17_179_869_184), "16.00 GiB");
    assert_eq!(format_bytes(500_107_862_016), "465.76 GiB");
    assert_eq!(format_bytes(1152), "1.12 KiB");
    assert_eq!(format_bytes(u64::MAX), "16777216.00 TiB");
}

#[test]
fn interval_is_clamped_to_the_minimum() {
    assert_eq!(normalized_interval_ms(10), 250);
    assert_eq!(normalized_interval_ms(250), 250);
    assert_eq!(normalized_interval_ms(1000), 1000);
}

#[test]
fn identities_ignore_case_and_trailing_slashes() {
    assert!(same_identity("/data", "/DATA/"));
    assert!(!same_identity("", "/data"));
    assert!(!same_identity(UNKNOWN, UNKNOWN));
    assert!(!same_identity("/data", "/dat"));
}

#[test]
fn inventory_text_is_preferred_unless_unknown() {
    assert_eq!(preferred_text("ext4", Some("f2fs")), "ext4");
    assert_eq!(preferred_text(UNKNOWN, Some("f2fs")), "f2fs");
    assert_eq!(preferred_text("  ", None), "  ");
}

#[test]
fn parses_linux_diskstats_sector_counters() {
    let parsed = parse_diskstats("253 0 dm-0 10 0 2048 0 20 0 4096 0 0 0 0 0 0 0\n");

    assert_eq!(
        device_io(&parsed, (253, 0)),
        Some(RawDiskIo { read_bytes: 1_048_576, written_bytes: 2_097_152 })
    );
}

#[test]
fn later_diskstats_lines_replace_earlier_ones() {
    let parsed = parse_diskstats("8 0 sda 1 0 1 0 1 0 1\nbad line\n8 0 sda 1 0 2 0 1 0 3\n");
    assert_eq!(parsed.len(), 1);
    assert_eq!(device_io(&parsed, (8, 0)), Some(RawDiskIo { read_bytes: 1024, written_bytes: 1536 }));
    assert_eq!(device_io(&parsed, (8, 1)), None);
}

#[test]
fn diskstats_counters_saturate() {
    let parsed = parse_diskstats("8 0 sda 1 0 18446744073709551615 0 1 0 0\n");
    assert_eq!(device_io(&parsed, (8, 0)), Some(RawDiskIo { read_bytes: u64::MAX, written_bytes: 0 }));
}

#[test]
fn parses_and_decodes_mountinfo_mount_points() {
    let parsed = parse_mountinfo("42 31 253:0 / /storage/My\\040Disk rw,nosuid - ext4 /dev/block/dm-0 rw\n");

    assert_eq!(parsed, vec![("/storage/My Disk".to_string(), (253, 0))]);
}

#[test]
fn decodes_every_mountinfo_escape() {
    assert_eq!(decode_mount_field("a\\040b\\011c\\012d\\134e"), "a b\tc\nd\\e");
}

#[test]
fn mounts_are_paired_with_current_and_previous_counters() {
    let mounts = parse_mountinfo("1 0 8:0 / / rw - ext4 /dev/sda rw\n2 0 8:1 / /boot rw - ext4 /dev/sda1 rw\n");
    let current = parse_diskstats("8 0 sda 0 0 4 0 0 0 2\n");
    let previous = parse_diskstats("8 0 sda 0 0 2 0 0 0 1\n");
    let paired = pair_mounts(&mounts, &current, &previous);
    assert_eq!(paired.len(), 1);
    assert_eq!(paired[0].name, "/");
    assert_eq!(paired[0].current, RawDiskIo { read_bytes: 2048, written_bytes: 1024 });
    assert_eq!(paired[0].previous, Some(RawDiskIo { read_bytes: 1024, written_bytes: 512 }));
}

/// A size read through `f64` parsing and `f64` arithmetic.
fn read_through_f64(value: &str) -> Option<u64> {
    let value = value.trim();
    if value.is_empty() || value == UNKNOWN {
        return None;
    }
    let number_len = value.chars().take_while(|ch| ch.is_ascii_digit() || *ch == '.').map(char::len_utf8).sum::<usize>();
    let amount = value.get(..number_len)?.parse::<f64>().ok()?;
    let unit = value.get(number_len..)?.trim().to_ascii_lowercase();
    let multiplier = if unit.starts_with("tib") {
        1024.0_f64.powi(4)
    } else if unit.starts_with("gib") {
        1024.0_f64.powi(3)
    } else if unit.starts_with("mib") {
        1024.0_f64.powi(2)
    } else if unit.starts_with("kib") {
        1024.0
    } else {
        1.0
    };
    Some((amount * multiplier).round().clamp(0.0, u64::MAX as f64) as u64)
}

#[test]
fn size_reading_rounds_the_amount_to_a_double_first() {
    assert_eq!(parse_storage_bytes("0.49999999999999999 B"), Some(1));
    assert_eq!(parse_storage_bytes("9007199254740993 B"), Some(9_007_199_254_740_992));
    assert_eq!(parse_storage_bytes("0.4999999999999999 B"), Some(0));
    assert_eq!(parse_storage_bytes("0.5 B"), Some(1));
    assert_eq!(parse_storage_bytes("2.5 B"), Some(3));
    assert_eq!(parse_storage_bytes("99999999999999999999 TiB"), Some(u64::MAX));
    assert_eq!(parse_storage_bytes("16777216 TiB"), Some(u64::MAX));
    assert_eq!(parse_storage_bytes(". B"), None);
    assert_eq!(parse_storage_bytes("1.2.3 KiB"), None);
    assert_eq!(parse_storage_bytes("KiB"), None);
    assert_eq!(parse_storage_bytes(".5 KiB"), Some(512));
    assert_eq!(parse_storage_bytes("3. MiB"), Some(3 * 1024 * 1024));
}

#[test]
fn size_reading_agrees_with_f64_parsing() {
    let amounts = [
        "0", "1", "0.1", "0.25", "0.3333333333333333", "1.005", "2.675", "12.345", "465.76", "1023.99", "1023.995",
        "0.000001", "123456789.123456789", "9007199254740991", "9007199254740993", "18446744073709551615",
        "18446744073709551616", "0.49999999999999994", "0.49999999999999997", "4503599627370495.5",
        "4503599627370496.5", "17592186044415.99", "1.4999999999999999", "7.0000000000000001",
    ];
    let units = ["B", "KiB", "MiB", "GiB", "TiB", "kb", "bytes"];
    for a in amounts {
        for u in units {
            let text = format!("{a} {u}");
            assert_eq!(parse_storage_bytes(&text), read_through_f64(&text), "{text}");
        }
    }
}

#[test]
fn whole_units_read_back_as_written() {
    for n in 1..=4u32 {
        for k in [1u64, 2, 3, 10, 512, 1000, 1023] {
            let b = k * 1024u64.pow(n);
            assert_eq!(parse_storage_bytes(&format_bytes(b)), Some(b));
        }
    }
    for b in [0u64, 1, 512, 1023] {
        assert_eq!(parse_storage_bytes(&format_bytes(b)), Some(b));
    }
}
