//! Linux block-device I/O counters: reading `/proc/diskstats` and
//! `/proc/self/mountinfo`, and pairing mount points with their device's
//! counters. The program reads the files, keeps the previous sample and
//! turns byte deltas into rates.

use vstd::prelude::*;

use crate::text::{
    chars_of, find, find_from, lines, lines_of, parse_unsigned, parse_unsigned_of, replace_all, replace_all_of, string_of,
    string_of_range, views, words, words_of,
};

verus! {

/// A block device's `major:minor` number.
pub type DeviceNumber = (u32, u32);

/// The bytes a device has read and written since boot.
#[derive(Debug, Clone, Copy, PartialEq, Eq, Structural)]
pub struct RawDiskIo {
    pub read_bytes: u64,
    pub written_bytes: u64,
}

/// `x` capped at `u64::MAX` (`saturating_mul` and friends).
pub open spec fn saturated(x: nat) -> u64 {
    if x > u64::MAX { u64::MAX } else { x as u64 }
}

/// The counters one line of `/proc/diskstats` gives: the device number
/// (fields 1 and 2) and the sectors read and written (fields 6 and 10),
/// each sector 512 bytes; nothing for a line without them.
pub open spec fn stat_entry(line: Seq<char>) -> Option<(DeviceNumber, RawDiskIo)> {
    let f = words(line);
    if f.len() < 10 {
        None
    } else {
        match (
            parse_unsigned(f[0], u32::MAX as nat),
            parse_unsigned(f[1], u32::MAX as nat),
            parse_unsigned(f[5], u64::MAX as nat),
            parse_unsigned(f[9], u64::MAX as nat),
        ) {
            (Some(major), Some(minor), Some(read), Some(written)) => Some((
                (major as u32, minor as u32),
                RawDiskIo { read_bytes: saturated(read * 512), written_bytes: saturated(written * 512) },
            )),
            _ => None,
        }
    }
}

/// The counters of the last of `ls` that names `device`.
pub open spec fn last_counters(ls: Seq<Seq<char>>, device: DeviceNumber) -> Option<RawDiskIo>
    decreases ls.len(),
{
    if ls.len() == 0 {
        None
    } else {
        match stat_entry(ls.last()) {
            Some((d, io)) => if d == device { Some(io) } else { last_counters(ls.drop_last(), device) },
            None => last_counters(ls.drop_last(), device),
        }
    }
}

/// The counters `stats` holds for `device`.
pub open spec fn counters_of(stats: Seq<(DeviceNumber, RawDiskIo)>, device: DeviceNumber) -> Option<RawDiskIo>
    decreases stats.len(),
{
    if stats.len() == 0 {
        None
    } else if stats.last().0 == device {
        Some(stats.last().1)
    } else {
        counters_of(stats.drop_last(), device)
    }
}

/// No device occurs twice.
pub open spec fn devices_unique(stats: Seq<(DeviceNumber, RawDiskIo)>) -> bool {
    forall|i: int, j: int| 0 <= i < j < stats.len() ==> #[trigger] stats[i].0 != #[trigger] stats[j].0
}

/// The bytes of `sectors` 512-byte sectors, capped at `u64::MAX`.
fn sectors_to_bytes(sectors: u64) -> (r: u64)
    ensures
        r == saturated(sectors as nat * 512),
{
    if sectors > 0xffff_ffff_ffff_ffff / 512 {
        0xffff_ffff_ffff_ffff
    } else {
        sectors * 512
    }
}

/// The counters of one `/proc/diskstats` line.
pub fn parse_stat_line(line: &str) -> (r: Option<(DeviceNumber, RawDiskIo)>)
    ensures
        r == stat_entry(line@),
{
    let f = words_of(&chars_of(line));
    if f.len() < 10 {
        return None;
    }
    let major = parse_unsigned_of(&chars_of(f[0].as_str()), 0xffff_ffff);
    let minor = parse_unsigned_of(&chars_of(f[1].as_str()), 0xffff_ffff);
    let read = parse_unsigned_of(&chars_of(f[5].as_str()), 0xffff_ffff_ffff_ffff);
    let written = parse_unsigned_of(&chars_of(f[9].as_str()), 0xffff_ffff_ffff_ffff);
    assert(views(f@)[0] == f@[0]@ && views(f@)[1] == f@[1]@ && views(f@)[5] == f@[5]@ && views(f@)[9] == f@[9]@);
    match (major, minor, read, written) {
        (Some(a), Some(b), Some(c), Some(d)) => Some((
            (a as u32, b as u32),
            RawDiskIo { read_bytes: sectors_to_bytes(c), written_bytes: sectors_to_bytes(d) },
        )),
        _ => None,
    }
}

/// The position of `device` in `stats`, which holds each device once.
fn position_of(stats: &Vec<(DeviceNumber, RawDiskIo)>, device: DeviceNumber) -> (r: Option<usize>)
    ensures
        match r {
            Some(k) => k < stats@.len() && stats@[k as int].0 == device,
            None => forall|j: int| 0 <= j < stats@.len() ==> #[trigger] stats@[j].0 != device,
        },
{
    let mut i: usize = 0;
    while i < stats.len()
        invariant
            i <= stats.len(),
            forall|j: int| 0 <= j < i ==> #[trigger] stats@[j].0 != device,
        decreases stats.len() - i,
    {
        if stats[i].0.0 == device.0 && stats[i].0.1 == device.1 {
            return Some(i);
        }
        i += 1;
    }
    None
}

/// `counters_of` finds the one entry of a device.
proof fn lemma_counters_of(stats: Seq<(DeviceNumber, RawDiskIo)>, device: DeviceNumber)
    requires
        devices_unique(stats),
    ensures
        forall|k: int| 0 <= k < stats.len() && #[trigger] stats[k].0 == device ==> counters_of(stats, device) == Some(stats[k].1),
        (forall|k: int| 0 <= k < stats.len() ==> #[trigger] stats[k].0 != device) ==> counters_of(stats, device) is None,
    decreases stats.len(),
{
    if stats.len() > 0 {
        let rest = stats.drop_last();
        assert(devices_unique(rest)) by {
            assert forall|i: int, j: int| 0 <= i < j < rest.len() implies #[trigger] rest[i].0 != #[trigger] rest[j].0 by {
                assert(rest[i] == stats[i] && rest[j] == stats[j]);
            }
        }
        lemma_counters_of(rest, device);
        assert forall|k: int| 0 <= k < stats.len() && #[trigger] stats[k].0 == device implies counters_of(stats, device) == Some(
            stats[k].1,
        ) by {
            if k < stats.len() - 1 {
                assert(rest[k] == stats[k]);
                assert(stats[k].0 != stats[stats.len() - 1].0);
            }
        }
        if forall|k: int| 0 <= k < stats.len() ==> #[trigger] stats[k].0 != device {
            assert forall|k: int| 0 <= k < rest.len() implies #[trigger] rest[k].0 != device by {
                assert(rest[k] == stats[k]);
            }
        }
    }
}

/// The counters of `/proc/diskstats`: each device once, with the counters
/// of the last line that names it.
pub fn parse_diskstats(text: &str) -> (r: Vec<(DeviceNumber, RawDiskIo)>)
    ensures
        devices_unique(r@),
        forall|device: DeviceNumber| #[trigger] counters_of(r@, device) == last_counters(lines(text@), device),
{
    let ls = lines_of(text);
    let ghost lv = views(ls@);
    let mut r: Vec<(DeviceNumber, RawDiskIo)> = Vec::new();
    let mut i: usize = 0;
    while i < ls.len()
        invariant
            i <= ls.len(),
            lv == views(ls@),
            lv == lines(text@),
            devices_unique(r@),
            forall|device: DeviceNumber| #[trigger] counters_of(r@, device) == last_counters(lv.take(i as int), device),
        decreases ls.len() - i,
    {
        let entry = parse_stat_line(ls[i].as_str());
        let ghost before = r@;
        assert(lv.take(i + 1).drop_last() =~= lv.take(i as int));
        assert(lv.take(i + 1).last() == ls@[i as int]@);
        match entry {
            Some((device, io)) => {
                match position_of(&r, device) {
                    Some(k) => {
                        r.set(k, (device, io));
                        proof {
                            assert forall|a: int, b: int| 0 <= a < b < r@.len() implies #[trigger] r@[a].0 != #[trigger] r@[b].0 by {
                                assert(r@[a].0 == before[a].0 && r@[b].0 == before[b].0);
                            }
                            assert forall|d: DeviceNumber| #[trigger] counters_of(r@, d) == last_counters(lv.take(i + 1), d) by {
                                lemma_counters_of(r@, d);
                                lemma_counters_of(before, d);
                                if d != device {
                                    if exists|q: int| 0 <= q < before.len() && before[q].0 == d {
                                        let q = choose|q: int| 0 <= q < before.len() && before[q].0 == d;
                                        assert(r@[q] == before[q]);
                                    } else {
                                        assert forall|q: int| 0 <= q < r@.len() implies #[trigger] r@[q].0 != d by {
                                            assert(r@[q].0 == before[q].0);
                                        }
                                    }
                                } else {
                                    assert(r@[k as int] == (device, io));
                                }
                            }
                        }
                    },
                    None => {
                        r.push((device, io));
                        proof {
                            assert forall|a: int, b: int| 0 <= a < b < r@.len() implies #[trigger] r@[a].0 != #[trigger] r@[b].0 by {
                                if b < before.len() {
                                    assert(r@[a] == before[a] && r@[b] == before[b]);
                                } else {
                                    assert(r@[a] == before[a]);
                                }
                            }
                            assert(r@.drop_last() =~= before);
                            assert(r@.last() == (device, io));
                            assert(stat_entry(lv.take(i + 1).last()) == Some((device, io)));
                            assert forall|d: DeviceNumber| #[trigger] counters_of(r@, d) == last_counters(lv.take(i + 1), d) by {
                                assert(counters_of(before, d) == last_counters(lv.take(i as int), d));
                                if d != device {
                                    assert(counters_of(r@, d) == counters_of(r@.drop_last(), d));
                                    assert(last_counters(lv.take(i + 1), d) == last_counters(lv.take(i + 1).drop_last(), d));
                                }
                            }
                        }
                    },
                }
            },
            None => {},
        }
        i += 1;
    }
    assert(lv.take(i as int) =~= lv);
    r
}

/// The counters `stats` holds for `device`.
pub fn device_io(stats: &Vec<(DeviceNumber, RawDiskIo)>, device: DeviceNumber) -> (r: Option<RawDiskIo>)
    requires
        devices_unique(stats@),
    ensures
        r == counters_of(stats@, device),
{
    proof {
        lemma_counters_of(stats@, device);
    }
    match position_of(stats, device) {
        Some(k) => Some(stats[k].1),
        None => None,
    }
}

/// A mount point as `mountinfo` escapes it, decoded: `\040` (space),
/// `\011` (tab), `\012` (newline) and `\134` (backslash), in that order.
pub open spec fn decoded_mount(value: Seq<char>) -> Seq<char> {
    replace_all(
        replace_all(replace_all(replace_all(value, "\\040"@, " "@), "\\011"@, "\t"@), "\\012"@, "\n"@),
        "\\134"@,
        "\\"@,
    )
}

/// Replaces every `pattern` in `v` by `by`.
fn replace_in(v: &Vec<char>, pattern: &str, by: &str) -> (r: Vec<char>)
    requires
        pattern@.len() > 0,
    ensures
        r@ == replace_all(v@, pattern@, by@),
{
    replace_all_of(v, &chars_of(pattern), &chars_of(by))
}

/// A mount point as `mountinfo` escapes it, decoded.
pub fn decode_mount_field(value: &str) -> (r: String)
    ensures
        r@ == decoded_mount(value@),
{
    proof {
        reveal_strlit("\\040");
        reveal_strlit("\\011");
        reveal_strlit("\\012");
        reveal_strlit("\\134");
    }
    let a = replace_in(&chars_of(value), "\\040", " ");
    let b = replace_in(&a, "\\011", "\t");
    let c = replace_in(&b, "\\012", "\n");
    let d = replace_in(&c, "\\134", "\\");
    string_of(&d)
}

/// The mount point and device one line of `mountinfo` gives: the device
/// number in field 3 (`major:minor`) and the mount point in field 5.
pub open spec fn mount_entry(line: Seq<char>) -> Option<(Seq<char>, DeviceNumber)> {
    let f = words(line);
    if f.len() < 3 {
        None
    } else {
        let colon = find(f[2], ":"@);
        if colon < 0 {
            None
        } else {
            match (
                parse_unsigned(f[2].take(colon), u32::MAX as nat),
                parse_unsigned(f[2].skip(colon + 1), u32::MAX as nat),
            ) {
                (Some(major), Some(minor)) => if f.len() < 5 {
                    None
                } else {
                    Some((decoded_mount(f[4]), (major as u32, minor as u32)))
                },
                _ => None,
            }
        }
    }
}

/// The entries of the lines that give one, in order.
pub open spec fn mount_entries(ls: Seq<Seq<char>>) -> Seq<(Seq<char>, DeviceNumber)>
    decreases ls.len(),
{
    if ls.len() == 0 {
        Seq::empty()
    } else {
        match mount_entry(ls.last()) {
            Some(e) => mount_entries(ls.drop_last()).push(e),
            None => mount_entries(ls.drop_last()),
        }
    }
}

/// The mount point and device of one `mountinfo` line.
pub fn parse_mount_line(line: &str) -> (r: Option<(String, DeviceNumber)>)
    ensures
        match r {
            Some((m, d)) => mount_entry(line@) == Some((m@, d)),
            None => mount_entry(line@) is None,
        },
{
    let f = words_of(&chars_of(line));
    if f.len() < 3 {
        return None;
    }
    let dev = chars_of(f[2].as_str());
    let colon = chars_of(":");
    assert(views(f@)[2] == f@[2]@);
    assert(dev@.skip(0) =~= dev@);
    let at = match find_from(&dev, &colon, 0) {
        Some(k) => k,
        None => {
            return None;
        },
    };
    proof {
        crate::text::lemma_find_bounds(dev@, colon@);
        reveal_strlit(":");
    }
    let major_text = string_of_range(&dev, 0, at);
    let minor_text = string_of_range(&dev, at + 1, dev.len());
    assert(major_text@ =~= dev@.take(at as int));
    assert(minor_text@ =~= dev@.skip(at + 1));
    let major = parse_unsigned_of(&chars_of(major_text.as_str()), 0xffff_ffff);
    let minor = parse_unsigned_of(&chars_of(minor_text.as_str()), 0xffff_ffff);
    match (major, minor) {
        (Some(a), Some(b)) => {
            if f.len() < 5 {
                return None;
            }
            assert(views(f@)[4] == f@[4]@);
            Some((decode_mount_field(f[4].as_str()), (a as u32, b as u32)))
        },
        _ => None,
    }
}

/// The views of parsed mount entries.
pub open spec fn entry_views(v: Seq<(String, DeviceNumber)>) -> Seq<(Seq<char>, DeviceNumber)> {
    v.map_values(|e: (String, DeviceNumber)| (e.0@, e.1))
}

/// The mount points and devices of `mountinfo`, in order.
pub fn parse_mountinfo(text: &str) -> (r: Vec<(String, DeviceNumber)>)
    ensures
        entry_views(r@) == mount_entries(lines(text@)),
{
    let ls = lines_of(text);
    let ghost lv = views(ls@);
    let mut r: Vec<(String, DeviceNumber)> = Vec::new();
    let mut i: usize = 0;
    while i < ls.len()
        invariant
            i <= ls.len(),
            lv == views(ls@),
            lv == lines(text@),
            entry_views(r@) == mount_entries(lv.take(i as int)),
        decreases ls.len() - i,
    {
        assert(lv.take(i + 1).drop_last() =~= lv.take(i as int));
        assert(lv.take(i + 1).last() == ls@[i as int]@);
        let ghost before = entry_views(r@);
        match parse_mount_line(ls[i].as_str()) {
            Some(e) => {
                let ghost ev = (e.0@, e.1);
                r.push(e);
                assert(entry_views(r@) =~= before.push(ev));
            },
            None => {},
        }
        i += 1;
    }
    assert(lv.take(i as int) =~= lv);
    r
}

/// A mount point with its device's counters now and at the previous sample.
pub struct MountIo {
    pub name: String,
    pub current: RawDiskIo,
    pub previous: Option<RawDiskIo>,
}

/// The mount points whose device has counters now, in order, each with its
/// counters now and at the previous sample.
pub open spec fn mount_ios(
    mounts: Seq<(String, DeviceNumber)>,
    current: Seq<(DeviceNumber, RawDiskIo)>,
    previous: Seq<(DeviceNumber, RawDiskIo)>,
    r: Seq<MountIo>,
) -> bool
    decreases mounts.len(),
{
    if mounts.len() == 0 {
        r.len() == 0
    } else {
        let m = mounts.last();
        match counters_of(current, m.1) {
            Some(io) => r.len() > 0 && r.last().name@ == m.0@ && r.last().current == io && r.last().previous
                == counters_of(previous, m.1) && mount_ios(mounts.drop_last(), current, previous, r.drop_last()),
            None => mount_ios(mounts.drop_last(), current, previous, r),
        }
    }
}

/// Pairs each mount point with its device's counters now and before.
pub fn pair_mounts(
    mounts: &Vec<(String, DeviceNumber)>,
    current: &Vec<(DeviceNumber, RawDiskIo)>,
    previous: &Vec<(DeviceNumber, RawDiskIo)>,
) -> (r: Vec<MountIo>)
    requires
        devices_unique(current@),
        devices_unique(previous@),
    ensures
        mount_ios(mounts@, current@, previous@, r@),
{
    let mut r: Vec<MountIo> = Vec::new();
    let mut i: usize = 0;
    while i < mounts.len()
        invariant
            i <= mounts.len(),
            devices_unique(current@),
            devices_unique(previous@),
            mount_ios(mounts@.take(i as int), current@, previous@, r@),
        decreases mounts.len() - i,
    {
        assert(mounts@.take(i + 1).drop_last() =~= mounts@.take(i as int));
        assert(mounts@.take(i + 1).last() == mounts@[i as int]);
        let device = mounts[i].1;
        match device_io(current, device) {
            Some(io) => {
                let ghost before = r@;
                r.push(MountIo { name: String::from_str(mounts[i].0.as_str()), current: io, previous: device_io(previous, device) });
                assert(r@.drop_last() =~= before);
            },
            None => {},
        }
        i += 1;
    }
    assert(mounts@.take(i as int) =~= mounts@);
    r
}

} // verus!
