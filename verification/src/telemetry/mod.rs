//! Live telemetry: how the live view matches the volumes it samples to the
//! inventory and to the I/O counters. The program samples the system; the
//! rates and percentages it computes from these matches stay with it.

use vstd::prelude::*;

use crate::hardware::{is_unknown, unknown_text, LogicalDiskInfo};
use crate::size::bytes_text;
use crate::text::{chars_eq, chars_of, is_blank, lower, lower_of, string_of, trim, trim_bounds, trim_end_any, trim_end_any_of, trimmed};

pub mod disk_io;
pub mod double;
pub mod storage;

pub use storage::{parse_storage_bytes, storage_bytes};

verus! {

/// The sampling interval when none is given, in milliseconds.
pub const DEFAULT_INTERVAL_MS: u64 = 1000;

/// The shortest sampling interval, in milliseconds.
pub const MIN_INTERVAL_MS: u64 = 250;

/// How many samples the live view's history keeps.
pub const HISTORY_LIMIT: usize = 240;

/// The sampling interval actually used: at least the minimum.
pub fn normalized_interval_ms(value: u64) -> (r: u64)
    ensures
        r == if value < MIN_INTERVAL_MS { MIN_INTERVAL_MS } else { value },
{
    if value < MIN_INTERVAL_MS {
        MIN_INTERVAL_MS
    } else {
        value
    }
}

/// `bytes` in binary units ("1.50 KiB").
pub fn format_bytes(bytes: u64) -> (r: String)
    ensures
        r@ == bytes_text(bytes as nat),
{
    crate::size::format_bytes(bytes)
}

/// The form in which mount points and device names are compared: trimmed
/// and without trailing slashes or backslashes, except that a root `/` or
/// `\` stays as it is.
pub open spec fn disk_key(value: Seq<char>) -> Seq<char> {
    let t = trim(value);
    if t == "/"@ || t == "\\"@ {
        t
    } else {
        trim_end_any(t, seq!['\\', '/'])
    }
}

/// The form in which mount points and device names are compared.
pub fn normalize_disk_key(value: &str) -> (r: String)
    ensures
        r@ == disk_key(value@),
{
    let t = trimmed(value);
    proof {
        reveal_strlit("/");
        reveal_strlit("\\");
    }
    if crate::text::eq(t.as_str(), "/") || crate::text::eq(t.as_str(), "\\") {
        return t;
    }
    let set = vec!['\\', '/'];
    assert(set@ =~= seq!['\\', '/']);
    string_of(&trim_end_any_of(&chars_of(t.as_str()), &set))
}

/// Whether two names denote the same volume: neither is blank or unknown,
/// and their keys are equal when ASCII letter case is ignored.
pub open spec fn same_disk(left: Seq<char>, right: Seq<char>) -> bool {
    &&& trim(left).len() > 0
    &&& trim(right).len() > 0
    &&& left != unknown_text()
    &&& right != unknown_text()
    &&& lower(disk_key(left)) == lower(disk_key(right))
}

/// Whether two keys are equal when ASCII letter case is ignored.
fn same_key(a: &str, b: &str) -> (r: bool)
    ensures
        r == (lower(a@) == lower(b@)),
{
    chars_eq(&lower_of(&chars_of(a)), &lower_of(&chars_of(b)))
}

/// Whether two names denote the same volume.
pub fn same_identity(left: &str, right: &str) -> (r: bool)
    ensures
        r == same_disk(left@, right@),
{
    if is_blank(left) || is_blank(right) || is_unknown(left) || is_unknown(right) {
        return false;
    }
    same_key(normalize_disk_key(left).as_str(), normalize_disk_key(right).as_str())
}

/// The inventory's text unless it is blank or unknown, else the live one
/// when there is one.
pub open spec fn preferred(primary: Seq<char>, fallback: Option<Seq<char>>) -> Seq<char> {
    if trim(primary).len() > 0 && primary != unknown_text() {
        primary
    } else {
        match fallback {
            Some(f) => f,
            None => primary,
        }
    }
}

/// The inventory's text unless it is blank or unknown, else the live one.
pub fn preferred_text(primary: &str, fallback: Option<&str>) -> (r: String)
    ensures
        r@ == preferred(primary@, match fallback { Some(f) => Some(f@), None => None }),
{
    if !is_blank(primary) && !is_unknown(primary) {
        String::from_str(primary)
    } else {
        match fallback {
            Some(f) => String::from_str(f),
            None => String::from_str(primary),
        }
    }
}

/// A volume as the system library samples it: names and byte counts.
pub struct LiveDisk {
    pub name: String,
    pub mount_point: String,
    pub file_system: String,
    pub total_bytes: u64,
    pub available_bytes: u64,
    pub used_bytes: u64,
}

/// Whether a sampled volume is the inventory's volume: same mount point or
/// same device.
pub open spec fn matches_live(item: LogicalDiskInfo, live: LiveDisk) -> bool {
    same_disk(item.mount_point@, live.mount_point@) || same_disk(item.device@, live.name@)
}

/// Whether a sampled volume is the inventory's volume.
pub fn disk_matches(item: &LogicalDiskInfo, live: &LiveDisk) -> (r: bool)
    ensures
        r == matches_live(*item, *live),
{
    same_identity(item.mount_point.as_str(), live.mount_point.as_str()) || same_identity(item.device.as_str(), live.name.as_str())
}

/// The position of the first of `items` that `p` holds of.
pub open spec fn first_where<T>(items: Seq<T>, p: spec_fn(T) -> bool) -> Option<int>
    decreases items.len(),
{
    if items.len() == 0 {
        None
    } else if p(items[0]) {
        Some(0)
    } else {
        match first_where(items.drop_first(), p) {
            Some(k) => Some(k + 1),
            None => None,
        }
    }
}

/// Whether an I/O counter's name matches a volume's mount key or name key
/// (a blank key matches nothing).
pub open spec fn counter_matches(counter: Seq<char>, mount_key: Seq<char>, name_key: Seq<char>) -> bool {
    (mount_key.len() > 0 && lower(disk_key(counter)) == lower(mount_key)) || (name_key.len() > 0 && lower(
        disk_key(counter),
    ) == lower(name_key))
}

/// The first I/O counter of a volume, found by mount point or name.
pub open spec fn io_for(counters: Seq<String>, mount_point: Seq<char>, name: Seq<char>) -> Option<int> {
    first_where(counters, |c: String| counter_matches(c@, disk_key(mount_point), disk_key(name)))
}

/// The position of the first I/O counter of a volume.
pub fn find_disk_io(counters: &Vec<String>, mount_point: &str, disk_name: &str) -> (r: Option<usize>)
    ensures
        match r {
            Some(k) => k < counters@.len() && io_for(counters@, mount_point@, disk_name@) == Some(k as int),
            None => io_for(counters@, mount_point@, disk_name@) is None,
        },
{
    let mount_key = normalize_disk_key(mount_point);
    let name_key = normalize_disk_key(disk_name);
    let ghost p = |c: String| counter_matches(c@, disk_key(mount_point@), disk_key(disk_name@));
    assert(counters@.skip(0) =~= counters@);
    let mut i: usize = 0;
    while i < counters.len()
        invariant
            i <= counters.len(),
            mount_key@ == disk_key(mount_point@),
            name_key@ == disk_key(disk_name@),
            p == (|c: String| counter_matches(c@, disk_key(mount_point@), disk_key(disk_name@))),
            io_for(counters@, mount_point@, disk_name@) == (match first_where(counters@.skip(i as int), p) {
                Some(k) => Some(k + i),
                None => None,
            }),
        decreases counters.len() - i,
    {
        assert(counters@.skip(i as int)[0] == counters@[i as int]);
        let key = normalize_disk_key(counters[i].as_str());
        let hit = (mount_key.unicode_len() > 0 && same_key(key.as_str(), mount_key.as_str())) || (name_key.unicode_len() > 0
            && same_key(key.as_str(), name_key.as_str()));
        if hit {
            return Some(i);
        }
        assert(counters@.skip(i as int).drop_first() =~= counters@.skip(i + 1));
        i += 1;
    }
    None
}

/// The position of the first sampled volume that is the inventory's volume.
pub open spec fn live_for(lives: Seq<LiveDisk>, item: LogicalDiskInfo) -> Option<int> {
    first_where(lives, |l: LiveDisk| matches_live(item, l))
}

/// The position of the first sampled volume that is the inventory's volume.
pub fn find_live(lives: &Vec<LiveDisk>, item: &LogicalDiskInfo) -> (r: Option<usize>)
    ensures
        match r {
            Some(k) => k < lives@.len() && live_for(lives@, *item) == Some(k as int),
            None => live_for(lives@, *item) is None,
        },
{
    let ghost p = |l: LiveDisk| matches_live(*item, l);
    assert(lives@.skip(0) =~= lives@);
    let mut i: usize = 0;
    while i < lives.len()
        invariant
            i <= lives.len(),
            p == (|l: LiveDisk| matches_live(*item, l)),
            live_for(lives@, *item) == (match first_where(lives@.skip(i as int), p) {
                Some(k) => Some(k + i),
                None => None,
            }),
        decreases lives.len() - i,
    {
        assert(lives@.skip(i as int)[0] == lives@[i as int]);
        if disk_matches(item, &lives[i]) {
            return Some(i);
        }
        assert(lives@.skip(i as int).drop_first() =~= lives@.skip(i + 1));
        i += 1;
    }
    None
}

/// What the live view shows of one volume: its names, its byte counts, and
/// which sampled volume and I/O counter it was matched to.
pub struct DiskMerge {
    pub name: String,
    pub mount_point: String,
    pub file_system: String,
    pub total_bytes: u64,
    pub available_bytes: u64,
    pub used_bytes: u64,
    pub live: Option<usize>,
    pub io: Option<usize>,
}

/// A byte count: the live one, else the inventory's text read back, else 0.
pub open spec fn count_or_inventory(live: Option<u64>, inventory: Seq<char>) -> u64 {
    match live {
        Some(n) => n,
        None => match storage_bytes(inventory) {
            Some(n) => n,
            None => 0,
        },
    }
}

/// The live view's entry for an inventory volume: the inventory's names
/// unless blank or unknown, the live byte counts when the volume is seen,
/// and the I/O counter of its mount point or name.
pub open spec fn inventory_merge(item: LogicalDiskInfo, lives: Seq<LiveDisk>, counters: Seq<String>, r: DiskMerge) -> bool {
    let k = live_for(lives, item);
    let live = match k { Some(i) => Some(lives[i]), None => None };
    &&& r.live == (match k { Some(i) => Some(i as usize), None => None })
    &&& r.name@ == preferred(item.device@, match live { Some(l) => Some(l.name@), None => None })
    &&& r.mount_point@ == preferred(item.mount_point@, match live { Some(l) => Some(l.mount_point@), None => None })
    &&& r.file_system@ == preferred(item.file_system@, match live { Some(l) => Some(l.file_system@), None => None })
    &&& r.total_bytes == count_or_inventory(match live { Some(l) => Some(l.total_bytes), None => None }, item.total@)
    &&& r.available_bytes == count_or_inventory(match live { Some(l) => Some(l.available_bytes), None => None }, item.available@)
    &&& r.used_bytes == count_or_inventory(match live { Some(l) => Some(l.used_bytes), None => None }, item.used@)
    &&& r.io == (match io_for(counters, r.mount_point@, r.name@) { Some(i) => Some(i as usize), None => None })
}

/// The live view's entry for a sampled volume that no inventory lists.
pub open spec fn live_merge(index: int, live: LiveDisk, counters: Seq<String>, r: DiskMerge) -> bool {
    &&& r.live == Some(index as usize)
    &&& r.name@ == live.name@
    &&& r.mount_point@ == live.mount_point@
    &&& r.file_system@ == live.file_system@
    &&& r.total_bytes == live.total_bytes
    &&& r.available_bytes == live.available_bytes
    &&& r.used_bytes == live.used_bytes
    &&& r.io == (match io_for(counters, live.mount_point@, live.name@) { Some(i) => Some(i as usize), None => None })
}

/// A byte count: the live one, else the inventory's text read back, else 0.
fn count_or(live: Option<u64>, inventory: &str) -> (r: u64)
    ensures
        r == count_or_inventory(live, inventory@),
{
    match live {
        Some(n) => n,
        None => match parse_storage_bytes(inventory) {
            Some(n) => n,
            None => 0,
        },
    }
}

/// The live view's volumes: one per inventory volume, matched to the
/// sampled volumes, or, without an inventory, one per sampled volume.
pub fn merge_disk_inventory(inventory: &Vec<LogicalDiskInfo>, lives: &Vec<LiveDisk>, counters: &Vec<String>) -> (r: Vec<DiskMerge>)
    ensures
        inventory@.len() == 0 ==> r@.len() == lives@.len() && forall|i: int|
            0 <= i < lives@.len() ==> live_merge(i, lives@[i], counters@, #[trigger] r@[i]),
        inventory@.len() > 0 ==> r@.len() == inventory@.len() && forall|i: int|
            0 <= i < inventory@.len() ==> inventory_merge(inventory@[i], lives@, counters@, #[trigger] r@[i]),
{
    let mut r: Vec<DiskMerge> = Vec::new();
    if inventory.len() == 0 {
        let mut i: usize = 0;
        while i < lives.len()
            invariant
                i <= lives.len(),
                r@.len() == i,
                forall|k: int| 0 <= k < i ==> live_merge(k, lives@[k], counters@, #[trigger] r@[k]),
            decreases lives.len() - i,
        {
            let l = &lives[i];
            let io = find_disk_io(counters, l.mount_point.as_str(), l.name.as_str());
            r.push(DiskMerge {
                name: String::from_str(l.name.as_str()),
                mount_point: String::from_str(l.mount_point.as_str()),
                file_system: String::from_str(l.file_system.as_str()),
                total_bytes: l.total_bytes,
                available_bytes: l.available_bytes,
                used_bytes: l.used_bytes,
                live: Some(i),
                io,
            });
            i += 1;
        }
        return r;
    }
    let mut i: usize = 0;
    while i < inventory.len()
        invariant
            i <= inventory.len(),
            r@.len() == i,
            forall|k: int| 0 <= k < i ==> inventory_merge(inventory@[k], lives@, counters@, #[trigger] r@[k]),
        decreases inventory.len() - i,
    {
        let item = &inventory[i];
        let k = find_live(lives, item);
        let live: Option<&LiveDisk> = match k {
            Some(j) => Some(&lives[j]),
            None => None,
        };
        let name = preferred_text(item.device.as_str(), match live { Some(l) => Some(l.name.as_str()), None => None });
        let mount_point = preferred_text(item.mount_point.as_str(), match live { Some(l) => Some(l.mount_point.as_str()), None => None });
        let file_system = preferred_text(item.file_system.as_str(), match live { Some(l) => Some(l.file_system.as_str()), None => None });
        let io = find_disk_io(counters, mount_point.as_str(), name.as_str());
        let total_bytes = count_or(match live { Some(l) => Some(l.total_bytes), None => None }, item.total.as_str());
        let available_bytes = count_or(match live { Some(l) => Some(l.available_bytes), None => None }, item.available.as_str());
        let used_bytes = count_or(match live { Some(l) => Some(l.used_bytes), None => None }, item.used.as_str());
        r.push(DiskMerge { name, mount_point, file_system, total_bytes, available_bytes, used_bytes, live: k, io });
        i += 1;
    }
    r
}

/// `first_where` gives the first item that satisfies `p`, and nothing only
/// when none does.
pub proof fn lemma_first_where<T>(items: Seq<T>, p: spec_fn(T) -> bool)
    ensures
        first_where(items, p) is None <==> forall|i: int| 0 <= i < items.len() ==> !p(#[trigger] items[i]),
        first_where(items, p) matches Some(k) ==> 0 <= k < items.len() && p(items[k]) && forall|i: int|
            0 <= i < k ==> !p(#[trigger] items[i]),
    decreases items.len(),
{
    if items.len() > 0 && !p(items[0]) {
        let rest = items.drop_first();
        lemma_first_where(rest, p);
        assert forall|i: int| 1 <= i < items.len() implies items[i] == rest[i - 1] by {}
        if first_where(rest, p) is None {
            assert forall|i: int| 0 <= i < items.len() implies !p(#[trigger] items[i]) by {
                if i > 0 {
                    assert(items[i] == rest[i - 1]);
                }
            }
        } else {
            let k = first_where(rest, p)->0;
            assert(p(rest[k]));
            assert(items[k + 1] == rest[k]);
            assert forall|i: int| 0 <= i < k + 1 implies !p(#[trigger] items[i]) by {
                if i > 0 {
                    assert(items[i] == rest[i - 1]);
                }
            }
        }
    }
}

/// The byte counts of an inventory volume in the live view: those of the
/// first sampled volume it matches, or, when no sampled volume matches, its
/// own total, available and used texts read back (0 when unreadable), each
/// from its own text.
pub proof fn lemma_merge_byte_counts(item: LogicalDiskInfo, lives: Seq<LiveDisk>, counters: Seq<String>, r: DiskMerge)
    requires
        inventory_merge(item, lives, counters, r),
    ensures
        (forall|i: int| 0 <= i < lives.len() ==> !matches_live(item, #[trigger] lives[i])) ==> {
            &&& r.live is None
            &&& r.total_bytes == (match storage_bytes(item.total@) { Some(n) => n, None => 0 })
            &&& r.available_bytes == (match storage_bytes(item.available@) { Some(n) => n, None => 0 })
            &&& r.used_bytes == (match storage_bytes(item.used@) { Some(n) => n, None => 0 })
        },
        forall|k: int|
            0 <= k < lives.len() && matches_live(item, #[trigger] lives[k]) && (forall|i: int|
                0 <= i < k ==> !matches_live(item, #[trigger] lives[i])) ==> {
                &&& r.live == Some(k as usize)
                &&& r.total_bytes == lives[k].total_bytes
                &&& r.available_bytes == lives[k].available_bytes
                &&& r.used_bytes == lives[k].used_bytes
            },
{
    let p = |l: LiveDisk| matches_live(item, l);
    lemma_first_where(lives, p);
    assert forall|i: int| 0 <= i < lives.len() implies p(lives[i]) == matches_live(item, lives[i]) by {}
    assert forall|k: int|
        0 <= k < lives.len() && matches_live(item, #[trigger] lives[k]) && (forall|i: int|
            0 <= i < k ==> !matches_live(item, #[trigger] lives[i])) implies live_for(lives, item) == Some(k) by {
        let f = first_where(lives, p);
        assert(f is Some);
        let j = f->0;
        if j < k {
            assert(!matches_live(item, lives[j]));
        }
        if j > k {
            assert(!p(lives[k]));
        }
    }
}

} // verus!
