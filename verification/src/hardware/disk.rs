//! Physical and logical disk inventory.

use vstd::prelude::*;

use super::unknown;
use super::warning::HdrtWarning;
use crate::size::{bytes_text, format_bytes};

verus! {

/// What is known of one physical drive.
#[derive(Debug)]
pub struct DiskInfo {
    pub device: String,
    pub model: String,
    pub serial: String,
    pub size: String,
    pub media_type: String,
    pub bus: String,
    pub firmware: String,
    pub health: String,
    pub source: String,
    pub warnings: Vec<HdrtWarning>,
}

/// What is known of one mounted volume.
///
/// The used share is kept in tenths of a percent (`250` is 25.0%), the
/// precision with which every renderer prints it.
#[derive(Debug)]
pub struct LogicalDiskInfo {
    pub device: String,
    pub mount_point: String,
    pub file_system: String,
    pub total: String,
    pub used: String,
    pub available: String,
    pub used_percent_tenths: u64,
    pub source: String,
    pub warnings: Vec<HdrtWarning>,
}

impl DiskInfo {
    /// Every text field unknown and no warnings.
    pub open spec fn is_blank(self) -> bool {
        &&& self.device@ == super::unknown_text()
        &&& self.model@ == super::unknown_text()
        &&& self.serial@ == super::unknown_text()
        &&& self.size@ == super::unknown_text()
        &&& self.media_type@ == super::unknown_text()
        &&& self.bus@ == super::unknown_text()
        &&& self.firmware@ == super::unknown_text()
        &&& self.health@ == super::unknown_text()
        &&& self.source@ == super::unknown_text()
        &&& self.warnings@.len() == 0
    }
}

impl LogicalDiskInfo {
    /// Every text field unknown, nothing used and no warnings.
    pub open spec fn is_blank(self) -> bool {
        &&& self.device@ == super::unknown_text()
        &&& self.mount_point@ == super::unknown_text()
        &&& self.file_system@ == super::unknown_text()
        &&& self.total@ == super::unknown_text()
        &&& self.used@ == super::unknown_text()
        &&& self.available@ == super::unknown_text()
        &&& self.used_percent_tenths == 0
        &&& self.source@ == super::unknown_text()
        &&& self.warnings@.len() == 0
    }
}

impl Default for DiskInfo {
    fn default() -> (r: Self)
        ensures
            r.is_blank(),
    {
        DiskInfo {
            device: unknown(),
            model: unknown(),
            serial: unknown(),
            size: unknown(),
            media_type: unknown(),
            bus: unknown(),
            firmware: unknown(),
            health: unknown(),
            source: unknown(),
            warnings: Vec::new(),
        }
    }
}

impl Default for LogicalDiskInfo {
    fn default() -> (r: Self)
        ensures
            r.is_blank(),
    {
        LogicalDiskInfo {
            device: unknown(),
            mount_point: unknown(),
            file_system: unknown(),
            total: unknown(),
            used: unknown(),
            available: unknown(),
            used_percent_tenths: 0,
            source: unknown(),
            warnings: Vec::new(),
        }
    }
}

/// The used share of `total` in tenths of a percent, rounded to the
/// nearest tenth (halves up); 0 for an empty volume.
pub open spec fn used_tenths(used: nat, total: nat) -> nat {
    if total == 0 {
        0
    } else {
        (used * 2000 + total) / (2 * total)
    }
}

/// What is used of a volume is at most all of it.
proof fn lemma_used_tenths_bounded(used: nat, total: nat)
    requires
        used <= total,
    ensures
        used_tenths(used, total) <= 1000,
{
    if total > 0 {
        let q = (used * 2000 + total) / (2 * total);
        assert(used * 2000 + total < 2 * total * 1001) by (nonlinear_arith)
            requires
                used <= total,
                total > 0,
        ;
        assert(q <= 1000) by (nonlinear_arith)
            requires
                q == (used * 2000 + total) / (2 * total),
                used * 2000 + total < 2 * total * 1001,
                total > 0,
        ;
    }
}

/// The used share of `total` in tenths of a percent, at most 100%.
pub fn used_percent_tenths(used: u64, total: u64) -> (r: u64)
    ensures
        r == (if used_tenths(used as nat, total as nat) > 1000 { 1000 } else { used_tenths(used as nat, total as nat) }),
        r <= 1000,
{
    if total == 0 {
        return 0;
    }
    let u = used as u128;
    let t = total as u128;
    assert(u * 2000 + t <= 2001 * 0xffff_ffff_ffff_ffffu128) by (nonlinear_arith)
        requires
            u <= 0xffff_ffff_ffff_ffffu128,
            t <= 0xffff_ffff_ffff_ffffu128,
    ;
    let q = (u * 2000 + t) / (2 * t);
    if q > 1000 {
        1000
    } else {
        q as u64
    }
}

/// A mounted volume given its byte counts: the counts printed in binary
/// units, what is used being `total - available` (none when more is
/// available than the total), and its share.
pub fn volume_info(
    device: &str,
    mount_point: &str,
    file_system: &str,
    total: u64,
    available: u64,
    source: &str,
) -> (r: LogicalDiskInfo)
    ensures
        r.device@ == device@,
        r.mount_point@ == mount_point@,
        r.file_system@ == file_system@,
        r.total@ == bytes_text(total as nat),
        r.available@ == bytes_text(available as nat),
        r.used@ == bytes_text(if available <= total { (total - available) as nat } else { 0 }),
        r.used_percent_tenths == used_tenths(
            if available <= total { (total - available) as nat } else { 0 },
            total as nat,
        ),
        r.source@ == source@,
        r.warnings@.len() == 0,
{
    let used: u64 = if available <= total { total - available } else { 0 };
    proof {
        lemma_used_tenths_bounded(used as nat, total as nat);
    }
    LogicalDiskInfo {
        device: String::from_str(device),
        mount_point: String::from_str(mount_point),
        file_system: String::from_str(file_system),
        total: format_bytes(total),
        used: format_bytes(used),
        available: format_bytes(available),
        used_percent_tenths: used_percent_tenths(used, total),
        source: String::from_str(source),
        warnings: Vec::new(),
    }
}

} // verus!
