//! The full inventory and the sections a command can ask for.

use vstd::prelude::*;

use super::{CpuInfo, DebugRecord, DiskInfo, HdrtWarning, LogicalDiskInfo, MemoryDevice, MotherboardInfo};

verus! {

/// The part of the inventory a command shows.
#[derive(Debug, Clone, Copy, PartialEq, Eq, Structural)]
pub enum Section {
    Disk,
    PhysicalDisk,
    LogicalDisk,
    Memory,
    Cpu,
    Motherboard,
    All,
}

/// Everything collected in one run.
#[derive(Debug)]
pub struct HardwareReport {
    pub physical_disks: Vec<DiskInfo>,
    pub logical_disks: Vec<LogicalDiskInfo>,
    pub memory: Vec<MemoryDevice>,
    pub cpu: Option<CpuInfo>,
    pub motherboard: Option<MotherboardInfo>,
    pub warnings: Vec<HdrtWarning>,
    pub debug: Vec<DebugRecord>,
}

impl HardwareReport {
    /// Nothing collected.
    pub open spec fn is_empty_report(self) -> bool {
        &&& self.physical_disks@.len() == 0
        &&& self.logical_disks@.len() == 0
        &&& self.memory@.len() == 0
        &&& self.cpu is None
        &&& self.motherboard is None
        &&& self.warnings@.len() == 0
        &&& self.debug@.len() == 0
    }
}

impl Default for HardwareReport {
    fn default() -> (r: Self)
        ensures
            r.is_empty_report(),
    {
        HardwareReport {
            physical_disks: Vec::new(),
            logical_disks: Vec::new(),
            memory: Vec::new(),
            cpu: None,
            motherboard: None,
            warnings: Vec::new(),
            debug: Vec::new(),
        }
    }
}

} // verus!
