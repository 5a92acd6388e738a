//! The WMI rows the native collector reads, field by field as WMI returns them.

use vstd::prelude::*;

verus! {

/// A row of `MSFT_PhysicalDisk`.
#[derive(Debug)]
pub struct MsftPhysicalDisk {
    pub device_id: Option<String>,
    pub friendly_name: Option<String>,
    pub model: Option<String>,
    pub serial_number: Option<String>,
    pub size: Option<u64>,
    pub media_type: Option<u16>,
    pub bus_type: Option<u16>,
    pub firmware_version: Option<String>,
    pub health_status: Option<u16>,
}

/// A row of `Win32_DiskDrive`.
#[derive(Debug)]
pub struct Win32DiskDrive {
    pub device_id: Option<String>,
    pub index: Option<u32>,
    pub model: Option<String>,
    pub serial_number: Option<String>,
    pub size: Option<u64>,
    pub media_type: Option<String>,
    pub interface_type: Option<String>,
    pub firmware_revision: Option<String>,
}

/// A row of `Win32_PhysicalMemory`.
#[derive(Debug)]
pub struct Win32PhysicalMemory {
    pub bank_label: Option<String>,
    pub device_locator: Option<String>,
    pub capacity: Option<u64>,
    pub speed: Option<u32>,
    pub configured_clock_speed: Option<u32>,
    pub manufacturer: Option<String>,
    pub part_number: Option<String>,
    pub serial_number: Option<String>,
}

/// A row of `Win32_Processor`.
#[derive(Debug)]
pub struct Win32Processor {
    pub name: Option<String>,
    pub manufacturer: Option<String>,
    pub number_of_cores: Option<u32>,
    pub number_of_logical_processors: Option<u32>,
    pub max_clock_speed: Option<u32>,
}

/// A row of `Win32_BaseBoard`.
#[derive(Debug)]
pub struct Win32BaseBoard {
    pub manufacturer: Option<String>,
    pub product: Option<String>,
    pub version: Option<String>,
    pub serial_number: Option<String>,
}

/// A row of `Win32_BIOS`.
#[derive(Debug)]
pub struct Win32Bios {
    pub manufacturer: Option<String>,
    pub smbios_bios_version: Option<String>,
    pub version: Option<String>,
}

} // verus!
