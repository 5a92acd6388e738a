use hdrt::collector::windows::backend::{auto_with_basic, auto_with_shell, benchmark_err, benchmark_ok};
use hdrt::collector::windows::inventory::{cpu_from_query, memory_from_query, motherboard_from_queries, native_report};
use hdrt::collector::windows::native_storage::{descriptor_from_buffer, read_offset_string, read_u32, StorageDescriptor};
use hdrt::collector::windows::native_wmi::{
    descriptor_indexes, disk_from_disk_drive_row, disk_from_storage_row, find_disk_drive_for_storage, joined_source,
    parse_physical_index, storage_rows_outcome,
};
use hdrt::collector::windows::registry::{cpu_info, disk_from_pnp_id, motherboard_info, physical_disks, BiosValues};
use hdrt::collector::windows::rows::{MsftPhysicalDisk, Win32BaseBoard, Win32Bios, Win32DiskDrive, Win32PhysicalMemory, Win32Processor};
use hdrt::collector::windows::shell::{
    collect_cpu, collect_disks, collect_memory, collect_motherboard, collect_report as shell_report, shell_inventory, JsonRow,
    JsonScalar, ShellInventory,
};
use hdrt::collector::windows::util::{clean_manufacturer, first_known, format_bytes};
use hdrt::collector::windows::values::{health_status, physical_media_type, storage_bus_type};
use hdrt::hardware::HardwareReport;

fn text(s: &str) -> JsonScalar {
    JsonScalar::Text(s.to_string())
}

fn number(n: u64) -> JsonScalar {
    JsonScalar::Number(n.to_string(), Some(n))
}

fn row(fields: Vec<(&str, JsonScalar)>) -> JsonRow {
    JsonRow { fields: fields.into_iter().map(|(k, v)| (k.to_string(), v)).collect() }
}

fn empty_inventory() -> ShellInventory {
    ShellInventory {
        physical_disks: Vec::new(),
        disk_drives: Vec::new(),
        memory: Vec::new(),
        cpu: None,
        base_board: None,
        bios: None,
    }
}

#[test]
fn physical_disk_keeps_firmware_version() {
    let mut inv = empty_inventory();
    inv.physical_disks = vec![row(vec![
        ("DeviceId", text("0")),
        ("FriendlyName", text("Great Wall GW560 512GB")),
        ("Model", text("Great Wall GW560 512GB")),
        ("FirmwareVersion", text("HP3618B7")),
    ])];

    let disks = collect_disks(&inv);

    assert_eq!(disks[0].firmware, "HP3618B7");
}

#[test]
fn maps_cpu_inventory_fields() {
    let mut inv = empty_inventory();
    inv.cpu = Some(row(vec![
        ("Name", text("Fixture CPU")),
        ("Manufacturer", text("Fixture Vendor")),
        ("NumberOfCores", number(8)),
        ("NumberOfLogicalProcessors", number(16)),
        ("MaxClockSpeed", number(4200)),
    ]));

    let cpu = collect_cpu(&inv).unwrap();
    assert_eq!(cpu.model, "Fixture CPU");
    assert_eq!(cpu.physical_cores, Some(8));
    assert_eq!(cpu.logical_threads, Some(16));
    assert_eq!(cpu.frequency, "4200 MHz");
}

#[test]
fn maps_memory_and_falls_back_to_reported_speed() {
    let mut inv = empty_inventory();
    inv.memory = vec![row(vec![
        ("DeviceLocator", text("DIMM0")),
        ("Capacity", number(17179869184)),
        ("ConfiguredClockSpeed", JsonScalar::Other),
        ("Speed", text("3200")),
        ("Manufacturer", text("Fixture Memory")),
        ("PartNumber", text("PART-1")),
        ("SerialNumber", text("SERIAL-1")),
    ])];

    let memory = collect_memory(&inv);
    assert_eq!(memory.len(), 1);
    assert_eq!(memory[0].size, "16.00 GiB");
    assert_eq!(memory[0].speed, "3200 MT/s");
    assert_eq!(memory[0].slot, "DIMM0");
}

#[test]
fn missing_memory_rows_give_a_system_entry_with_a_warning() {
    let memory = collect_memory(&empty_inventory());
    assert_eq!(memory.len(), 1);
    assert_eq!(memory[0].slot, "System");
    assert_eq!(memory[0].warnings[0].code, "memory-unavailable");
}

#[test]
fn combines_baseboard_and_bios_inventory() {
    let mut inv = empty_inventory();
    inv.base_board = Some(row(vec![
        ("Manufacturer", text("Fixture Board")),
        ("Product", text("Board 1")),
        ("Version", text("1.0")),
        ("SerialNumber", text("BOARD-SERIAL")),
    ]));
    inv.bios = Some(row(vec![
        ("Manufacturer", text("Fixture BIOS")),
        ("SMBIOSBIOSVersion", JsonScalar::Other),
        ("Version", text("2.0")),
    ]));

    let board = collect_motherboard(&inv).unwrap();
    assert_eq!(board.product, "Board 1");
    assert_eq!(board.serial, "BOARD-SERIAL");
    assert_eq!(board.bios_version, "2.0");
}

#[test]
fn falls_back_to_disk_drive_inventory() {
    let mut inv = empty_inventory();
    inv.disk_drives = vec![row(vec![
        ("DeviceID", text("PhysicalDrive0")),
        ("Model", text("Fixture HDD")),
        ("SerialNumber", text("DISK-SERIAL")),
        ("Size", number(500107862016)),
        ("MediaType", text("Fixed hard disk media")),
        ("InterfaceType", text("SATA")),
        ("FirmwareRevision", text("1.0")),
    ])];

    let disks = collect_disks(&inv);
    assert_eq!(disks.len(), 1);
    assert_eq!(disks[0].device, "PhysicalDrive0");
    assert_eq!(disks[0].model, "Fixture HDD");
    assert_eq!(disks[0].firmware, "1.0");
    assert_eq!(disks[0].source, "Win32_DiskDrive");
}

#[test]
fn first_known_skips_placeholders() {
    assert_eq!(first_known(&vec!["Unknown".to_string(), "B".to_string()]), "B");
    assert_eq!(first_known(&vec!["Unknown".to_string()]), "Unknown");
    assert_eq!(first_known(&Vec::new()), "Unknown");
}

#[test]
fn generic_manufacturer_is_unknown() {
    assert_eq!(clean_manufacturer("(Standard disk drives)"), "Unknown");
    assert_eq!(clean_manufacturer("  "), "Unknown");
    assert_eq!(clean_manufacturer(" Samsung "), "Samsung");
}

#[test]
fn storage_codes_are_named() {
    assert_eq!(physical_media_type(Some(4)), "SSD");
    assert_eq!(physical_media_type(None), "Unspecified");
    assert_eq!(physical_media_type(Some(9)), "MediaType(9)");
    assert_eq!(storage_bus_type(Some(17)), "NVMe");
    assert_eq!(storage_bus_type(Some(14)), "BusType(14)");
    assert_eq!(storage_bus_type(Some(0)), "Unknown");
    assert_eq!(health_status(Some(0)), "Healthy");
    assert_eq!(health_status(Some(5)), "Unknown");
    assert_eq!(health_status(Some(7)), "HealthStatus(7)");
    assert_eq!(format_bytes(2048), "2.00 KiB");
}

#[test]
fn drive_numbers_are_read_from_device_ids() {
    assert_eq!(parse_physical_index(" 3 "), Some(3));
    assert_eq!(parse_physical_index("\\\\.\\PHYSICALDRIVE12"), Some(12));
    assert_eq!(parse_physical_index("\\\\.\\physicaldrive7x"), Some(7));
    assert_eq!(parse_physical_index("PhysicalDrive"), None);
    assert_eq!(parse_physical_index("disk"), None);
}

fn storage_row() -> MsftPhysicalDisk {
    MsftPhysicalDisk {
        device_id: Some("1".to_string()),
        friendly_name: None,
        model: Some("  Fast SSD ".to_string()),
        serial_number: Some("SER1".to_string()),
        size: None,
        media_type: Some(4),
        bus_type: Some(17),
        firmware_version: None,
        health_status: Some(0),
    }
}

fn drive_row() -> Win32DiskDrive {
    Win32DiskDrive {
        device_id: Some("\\\\.\\PHYSICALDRIVE1".to_string()),
        index: None,
        model: Some("Fast SSD".to_string()),
        serial_number: Some("ser1".to_string()),
        size: Some(1024),
        media_type: Some("Fixed hard disk media".to_string()),
        interface_type: Some("SCSI".to_string()),
        firmware_revision: Some("FW2".to_string()),
    }
}

fn descriptor() -> StorageDescriptor {
    StorageDescriptor {
        index: 1,
        device: "PhysicalDrive1".to_string(),
        vendor: "Vendor".to_string(),
        product: "Product".to_string(),
        revision: "REV3".to_string(),
        serial: "DSER".to_string(),
        bus: "NVMe".to_string(),
        raw_size: 100,
    }
}

#[test]
fn storage_rows_are_merged_field_by_field() {
    let s = storage_row();
    let w = drive_row();
    let d = descriptor();
    let disk = disk_from_storage_row(&s, Some(&w), Some(&d));
    assert_eq!(disk.device, "1");
    assert_eq!(disk.model, "Fast SSD");
    assert_eq!(disk.serial, "SER1");
    assert_eq!(disk.size, "1.00 KiB");
    assert_eq!(disk.media_type, "SSD");
    assert_eq!(disk.bus, "NVMe");
    assert_eq!(disk.firmware, "FW2");
    assert_eq!(disk.health, "Healthy");
    assert_eq!(disk.source, "native-wmi/MSFT_PhysicalDisk + native-wmi/Win32_DiskDrive + DeviceIoControl/storage-descriptor");
}

#[test]
fn storage_rows_find_their_disk_drive_by_number_then_serial() {
    let drives = vec![drive_row()];
    assert_eq!(find_disk_drive_for_storage(&drives, &storage_row(), Some(1)), Some(0));
    let mut s = storage_row();
    s.device_id = None;
    assert_eq!(find_disk_drive_for_storage(&drives, &s, None), Some(0));
    s.serial_number = None;
    s.model = Some("other".to_string());
    assert_eq!(find_disk_drive_for_storage(&drives, &s, None), None);
}

#[test]
fn disk_drive_rows_name_their_drive() {
    let mut w = drive_row();
    w.device_id = None;
    w.index = Some(4);
    let disk = disk_from_disk_drive_row(&w, None);
    assert_eq!(disk.device, "PhysicalDrive4");
    assert_eq!(disk.bus, "SCSI");
    assert_eq!(disk.source, "native-wmi/Win32_DiskDrive");
}

#[test]
fn descriptor_indexes_are_unique_and_sorted() {
    let mut s = storage_row();
    s.device_id = Some("3".to_string());
    let indexes = descriptor_indexes(&vec![s, storage_row()], &vec![drive_row()]);
    assert_eq!(indexes, vec![1, 3]);
}

#[test]
fn joined_source_lists_present_parts() {
    assert_eq!(joined_source(&vec![Some("a"), None, Some("b")]), "a + b");
    assert_eq!(joined_source(&vec![None]), "Unknown");
}

#[test]
fn storage_query_falls_back_to_the_base_query() {
    let mut debug = Vec::new();
    let r = storage_rows_outcome(Err("no model".to_string()), Some(Ok(vec![storage_row()])), true, &mut debug);
    assert_eq!(r.unwrap().len(), 1);
    assert_eq!(debug.len(), 1);
    assert_eq!(debug[0].note_text().as_deref(), Some("Model query failed; used base query: no model"));
    let r = storage_rows_outcome(Err("a".to_string()), Some(Err("b".to_string())), false, &mut debug);
    assert_eq!(r.err().unwrap(), "full MSFT_PhysicalDisk query failed: a; base query failed: b");
}

#[test]
fn descriptor_buffers_are_read() {
    let mut buffer = vec![0u8; 64];
    buffer[4] = 64;
    buffer[16] = 40;
    buffer[28] = 17;
    buffer[40..46].copy_from_slice(b" My  D");
    buffer[46] = b'X';
    assert_eq!(read_u32(&buffer, 4), Some(64));
    assert_eq!(read_u32(&buffer, 62), None);
    assert_eq!(read_offset_string(&buffer, 40), "My DX");
    assert_eq!(read_offset_string(&buffer, 0), "Unknown");
    let d = descriptor_from_buffer(2, &buffer, 64).unwrap();
    assert_eq!(d.device, "PhysicalDrive2");
    assert_eq!(d.product, "My DX");
    assert_eq!(d.vendor, "Unknown");
    assert_eq!(d.bus, "NVMe");
    assert_eq!(d.raw_size, 64);
    assert_eq!(descriptor_from_buffer(2, &buffer, 10).err().unwrap(), "descriptor too short: 10 bytes returned");
}

#[test]
fn registry_enumeration_ids_become_disks() {
    let disk = disk_from_pnp_id(0, "SCSI\\Disk&Ven_Samsung&Prod_SSD_970&Rev_1B2Q\\4&2a1b&0&000000");
    assert_eq!(disk.device, "PhysicalDrive0");
    assert_eq!(disk.model, "Samsung SSD 970");
    assert_eq!(disk.firmware, "1B2Q");
    assert_eq!(disk.bus, "SCSI/SATA");
    assert_eq!(disk.serial, "4&2a1b&0&000000");
    let usb = disk_from_pnp_id(1, "USBSTOR\\Disk&Ven_&Prod_Stick\\X");
    assert_eq!(usb.bus, "USB");
    assert_eq!(usb.model, "Stick");
    let disks = physical_disks(&vec![Some(" NVME\\a\\b ".to_string()), None, Some("  ".to_string())]);
    assert_eq!(disks.len(), 1);
    assert_eq!(disks[0].bus, "NVME");
    let nvme = disk_from_pnp_id(2, "SCSI\\Disk&Ven_NVMe&Prod_X\\1");
    assert_eq!(nvme.bus, "NVMe");
}

#[test]
fn registry_cpu_needs_some_value() {
    assert!(cpu_info(&None, &None, None, Some(4)).is_none());
    let cpu = cpu_info(&Some(" Fixture ".to_string()), &None, Some(3600), Some(0)).unwrap();
    assert_eq!(cpu.model, "Fixture");
    assert_eq!(cpu.vendor, "Unknown");
    assert_eq!(cpu.frequency, "3600 MHz");
    assert_eq!(cpu.logical_threads, None);
}

#[test]
fn registry_board_prefers_base_board_values() {
    let values = BiosValues {
        base_board_manufacturer: None,
        system_manufacturer: Some("Maker".to_string()),
        base_board_product: Some("Board".to_string()),
        system_product_name: Some("System".to_string()),
        base_board_version: None,
        base_board_serial_number: None,
        bios_vendor: None,
        bios_version: None,
        bios_version_list: Some(vec![" A ".to_string(), "".to_string(), "B".to_string()]),
        system_bios_version: None,
    };
    let board = motherboard_info(&values).unwrap();
    assert_eq!(board.manufacturer, "Maker");
    assert_eq!(board.product, "Board");
    assert_eq!(board.bios_version, "A B");
    assert_eq!(board.version, "Unknown");
}

#[test]
fn wmi_inventory_rows_are_mapped() {
    let mut warnings = Vec::new();
    let memory = memory_from_query(
        &Ok(vec![Win32PhysicalMemory {
            bank_label: Some("BANK 0".to_string()),
            device_locator: None,
            capacity: Some(8 * 1024 * 1024 * 1024),
            speed: Some(3200),
            configured_clock_speed: None,
            manufacturer: None,
            part_number: None,
            serial_number: None,
        }]),
        &mut warnings,
    );
    assert_eq!(memory[0].slot, "BANK 0");
    assert_eq!(memory[0].size, "8.00 GiB");
    assert_eq!(memory[0].speed, "3200 MT/s");
    let cpu = cpu_from_query(&Err("denied".to_string()), &mut warnings);
    assert!(cpu.is_none());
    assert_eq!(warnings[0].code, "windows-native-wmi-cpu-unavailable");
    assert_eq!(warnings[0].message, "denied");
    let cpu = cpu_from_query(
        &Ok(vec![Win32Processor {
            name: Some("X".to_string()),
            manufacturer: None,
            number_of_cores: Some(4),
            number_of_logical_processors: None,
            max_clock_speed: None,
        }]),
        &mut warnings,
    )
    .unwrap();
    assert_eq!(cpu.physical_cores, Some(4));
    assert_eq!(cpu.frequency, "Unknown");
    let board = motherboard_from_queries(
        &Ok(Vec::<Win32BaseBoard>::new()),
        &Ok(vec![Win32Bios { manufacturer: Some("AMI".to_string()), smbios_bios_version: None, version: Some("1.2".to_string()) }]),
        &mut warnings,
    )
    .unwrap();
    assert_eq!(board.manufacturer, "Unknown");
    assert_eq!(board.bios_version, "1.2");
    assert!(native_report(Vec::new(), Vec::new(), None, None, Vec::new(), Vec::new()).is_err());
}

#[test]
fn fallbacks_add_their_warnings() {
    let report = auto_with_shell("boom", HardwareReport::default(), false);
    assert_eq!(report.warnings.len(), 2);
    assert_eq!(report.warnings[0].code, "windows-auto-shell-fallback");
    assert_eq!(report.warnings[0].message, "Native WMI backend failed: boom");
    assert_eq!(report.warnings[1].code, "not-administrator");
    let report = auto_with_basic("a", "b", HardwareReport::default(), true);
    assert_eq!(report.warnings.len(), 1);
    assert_eq!(report.warnings[0].message, "Native WMI backend failed: a; shell backend failed: b");
}

#[test]
fn benchmark_rows_count_what_was_found() {
    let row = benchmark_ok("auto", 12, &HardwareReport::default(), "note");
    assert!(row.ok);
    assert_eq!(row.disks, 0);
    let row = benchmark_err("shell", 3, "failed");
    assert!(!row.ok);
    assert_eq!(row.note, "failed");
}

#[test]
fn shell_output_is_read_into_rows() {
    let out = br#"{"PhysicalDisks":[{"FriendlyName":" Disk A ","Size":1024,"Healthy":true},"x"],
        "DiskDrives":null,"Memory":{"Capacity":"8"},"Cpu":null,"BaseBoard":[1,2]}"#;
    let inv = shell_inventory(&out.to_vec()).unwrap();
    assert_eq!(inv.physical_disks.len(), 2);
    let fields = &inv.physical_disks[0].fields;
    assert_eq!(fields.len(), 3);
    assert!(fields.iter().any(|(k, v)| k == "FriendlyName" && matches!(v, JsonScalar::Text(t) if t == " Disk A ")));
    assert!(fields.iter().any(|(k, v)| k == "Size" && matches!(v, JsonScalar::Number(t, Some(1024)) if t == "1024")));
    assert!(fields.iter().any(|(k, v)| k == "Healthy" && matches!(v, JsonScalar::Bool(true))));
    assert!(inv.physical_disks[1].fields.is_empty());
    assert!(inv.disk_drives.is_empty());
    assert_eq!(inv.memory.len(), 1);
    assert!(inv.cpu.as_ref().map(|r| r.fields.is_empty()).unwrap_or(false));
    assert!(inv.base_board.as_ref().map(|r| r.fields.is_empty()).unwrap_or(false));
    assert!(inv.bios.is_none());
    let report = shell_report(&inv);
    assert_eq!(report.physical_disks.len(), 2);
    assert_eq!(report.physical_disks[0].model, "Disk A");
    assert_eq!(report.physical_disks[0].size, "1.00 KiB");
    assert_eq!(report.memory[0].size, "8 B");
    assert_eq!(report.cpu.as_ref().unwrap().model, "Unknown");
}

#[test]
fn shell_output_that_is_not_json_is_an_error() {
    let err = shell_inventory(&b"not json".to_vec()).err().unwrap();
    assert!(err.starts_with("bad PowerShell JSON: "), "{err}");
    assert!(err.len() > "bad PowerShell JSON: ".len());
    let missing = shell_inventory(&b"{}".to_vec()).unwrap();
    assert!(missing.physical_disks.is_empty() && missing.cpu.is_none() && missing.base_board.is_none());
}

#[test]
fn descriptor_text_reads_ascii_trimmed_and_collapsed() {
    let b = b"\0\0\0\0  SAM  X\0Z".to_vec();
    assert_eq!(read_offset_string(&b, 4), "SAM X");
    assert_eq!(read_offset_string(&b, 0), "Unknown");
    assert_eq!(read_offset_string(&b, 14), "Unknown");
    assert_eq!(read_offset_string(&b"\0\0\0\0   \0".to_vec(), 4), "Unknown");
}
