//! The names of the numeric codes that Windows storage classes report.

use vstd::prelude::*;

use crate::hardware::unknown_text;
use crate::text::{decimal, decimal_string};

verus! {

/// `name(code)`, the form in which an unnamed code is shown.
pub open spec fn code_text(name: Seq<char>, code: nat) -> Seq<char> {
    name + "("@ + decimal(code) + ")"@
}

/// Writes `name(code)`.
pub fn code_string(name: &str, code: u32) -> (r: String)
    ensures
        r@ == code_text(name@, code as nat),
{
    let mut r = String::from_str(name);
    r.append("(");
    r.append(decimal_string(code as u128).as_str());
    r.append(")");
    r
}

/// The media type of an `MSFT_PhysicalDisk` row.
pub open spec fn media_type_text(value: Option<u16>) -> Seq<char> {
    match value {
        Some(3) => "HDD"@,
        Some(4) => "SSD"@,
        Some(5) => "SCM"@,
        Some(0) | None => "Unspecified"@,
        Some(v) => code_text("MediaType"@, v as nat),
    }
}

/// The media type of an `MSFT_PhysicalDisk` row.
pub fn physical_media_type(value: Option<u16>) -> (r: String)
    ensures
        r@ == media_type_text(value),
{
    match value {
        Some(3) => String::from_str("HDD"),
        Some(4) => String::from_str("SSD"),
        Some(5) => String::from_str("SCM"),
        Some(0) | None => String::from_str("Unspecified"),
        Some(v) => code_string("MediaType", v as u32),
    }
}

/// The name of a named storage bus code (the codes both Windows sources share).
pub open spec fn bus_name(code: nat) -> Option<Seq<char>> {
    if code == 1 {
        Some("SCSI"@)
    } else if code == 2 {
        Some("ATAPI"@)
    } else if code == 3 {
        Some("ATA"@)
    } else if code == 4 {
        Some("IEEE 1394"@)
    } else if code == 5 {
        Some("SSA"@)
    } else if code == 6 {
        Some("Fibre Channel"@)
    } else if code == 7 {
        Some("USB"@)
    } else if code == 8 {
        Some("RAID"@)
    } else if code == 9 {
        Some("iSCSI"@)
    } else if code == 10 {
        Some("SAS"@)
    } else if code == 11 {
        Some("SATA"@)
    } else if code == 12 {
        Some("SD"@)
    } else if code == 13 {
        Some("MMC"@)
    } else if code == 15 {
        Some("FileBackedVirtual"@)
    } else if code == 16 {
        Some("Storage Spaces"@)
    } else if code == 17 {
        Some("NVMe"@)
    } else if code == 18 {
        Some("SCM"@)
    } else if code == 19 {
        Some("UFS"@)
    } else {
        None
    }
}

/// The name of a named storage bus code.
pub fn bus_name_of(code: u32) -> (r: Option<&'static str>)
    ensures
        match r {
            Some(s) => bus_name(code as nat) == Some(s@),
            None => bus_name(code as nat) is None,
        },
{
    match code {
        1 => Some("SCSI"),
        2 => Some("ATAPI"),
        3 => Some("ATA"),
        4 => Some("IEEE 1394"),
        5 => Some("SSA"),
        6 => Some("Fibre Channel"),
        7 => Some("USB"),
        8 => Some("RAID"),
        9 => Some("iSCSI"),
        10 => Some("SAS"),
        11 => Some("SATA"),
        12 => Some("SD"),
        13 => Some("MMC"),
        15 => Some("FileBackedVirtual"),
        16 => Some("Storage Spaces"),
        17 => Some("NVMe"),
        18 => Some("SCM"),
        19 => Some("UFS"),
        _ => None,
    }
}

/// The bus type of an `MSFT_PhysicalDisk` row.
pub open spec fn bus_type_text(value: Option<u16>) -> Seq<char> {
    match value {
        Some(0) | None => unknown_text(),
        Some(v) => match bus_name(v as nat) {
            Some(name) => name,
            None => code_text("BusType"@, v as nat),
        },
    }
}

/// The bus type of an `MSFT_PhysicalDisk` row.
pub fn storage_bus_type(value: Option<u16>) -> (r: String)
    ensures
        r@ == bus_type_text(value),
{
    match value {
        Some(0) | None => crate::hardware::unknown(),
        Some(v) => match bus_name_of(v as u32) {
            Some(name) => String::from_str(name),
            None => code_string("BusType", v as u32),
        },
    }
}

/// The health status of an `MSFT_PhysicalDisk` row.
pub open spec fn health_text(value: Option<u16>) -> Seq<char> {
    match value {
        Some(0) => "Healthy"@,
        Some(1) => "Warning"@,
        Some(2) => "Unhealthy"@,
        Some(5) | None => unknown_text(),
        Some(v) => code_text("HealthStatus"@, v as nat),
    }
}

/// The health status of an `MSFT_PhysicalDisk` row.
pub fn health_status(value: Option<u16>) -> (r: String)
    ensures
        r@ == health_text(value),
{
    match value {
        Some(0) => String::from_str("Healthy"),
        Some(1) => String::from_str("Warning"),
        Some(2) => String::from_str("Unhealthy"),
        Some(5) | None => crate::hardware::unknown(),
        Some(v) => code_string("HealthStatus", v as u32),
    }
}

/// Each named health code reads differently: only code 0 is "Healthy",
/// only code 1 is "Warning" and only code 2 is "Unhealthy".
pub proof fn lemma_health_names(v: Option<u16>)
    ensures
        health_status_text_is(v, "Healthy"@) <==> v == Some(0u16),
        health_status_text_is(v, "Warning"@) <==> v == Some(1u16),
        health_status_text_is(v, "Unhealthy"@) <==> v == Some(2u16),
{
    reveal_strlit("Healthy");
    reveal_strlit("Warning");
    reveal_strlit("Unhealthy");
    reveal_strlit("Unknown");
    reveal_strlit("HealthStatus");
    reveal_strlit("(");
    reveal_strlit(")");
    match v {
        Some(x) => {
            if x != 0 && x != 1 && x != 2 && x != 5 {
                let t = code_text("HealthStatus"@, x as nat);
                assert(t.len() > 9);
            }
        },
        None => {},
    }
    assert("Healthy"@ != "Warning"@) by {
        assert("Healthy"@[0] != "Warning"@[0]);
    }
    assert("Healthy"@ != "Unknown"@) by {
        assert("Healthy"@[0] != "Unknown"@[0]);
    }
    assert("Warning"@ != "Unknown"@) by {
        assert("Warning"@[0] != "Unknown"@[0]);
    }
    assert("Unhealthy"@.len() != "Healthy"@.len());
    assert("Unhealthy"@.len() != "Warning"@.len());
    assert("Unhealthy"@.len() != "Unknown"@.len());
}

/// Whether the health text of `v` is `t`.
pub open spec fn health_status_text_is(v: Option<u16>, t: Seq<char>) -> bool {
    health_text(v) == t
}

} // verus!
