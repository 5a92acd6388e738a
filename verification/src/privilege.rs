//! Whether hdrt runs with the privileges that expose every hardware field.

use vstd::prelude::*;

use crate::collector::windows::native_wmi::{eq_ignore_case, same_ignoring_case};
use crate::text::{trim, trimmed};

verus! {

/// What the program learned about its privileges: the effective user id on
/// Unix, what the PowerShell administrator check printed on Windows (absent
/// when it could not run or printed no UTF-8), or nothing elsewhere.
pub enum ElevationProbe {
    Uid(u32),
    PowerShell(Option<String>),
    Unsupported,
}

/// Whether the probe shows elevated privileges: user id 0 on Unix, a
/// printed `true` (any letter case, surrounding white space ignored) on
/// Windows, and never elsewhere.
pub open spec fn elevated(probe: ElevationProbe) -> bool {
    match probe {
        ElevationProbe::Uid(u) => u == 0,
        ElevationProbe::PowerShell(Some(out)) => same_ignoring_case(trim(out@), "true"@),
        ElevationProbe::PowerShell(None) => false,
        ElevationProbe::Unsupported => false,
    }
}

/// Whether the probe shows elevated privileges.
pub fn is_elevated(probe: &ElevationProbe) -> (r: bool)
    ensures
        r == elevated(*probe),
{
    match probe {
        ElevationProbe::Uid(u) => *u == 0,
        ElevationProbe::PowerShell(Some(out)) => {
            let t = trimmed(out.as_str());
            eq_ignore_case(t.as_str(), "true")
        },
        ElevationProbe::PowerShell(None) => false,
        ElevationProbe::Unsupported => false,
    }
}

/// How to rerun with more privileges, on Windows or elsewhere.
pub open spec fn hint_text(windows: bool) -> Seq<char> {
    if windows {
        "Run hdrt from Administrator PowerShell for more complete hardware fields."@
    } else {
        "Run sudo hdrt for more complete hardware fields."@
    }
}

/// How to rerun with more privileges, on Windows or elsewhere.
pub fn elevated_hint(windows: bool) -> (r: &'static str)
    ensures
        r@ == hint_text(windows),
{
    if windows {
        "Run hdrt from Administrator PowerShell for more complete hardware fields."
    } else {
        "Run sudo hdrt for more complete hardware fields."
    }
}

} // verus!
