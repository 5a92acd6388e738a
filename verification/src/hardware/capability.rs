//! What the `doctor` command reports about the environment.

use vstd::prelude::*;

verus! {

/// The platform, privilege level and helper tools that collectors can use.
#[derive(Debug)]
pub struct CapabilityReport {
    pub platform: String,
    pub arch: String,
    pub elevated: bool,
    pub tools: Vec<ToolStatus>,
    pub notes: Vec<String>,
}

/// Whether one helper tool is installed, and what it is used for.
#[derive(Debug)]
pub struct ToolStatus {
    pub name: String,
    pub available: bool,
    pub path: Option<String>,
    pub purpose: String,
}

} // verus!
