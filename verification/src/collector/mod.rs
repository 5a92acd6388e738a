//! Collector results that do not depend on the platform.

use vstd::prelude::*;

pub mod windows;

verus! {

/// How long each backend took, and what it found.
#[derive(Debug)]
pub struct BenchmarkReport {
    pub platform: String,
    pub arch: String,
    pub rows: Vec<BenchmarkRow>,
}

/// One backend's run.
#[derive(Debug)]
pub struct BenchmarkRow {
    pub backend: String,
    pub ok: bool,
    pub elapsed_ms: u128,
    pub disks: usize,
    pub memory: usize,
    pub warnings: usize,
    pub note: String,
}

} // verus!
