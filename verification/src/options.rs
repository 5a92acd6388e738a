//! Command-line choices that the library's functions take.

use vstd::prelude::*;

verus! {

/// The output format of a report.
#[derive(Debug, Clone, Copy, PartialEq, Eq, Structural)]
pub enum RenderFormat {
    Table,
    Json,
    Markdown,
}

/// The border style of CLI tables.
#[derive(Debug, Clone, Copy, PartialEq, Eq, Structural)]
pub enum TableStyle {
    Rounded,
    Modern,
    Sharp,
    Psql,
    Ascii,
    Blank,
}

/// The border of the live view's panels.
#[derive(Debug, Clone, Copy, PartialEq, Eq, Structural)]
pub enum TuiBorder {
    Rounded,
    Plain,
    Double,
    Thick,
}

/// How the live view draws its history panels.
#[derive(Debug, Clone, Copy, PartialEq, Eq, Structural)]
pub enum ChartMode {
    Gauge,
    Bar,
    Sparkline,
    Line,
    Scatter,
}

/// The tab the live view opens on.
#[derive(Debug, Clone, Copy, PartialEq, Eq, Structural)]
pub enum TuiTab {
    Overview,
    PhysicalDisk,
    LogicalDisk,
    Memory,
    Cpu,
    Motherboard,
    Warnings,
}

/// Which collectors may run.
#[derive(Debug, Clone, Copy, PartialEq, Eq, Structural)]
pub enum Backend {
    Auto,
    Native,
    Shell,
}

/// How much detail disk collectors ask for.
#[derive(Debug, Clone, Copy, PartialEq, Eq, Structural)]
pub enum Detail {
    Basic,
    Smart,
    Full,
}

/// The options every collector receives.
#[derive(Debug, Clone, Copy, PartialEq, Eq, Structural)]
pub struct CollectOptions {
    pub backend: Backend,
    pub detail: Detail,
    pub debug: bool,
}

} // verus!
