pub mod collector;
pub mod emoji;
pub mod hardware;
pub mod i18n;
pub mod options;
pub mod privilege;
pub mod render;
pub mod size;
pub mod telemetry;
pub mod text;
pub mod tui;
