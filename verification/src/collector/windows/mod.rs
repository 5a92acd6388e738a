//! The Windows collectors: the decisions and mappings they make on what the
//! system returned. Querying the system itself is left to the program.

pub mod util;
pub mod values;
pub mod native_storage;
pub mod registry;
pub mod rows;
pub mod native_wmi;
pub mod inventory;
pub mod backend;
pub mod basic;
pub mod shell;
