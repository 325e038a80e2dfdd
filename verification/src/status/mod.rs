//! System status: memory, disk and network figures read from `/proc` and
//! the text they are shown as.

pub mod model;
pub mod proc;

pub use model::{CPUSample, DiskStat, MemStats, NetRate, NetStat};
