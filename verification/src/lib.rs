//! Enumeration engines for inspecting a live system: a process snapshot
//! walker and a scanner for the regions of one process's address space.
//!
//! The library performs no system calls. Every function takes what the
//! operating system answered as plain values and decides what follows from
//! it, so each decision carries a contract that Verus proves.

pub mod bulk;
pub mod error;
pub mod handle;
pub mod memory;
pub mod process;
pub mod system;
pub mod utils;
