//! Host-side core of a desktop shell: the directory lister, the system
//! information probe, the workspace bootstrapper, the framing of a helper
//! process's output into lines and events, and the shell's life cycle.
//!
//! Everything here works on plain values. The surrounding program opens
//! directories, spawns the helper and owns the window; it hands this crate
//! what it observed and carries out what this crate decides.

pub mod host;
pub mod lines;
pub mod listing;
pub mod shell;
pub mod supervisor;
pub mod system_info;
pub mod workspace;
