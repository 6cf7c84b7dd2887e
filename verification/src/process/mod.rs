//! Who is calling: the identity of a process from what the system reports.
pub mod identify;
pub mod linux;
pub mod macos;
