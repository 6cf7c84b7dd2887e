//! Per-process access control for credential files.
pub mod cli;
pub mod config;
pub mod control;
pub mod es;
pub mod fuse_fs;
pub mod logging;
pub mod path;
pub mod policy;
pub mod process;
pub mod prompt;
pub mod text;
pub mod time;
pub mod toml_doc;
