//! The guarded files as FUSE file systems.
pub mod credential_fs;
pub mod fuse_interceptor;
