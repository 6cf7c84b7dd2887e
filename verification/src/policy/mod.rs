//! Who may access what: rules, session grants and their evaluation.
pub mod access;
pub mod engine;
pub mod rule;
pub mod session;
