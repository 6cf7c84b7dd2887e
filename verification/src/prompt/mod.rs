//! Asking the user, through the session agent.
pub mod client;
pub mod protocol;
pub mod types;
