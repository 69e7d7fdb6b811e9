//! A local permission broker: a hook process forwards tool-permission
//! requests over a local socket to a daemon, which relays them to a chat
//! service and returns the human decision.
//!
//! This crate holds the verified core: the data model, the wire framing,
//! the pending-request table with its take-once discipline, the decision
//! router, and the text formatting rules. I/O and the chat transport live
//! outside the library.

pub mod callback;
pub mod codec;
pub mod config;
pub mod error;
pub mod formatter;
pub mod guard;
pub mod hook;
pub mod install;
pub mod json;
pub mod keyboard;
pub mod models;
pub mod pending;
pub mod request_id;
pub mod router;
pub mod server;
pub mod text;
