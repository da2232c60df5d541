//! A PIN-entry responder for the Assuan pinentry line protocol.

pub mod command;
pub mod entry;
pub mod handoff;
pub mod request;
pub mod session;
pub mod state;
pub mod text;
