//! The server: it answers signed calls and carries sessions.

pub mod api;
pub mod cli;
pub mod gitops;
pub mod session_handler;
pub mod setup;
pub mod sourceops;
pub mod storage;
pub mod terminal;
pub mod transfer;
pub mod unpack;
