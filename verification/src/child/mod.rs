//! The child daemon: it keeps instances, runs and supervises them.

pub mod api;
pub mod cli;
pub mod manager;
pub mod session;
pub mod storage;
pub mod supervise;
pub mod terminal;
pub mod transfer;
