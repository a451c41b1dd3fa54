//! A small remote supervisor: a signed wire protocol, the process that runs
//! instances, and the terminal client that watches them.
//!
//! Everything here computes on plain values. Sockets, files, processes and the
//! screen belong to the programs that are built on top of it.

pub mod assoc;
pub mod bytes;
pub mod chance;
pub mod child;
pub mod client;
pub mod jail;
pub mod listing;
pub mod order;
pub mod path;
pub mod payload;
pub mod protocol;
pub mod sampling;
pub mod server;
pub mod text;
pub mod walks;
