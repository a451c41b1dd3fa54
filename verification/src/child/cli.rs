//! The daemon's commands. Its prompts take answers as the server's do.
use vstd::prelude::*;

pub use crate::server::cli::{gather_value_routine, Answer};

verus! {

/// What the daemon is called with.
#[derive(Debug, PartialEq, Eq)]
pub struct Cli {
    pub config_file: String,
    pub command: Option<Commands>,
}

#[derive(Debug, PartialEq, Eq)]
pub enum Commands {
    /// Run, with `bootstrap` in the background.
    Start { bootstrap: bool },
    /// Set a daemon up.
    Init,
}

} // verus!
