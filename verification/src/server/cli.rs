//! The server's commands, and its prompts.
use vstd::prelude::*;

verus! {

/// What the server is called with.
#[derive(Debug, PartialEq, Eq)]
pub struct Cli {
    pub config_file: String,
    pub command: Option<Commands>,
}

#[derive(Debug, PartialEq, Eq)]
pub enum Commands {
    /// Run. With `bootstrap` the handover is allowed for this run.
    Start { bootstrap: bool },
    /// Set a server up.
    Init,
    /// Exchange the shared key.
    Keygen { phrase: Option<String>, key: Option<String> },
    /// Forget all instances.
    PurgeInstances,
    /// End the process that runs with this configuration.
    StopRunaway,
}

/// What becomes of an answer to a prompt.
#[derive(Debug, PartialEq, Eq)]
pub enum Answer<T> {
    Take(T),
    AskAgain,
}

/// What becomes of an answer to a prompt: an empty one stands for the default where
/// there is one, any other for what it reads as, and one that reads as nothing is
/// asked for again.
pub fn gather_value_routine<T>(input: &str, parsed: Option<T>, default: Option<T>) -> (r: Answer<T>)
    ensures
        r == (if input@.len() == 0 && default is Some {
            Answer::Take(default->0)
        } else {
            match parsed {
                Some(value) => Answer::Take(value),
                None => Answer::AskAgain,
            }
        }),
{
    if input.is_empty() {
        if let Some(default) = default {
            return Answer::Take(default);
        }
    }
    match parsed {
        Some(value) => Answer::Take(value),
        None => Answer::AskAgain,
    }
}

} // verus!
