//! The server's own configuration.
use vstd::prelude::*;

use crate::path::Platform;
use crate::path;
use crate::protocol::auth::KEY_LEN;

verus! {

/// What the server is set up with. Paths and the address are texts.
#[derive(Debug, PartialEq, Eq)]
pub struct ServerStg {
    pub addr: String,
    pub config_path: String,
    pub storage_path: String,
    /// Directories, besides the one of the instances, that file transfers may touch.
    pub file_roots: Vec<String>,
    /// For how many seconds a session offer can be taken up.
    pub session_ttl_secs: u64,
    /// What a shell session runs.
    pub shell: String,
    /// The key that is shared with the clients.
    pub key: Vec<u8>,
    /// Whether the server may hand over to a fresh process of itself.
    pub bootstrap: bool,
}

impl ServerStg {
    /// The directory of all instances.
    pub fn instances_dir(&self, platform: Platform) -> (r: String)
        ensures
            r@ == path::joined(self.storage_path@, "instances"@, platform),
    {
        path::join(&self.storage_path, "instances", platform)
    }

    /// Whether there is a key to answer calls with.
    pub fn has_key(&self) -> (r: bool)
        ensures
            r == (self.key@.len() == KEY_LEN),
    {
        self.key.len() == KEY_LEN
    }

    /// The flag of a single run grants what the configuration withholds.
    pub fn for_this_run(self, bootstrap: bool) -> (r: ServerStg)
        ensures
            r == (ServerStg { bootstrap: self.bootstrap || bootstrap, ..self }),
    {
        let mut stg = self;
        if bootstrap {
            stg.bootstrap = true;
        }
        stg
    }
}

} // verus!
