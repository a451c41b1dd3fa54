//! Side-channel session requests, carried next to the unary calls.
//!
//! The connection authenticates the client by itself, so a `Session` carries no
//! tag of its own. Once accepted, the server answers with a `SessionStart` or an
//! `ApiError`, the session's bytes flow, and the call's reply ends it.
use vstd::prelude::*;

verus! {

/// What a session is for. Paths are texts, as they travel.
#[derive(Debug, PartialEq, Eq)]
pub enum Session {
    /// Bridge to a running instance's input and output.
    Attach(u128),
    /// A fresh shell in the instance's directory, sized `cols` by `rows`.
    Shell { id: u128, cols: u16, rows: u16 },
    /// Push a single file to `dest`.
    UploadFile { dest: String },
    /// Pull a single file from `src`.
    DownloadFile { src: String },
    /// Push a packed archive and unpack it into `dest`.
    UploadArchive { dest: String },
    /// Pack `paths` on the server and stream the archive back.
    DownloadArchive { paths: Vec<String> },
    /// Push an archive as the content of an instance fed by uploads.
    UploadSource { id: u128 },
}

/// What the client needs before the session's bytes flow.
#[derive(Debug, PartialEq, Eq)]
pub struct SessionStart {
    /// A download's total length, where it is known up front.
    pub size: Option<u64>,
}

} // verus!
