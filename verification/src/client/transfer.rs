//! The client's side of a transfer: an archive that is packed, streamed behind
//! its length, and unpacked.
use vstd::prelude::*;

use crate::{bytes, text};

pub use crate::payload::{archive_name, entry_name};

verus! {

/// The most that is read or written at once.
pub const CHUNK: usize = 65536;

/// How far a download is.
#[derive(Clone, Copy, Debug, PartialEq, Eq, Structural)]
pub struct Download {
    pub done: u64,
    pub total: u64,
}

impl Download {
    pub open spec fn wf(self) -> bool {
        self.done <= self.total
    }

    /// A download of the length that the first eight bytes announce.
    pub fn announced(prefix: &[u8]) -> (r: Download)
        requires
            prefix@.len() == 8,
        ensures
            r.wf(),
            r.done == 0,
            r.total == bytes::from_be64(prefix@),
    {
        Download { done: 0, total: bytes::read_be64(prefix) }
    }

    /// How much to read next; nothing once everything is here. Never more than
    /// what is left, so that what follows is left alone.
    pub fn want(&self) -> (r: usize)
        requires
            self.wf(),
        ensures
            r == (if self.total - self.done < CHUNK {
                self.total - self.done
            } else {
                CHUNK as int
            }),
            r == 0 <==> self.done == self.total,
    {
        let left: u64 = self.total - self.done;
        if left < CHUNK as u64 {
            left as usize
        } else {
            CHUNK
        }
    }

    /// Takes in that so many bytes came. None at all means that the connection
    /// was closed.
    pub fn took(&mut self, n: usize) -> (r: Result<(), String>)
        requires
            old(self).wf(),
            n <= old(self).total - old(self).done,
        ensures
            final(self).wf(),
            final(self).total == old(self).total,
            final(self).done == old(self).done + n,
            n > 0 ==> r is Ok,
            n == 0 ==> (r matches Err(e) && e@ == "connection closed after "@ + text::decimal(
                old(self).done as nat,
            ) + " of "@ + text::decimal(old(self).total as nat) + " bytes"@),
    {
        if n == 0 {
            return Err(
                text::cat5(
                    "connection closed after ",
                    &text::decimal_of(self.done as u128),
                    " of ",
                    &text::decimal_of(self.total as u128),
                    " bytes",
                ),
            );
        }
        self.done = self.done + n as u64;
        Ok(())
    }
}

} // verus!
