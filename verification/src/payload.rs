//! What travels in a transfer: a payload behind its length.
use vstd::prelude::*;

use crate::path::Platform;
use crate::{bytes, path, text};

verus! {

/// The name of a temporary archive.
pub fn archive_name(number: u64) -> (r: String)
    ensures
        r@ == "chld-transfer-"@ + text::hex(number as nat, 16) + ".tar.gz"@,
{
    text::cat3("chld-transfer-", &text::hex_of(number as u128, 16), ".tar.gz")
}

/// The name under which a path goes into an archive: its last component, so that
/// unpacking puts it right into the destination.
pub fn entry_name(source: &str, platform: Platform) -> (r: Result<String, String>)
    ensures
        match path::name_of(source@, platform) {
            Some(name) => r matches Ok(n) && n@ == name,
            None => r matches Err(e) && e@ == "'"@ + source@ + "' has no file name"@,
        },
{
    match path::file_name(source, platform) {
        Some(name) => Ok(name),
        None => Err(text::cat3("'", source, "' has no file name")),
    }
}

/// The eight bytes that announce a payload of this length.
pub fn length_prefix(len: u64) -> (r: Vec<u8>)
    ensures
        r@ == bytes::be64(len),
{
    let mut out: Vec<u8> = Vec::new();
    bytes::push_be64(&mut out, len);
    assert(out@ =~= bytes::be64(len));
    out
}

/// The length that eight bytes announce.
pub fn announced_length(prefix: &[u8]) -> (r: u64)
    requires
        prefix@.len() == 8,
    ensures
        r == bytes::from_be64(prefix@),
{
    bytes::read_be64(prefix)
}

/// Whether everything that was announced has come.
pub fn check_received(copied: u64, len: u64) -> (r: Result<(), String>)
    ensures
        copied == len ==> r is Ok,
        copied != len ==> (r matches Err(e) && e@ == "connection closed after "@ + text::decimal(
            copied as nat,
        ) + " of "@ + text::decimal(len as nat) + " bytes"@),
{
    if copied != len {
        return Err(
            text::cat5(
                "connection closed after ",
                &text::decimal_of(copied as u128),
                " of ",
                &text::decimal_of(len as u128),
                " bytes",
            ),
        );
    }
    Ok(())
}

/// Where a file is written before it takes its place, so that an interrupted
/// transfer leaves nothing half-written there: never at that place itself.
pub fn part_path(target: &str, platform: Platform) -> (r: String)
    ensures
        r@ == path::beside(target@, "part"@, platform),
        r@ != target@,
{
    path::place_beside(target, "part", platform)
}

/// What becomes of a received file.
#[derive(Clone, Copy, Debug, PartialEq, Eq, Structural)]
pub enum Fate {
    /// It takes its place.
    Place,
    /// It takes the place of the file that is there.
    Replace,
    /// It is thrown away.
    Discard,
}

/// A file takes its place only where all of it has come and was written.
pub open spec fn fate(copied: Option<u64>, len: u64, flushed: bool, exists: bool) -> Fate {
    if copied != Some(len) || !flushed {
        Fate::Discard
    } else if exists {
        Fate::Replace
    } else {
        Fate::Place
    }
}

/// What becomes of a file of which `copied` bytes came, none where the connection
/// broke. `exists` says whether its place is taken.
pub fn settle(copied: Option<u64>, len: u64, flushed: bool, exists: bool) -> (r: Fate)
    ensures
        r == fate(copied, len, flushed, exists),
{
    let complete: bool = match copied {
        Some(n) => n == len && flushed,
        None => false,
    };
    if !complete {
        Fate::Discard
    } else if exists {
        Fate::Replace
    } else {
        Fate::Place
    }
}

/// The eight bytes that announce a length, and reading them, undo each other.
pub proof fn lengths_round_trip(n: u64)
    ensures
        bytes::be64(n).len() == 8,
        bytes::from_be64(bytes::be64(n)) == n,
{
    bytes::be64_round_trips(n);
}

/// A file that was cut short never takes its place.
pub proof fn cut_files_are_discarded(copied: Option<u64>, len: u64, flushed: bool, exists: bool)
    requires
        copied is None || copied->0 < len,
    ensures
        fate(copied, len, flushed, exists) == Fate::Discard,
{
}

/// A file takes its place exactly where all of it came and was written: a new place where
/// there was none, and the place of what is there otherwise.
pub proof fn whole_files_take_their_place(
    copied: Option<u64>,
    len: u64,
    flushed: bool,
    exists: bool,
)
    ensures
        copied == Some(len) && flushed && exists ==> fate(copied, len, flushed, exists)
            == Fate::Replace,
        copied == Some(len) && flushed && !exists ==> fate(copied, len, flushed, exists)
            == Fate::Place,
        copied != Some(len) || !flushed ==> fate(copied, len, flushed, exists) == Fate::Discard,
{
}

} // verus!
