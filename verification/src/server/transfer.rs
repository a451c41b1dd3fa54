//! File transfers, on the server's side.
use vstd::prelude::*;

use crate::jail::Way;
use crate::path::Platform;
use crate::protocol::api::{ApiError, DirEntry, ErrorCode};
use crate::protocol::api;
use crate::server::storage::ServerStg;
use crate::{chance, jail, listing, order, path, text};

pub use crate::payload::{
    announced_length, archive_name, check_received, entry_name, length_prefix, part_path,
};

verus! {

/// Where an archive is kept while it is packed or unpacked.
pub fn tmp_archive_path(temp_dir: &str, platform: Platform) -> (r: String)
    ensures
        exists|drawn: u128|
            #[trigger] chance::drawn(drawn) && r@ == archive_path(
                temp_dir@,
                (drawn % 0x1_0000_0000_0000_0000) as u64,
                platform,
            ),
{
    let drawn: u128 = chance::number();
    let number: u64 = (drawn % 0x1_0000_0000_0000_0000) as u64;
    let r: String = path::join(temp_dir, &archive_name(number), platform);
    assert(r@ == archive_path(temp_dir@, number, platform));
    r
}

pub open spec fn archive_path(temp_dir: Seq<char>, number: u64, platform: Platform) -> Seq<char> {
    path::joined(
        temp_dir,
        "chld-transfer-"@ + text::hex(number as nat, 16) + ".tar.gz"@,
        platform,
    )
}

/// Whether `r` answers a request, where paths are made absolute in this way.
pub open spec fn resolved(
    way: Way,
    stg: ServerStg,
    requested: Seq<char>,
    platform: Platform,
    r: Result<String, ApiError>,
) -> bool {
    jail::resolved(
        way,
        stg.storage_path@,
        stg.file_roots@,
        path::joined(stg.storage_path@, "instances"@, platform),
        requested,
        platform,
        r,
    )
}

/// Finds the file that a request is for, among those that transfers may touch.
/// `absolute` makes a path absolute, or says why it cannot.
pub fn resolve_path_by<F: Fn(&str) -> Result<String, String>>(
    absolute: F,
    stg: &ServerStg,
    requested: &str,
    platform: Platform,
) -> (r: Result<String, ApiError>)
    requires
        forall|p: &str| absolute.requires((p,)),
    ensures
        resolved(jail::way_of(absolute), *stg, requested@, platform, r),
        path::climbs(requested@, platform) ==> (r matches Err(e) && e@
            == jail::climbing_refusal()),
        r matches Err(e) ==> e.code == ErrorCode::AccessDenied,
{
    let instances: String = stg.instances_dir(platform);
    jail::resolve_by(
        absolute,
        &stg.storage_path,
        &stg.file_roots,
        &instances,
        requested,
        platform,
    )
}

/// Finds the file that a request is for, among those that transfers may touch, with
/// paths made absolute as the system does it.
pub fn resolve_path(stg: &ServerStg, requested: &str, platform: Platform) -> (r: Result<
    String,
    ApiError,
>)
    ensures
        resolved(jail::system_way(), *stg, requested@, platform, r),
        path::climbs(requested@, platform) ==> (r matches Err(e) && e@
            == jail::climbing_refusal()),
        r matches Err(e) ==> e.code == ErrorCode::AccessDenied,
{
    let instances: String = stg.instances_dir(platform);
    jail::resolve(&stg.storage_path, &stg.file_roots, &instances, requested, platform)
}

/// What reading a directory came to.
#[derive(Debug)]
pub enum DirRead {
    /// It could not be opened.
    Closed(String),
    /// Its entries could not be read to the end.
    Broken(String),
    /// Its entries, without those of which nothing could be learned.
    Entries(Vec<DirEntry>),
}

/// The answer to a listing: directories first, then by name, without regard to case.
pub fn list_dir(path: &str, read: DirRead) -> (r: Result<Vec<DirEntry>, ApiError>)
    ensures
        match read {
            DirRead::Closed(why) => r matches Err(e) && e@ == (api::Refusal {
                code: ErrorCode::NotFound,
                msg: "cannot list '"@ + path@ + "': "@ + why@,
            }),
            DirRead::Broken(why) => r matches Err(e) && e@ == (api::Refusal {
                code: ErrorCode::Internal,
                msg: "reading '"@ + path@ + "': "@ + why@,
            }),
            DirRead::Entries(entries) => r matches Ok(sorted) && sorted@ == order::sorted(
                entries@,
            ),
        },
{
    match read {
        DirRead::Closed(why) => Err(
            ApiError {
                code: ErrorCode::NotFound,
                msg: text::cat4("cannot list '", path, "': ", &why),
            },
        ),
        DirRead::Broken(why) => Err(
            ApiError {
                code: ErrorCode::Internal,
                msg: text::cat4("reading '", path, "': ", &why),
            },
        ),
        DirRead::Entries(entries) => Ok(listing::sort_entries(entries)),
    }
}

/// Archives wait under names of their own in the temporary directory: the number tells them
/// apart.
pub proof fn archives_wait_in_the_temporary_directory(
    temp_dir: Seq<char>,
    number: u64,
    platform: Platform,
)
    requires
        platform != Platform::Windows,
        temp_dir.len() > 0,
        temp_dir.last() != '/',
    ensures
        archive_path(temp_dir, number, platform) == temp_dir.push('/') + "chld-transfer-"@
            + text::hex(number as nat, 16) + ".tar.gz"@,
{
    reveal_strlit("chld-transfer-");
    let name = "chld-transfer-"@ + text::hex(number as nat, 16) + ".tar.gz"@;
    assert(name[0] == 'c');
    assert(temp_dir.push('/') + name =~= temp_dir.push('/') + "chld-transfer-"@ + text::hex(
        number as nat,
        16,
    ) + ".tar.gz"@);
}

} // verus!
