//! File transfers, on the daemon's side.
use vstd::prelude::*;

use crate::child::storage;
use crate::child::storage::ChildStg;
use crate::jail::Way;
use crate::path::Platform;
use crate::protocol::api::{ApiError, ErrorCode};
use crate::{jail, path};

pub use crate::payload::{announced_length, length_prefix, part_path, settle, Fate};

verus! {

/// Whether `r` answers a request, where paths are made absolute in this way.
pub open spec fn resolved(
    way: Way,
    stg: ChildStg,
    requested: Seq<char>,
    platform: Platform,
    r: Result<String, ApiError>,
) -> bool {
    jail::resolved(
        way,
        stg.storage_path@,
        stg.file_roots@,
        storage::instances_in(stg.storage_path@, platform),
        requested,
        platform,
        r,
    )
}

/// Finds the file that a request is for, among those that transfers may touch.
/// `absolute` makes a path absolute, or says why it cannot.
pub fn resolve_path_by<F: Fn(&str) -> Result<String, String>>(
    absolute: F,
    stg: &ChildStg,
    requested: &str,
    platform: Platform,
) -> (r: Result<String, ApiError>)
    requires
        forall|p: &str| absolute.requires((p,)),
    ensures
        resolved(jail::way_of(absolute), *stg, requested@, platform, r),
        path::climbs(requested@, platform) ==> (r matches Err(e) && e@
            == jail::climbing_refusal()),
        r matches Err(e) ==> e.code == ErrorCode::AccessDenied,
{
    let instances: String = stg.instances_dir(platform);
    jail::resolve_by(
        absolute,
        &stg.storage_path,
        &stg.file_roots,
        &instances,
        requested,
        platform,
    )
}

/// Finds the file that a request is for, among those that transfers may touch, with
/// paths made absolute as the system does it.
pub fn resolve_path(stg: &ChildStg, requested: &str, platform: Platform) -> (r: Result<
    String,
    ApiError,
>)
    ensures
        resolved(jail::system_way(), *stg, requested@, platform, r),
        path::climbs(requested@, platform) ==> (r matches Err(e) && e@
            == jail::climbing_refusal()),
        r matches Err(e) ==> e.code == ErrorCode::AccessDenied,
{
    let instances: String = stg.instances_dir(platform);
    jail::resolve(&stg.storage_path, &stg.file_roots, &instances, requested, platform)
}

} // verus!
