//! Sessions, from the request to the reply.
//!
//! A session first sends how it starts: with what the client needs to know, or with
//! the refusal. Its bytes follow, and the reply of the call ends it.
use vstd::prelude::*;

use crate::jail::Way;
use crate::path::Platform;
use crate::protocol::api::{ApiError, ErrorCode, Response};
use crate::protocol::api;
use crate::protocol::session::{Session, SessionStart};
use crate::server::storage::ServerStg;
use crate::server::transfer;
use crate::{jail, path, text};

verus! {

/// What a session needs before it can start.
#[derive(Debug, PartialEq, Eq)]
pub enum Opening {
    /// The hooks of a running instance.
    Attach { id: u128 },
    /// The directory of an instance's files, for a shell of this size.
    Shell { id: u128, cols: u16, rows: u16 },
    /// Nothing more: the file is received to this place.
    ReceiveFile { path: String },
    /// The length of this file.
    SendFile { path: String },
    /// Nothing more: the archive is unpacked into this directory.
    ReceiveArchive { dir: String },
    /// Nothing more: these are packed and sent.
    SendArchive { paths: Vec<String> },
    /// The directory of an instance that takes uploads, which then waits for it.
    ReceiveSource { id: u128 },
    /// The session is refused.
    Reject(ApiError),
}

/// How a refused session starts and what it is answered: with the same refusal.
pub fn reject(e: ApiError) -> (r: (Result<SessionStart, ApiError>, Response))
    ensures
        r.0 matches Err(told) && told@ == e@,
        r.1 == Response::Error(e),
{
    let told = ApiError { code: e.code, msg: e.msg.clone() };
    (Err(told), Response::Error(e))
}

/// How an accepted session starts.
pub fn accept(size: Option<u64>) -> (r: Result<SessionStart, ApiError>)
    ensures
        r == Ok::<SessionStart, ApiError>(SessionStart { size }),
{
    Ok(SessionStart { size })
}

pub open spec fn nothing_to_download() -> api::Refusal {
    api::Refusal { code: ErrorCode::NotFound, msg: "nothing to download"@ }
}

/// Whether one of the paths climbs.
pub open spec fn some_climb(paths: Seq<String>, platform: Platform) -> bool {
    exists|i: int| 0 <= i < paths.len() && path::climbs((#[trigger] paths[i])@, platform)
}

/// Whether a path is found.
pub open spec fn is_found(
    way: Way,
    stg: ServerStg,
    path: Seq<char>,
    platform: Platform,
) -> bool {
    exists|found: String| transfer::resolved(way, stg, path, platform, Ok(found))
}

/// Whether the paths before one are found and it is refused.
pub open spec fn refused_first(
    way: Way,
    stg: ServerStg,
    paths: Seq<String>,
    first: int,
    platform: Platform,
    e: ApiError,
) -> bool {
    &&& 0 <= first < paths.len()
    &&& forall|i: int|
        0 <= i < first ==> is_found(way, stg, (#[trigger] paths[i])@, platform)
    &&& transfer::resolved(way, stg, paths[first]@, platform, Err(e))
}

/// Whether `r` answers a request for several paths: with all of them, in their
/// order, or with the refusal of the first that is refused.
pub open spec fn all_resolved(
    way: Way,
    stg: ServerStg,
    paths: Seq<String>,
    platform: Platform,
    r: Result<Vec<String>, ApiError>,
) -> bool {
    match r {
        Ok(found) => found@.len() == paths.len() && forall|i: int|
            0 <= i < paths.len() ==> transfer::resolved(
                way,
                stg,
                paths[i]@,
                platform,
                Ok(#[trigger] found@[i]),
            ),
        Err(e) => exists|first: int|
            #[trigger] refused_first(way, stg, paths, first, platform, e),
    }
}

fn resolve_all<F: Fn(&str) -> Result<String, String>>(
    absolute: F,
    stg: &ServerStg,
    paths: &Vec<String>,
    platform: Platform,
) -> (r: Result<Vec<String>, ApiError>)
    requires
        forall|p: &str| absolute.requires((p,)),
    ensures
        all_resolved(jail::way_of(absolute), *stg, paths@, platform, r),
        r is Ok ==> !some_climb(paths@, platform),
        r matches Err(e) ==> e.code == ErrorCode::AccessDenied,
{
    let mut out: Vec<String> = Vec::new();
    let mut i: usize = 0;
    while i < paths.len()
        invariant
            i <= paths.len(),
            out@.len() == i,
            forall|p: &str| absolute.requires((p,)),
            forall|k: int| 0 <= k < i ==> !path::climbs((#[trigger] paths@[k])@, platform),
            forall|k: int|
                0 <= k < i ==> transfer::resolved(
                    jail::way_of(absolute),
                    *stg,
                    paths@[k]@,
                    platform,
                    Ok(#[trigger] out@[k]),
                ),
        decreases paths.len() - i,
    {
        match transfer::resolve_path_by(&absolute, stg, &paths[i], platform) {
            Ok(found) => out.push(found),
            Err(e) => {
                proof {
                    assert forall|k: int| 0 <= k < i implies is_found(
                        jail::way_of(absolute),
                        *stg,
                        (#[trigger] paths@[k])@,
                        platform,
                    ) by {
                        assert(transfer::resolved(
                            jail::way_of(absolute),
                            *stg,
                            paths@[k]@,
                            platform,
                            Ok(out@[k]),
                        ));
                    }
                    assert(refused_first(jail::way_of(absolute), *stg, paths@, i as int, platform, e));
                }
                return Err(e);
            },
        }
        i = i + 1;
    }
    Ok(out)
}

/// Whether what a session opens with is in keeping with its request.
pub open spec fn opens(session: Session, opening: Opening, platform: Platform) -> bool {
    match session {
        Session::Attach(id) => opening == (Opening::Attach { id }),
        Session::Shell { id, cols, rows } => opening == (Opening::Shell { id, cols, rows }),
        Session::UploadFile { dest } => match opening {
            Opening::ReceiveFile { .. } => !path::climbs(dest@, platform),
            Opening::Reject(e) => e.code == ErrorCode::AccessDenied,
            _ => false,
        },
        Session::DownloadFile { src } => match opening {
            Opening::SendFile { .. } => !path::climbs(src@, platform),
            Opening::Reject(e) => e.code == ErrorCode::AccessDenied,
            _ => false,
        },
        Session::UploadArchive { dest } => match opening {
            Opening::ReceiveArchive { .. } => !path::climbs(dest@, platform),
            Opening::Reject(e) => e.code == ErrorCode::AccessDenied,
            _ => false,
        },
        Session::DownloadArchive { paths } => match opening {
            Opening::SendArchive { paths: found } => found@.len() == paths@.len() && paths@.len()
                > 0 && !some_climb(paths@, platform),
            Opening::Reject(e) => if paths@.len() == 0 {
                e@ == nothing_to_download()
            } else {
                e.code == ErrorCode::AccessDenied
            },
            _ => false,
        },
        Session::UploadSource { id } => opening == (Opening::ReceiveSource { id }),
    }
}

/// What a session opens with, by what became of the paths that it asks for.
pub open spec fn opened(
    way: Way,
    stg: ServerStg,
    session: Session,
    platform: Platform,
    opening: Opening,
) -> bool {
    match session {
        Session::Attach(id) => opening == (Opening::Attach { id }),
        Session::Shell { id, cols, rows } => opening == (Opening::Shell { id, cols, rows }),
        Session::UploadFile { dest } => match opening {
            Opening::ReceiveFile { path } => transfer::resolved(
                way,
                stg,
                dest@,
                platform,
                Ok(path),
            ),
            Opening::Reject(e) => transfer::resolved(way, stg, dest@, platform, Err(e)),
            _ => false,
        },
        Session::DownloadFile { src } => match opening {
            Opening::SendFile { path } => transfer::resolved(
                way,
                stg,
                src@,
                platform,
                Ok(path),
            ),
            Opening::Reject(e) => transfer::resolved(way, stg, src@, platform, Err(e)),
            _ => false,
        },
        Session::UploadArchive { dest } => match opening {
            Opening::ReceiveArchive { dir } => transfer::resolved(
                way,
                stg,
                dest@,
                platform,
                Ok(dir),
            ),
            Opening::Reject(e) => transfer::resolved(way, stg, dest@, platform, Err(e)),
            _ => false,
        },
        Session::DownloadArchive { paths } => match opening {
            Opening::SendArchive { paths: found } => paths@.len() > 0 && all_resolved(
                way,
                stg,
                paths@,
                platform,
                Ok(found),
            ),
            Opening::Reject(e) => if paths@.len() == 0 {
                e@ == nothing_to_download()
            } else {
                all_resolved(way, stg, paths@, platform, Err(e))
            },
            _ => false,
        },
        Session::UploadSource { id } => opening == (Opening::ReceiveSource { id }),
    }
}

/// Finds out what a session needs before it can start. Paths are looked for among
/// the files that transfers may touch; `absolute` makes a path absolute, or says why
/// it cannot.
pub fn handle_by<F: Fn(&str) -> Result<String, String>>(
    absolute: F,
    stg: &ServerStg,
    session: Session,
    platform: Platform,
) -> (r: Opening)
    requires
        forall|p: &str| absolute.requires((p,)),
    ensures
        opened(jail::way_of(absolute), *stg, session, platform, r),
        opens(session, r, platform),
{
    match session {
        Session::Attach(id) => Opening::Attach { id },
        Session::Shell { id, cols, rows } => Opening::Shell { id, cols, rows },
        Session::UploadFile { dest } => {
            match transfer::resolve_path_by(absolute, stg, &dest, platform) {
                Ok(path) => Opening::ReceiveFile { path },
                Err(e) => Opening::Reject(e),
            }
        },
        Session::DownloadFile { src } => {
            match transfer::resolve_path_by(absolute, stg, &src, platform) {
                Ok(path) => Opening::SendFile { path },
                Err(e) => Opening::Reject(e),
            }
        },
        Session::UploadArchive { dest } => {
            match transfer::resolve_path_by(absolute, stg, &dest, platform) {
                Ok(path) => Opening::ReceiveArchive { dir: path },
                Err(e) => Opening::Reject(e),
            }
        },
        Session::DownloadArchive { paths } => {
            if paths.len() == 0 {
                return Opening::Reject(ApiError::new(ErrorCode::NotFound, "nothing to download"));
            }
            match resolve_all(absolute, stg, &paths, platform) {
                Ok(found) => Opening::SendArchive { paths: found },
                Err(e) => Opening::Reject(e),
            }
        },
        Session::UploadSource { id } => Opening::ReceiveSource { id },
    }
}

/// Finds out what a session needs before it can start, with paths made absolute as
/// the system does it.
pub fn handle(stg: &ServerStg, session: Session, platform: Platform) -> (r: Opening)
    ensures
        opened(jail::system_way(), *stg, session, platform, r),
        opens(session, r, platform),
{
    proof {
        jail::system_is_absolute();
    }
    handle_by(jail::absolute, stg, session, platform)
}

/// How the download of a file starts, by what was learned of its length.
pub fn start_download(path: &str, size: Result<u64, String>) -> (r: Result<SessionStart, ApiError>)
    ensures
        match size {
            Ok(n) => r == Ok::<SessionStart, ApiError>(SessionStart { size: Some(n) }),
            Err(why) => r matches Err(e) && e@ == (api::Refusal {
                code: ErrorCode::NotFound,
                msg: "cannot read '"@ + path@ + "': "@ + why@,
            }),
        },
{
    match size {
        Ok(n) => accept(Some(n)),
        Err(why) => Err(
            ApiError {
                code: ErrorCode::NotFound,
                msg: text::cat4("cannot read '", path, "': ", &why),
            },
        ),
    }
}

/// What a session is called in the answer, where it fails.
pub open spec fn title(opening: Opening) -> Seq<char> {
    match opening {
        Opening::Attach { .. } => "attach session"@,
        Opening::Shell { .. } => "shell session"@,
        Opening::ReceiveFile { path } => "upload to '"@ + path@ + "'"@,
        Opening::SendFile { path } => "download of '"@ + path@ + "'"@,
        Opening::ReceiveArchive { dir } => "archive upload into '"@ + dir@ + "'"@,
        Opening::SendArchive { .. } => "archive download"@,
        Opening::ReceiveSource { .. } => "source upload"@,
        Opening::Reject(_) => "session"@,
    }
}

fn title_of(opening: &Opening) -> (r: String)
    ensures
        r@ == title(*opening),
{
    match opening {
        Opening::Attach { .. } => "attach session".to_string(),
        Opening::Shell { .. } => "shell session".to_string(),
        Opening::ReceiveFile { path } => text::cat3("upload to '", path, "'"),
        Opening::SendFile { path } => text::cat3("download of '", path, "'"),
        Opening::ReceiveArchive { dir } => text::cat3("archive upload into '", dir, "'"),
        Opening::SendArchive { .. } => "archive download".to_string(),
        Opening::ReceiveSource { .. } => "source upload".to_string(),
        Opening::Reject(_) => "session".to_string(),
    }
}

/// What a session is answered once its bytes have flowed.
pub fn bridge_outcome(opening: &Opening, result: Result<(), String>) -> (r: Response)
    ensures
        match result {
            Ok(_) => r == Response::Done,
            Err(why) => r matches Response::Error(e) && e@ == (api::Refusal {
                code: ErrorCode::Internal,
                msg: title(*opening) + " failed: "@ + why@,
            }),
        },
{
    match result {
        Ok(()) => Response::Done,
        Err(why) => Response::Error(
            ApiError {
                code: ErrorCode::Internal,
                msg: text::cat3(&title_of(opening), " failed: ", &why),
            },
        ),
    }
}

/// A request that climbs never opens a file, whatever the server is set up with.
pub proof fn climbing_requests_open_nothing(session: Session, opening: Opening, platform: Platform)
    requires
        opens(session, opening, platform),
        match session {
            Session::UploadFile { dest } => path::climbs(dest@, platform),
            Session::DownloadFile { src } => path::climbs(src@, platform),
            Session::UploadArchive { dest } => path::climbs(dest@, platform),
            Session::DownloadArchive { paths } => some_climb(paths@, platform),
            _ => false,
        },
    ensures
        opening is Reject,
{
}

/// A session opens for what it asked for, and nothing else: on its instance, for its own
/// direction, and for as many paths as it named; a download of nothing is refused.
pub proof fn sessions_open_for_what_they_asked(
    way: Way,
    stg: ServerStg,
    session: Session,
    platform: Platform,
    opening: Opening,
)
    requires
        opened(way, stg, session, platform, opening),
    ensures
        session matches Session::Attach(id) ==> opening == (Opening::Attach { id }),
        session matches Session::Shell { id, cols, rows } ==> opening == (Opening::Shell {
            id,
            cols,
            rows,
        }),
        session matches Session::UploadSource { id } ==> opening == (Opening::ReceiveSource { id }),
        session is UploadFile ==> opening is ReceiveFile || opening is Reject,
        session is DownloadFile ==> opening is SendFile || opening is Reject,
        session is UploadArchive ==> opening is ReceiveArchive || opening is Reject,
        session matches Session::DownloadArchive { paths } ==> (paths@.len() == 0 ==> (
        opening matches Opening::Reject(e) && e@.code == ErrorCode::NotFound)) && (
        opening matches Opening::SendArchive { paths: found } ==> found@.len() == paths@.len())
            && (opening is SendArchive || opening is Reject),
{
}

/// What a session is called in its failure.
pub proof fn failures_name_the_session(
    p: String,
    paths: Vec<String>,
    id: u128,
    cols: u16,
    rows: u16,
)
    ensures
        title(Opening::Attach { id }) == "attach session"@,
        title(Opening::Shell { id, cols, rows }) == "shell session"@,
        title(Opening::ReceiveFile { path: p }) == "upload to '"@ + p@ + "'"@,
        title(Opening::SendFile { path: p }) == "download of '"@ + p@ + "'"@,
        title(Opening::ReceiveArchive { dir: p }) == "archive upload into '"@ + p@ + "'"@,
        title(Opening::SendArchive { paths }) == "archive download"@,
        title(Opening::ReceiveSource { id }) == "source upload"@,
{
}

/// A file that a session opens is the one that its path stands for, and a refusal is the one
/// that its path is owed. An archive is packed from all the paths, in their order, or
/// refused for the first that is.
pub proof fn sessions_open_the_files_they_named(
    way: Way,
    stg: ServerStg,
    session: Session,
    platform: Platform,
    opening: Opening,
)
    requires
        opened(way, stg, session, platform, opening),
    ensures
        session matches Session::UploadFile { dest } ==> (opening matches Opening::ReceiveFile {
            path,
        } ==> transfer::resolved(way, stg, dest@, platform, Ok(path))) && (
        opening matches Opening::Reject(e) ==> transfer::resolved(
            way,
            stg,
            dest@,
            platform,
            Err(e),
        )),
        session matches Session::DownloadFile { src } ==> (opening matches Opening::SendFile { path }
            ==> transfer::resolved(way, stg, src@, platform, Ok(path))) && (
        opening matches Opening::Reject(e) ==> transfer::resolved(
            way,
            stg,
            src@,
            platform,
            Err(e),
        )),
        session matches Session::UploadArchive { dest } ==> (
        opening matches Opening::ReceiveArchive { dir } ==> transfer::resolved(
            way,
            stg,
            dest@,
            platform,
            Ok(dir),
        )) && (opening matches Opening::Reject(e) ==> transfer::resolved(
            way,
            stg,
            dest@,
            platform,
            Err(e),
        )),
        session matches Session::DownloadArchive { paths } ==> (
        opening matches Opening::SendArchive { paths: found } ==> forall|i: int|
            0 <= i < paths@.len() ==> transfer::resolved(
                way,
                stg,
                paths@[i]@,
                platform,
                Ok(#[trigger] found@[i]),
            )) && (opening matches Opening::Reject(e) ==> (paths@.len() > 0 ==> exists|i: int|
            0 <= i < paths@.len() && transfer::resolved(
                way,
                stg,
                (#[trigger] paths@[i])@,
                platform,
                Err(e),
            )) && (paths@.len() == 0 ==> e@.msg == "nothing to download"@)),
{
    if let Session::DownloadArchive { paths } = session {
        if let Opening::Reject(e) = opening {
            if paths@.len() > 0 {
                let first = choose|first: int|
                    #[trigger] refused_first(way, stg, paths@, first, platform, e);
                assert(transfer::resolved(way, stg, paths@[first]@, platform, Err(e)));
            }
        }
    }
}

/// Of several paths, none before the one that is blamed would have been refused.
pub proof fn the_first_refused_path_is_blamed(
    way: Way,
    stg: ServerStg,
    paths: Seq<String>,
    first: int,
    platform: Platform,
    e: ApiError,
    i: int,
)
    requires
        refused_first(way, stg, paths, first, platform, e),
        0 <= i < first,
    ensures
        first < paths.len(),
        exists|found: String|
            transfer::resolved(way, stg, paths[i]@, platform, Ok(found)),
{
    assert(is_found(way, stg, paths[i]@, platform));
}

} // verus!
