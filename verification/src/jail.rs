//! Which files a transfer may touch.
use vstd::prelude::*;

use crate::path::Platform;
use crate::protocol::api::{ApiError, ErrorCode};
use crate::protocol::api;
use crate::{path, text};

verus! {

/// `std::path::absolute`: the path as seen from the root, by the current directory
/// where it is relative; an error where that directory is not known or the path is
/// empty. It depends on the process's current directory and on the platform, so
/// nothing is claimed of the result.
#[verifier::external_body]
pub(crate) fn absolute(path: &str) -> (r: Result<String, String>) {
    match std::path::absolute(path) {
        Ok(p) => Ok(p.to_string_lossy().into_owned()),
        Err(e) => Err(e.to_string()),
    }
}

pub open spec fn climbing_refusal() -> api::Refusal {
    api::Refusal { code: ErrorCode::AccessDenied, msg: "path must not contain '..'"@ }
}

pub open spec fn unresolved_refusal(why: Seq<char>) -> api::Refusal {
    api::Refusal { code: ErrorCode::AccessDenied, msg: "cannot resolve path: "@ + why }
}

pub open spec fn outside_refusal() -> api::Refusal {
    api::Refusal {
        code: ErrorCode::AccessDenied,
        msg: "path is outside the configured file roots"@,
    }
}

/// What a request asks for: as it is, or below the storage directory.
pub open spec fn asked_for(storage: Seq<char>, requested: Seq<char>, platform: Platform) -> Seq<
    char,
> {
    if path::absolute(requested, platform) {
        requested
    } else {
        path::joined(storage, requested, platform)
    }
}

pub fn target_of(storage: &str, requested: &str, platform: Platform) -> (r: String)
    ensures
        r@ == asked_for(storage@, requested@, platform),
{
    if path::is_absolute(requested, platform) {
        requested.to_string()
    } else {
        path::join(storage, requested, platform)
    }
}

/// Whether a path lies below one of the first `n` roots. A root that could not be
/// made absolute counts for nothing.
pub open spec fn below_some(
    target: Seq<char>,
    roots: Seq<Result<String, String>>,
    n: int,
    platform: Platform,
) -> bool {
    exists|i: int|
        0 <= i < n && (#[trigger] roots[i] matches Ok(root) && path::below(
            target,
            root@,
            platform,
        ))
}

/// Why a request is refused, given what its target and the roots are as absolute
/// paths.
pub open spec fn refusal(
    requested: Seq<char>,
    target: Result<String, String>,
    roots: Seq<Result<String, String>>,
    platform: Platform,
) -> Option<api::Refusal> {
    if path::climbs(requested, platform) {
        Some(climbing_refusal())
    } else {
        match target {
            Err(why) => Some(unresolved_refusal(why@)),
            Ok(target) => if below_some(target@, roots, roots.len() as int, platform) {
                None
            } else {
                Some(outside_refusal())
            },
        }
    }
}

/// Whether `r` is how a request is judged, its target and the roots being these as
/// absolute paths.
pub open spec fn judged(
    requested: Seq<char>,
    target: Result<String, String>,
    roots: Seq<Result<String, String>>,
    platform: Platform,
    r: Result<String, ApiError>,
) -> bool {
    match refusal(requested, target, roots, platform) {
        Some(refusal) => r matches Err(e) && e@ == refusal,
        None => r matches Ok(p) && target matches Ok(t) && p@ == t@,
    }
}

/// Judges a request, given what its target and the roots are as absolute paths.
pub fn judge(
    requested: &str,
    target: Result<String, String>,
    roots: &Vec<Result<String, String>>,
    platform: Platform,
) -> (r: Result<String, ApiError>)
    ensures
        judged(requested@, target, roots@, platform, r),
{
    if path::has_parent(requested, platform) {
        return Err(ApiError::new(ErrorCode::AccessDenied, "path must not contain '..'"));
    }
    let found: String = match target {
        Ok(found) => found,
        Err(why) => {
            return Err(
                ApiError {
                    code: ErrorCode::AccessDenied,
                    msg: text::cat2("cannot resolve path: ", &why),
                },
            );
        },
    };
    let mut i: usize = 0;
    while i < roots.len()
        invariant
            i <= roots.len(),
            !below_some(found@, roots@, i as int, platform),
            !path::climbs(requested@, platform),
            target == Ok::<String, String>(found),
        decreases roots.len() - i,
    {
        if let Ok(root) = &roots[i] {
            if path::starts_with(&found, root, platform) {
                assert(roots@[i as int] matches Ok(root) && path::below(
                    found@,
                    root@,
                    platform,
                ));
                return Ok(found);
            }
        }
        i = i + 1;
    }
    Err(ApiError::new(ErrorCode::AccessDenied, "path is outside the configured file roots"))
}

/// Whether `r` is what `absolute` makes of a path.
pub open spec fn made_of<F: Fn(&str) -> Result<String, String>>(
    absolute: F,
    path: Seq<char>,
    r: Result<String, String>,
) -> bool {
    exists|p: &str| p@ == path && #[trigger] absolute.ensures((p,), r)
}

/// A way of making paths absolute: whether a path is made this, or cannot be made
/// absolute for this reason.
pub type Way = spec_fn(Seq<char>, Result<String, String>) -> bool;

/// The way of the given function.
pub open spec fn way_of<F: Fn(&str) -> Result<String, String>>(absolute: F) -> Way {
    |path: Seq<char>, r: Result<String, String>| made_of(absolute, path, r)
}

/// The way of the system, `std::path::absolute`.
pub closed spec fn system_way() -> Way {
    way_of(absolute)
}

pub(crate) proof fn system_is_absolute()
    ensures
        system_way() == way_of(absolute),
{
}

/// Whether these are the roots as absolute paths: first the given ones, then the
/// directory of the instances.
pub open spec fn are_roots(
    way: Way,
    file_roots: Seq<String>,
    instances_dir: Seq<char>,
    roots: Seq<Result<String, String>>,
) -> bool {
    &&& roots.len() == file_roots.len() + 1
    &&& forall|i: int|
        0 <= i < file_roots.len() ==> way(file_roots[i]@, #[trigger] roots[i])
    &&& way(instances_dir, roots[file_roots.len() as int])
}

/// Whether `r` answers a request, where paths are made absolute in this way: what is
/// asked for and the roots are made absolute, and by that the request is judged.
pub open spec fn resolved(
    way: Way,
    storage: Seq<char>,
    file_roots: Seq<String>,
    instances_dir: Seq<char>,
    requested: Seq<char>,
    platform: Platform,
    r: Result<String, ApiError>,
) -> bool {
    exists|target: Result<String, String>, roots: Seq<Result<String, String>>|
        way(asked_for(storage, requested, platform), target) && are_roots(
            way,
            file_roots,
            instances_dir,
            roots,
        ) && #[trigger] judged(requested, target, roots, platform, r)
}

/// Finds the file that a request is for. A request with a `..` is refused; any
/// other is made absolute, below the storage directory where it is relative, and
/// must then lie below one of the roots or the directory of the instances.
/// `absolute` makes a path absolute, or says why it cannot.
pub fn resolve_by<F: Fn(&str) -> Result<String, String>>(
    absolute: F,
    storage: &str,
    file_roots: &Vec<String>,
    instances_dir: &str,
    requested: &str,
    platform: Platform,
) -> (r: Result<String, ApiError>)
    requires
        forall|p: &str| absolute.requires((p,)),
    ensures
        resolved(way_of(absolute), storage@, file_roots@, instances_dir@, requested@, platform, r),
{
    let asked: String = target_of(storage, requested, platform);
    let target: Result<String, String> = absolute(asked.as_str());
    assert(made_of(absolute, asked@, target));
    let mut roots: Vec<Result<String, String>> = Vec::new();
    let mut i: usize = 0;
    while i < file_roots.len()
        invariant
            i <= file_roots.len(),
            roots@.len() == i,
            forall|p: &str| absolute.requires((p,)),
            forall|k: int|
                0 <= k < i ==> made_of(absolute, file_roots@[k]@, #[trigger] roots@[k]),
        decreases file_roots.len() - i,
    {
        let root: Result<String, String> = absolute(file_roots[i].as_str());
        assert(made_of(absolute, file_roots@[i as int]@, root));
        roots.push(root);
        i = i + 1;
    }
    let last: Result<String, String> = absolute(instances_dir);
    assert(made_of(absolute, instances_dir@, last));
    roots.push(last);
    let ghost seen: Result<String, String> = target;
    let r: Result<String, ApiError> = judge(requested, target, &roots, platform);
    assert(are_roots(way_of(absolute), file_roots@, instances_dir@, roots@));
    assert(judged(requested@, seen, roots@, platform, r));
    r
}

/// Finds the file that a request is for, with paths made absolute as the system
/// does it.
pub fn resolve(
    storage: &str,
    file_roots: &Vec<String>,
    instances_dir: &str,
    requested: &str,
    platform: Platform,
) -> (r: Result<String, ApiError>)
    ensures
        resolved(system_way(), storage@, file_roots@, instances_dir@, requested@, platform, r),
        path::climbs(requested@, platform) ==> (r matches Err(e) && e@ == climbing_refusal()),
        r matches Err(e) ==> e.code == ErrorCode::AccessDenied,
{
    proof {
        system_is_absolute();
    }
    resolve_by(absolute, storage, file_roots, instances_dir, requested, platform)
}

/// A file that a request is admitted to lies below one of the roots, and the
/// request did not climb.
pub proof fn admitted_files_are_inside(
    requested: Seq<char>,
    target: Result<String, String>,
    roots: Seq<Result<String, String>>,
    platform: Platform,
)
    requires
        refusal(requested, target, roots, platform) is None,
    ensures
        target is Ok,
        !path::climbs(requested, platform),
        exists|i: int|
            0 <= i < roots.len() && (#[trigger] roots[i] matches Ok(root) && path::below(
                target->Ok_0@,
                root@,
                platform,
            )),
{
}

/// A file that is handed out is what a request asks for, made absolute, and lies
/// below one of the given roots or the directory of the instances, made absolute.
pub proof fn resolved_files_are_inside(
    way: Way,
    storage: Seq<char>,
    file_roots: Seq<String>,
    instances_dir: Seq<char>,
    requested: Seq<char>,
    platform: Platform,
    r: Result<String, ApiError>,
)
    requires
        resolved(way, storage, file_roots, instances_dir, requested, platform, r),
        r is Ok,
    ensures
        !path::climbs(requested, platform),
        exists|target: String|
            target@ == r->Ok_0@ && #[trigger] way(
                asked_for(storage, requested, platform),
                Ok(target),
            ),
        exists|given: Seq<char>, root: String|
            (given == instances_dir || exists|i: int|
                0 <= i < file_roots.len() && (#[trigger] file_roots[i])@ == given)
                && #[trigger] way(given, Ok(root)) && path::below(r->Ok_0@, root@, platform),
{
    let (target, roots) = choose|target: Result<String, String>,
        roots: Seq<Result<String, String>>|
        way(asked_for(storage, requested, platform), target) && are_roots(
            way,
            file_roots,
            instances_dir,
            roots,
        ) && #[trigger] judged(requested, target, roots, platform, r);
    admitted_files_are_inside(requested, target, roots, platform);
    assert(target == Ok::<String, String>(target->Ok_0));
    let i = choose|i: int|
        0 <= i < roots.len() && (#[trigger] roots[i] matches Ok(root) && path::below(
            target->Ok_0@,
            root@,
            platform,
        ));
    let root = roots[i]->Ok_0;
    assert(roots[i] == Ok::<String, String>(root));
    if i < file_roots.len() {
        let given = file_roots[i]@;
        assert(way(given, Ok(root)));
    } else {
        assert(way(instances_dir, Ok(root)));
    }
}

/// Whatever is asked for without climbing, and lies below a root once both are made
/// absolute, is handed out, where one thing only is made of each path.
pub proof fn files_inside_are_handed_out(
    way: Way,
    storage: Seq<char>,
    file_roots: Seq<String>,
    instances_dir: Seq<char>,
    requested: Seq<char>,
    platform: Platform,
    r: Result<String, ApiError>,
    target: String,
    at: int,
    root: String,
)
    requires
        resolved(way, storage, file_roots, instances_dir, requested, platform, r),
        forall|p: Seq<char>, a: Result<String, String>, b: Result<String, String>|
            #[trigger] way(p, a) && #[trigger] way(p, b) ==> a == b,
        !path::climbs(requested, platform),
        way(asked_for(storage, requested, platform), Ok(target)),
        0 <= at <= file_roots.len(),
        way(
            if at < file_roots.len() {
                file_roots[at]@
            } else {
                instances_dir
            },
            Ok(root),
        ),
        path::below(target@, root@, platform),
    ensures
        r matches Ok(p) && p@ == target@,
{
    let (made, roots) = choose|made: Result<String, String>, roots: Seq<Result<String, String>>|
        way(asked_for(storage, requested, platform), made) && are_roots(
            way,
            file_roots,
            instances_dir,
            roots,
        ) && #[trigger] judged(requested, made, roots, platform, r);
    assert(made == Ok::<String, String>(target));
    assert(roots[at] == Ok::<String, String>(root));
}

/// With no root that could be made absolute, nothing is admitted.
pub proof fn without_roots_nothing_is_admitted(
    requested: Seq<char>,
    target: Result<String, String>,
    roots: Seq<Result<String, String>>,
    platform: Platform,
)
    requires
        forall|i: int| 0 <= i < roots.len() ==> (#[trigger] roots[i]) is Err,
    ensures
        refusal(requested, target, roots, platform) is Some,
{
}

/// A request is judged by these, in this order: a `..` in it, a target that cannot be made
/// absolute, and a target that lies below no root.
pub proof fn refusals_say_what_is_wrong(
    requested: Seq<char>,
    target: Result<String, String>,
    roots: Seq<Result<String, String>>,
    platform: Platform,
)
    ensures
        ({
            let r = refusal(requested, target, roots, platform);
            let inside = target matches Ok(t) && exists|i: int|
                0 <= i < roots.len() && (#[trigger] roots[i]) is Ok && path::below(
                    t@,
                    roots[i]->Ok_0@,
                    platform,
                );
            &&& r is None <==> !path::climbs(requested, platform) && inside
            &&& r matches Some(why) ==> why.code == ErrorCode::AccessDenied
            &&& path::climbs(requested, platform) ==> (r matches Some(why) && why.msg
                == "path must not contain '..'"@)
            &&& !path::climbs(requested, platform) && target is Err ==> (r matches Some(why)
                && why.msg == "cannot resolve path: "@ + target->Err_0@)
            &&& !path::climbs(requested, platform) && target is Ok && !inside ==> (r matches Some(
                why,
            ) && why.msg == "path is outside the configured file roots"@)
        }),
{
    if let Ok(t) = target {
        if below_some(t@, roots, roots.len() as int, platform) {
            let i = choose|i: int|
                0 <= i < roots.len() && (#[trigger] roots[i] matches Ok(root) && path::below(
                    t@,
                    root@,
                    platform,
                ));
            assert(roots[i] is Ok && path::below(t@, roots[i]->Ok_0@, platform));
        }
        if exists|i: int|
            0 <= i < roots.len() && (#[trigger] roots[i]) is Ok && path::below(
                t@,
                roots[i]->Ok_0@,
                platform,
            ) {
            let i = choose|i: int|
                0 <= i < roots.len() && (#[trigger] roots[i]) is Ok && path::below(
                    t@,
                    roots[i]->Ok_0@,
                    platform,
                );
            assert(roots[i] matches Ok(root) && path::below(t@, root@, platform));
        }
    }
}

/// What is asked for is the path itself where it is absolute, and else the path below the
/// storage directory.
pub proof fn relative_requests_are_below_storage(
    storage: Seq<char>,
    requested: Seq<char>,
    platform: Platform,
)
    ensures
        path::absolute(requested, platform) ==> asked_for(storage, requested, platform) == requested,
        !path::absolute(requested, platform) ==> asked_for(storage, requested, platform)
            == path::joined(storage, requested, platform),
{
}

/// A path is below another where it begins with all of its components, whole: itself, and
/// everything further in, but nothing that merely begins with the same letters.
pub proof fn below_means_by_whole_components(
    path: Seq<char>,
    base: Seq<char>,
    platform: Platform,
)
    ensures
        path::below(path, path, platform),
        path::below(path, base, platform) <==> path::parts(base, platform).len() <= path::parts(
            path,
            platform,
        ).len() && forall|i: int|
            0 <= i < path::parts(base, platform).len() ==> #[trigger] path::parts(
                base,
                platform,
            )[i] == path::parts(path, platform)[i],
        path::climbs(path, platform) <==> path::parts(path, platform).contains(path::Part::Parent),
{
    let p = path::parts(path, platform);
    let b = path::parts(base, platform);
    assert(p.subrange(0, p.len() as int) =~= p);
    if b.len() <= p.len() && forall|i: int| 0 <= i < b.len() ==> #[trigger] b[i] == p[i] {
        assert(b =~= p.subrange(0, b.len() as int));
    }
    if path::below(path, base, platform) {
        assert forall|i: int| 0 <= i < b.len() implies #[trigger] b[i] == p[i] by {
            assert(p.subrange(0, b.len() as int)[i] == p[i]);
        }
    }
    if path::climbs(path, platform) {
        let i = choose|i: int| 0 <= i < p.len() && #[trigger] p[i] is Parent;
        assert(p[i] == path::Part::Parent);
    }
}

} // verus!
