//! Setting a server up, giving it another key, and finding one that runs already.
use vstd::prelude::*;

use crate::client::keygen;
use crate::client::keygen::{KeyError, KeySource};
use crate::jail::Way;
use crate::path::Platform;
use crate::protocol::auth;
use crate::{jail, path, text};

verus! {

/// How often a predecessor's address is tried for, and how long is waited between.
pub const TAKEOVER_TRIES: u32 = 40;

pub const TAKEOVER_WAIT_MS: u64 = 250;

/// Whether to try for a predecessor's address once more, after so many tries and by
/// whether the last one got it.
pub fn takeover_step(tried: u32, bound: bool) -> (r: bool)
    ensures
        r == (!bound && tried < TAKEOVER_TRIES),
{
    !bound && tried < TAKEOVER_TRIES
}

/// How many connections are served at once.
pub const MAX_CONNECTIONS: usize = 64;

/// For how many seconds a call may be worked on.
pub const REQUEST_TIMEOUT_SECS: u64 = 30;

// ---- the shared key ------------------------------------------------------------------

/// One of two things.
#[derive(Debug, PartialEq, Eq)]
pub enum EitherOr<A, B> {
    A(A),
    B(B),
}

/// How a client is given a key: a phrase is given there too, a random key has to be
/// copied.
pub open spec fn advice(key: EitherOr<Seq<u8>, Seq<char>>) -> Seq<char> {
    match key {
        EitherOr::A(key) =>
            "This key is random, so nothing can re-derive it. Pair a client with:\n`client keygen --key "@
            + auth::hex_text(key) + "`"@,
        EitherOr::B(phrase) => "Pair a client with: `client keygen "@ + phrase + "`"@,
    }
}

pub fn pairing_advice(key: EitherOr<&[u8], &str>) -> (r: String)
    ensures
        r@ == advice(
            match key {
                EitherOr::A(key) => EitherOr::A(key@),
                EitherOr::B(phrase) => EitherOr::B(phrase@),
            },
        ),
{
    match key {
        EitherOr::A(key) => text::cat3(
            "This key is random, so nothing can re-derive it. Pair a client with:\n`client keygen --key ",
            &auth::to_hex(key),
            "`",
        ),
        EitherOr::B(phrase) => text::cat3("Pair a client with: `client keygen ", phrase, "`"),
    }
}

/// The key of a new server: the one that a phrase stands for, or a random one where
/// the phrase is blank. Blanks around the phrase do not count.
pub fn initial_key(phrase: &str) -> (r: Result<Vec<u8>, auth::NoEntropy>)
    requires
        vstd::utf8::encode_utf8(text::trimmed(phrase@)).len() <= 0xffff_ffff,
    ensures
        r matches Ok(key) ==> key@.len() == auth::KEY_LEN,
        text::trimmed(phrase@).len() > 0 ==> (r matches Ok(key) && key@ == auth::phrase_key(
            vstd::utf8::encode_utf8(text::trimmed(phrase@)),
        )),
        text::trimmed(phrase@).len() == 0 ==> auth::drawn(auth::KEY_LEN, r),
{
    let trimmed: String = text::trim(phrase);
    auth::hash_or_random(Some(trimmed.as_str()))
}

/// What is advised for a key: to derive it from the phrase, or to copy it where the
/// phrase is blank.
pub open spec fn advised_for(phrase: Seq<char>, key: Seq<u8>) -> EitherOr<Seq<u8>, Seq<char>> {
    if text::trimmed(phrase).len() == 0 {
        EitherOr::A(key)
    } else {
        EitherOr::B(phrase)
    }
}

/// What is advised once a new server is set up.
pub fn initial_advice(phrase: &str, key: &[u8]) -> (r: String)
    ensures
        r@ == advice(advised_for(phrase@, key@)),
{
    if text::trim(phrase).as_str().is_empty() {
        pairing_advice(EitherOr::A(key))
    } else {
        pairing_advice(EitherOr::B(phrase))
    }
}

/// Another key for a server, and what is advised then. One that is given counts
/// before a phrase; without either it is random.
pub fn new_key(phrase: Option<&str>, given: Option<&str>) -> (r: Result<
    (Vec<u8>, String),
    KeyError,
>)
    requires
        phrase matches Some(p) ==> vstd::utf8::encode_utf8(p@).len() <= 0xffff_ffff,
    ensures
        match r {
            Ok((key, said)) => {
                &&& key@.len() == auth::KEY_LEN
                &&& given matches Some(g) ==> auth::key_of_hex(g@) == Ok::<Seq<u8>, Seq<char>>(
                    key@,
                )
                &&& given is None && phrase is Some && phrase->0@.len() > 0 ==> key@
                    == auth::phrase_key(vstd::utf8::encode_utf8(phrase->0@))
                &&& given is None && (phrase is None || phrase->0@.len() == 0) ==> auth::drawn(
                    auth::KEY_LEN,
                    Ok(key),
                )
                &&& said@ == advice(
                    if given is None && phrase is Some && phrase->0@.len() > 0 {
                        EitherOr::B(phrase->0@)
                    } else {
                        EitherOr::A(key@)
                    },
                )
            },
            Err(KeyError::Given(m)) => given matches Some(g) && (auth::key_of_hex(g@) matches Err(e)
                && m@ == "--key: "@ + e),
            Err(KeyError::NoEntropy) => given is None && (phrase is None || phrase->0@.len() == 0)
                && auth::drawn(auth::KEY_LEN, Err(auth::NoEntropy)),
        },
{
    let (key, source): (Vec<u8>, KeySource) = match keygen::choose_key(phrase, given) {
        Ok(chosen) => chosen,
        Err(e) => {
            return Err(e);
        },
    };
    let said: String = match (phrase, source) {
        (Some(p), KeySource::Derived) => pairing_advice(EitherOr::B(p)),
        _ => pairing_advice(EitherOr::A(&key)),
    };
    Ok((key, said))
}

/// Whether a client that follows the advice has the key. The advice is a command line,
/// on which blanks around the phrase are not handed over.
pub open spec fn pairs(advised: EitherOr<Seq<u8>, Seq<char>>, key: Seq<u8>) -> bool {
    match advised {
        EitherOr::A(given) => auth::key_of_hex(auth::hex_text(given)) == Ok::<
            Seq<u8>,
            Seq<char>,
        >(key),
        EitherOr::B(phrase) => auth::phrase_key(
            vstd::utf8::encode_utf8(text::trimmed(phrase)),
        ) == key,
    }
}

/// Whoever follows the advice for a new server gets its key, whatever the phrase.
pub proof fn following_the_advice_pairs(phrase: Seq<char>, key: Seq<u8>)
    requires
        key.len() == auth::KEY_LEN,
        text::trimmed(phrase).len() > 0 ==> key == auth::phrase_key(
            vstd::utf8::encode_utf8(text::trimmed(phrase)),
        ),
    ensures
        pairs(advised_for(phrase, key), key),
{
    auth::hex_round_trips(key);
}

// ---- a server that runs already ------------------------------------------------------

/// A process, as far as it matters here.
#[derive(Debug, PartialEq, Eq)]
pub struct Process {
    pub pid: u32,
    /// The name of its program, where it is known.
    pub exe: Option<String>,
    /// What it was called with, its own name first.
    pub args: Vec<String>,
    /// Its directory, where it is known.
    pub cwd: Option<String>,
}

/// The path that an argument may stand for, seen from the process's own directory.
pub open spec fn meant_path(arg: Seq<char>, cwd: Option<Seq<char>>, platform: Platform) -> Option<
    Seq<char>,
> {
    if path::absolute(arg, platform) {
        Some(arg)
    } else {
        match cwd {
            Some(cwd) => Some(path::joined(cwd, arg, platform)),
            None => None,
        }
    }
}

pub fn arg_path(arg: &str, cwd: Option<&str>, platform: Platform) -> (r: Option<String>)
    ensures
        match r {
            Some(p) => meant_path(
                arg@,
                match cwd {
                    Some(c) => Some(c@),
                    None => None,
                },
                platform,
            ) == Some(p@),
            None => meant_path(
                arg@,
                match cwd {
                    Some(c) => Some(c@),
                    None => None,
                },
                platform,
            ) is None,
        },
{
    if path::is_absolute(arg, platform) {
        Some(arg.to_string())
    } else {
        match cwd {
            Some(cwd) => Some(path::join(cwd, arg, platform)),
            None => None,
        }
    }
}

/// Whether one of the paths is the target, whatever the case of its letters.
pub open spec fn names_target(paths: Seq<Option<String>>, target: Seq<char>, n: int) -> bool {
    exists|i: int|
        0 <= i < n && (#[trigger] paths[i] matches Some(p) && text::ascii_lowered(p@)
            == text::ascii_lowered(target))
}

/// Whether a process is another server with the same configuration: another process
/// of the same program that was called with it. `paths` are its arguments as
/// absolute paths, where they can be such.
pub open spec fn runaway(
    process: Process,
    my_pid: u32,
    my_exe: Option<String>,
    paths: Seq<Option<String>>,
    target: Seq<char>,
) -> bool {
    &&& process.pid != my_pid
    &&& process.exe matches Some(exe) && my_exe matches Some(mine) && exe@ == mine@
    &&& names_target(paths, target, paths.len() as int)
}

pub fn is_runaway(
    process: &Process,
    my_pid: u32,
    my_exe: &Option<String>,
    paths: &Vec<Option<String>>,
    target: &str,
) -> (r: bool)
    ensures
        r == runaway(*process, my_pid, *my_exe, paths@, target@),
{
    if process.pid == my_pid {
        return false;
    }
    let same_binary: bool = match (&process.exe, my_exe) {
        (Some(exe), Some(mine)) => text::same(exe, mine),
        _ => false,
    };
    if !same_binary {
        return false;
    }
    let mut i: usize = 0;
    while i < paths.len()
        invariant
            i <= paths.len(),
            process.pid != my_pid,
            process.exe matches Some(exe) && my_exe matches Some(mine) && exe@ == mine@,
            !names_target(paths@, target@, i as int),
        decreases paths.len() - i,
    {
        if let Some(p) = &paths[i] {
            if text::same_ignoring_case(p, target) {
                assert(paths@[i as int] matches Some(q) && text::ascii_lowered(q@)
                    == text::ascii_lowered(target@));
                return true;
            }
        }
        i = i + 1;
    }
    false
}

/// Whether `r` is a path made absolute, or the path itself where that cannot be.
pub open spec fn evened(
    way: Way,
    path: Seq<char>,
    r: Seq<char>,
) -> bool {
    exists|made: Result<String, String>|
        #[trigger] way(path, made) && r == (match made {
            Ok(p) => p@,
            Err(_) => path,
        })
}

pub open spec fn dir_of(process: Process) -> Option<Seq<char>> {
    match process.cwd {
        Some(cwd) => Some(cwd@),
        None => None,
    }
}

/// How many arguments a process has besides its own name.
pub open spec fn args_beyond_name(process: Process) -> int {
    if process.args@.len() == 0 {
        0
    } else {
        process.args@.len() - 1
    }
}

/// Whether these are the arguments of a process, but for its own name, as absolute
/// paths, where they can be such.
pub open spec fn are_paths(
    way: Way,
    process: Process,
    platform: Platform,
    paths: Seq<Option<String>>,
) -> bool {
    let cwd = dir_of(process);
    &&& paths.len() == args_beyond_name(process)
    &&& forall|i: int|
        0 <= i < paths.len() ==> match #[trigger] paths[i] {
            Some(p) => meant_path(process.args@[i + 1]@, cwd, platform) matches Some(meant)
                && evened(way, meant, p@),
            None => meant_path(process.args@[i + 1]@, cwd, platform) is None,
        }
}

/// Finds out whether a process is another server with this configuration. Both
/// sides are made absolute by `absolute`, which also evens out how separators are
/// written.
pub fn runs_with_by<F: Fn(&str) -> Result<String, String>>(
    absolute: F,
    process: &Process,
    my_pid: u32,
    my_exe: &Option<String>,
    config: &str,
    platform: Platform,
) -> (r: bool)
    requires
        forall|p: &str| absolute.requires((p,)),
    ensures
        exists|paths: Seq<Option<String>>, target: Seq<char>|
            are_paths(jail::way_of(absolute), *process, platform, paths) && evened(
                jail::way_of(absolute),
                config@,
                target,
            ) && r == #[trigger] runaway(*process, my_pid, *my_exe, paths, target),
{
    let target: String = absolute_or_as_is(&absolute, config);
    let cwd: Option<&str> = match &process.cwd {
        Some(cwd) => Some(cwd.as_str()),
        None => None,
    };
    let ghost own: Option<Seq<char>> = dir_of(*process);
    let mut paths: Vec<Option<String>> = Vec::new();
    let mut i: usize = 1;
    while i < process.args.len()
        invariant
            1 <= i,
            process.args@.len() > 1 ==> i <= process.args.len(),
            process.args@.len() <= 1 ==> i == 1,
            paths@.len() == i - 1,
            forall|p: &str| absolute.requires((p,)),
            own == (match cwd {
                Some(c) => Some(c@),
                None => None,
            }),
            forall|k: int|
                0 <= k < paths@.len() ==> match #[trigger] paths@[k] {
                    Some(p) => meant_path(process.args@[k + 1]@, own, platform) matches Some(
                        meant,
                    ) && evened(jail::way_of(absolute), meant, p@),
                    None => meant_path(process.args@[k + 1]@, own, platform) is None,
                },
        decreases process.args.len() - i,
    {
        let meant: Option<String> = match arg_path(&process.args[i], cwd, platform) {
            Some(p) => Some(absolute_or_as_is(&absolute, &p)),
            None => None,
        };
        paths.push(meant);
        i = i + 1;
    }
    let r: bool = is_runaway(process, my_pid, my_exe, &paths, &target);
    assert(are_paths(jail::way_of(absolute), *process, platform, paths@));
    assert(r == runaway(*process, my_pid, *my_exe, paths@, target@));
    r
}

fn absolute_or_as_is<F: Fn(&str) -> Result<String, String>>(absolute: &F, path: &str) -> (r: String)
    requires
        forall|p: &str| absolute.requires((p,)),
    ensures
        evened(jail::way_of(*absolute), path@, r@),
{
    let made: Result<String, String> = absolute(path);
    assert(jail::way_of(*absolute)(path@, made));
    match made {
        Ok(p) => p,
        Err(_) => path.to_string(),
    }
}

/// Finds out whether a process is another server with this configuration, with
/// paths made absolute as the system does it.
pub fn runs_with(
    process: &Process,
    my_pid: u32,
    my_exe: &Option<String>,
    config: &str,
    platform: Platform,
) -> (r: bool)
    ensures
        exists|paths: Seq<Option<String>>, target: Seq<char>|
            are_paths(jail::system_way(), *process, platform, paths) && evened(
                jail::system_way(),
                config@,
                target,
            ) && r == #[trigger] runaway(*process, my_pid, *my_exe, paths, target),
        r ==> process.pid != my_pid && (process.exe matches Some(exe) && my_exe matches Some(
            mine,
        ) && exe@ == mine@) && process.args@.len() > 1,
{
    proof {
        jail::system_is_absolute();
    }
    runs_with_by(jail::absolute, process, my_pid, my_exe, config, platform)
}

/// What is said of a server that was found running.
pub fn stop_report(pid: u32, killed: bool) -> (r: String)
    ensures
        r@ == if killed {
            "Killed the runaway server (pid "@ + text::decimal(pid as nat) + ")."@
        } else {
            "Found a runaway server (pid "@ + text::decimal(pid as nat)
                + ") but could not kill it."@
        },
{
    let number: String = text::decimal_of(pid as u128);
    if killed {
        text::cat3("Killed the runaway server (pid ", &number, ").")
    } else {
        text::cat3("Found a runaway server (pid ", &number, ") but could not kill it.")
    }
}

/// A key that nothing can derive is advised to be copied, in hexadecimal; one that a phrase
/// stands for is advised by that phrase.
pub proof fn advice_carries_the_key(phrase: Seq<char>, key: Seq<u8>)
    ensures
        advice(EitherOr::A(key)) == "This key is random, so nothing can re-derive it. Pair a client with:\n`client keygen --key "@
            + auth::hex_text(key) + "`"@,
        advice(EitherOr::B(phrase)) == "Pair a client with: `client keygen "@ + phrase + "`"@,
        text::trimmed(phrase).len() == 0 ==> advised_for(phrase, key) == EitherOr::<
            Seq<u8>,
            Seq<char>,
        >::A(key),
        text::trimmed(phrase).len() > 0 ==> advised_for(phrase, key) == EitherOr::<
            Seq<u8>,
            Seq<char>,
        >::B(phrase),
{
}

/// A runaway is another process, of the same program, that was called with the same
/// configuration; lacking any of these, it is none.
pub proof fn runaways_are_told_by_three_things(
    process: Process,
    my_pid: u32,
    my_exe: Option<String>,
    paths: Seq<Option<String>>,
    target: Seq<char>,
)
    ensures
        process.pid == my_pid ==> !runaway(process, my_pid, my_exe, paths, target),
        process.exe is None || my_exe is None ==> !runaway(
            process,
            my_pid,
            my_exe,
            paths,
            target,
        ),
        process.exe is Some && my_exe is Some && process.exe->0@ != my_exe->0@ ==> !runaway(
            process,
            my_pid,
            my_exe,
            paths,
            target,
        ),
        paths.len() == 0 ==> !runaway(process, my_pid, my_exe, paths, target),
        process.pid != my_pid && process.exe is Some && my_exe is Some && process.exe->0@
            == my_exe->0@ ==> (runaway(process, my_pid, my_exe, paths, target) <==> exists|i: int|
            0 <= i < paths.len() && (#[trigger] paths[i]) is Some && text::ascii_lowered(
                paths[i]->0@,
            ) == text::ascii_lowered(target)),
{
    if names_target(paths, target, paths.len() as int) {
        let i = choose|i: int|
            0 <= i < paths.len() && (#[trigger] paths[i] matches Some(p) && text::ascii_lowered(p@)
                == text::ascii_lowered(target));
        assert(paths[i] is Some);
    }
}

/// An argument that is no absolute path is seen from the directory of its process, and is
/// no path at all where that is not known.
pub proof fn arguments_are_seen_from_their_process(
    arg: Seq<char>,
    dir: Seq<char>,
    platform: Platform,
)
    ensures
        path::absolute(arg, platform) ==> meant_path(arg, Some(dir), platform) == Some(arg)
            && meant_path(arg, None, platform) == Some(arg),
        !path::absolute(arg, platform) ==> meant_path(arg, Some(dir), platform) == Some(
            path::joined(dir, arg, platform),
        ) && meant_path(arg, None, platform) is None,
{
}

/// A path made absolute is what the system makes of it, and where the system cannot, it
/// stays as it is.
pub proof fn paths_are_made_absolute_where_they_can_be(
    way: Way,
    path: Seq<char>,
    r: Seq<char>,
    made: String,
    why: String,
)
    ensures
        way(path, Ok(made)) ==> evened(way, path, made@),
        way(path, Err(why)) ==> evened(way, path, path),
        evened(way, path, r) && r != path ==> exists|m: String| #[trigger] way(path, Ok(m)) && r
            == m@,
        (forall|m: Result<String, String>| !#[trigger] way(path, m)) ==> !evened(way, path, r),
{
    if way(path, Ok(made)) {
        assert(way(path, Ok::<String, String>(made)));
    }
    if way(path, Err(why)) {
        assert(way(path, Err::<String, String>(why)));
    }
    if evened(way, path, r) && r != path {
        let m = choose|m: Result<String, String>|
            #[trigger] way(path, m) && r == (match m {
                Ok(p) => p@,
                Err(_) => path,
            });
        assert(way(path, Ok(m->Ok_0)));
    }
}

/// The arguments of a process that are looked at are all but its own name, in their order,
/// each seen from the directory of the process.
pub proof fn all_arguments_are_looked_at(
    way: Way,
    process: Process,
    platform: Platform,
    paths: Seq<Option<String>>,
    i: int,
)
    requires
        are_paths(way, process, platform, paths),
        1 <= i < process.args@.len(),
    ensures
        paths.len() == process.args@.len() - 1,
        paths[i - 1] is None <==> meant_path(
            process.args@[i]@,
            match process.cwd {
                Some(cwd) => Some(cwd@),
                None => None,
            },
            platform,
        ) is None,
        paths[i - 1] matches Some(p) ==> (meant_path(
            process.args@[i]@,
            match process.cwd {
                Some(cwd) => Some(cwd@),
                None => None,
            },
            platform,
        ) matches Some(meant) && evened(way, meant, p@)),
{
    assert(process.args@[(i - 1) + 1] == process.args@[i]);
    let seen = paths[i - 1];
    assert(seen is None || seen is Some);
}

} // verus!
