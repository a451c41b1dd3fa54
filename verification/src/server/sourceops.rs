//! Bringing an instance's content in, wherever it comes from.
use vstd::prelude::*;

use crate::path::Platform;
use crate::protocol::instance::Source;
use crate::server::gitops;
use crate::{chance, path, text};

verus! {

/// How an instance's content comes about.
#[derive(Debug, PartialEq, Eq)]
pub enum Plan {
    /// Clone a repository to this place.
    Clone { url: String, branch: Option<String>, dest: String },
    /// Fetch what is behind an address to this place.
    Fetch { url: String, dest: String },
    /// There is nothing to do.
    Nothing,
    /// It does not come from here.
    Refuse(String),
}

/// What brings a source's content to a place.
pub open spec fn planned(source: Source, dest: Seq<char>, plan: Plan) -> bool {
    match source {
        Source::Git { url, branch } => plan matches Plan::Clone { url: u, branch: b, dest: d }
            && u@ == url@ && (match branch {
            Some(x) => b matches Some(y) && y@ == x@,
            None => b is None,
        }) && d@ == dest,
        Source::Url { url } => plan matches Plan::Fetch { url: u, dest: d } && u@ == url@ && d@
            == dest,
        Source::Upload { .. } => plan matches Plan::Refuse(why) && why@
            == "content is uploaded from a client; push it instead"@,
        Source::Empty => plan is Nothing,
        Source::Nothing => plan matches Plan::Refuse(why) && why@
            == "this instance has no source"@,
    }
}

/// What brings a source's content to `dest`, which need not exist yet.
pub fn materialize(source: &Source, dest: &str) -> (r: Plan)
    ensures
        planned(*source, dest@, r),
{
    match source {
        Source::Git { url, branch } => {
            let b: Option<String> = match branch {
                Some(b) => Some(b.clone()),
                None => None,
            };
            Plan::Clone { url: url.clone(), branch: b, dest: dest.to_string() }
        },
        Source::Url { url } => Plan::Fetch { url: url.clone(), dest: dest.to_string() },
        Source::Upload { .. } => Plan::Refuse(
            "content is uploaded from a client; push it instead".to_string(),
        ),
        Source::Nothing => Plan::Refuse("this instance has no source".to_string()),
        Source::Empty => Plan::Nothing,
    }
}

/// What brings a source's content in anew: to a place beside the old content, where
/// there is any to bring. The new then takes the place of the old.
pub fn update(source: &Source, repo_dir: &str, platform: Platform) -> (r: Plan)
    ensures
        planned(
            *source,
            path::beside(repo_dir@, "tmp"@, platform),
            r,
        ),
{
    materialize(source, &gitops::draft_of(repo_dir, platform))
}

// ---- what is behind an address -------------------------------------------------------

/// A text up to the first `?` or `#`.
pub open spec fn without_query(s: Seq<char>) -> Seq<char>
    decreases s.len(),
{
    if s.len() == 0 || s[0] == '?' || s[0] == '#' {
        seq![]
    } else {
        seq![s[0]] + without_query(s.skip(1))
    }
}

/// A text without the slashes at its end.
pub open spec fn without_slashes(s: Seq<char>) -> Seq<char>
    decreases s.len(),
{
    if s.len() > 0 && s.last() == '/' {
        without_slashes(s.drop_last())
    } else {
        s
    }
}

/// The last path segment of an address, its query and fragment taken off;
/// `download` where there is none.
pub open spec fn last_segment(url: Seq<char>) -> Seq<char> {
    let name = text::pieces(without_slashes(without_query(url)), '/').last();
    if name.len() == 0 {
        "download"@
    } else {
        name
    }
}

/// The name under which what is behind an address is stored.
pub fn url_file_name(url: &str) -> (r: String)
    ensures
        r@ == last_segment(url@),
{
    let chars = text::chars_of(url);
    let mut end: usize = 0;
    assert(chars@.skip(0) =~= chars@);
    assert(chars@.take(0) + without_query(chars@) =~= without_query(chars@));
    while end < chars.len() && chars[end] != '?' && chars[end] != '#'
        invariant
            end <= chars.len(),
            chars@ == url@,
            without_query(url@) == chars@.take(end as int) + without_query(chars@.skip(end as int)),
        decreases chars.len() - end,
    {
        let ghost rest = chars@.skip(end as int);
        assert(rest.skip(1) =~= chars@.skip(end + 1));
        assert(chars@.take(end as int) + (seq![rest[0]] + without_query(rest.skip(1)))
            =~= chars@.take(end + 1) + without_query(chars@.skip(end + 1)));
        end = end + 1;
    }
    assert(without_query(chars@.skip(end as int)) =~= seq![]);
    assert(without_query(url@) =~= chars@.take(end as int));
    while end > 0 && chars[end - 1] == '/'
        invariant
            end <= chars.len(),
            chars@ == url@,
            without_slashes(without_query(url@)) == without_slashes(chars@.take(end as int)),
        decreases end,
    {
        assert(chars@.take(end as int).drop_last() =~= chars@.take(end - 1));
        end = end - 1;
    }
    let path: String = text::string_of(&chars[0..end]);
    assert(path@ =~= chars@.take(end as int));
    let segments = text::split(&path, '/');
    proof {
        text::pieces_are_some(path@, '/');
        assert(text::views(segments@).len() == segments@.len());
        assert(text::views(segments@).last() == segments@.last()@);
    }
    let last: &String = &segments[segments.len() - 1];
    if last.as_str().is_empty() {
        "download".to_string()
    } else {
        last.clone()
    }
}

/// What kind of file a name stands for.
#[derive(Clone, Copy, Debug, PartialEq, Eq, Structural)]
pub enum ArchiveKind {
    TarGz,
    Tar,
    Zip,
    /// No archive: it is kept as it is.
    Plain,
}

/// Whether a text ends in another.
pub open spec fn ends_in(s: Seq<char>, tail: Seq<char>) -> bool {
    s.len() >= tail.len() && s.skip(s.len() - tail.len()) == tail
}

fn ends_with(s: &Vec<char>, tail: &str) -> (r: bool)
    ensures
        r == ends_in(s@, tail@),
{
    let t = text::chars_of(tail);
    if s.len() < t.len() {
        return false;
    }
    let from: usize = s.len() - t.len();
    let mut i: usize = 0;
    while i < t.len()
        invariant
            i <= t.len(),
            t@ == tail@,
            from + t.len() == s.len(),
            forall|k: int| 0 <= k < i ==> s@[from + k] == t@[k],
        decreases t.len() - i,
    {
        if s[from + i] != t[i] {
            assert(s@.skip(from as int)[i as int] != tail@[i as int]);
            return false;
        }
        i = i + 1;
    }
    assert(s@.skip(from as int) =~= tail@);
    true
}

/// The kind of file that a name in lower case stands for.
pub open spec fn kind_of(lower: Seq<char>) -> ArchiveKind {
    if ends_in(lower, ".tar.gz"@) || ends_in(lower, ".tgz"@) {
        ArchiveKind::TarGz
    } else if ends_in(lower, ".tar"@) {
        ArchiveKind::Tar
    } else if ends_in(lower, ".zip"@) {
        ArchiveKind::Zip
    } else {
        ArchiveKind::Plain
    }
}

impl ArchiveKind {
    /// The kind of file that a name in lower case stands for.
    pub fn of_lower(lower: &str) -> (r: ArchiveKind)
        ensures
            r == kind_of(lower@),
    {
        let chars = text::chars_of(lower);
        if ends_with(&chars, ".tar.gz") || ends_with(&chars, ".tgz") {
            ArchiveKind::TarGz
        } else if ends_with(&chars, ".tar") {
            ArchiveKind::Tar
        } else if ends_with(&chars, ".zip") {
            ArchiveKind::Zip
        } else {
            ArchiveKind::Plain
        }
    }

    /// The kind of file that a name stands for, whatever the case of its letters.
    pub fn of(name: &str) -> (r: ArchiveKind)
        ensures
            r == kind_of(text::lowercase(name@)),
    {
        let lower: String = text::to_lowercase(name);
        ArchiveKind::of_lower(&lower)
    }

    /// What a failed unpacking is called.
    pub fn unpack_error(&self, why: &str) -> (r: String)
        requires
            *self != ArchiveKind::Plain,
        ensures
            r@ == (match *self {
                ArchiveKind::TarGz => "unpacking tar.gz: "@,
                ArchiveKind::Tar => "unpacking tar: "@,
                _ => "unpacking zip: "@,
            }) + why@,
    {
        match self {
            ArchiveKind::TarGz => text::cat2("unpacking tar.gz: ", why),
            ArchiveKind::Tar => text::cat2("unpacking tar: ", why),
            _ => text::cat2("unpacking zip: ", why),
        }
    }
}

/// How what is behind an address is fetched.
#[derive(Debug, PartialEq, Eq)]
pub struct FetchPlan {
    pub kind: ArchiveKind,
    /// Where a plain file is stored.
    pub target: String,
    /// Where the download is kept meanwhile: an archive is read twice, and a plain
    /// file must not stand under its own name half-written.
    pub tmp: String,
}

/// The place of a download meanwhile.
pub open spec fn download_path(temp_dir: Seq<char>, number: u64, platform: Platform) -> Seq<char> {
    path::joined(temp_dir, "chld-fetch-"@ + text::hex(number as nat, 16), platform)
}

/// Plans to fetch what is behind an address into a directory: an archive is
/// unpacked there, anything else is stored there under its own name.
pub fn fetch_url(url: &str, dest: &str, temp_dir: &str, platform: Platform) -> (r: FetchPlan)
    ensures
        r.kind == kind_of(text::lowercase(last_segment(url@))),
        r.target@ == path::joined(dest@, last_segment(url@), platform),
        exists|drawn: u128|
            #[trigger] chance::drawn(drawn) && r.tmp@ == download_path(
                temp_dir@,
                (drawn % 0x1_0000_0000_0000_0000) as u64,
                platform,
            ),
{
    let name: String = url_file_name(url);
    let drawn: u128 = chance::number();
    let number: u64 = (drawn % 0x1_0000_0000_0000_0000) as u64;
    let draft: String = text::cat2("chld-fetch-", &text::hex_of(number as u128, 16));
    let tmp: String = path::join(temp_dir, &draft, platform);
    assert(tmp@ == download_path(temp_dir@, number, platform));
    FetchPlan { kind: ArchiveKind::of(&name), target: path::join(dest, &name, platform), tmp }
}

/// What is behind an address never gets a name with a `/` in it, nor none at all:
/// it is stored right in the directory.
pub proof fn downloads_have_plain_names(url: Seq<char>)
    ensures
        last_segment(url).len() > 0,
        forall|i: int| 0 <= i < last_segment(url).len() ==> last_segment(url)[i] != '/',
{
    let path = without_slashes(without_query(url));
    text::pieces_are_some(path, '/');
    pieces_hold_no_separator(path, '/');
    reveal_strlit("download");
    let all = text::pieces(path, '/');
    assert forall|i: int| 0 <= i < last_segment(url).len() implies last_segment(url)[i] != '/' by {
        if all.last().len() > 0 {
            assert(all[all.len() - 1][i] != '/');
        }
    }
}

proof fn pieces_hold_no_separator(s: Seq<char>, sep: char)
    ensures
        forall|k: int, i: int|
            0 <= k < text::pieces(s, sep).len() && 0 <= i < text::pieces(s, sep)[k].len()
                ==> #[trigger] text::pieces(s, sep)[k][i] != sep,
    decreases s.len(),
{
    if s.len() > 0 {
        pieces_hold_no_separator(s.drop_last(), sep);
        text::pieces_are_some(s.drop_last(), sep);
    }
}

/// Content comes in the way its source says: a repository is cloned, with its branch; an
/// address is fetched; nothing is done for what is empty; and what is uploaded, or has no
/// source, is refused with the reason.
pub proof fn sources_are_brought_in_their_way(source: Source, dest: Seq<char>, plan: Plan)
    requires
        planned(source, dest, plan),
    ensures
        source matches Source::Git { url, branch } ==> (plan matches Plan::Clone {
            url: u,
            branch: b,
            dest: d,
        } && u@ == url@ && d@ == dest && (branch is Some <==> b is Some) && (branch matches Some(
            x,
        ) ==> b->0@ == x@)),
        source matches Source::Url { url } ==> (plan matches Plan::Fetch { url: u, dest: d } && u@
            == url@ && d@ == dest),
        source is Empty <==> plan is Nothing,
        source is Upload ==> (plan matches Plan::Refuse(why) && why@
            == "content is uploaded from a client; push it instead"@),
        source is Nothing ==> (plan matches Plan::Refuse(why) && why@
            == "this instance has no source"@),
{
}

/// What kind of archive a name stands for is told by its ending.
pub proof fn endings_tell_the_kind(stem: Seq<char>)
    ensures
        kind_of(stem + ".tar.gz"@) == ArchiveKind::TarGz,
        kind_of(stem + ".tgz"@) == ArchiveKind::TarGz,
        kind_of(stem + ".tar"@) == ArchiveKind::Tar,
        kind_of(stem + ".zip"@) == ArchiveKind::Zip,
        kind_of(stem + ".exe"@) == ArchiveKind::Plain,
        kind_of(stem) == ArchiveKind::TarGz ==> ends_in(stem, ".tar.gz"@) || ends_in(stem, ".tgz"@),
        kind_of(stem) == ArchiveKind::Tar ==> ends_in(stem, ".tar"@),
        kind_of(stem) == ArchiveKind::Zip ==> ends_in(stem, ".zip"@),
{
    reveal_strlit(".tar.gz");
    reveal_strlit(".tgz");
    reveal_strlit(".tar");
    reveal_strlit(".zip");
    reveal_strlit(".exe");
    let a = stem + ".tar.gz"@;
    assert(a.skip(a.len() - 7) =~= ".tar.gz"@);
    let b = stem + ".tgz"@;
    assert(b.skip(b.len() - 4) =~= ".tgz"@);
    let c = stem + ".tar"@;
    assert(c.skip(c.len() - 4) =~= ".tar"@);
    assert(c.last() == 'r');
    assert(!ends_in(c, ".tar.gz"@) && !ends_in(c, ".tgz"@)) by {
        if ends_in(c, ".tar.gz"@) {
            assert(c.skip(c.len() - 7)[6] == 'z');
        }
        if ends_in(c, ".tgz"@) {
            assert(c.skip(c.len() - 4)[3] == 'z');
        }
    }
    let d = stem + ".zip"@;
    assert(d.skip(d.len() - 4) =~= ".zip"@);
    assert(d.last() == 'p');
    assert(!ends_in(d, ".tar.gz"@) && !ends_in(d, ".tgz"@) && !ends_in(d, ".tar"@)) by {
        if ends_in(d, ".tar.gz"@) {
            assert(d.skip(d.len() - 7)[6] == 'z');
        }
        if ends_in(d, ".tgz"@) {
            assert(d.skip(d.len() - 4)[3] == 'z');
        }
        if ends_in(d, ".tar"@) {
            assert(d.skip(d.len() - 4)[3] == 'r');
        }
    }
    let e = stem + ".exe"@;
    assert(e.last() == 'e');
    assert(!ends_in(e, ".tar.gz"@) && !ends_in(e, ".tgz"@) && !ends_in(e, ".tar"@) && !ends_in(
        e,
        ".zip"@,
    )) by {
        if ends_in(e, ".tar.gz"@) {
            assert(e.skip(e.len() - 7)[6] == 'z');
        }
        if ends_in(e, ".tgz"@) {
            assert(e.skip(e.len() - 4)[3] == 'z');
        }
        if ends_in(e, ".tar"@) {
            assert(e.skip(e.len() - 4)[3] == 'r');
        }
        if ends_in(e, ".zip"@) {
            assert(e.skip(e.len() - 4)[3] == 'p');
        }
    }
}

/// A query or a fragment is no part of a name, nor are slashes behind it.
pub proof fn queries_are_no_part_of_a_name(plain: Seq<char>, rest: Seq<char>)
    requires
        forall|i: int| 0 <= i < plain.len() ==> #[trigger] plain[i] != '?' && plain[i] != '#',
    ensures
        without_query(plain) == plain,
        without_query(plain + seq!['?'] + rest) == plain,
        without_query(plain + seq!['#'] + rest) == plain,
        last_segment(plain + seq!['?'] + rest) == last_segment(plain),
        without_slashes(plain + seq!['/']) == without_slashes(plain),
        plain.len() > 0 && plain.last() != '/' ==> without_slashes(plain) == plain,
    decreases plain.len(),
{
    let a = plain + seq!['?'] + rest;
    let b = plain + seq!['#'] + rest;
    if plain.len() > 0 {
        let next = plain.skip(1);
        assert forall|i: int| 0 <= i < next.len() implies #[trigger] next[i] != '?' && next[i]
            != '#' by {
            assert(next[i] == plain[i + 1]);
        }
        queries_are_no_part_of_a_name(next, rest);
        assert(plain[0] != '?' && plain[0] != '#');
        assert(a.skip(1) =~= next + seq!['?'] + rest);
        assert(b.skip(1) =~= next + seq!['#'] + rest);
        assert(seq![plain[0]] + next =~= plain);
    } else {
        assert(plain =~= seq![]);
        assert(a[0] == '?' && b[0] == '#');
    }
    assert((plain + seq!['/']).drop_last() =~= plain);
}

/// Downloads wait under names of their own in the temporary directory: the number tells them
/// apart.
pub proof fn downloads_wait_in_the_temporary_directory(
    temp_dir: Seq<char>,
    number: u64,
    platform: Platform,
)
    requires
        platform != Platform::Windows,
        temp_dir.len() > 0,
        temp_dir.last() != '/',
    ensures
        download_path(temp_dir, number, platform) == temp_dir.push('/') + "chld-fetch-"@ + text::hex(
            number as nat,
            16,
        ),
{
    reveal_strlit("chld-fetch-");
    let name = "chld-fetch-"@ + text::hex(number as nat, 16);
    assert(name[0] == 'c');
    assert(temp_dir.push('/') + name =~= temp_dir.push('/') + "chld-fetch-"@ + text::hex(
        number as nat,
        16,
    ));
}

} // verus!
