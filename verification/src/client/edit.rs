//! Editing a file in the user's editor.
//!
//! A local file is opened in place. A remote one is fetched, opened, and pushed
//! back only where the editor changed it, so that closing without saving cannot
//! clobber the file on the server.
use vstd::prelude::*;

use crate::client::browse::Side;
use crate::client::net::Endpoint;
use crate::path::Platform;
use crate::text;

verus! {

/// Everything that editing needs.
#[derive(Debug)]
pub struct EditRequest {
    pub endpoint: Endpoint,
    /// The side that the file is on.
    pub side: Side,
    /// Its path on that side.
    pub path: String,
    /// Its name, for messages.
    pub name: String,
}

/// A file's size and time of modification: enough to tell saved from closed.
#[derive(Clone, Copy, Debug, PartialEq, Eq, Structural)]
pub struct Fingerprint {
    pub size: u64,
    pub modified_ns: u128,
}

/// Whether a file changed between two looks at it. A file that cannot be looked
/// at is one that has no fingerprint.
pub fn changed(before: Option<Fingerprint>, after: Option<Fingerprint>) -> (r: bool)
    ensures
        r == (before != after),
{
    match (before, after) {
        (Some(a), Some(b)) => a.size != b.size || a.modified_ns != b.modified_ns,
        (None, None) => false,
        _ => true,
    }
}

/// What is said once the editor is done.
pub open spec fn summary(side: Side, name: Seq<char>, changed: bool) -> Seq<char> {
    match side {
        Side::Local => if changed {
            "edited '"@ + name + "'"@
        } else {
            "'"@ + name + "' unchanged"@
        },
        Side::Remote => if changed {
            "uploaded changes to '"@ + name + "'"@
        } else {
            "'"@ + name + "' unchanged — nothing uploaded"@
        },
    }
}

/// Whether the file has to be pushed back, and what is said.
pub fn run(request: &EditRequest, before: Option<Fingerprint>, after: Option<Fingerprint>) -> (r: (
    bool,
    String,
))
    ensures
        r.0 == (request.side == Side::Remote && before != after),
        r.1@ == summary(request.side, request.name@, before != after),
{
    let new: bool = changed(before, after);
    match request.side {
        Side::Local => (
            false,
            if new {
                text::cat3("edited '", &request.name, "'")
            } else {
                text::cat3("'", &request.name, "' unchanged")
            },
        ),
        Side::Remote => (
            new,
            if new {
                text::cat3("uploaded changes to '", &request.name, "'")
            } else {
                text::cat3("'", &request.name, "' unchanged — nothing uploaded")
            },
        ),
    }
}

/// Whether a value is set. A blank one is not.
pub open spec fn is_set(value: Option<Seq<char>>) -> bool {
    value matches Some(v) && text::trimmed(v).len() > 0
}

/// The editor that is configured: `VISUAL` where it is set, else `EDITOR` where that
/// is.
pub open spec fn configured(visual: Option<Seq<char>>, editor: Option<Seq<char>>) -> Option<Seq<char>> {
    if is_set(visual) {
        visual
    } else if is_set(editor) {
        editor
    } else {
        None
    }
}

fn when_set(value: Option<&str>) -> (r: Option<&str>)
    ensures
        r == (if is_set(opt_view(value)) {
            value
        } else {
            None
        }),
{
    match value {
        Some(v) => if text::trim(v).as_str().is_empty() {
            None
        } else {
            Some(v)
        },
        None => None,
    }
}

/// The program to run and its arguments, without the file. A configured value
/// may have arguments of its own; each platform has its own default otherwise,
/// such that its end can be waited for.
pub open spec fn editor_words(value: Option<Seq<char>>, platform: Platform) -> Seq<Seq<char>> {
    match value {
        Some(v) => {
            let w = text::words_of(v);
            if w.len() > 0 {
                w
            } else {
                seq![seq![]]
            }
        },
        None => match platform {
            Platform::Windows => seq!["cmd"@, "/C"@, "start"@, ""@, "/WAIT"@],
            Platform::MacOs => seq!["open"@, "-t"@, "-W"@, "-n"@],
            Platform::Unix => seq!["vi"@],
        },
    }
}

pub open spec fn opt_view(s: Option<&str>) -> Option<Seq<char>> {
    match s {
        Some(s) => Some(s@),
        None => None,
    }
}

/// The command that opens a file in the user's editor, program first.
pub fn editor_command(
    visual: Option<&str>,
    editor: Option<&str>,
    platform: Platform,
    file: &str,
) -> (r: Vec<String>)
    ensures
        text::views(r@) == editor_words(
            configured(opt_view(visual), opt_view(editor)),
            platform,
        ).push(file@),
{
    let value: Option<&str> = match when_set(visual) {
        Some(v) => Some(v),
        None => when_set(editor),
    };
    assert(opt_view(value) == configured(opt_view(visual), opt_view(editor)));
    let mut out: Vec<String> = match value {
        Some(v) => {
            let w: Vec<String> = text::words(v);
            assert(text::views(w@).len() == w@.len());
            if w.len() > 0 {
                w
            } else {
                let none: Vec<String> = vec![String::new()];
                assert(none@[0]@ =~= seq![]);
                assert(text::views(none@) =~= seq![Seq::<char>::empty()]);
                none
            }
        },
        None => {
            let words: Vec<String> = match platform {
                Platform::Windows => vec![
                    "cmd".to_string(),
                    "/C".to_string(),
                    "start".to_string(),
                    "".to_string(),
                    "/WAIT".to_string(),
                ],
                Platform::MacOs => vec![
                    "open".to_string(),
                    "-t".to_string(),
                    "-W".to_string(),
                    "-n".to_string(),
                ],
                Platform::Unix => vec!["vi".to_string()],
            };
            assert(text::views(words@) =~= editor_words(None, platform));
            words
        },
    };
    let ghost before = text::views(out@);
    out.push(file.to_string());
    assert(text::views(out@) =~= before.push(file@));
    out
}

/// Nothing is ever pushed to the server for a file that did not change, nor for
/// one that is local.
pub proof fn unchanged_files_stay(side: Side, before: Option<Fingerprint>, after: Option<Fingerprint>)
    requires
        side == Side::Local || before == after,
    ensures
        !(side == Side::Remote && before != after),
{
}

/// `VISUAL` comes before `EDITOR`, and either before the default of the platform; a blank
/// one counts as none.
pub proof fn configured_editors_come_first(
    visual: Option<Seq<char>>,
    editor: Option<Seq<char>>,
)
    ensures
        visual matches Some(v) && text::trimmed(v).len() > 0 ==> configured(visual, editor)
            == visual,
        !(visual matches Some(v) && text::trimmed(v).len() > 0) && (editor matches Some(e)
            && text::trimmed(e).len() > 0) ==> configured(visual, editor) == editor,
        !(visual matches Some(v) && text::trimmed(v).len() > 0) && !(editor matches Some(e)
            && text::trimmed(e).len() > 0) ==> configured(visual, editor) is None,
        configured(None, None) is None,
{
}

/// An editor is called by its first word, with the rest as its arguments; each platform
/// has a default of its own, which can be waited for.
pub proof fn editors_are_called_with_their_words(v: Seq<char>)
    ensures
        text::words_of(v).len() > 0 ==> editor_words(Some(v), Platform::Unix) == text::words_of(v)
            && editor_words(Some(v), Platform::Windows) == text::words_of(v) && editor_words(
            Some(v),
            Platform::MacOs,
        ) == text::words_of(v),
        editor_words(None, Platform::Unix) == seq!["vi"@],
        editor_words(None, Platform::MacOs) == seq!["open"@, "-t"@, "-W"@, "-n"@],
        editor_words(None, Platform::Windows) == seq!["cmd"@, "/C"@, "start"@, ""@, "/WAIT"@],
{
}

/// What is said tells whether the file changed, and for a remote one whether it was
/// uploaded.
pub proof fn edits_are_told(name: Seq<char>)
    ensures
        summary(Side::Local, name, true) == "edited '"@ + name + "'"@,
        summary(Side::Local, name, false) == "'"@ + name + "' unchanged"@,
        summary(Side::Remote, name, true) == "uploaded changes to '"@ + name + "'"@,
        summary(Side::Remote, name, false) == "'"@ + name + "' unchanged — nothing uploaded"@,
{
}

} // verus!
