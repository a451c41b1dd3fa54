//! The form in which an instance is created or edited: its fields, and the
//! reading that turns flat text back into typed values.
use vstd::prelude::*;

use crate::client::form::{Field, Form};
use crate::client::form;
use crate::order;
use crate::order::Rank;
use crate::path;
use crate::path::Platform;
use crate::protocol::instance::{Env, InstanceConfig, RetryPolicy, Source};
use crate::protocol::instance;
use crate::{assoc, text};

verus! {

pub const NAME: usize = 0;

pub const SOURCE: usize = 1;

pub const LOCATION: usize = 2;

pub const BRANCH: usize = 3;

pub const COMMAND: usize = 4;

pub const ARGS: usize = 5;

pub const ENV: usize = 6;

pub const AUTOSTART: usize = 7;

pub const POLICY: usize = 8;

pub const RETRIES: usize = 9;

// ---- arguments ---------------------------------------------------------------------

/// Where reading a command line stands.
#[verifier::ext_equal]
pub struct ArgScan {
    pub args: Seq<Seq<char>>,
    pub current: Seq<char>,
    pub quoted: bool,
    pub started: bool,
}

/// One character further. A quotation mark groups, and starts an argument even
/// where that stays empty; white space outside quotes ends one.
pub open spec fn arg_step(s: ArgScan, c: char) -> ArgScan {
    if c == '"' {
        ArgScan { quoted: !s.quoted, started: true, ..s }
    } else if text::white_space(c) && !s.quoted {
        if s.started {
            ArgScan { args: s.args.push(s.current), current: seq![], started: false, ..s }
        } else {
            s
        }
    } else {
        ArgScan { current: s.current.push(c), started: true, ..s }
    }
}

pub open spec fn arg_scan(from: ArgScan, line: Seq<char>) -> ArgScan
    decreases line.len(),
{
    if line.len() == 0 {
        from
    } else {
        arg_step(arg_scan(from, line.drop_last()), line.last())
    }
}

pub open spec fn no_args() -> ArgScan {
    ArgScan { args: seq![], current: seq![], quoted: false, started: false }
}

/// The arguments that a command line spells.
pub open spec fn args_of(line: Seq<char>) -> Seq<Seq<char>> {
    let end = arg_scan(no_args(), line);
    if end.started {
        end.args.push(end.current)
    } else {
        end.args
    }
}

/// Reads arguments: separated by white space, grouped by quotation marks.
pub fn parse_args(line: &str) -> (r: Vec<String>)
    ensures
        text::views(r@) == args_of(line@),
{
    let chars = text::chars_of(line);
    let mut args: Vec<String> = Vec::new();
    let mut current: String = String::new();
    let mut quoted: bool = false;
    let mut started: bool = false;
    let mut i: usize = 0;
    assert(text::views(args@) =~= seq![]);
    assert(current@ =~= seq![]);
    assert(chars@.take(0) =~= seq![]);
    while i < chars.len()
        invariant
            chars@ == line@,
            i <= chars.len(),
            arg_scan(no_args(), chars@.take(i as int)) == (ArgScan {
                args: text::views(args@),
                current: current@,
                quoted,
                started,
            }),
        decreases chars.len() - i,
    {
        let c: char = chars[i];
        assert(chars@.take(i as int + 1).drop_last() =~= chars@.take(i as int));
        if c == '"' {
            quoted = !quoted;
            started = true;
        } else if text::is_white_space(c) && !quoted {
            if started {
                let ghost before = text::views(args@);
                let ghost word = current@;
                args.push(current);
                assert(text::views(args@) =~= before.push(word));
                current = String::new();
                assert(current@ =~= seq![]);
                started = false;
            }
        } else {
            current.push(c);
            started = true;
        }
        i = i + 1;
    }
    assert(chars@.take(i as int) =~= chars@);
    if started {
        let ghost before = text::views(args@);
        let ghost word = current@;
        args.push(current);
        assert(text::views(args@) =~= before.push(word));
    }
    args
}

/// Whether white space stands in a text.
pub open spec fn spaced(s: Seq<char>) -> bool {
    exists|i: int| 0 <= i < s.len() && text::white_space(#[trigger] s[i])
}

/// An argument as it is written: in quotes where it holds white space.
pub open spec fn arg_written(arg: Seq<char>) -> Seq<char> {
    if spaced(arg) {
        "\""@ + arg + "\""@
    } else {
        arg
    }
}

/// Arguments on one line.
pub open spec fn args_written(args: Seq<Seq<char>>) -> Seq<char> {
    text::joined(args.map_values(|a: Seq<char>| arg_written(a)), " "@)
}

fn is_spaced(s: &str) -> (r: bool)
    ensures
        r == spaced(s@),
{
    let chars = text::chars_of(s);
    let mut i: usize = 0;
    while i < chars.len()
        invariant
            chars@ == s@,
            i <= chars.len(),
            forall|k: int| 0 <= k < i ==> !text::white_space(#[trigger] chars@[k]),
        decreases chars.len() - i,
    {
        if text::is_white_space(chars[i]) {
            return true;
        }
        i = i + 1;
    }
    false
}

/// Writes arguments on one line.
pub fn fmt_args(args: &Vec<String>) -> (r: String)
    ensures
        r@ == args_written(text::views(args@)),
{
    let mut out: Vec<String> = Vec::new();
    let mut i: usize = 0;
    while i < args.len()
        invariant
            i <= args.len(),
            out@.len() == i,
            forall|k: int| 0 <= k < i ==> (#[trigger] out@[k])@ == arg_written(args@[k]@),
        decreases args.len() - i,
    {
        let word: String = if is_spaced(&args[i]) {
            text::cat3("\"", &args[i], "\"")
        } else {
            args[i].clone()
        };
        out.push(word);
        i = i + 1;
    }
    assert(text::views(out@) =~= text::views(args@).map_values(|a: Seq<char>| arg_written(a)));
    text::join(&out, " ")
}

// ---- environment -------------------------------------------------------------------

/// Where a character first stands, from `from` on; the length where it does not.
pub open spec fn first_at(s: Seq<char>, c: char, from: int) -> int
    decreases s.len() - from,
{
    if 0 <= from < s.len() && s[from] != c {
        first_at(s, c, from + 1)
    } else {
        from
    }
}

/// An entry as a name and a value: what stands before the first equals sign,
/// trimmed and not empty, and what stands after it.
pub open spec fn key_value(entry: Seq<char>) -> Option<(Seq<char>, Seq<char>)> {
    let at = first_at(entry, '=', 0);
    if at < entry.len() && text::trimmed(entry.take(at)).len() > 0 {
        Some((text::trimmed(entry.take(at)), entry.skip(at + 1)))
    } else {
        None
    }
}

pub open spec fn not_key_value(entry: Seq<char>) -> Seq<char> {
    "'"@ + entry + "' is not KEY=VALUE"@
}

/// What the first `n` pieces set, or what is said of the first that sets
/// nothing. Empty pieces are passed over.
pub open spec fn env_of(pieces: Seq<Seq<char>>, n: int) -> Result<
    Map<Seq<char>, Seq<char>>,
    Seq<char>,
>
    decreases n,
{
    if n <= 0 {
        Ok(Map::empty())
    } else {
        match env_of(pieces, n - 1) {
            Err(e) => Err(e),
            Ok(m) => {
                let entry = text::trimmed(pieces[n - 1]);
                if entry.len() == 0 {
                    Ok(m)
                } else {
                    match key_value(entry) {
                        Some((k, v)) => Ok(m.insert(k, v)),
                        None => Err(not_key_value(entry)),
                    }
                }
            },
        }
    }
}

/// What a line of settings says.
pub open spec fn env_read(line: Seq<char>) -> Result<Map<Seq<char>, Seq<char>>, Seq<char>> {
    let pieces = text::pieces(line, ';');
    env_of(pieces, pieces.len() as int)
}

proof fn env_errors_stay(pieces: Seq<Seq<char>>, n: int, m: int)
    requires
        n <= m,
        env_of(pieces, n) is Err,
    ensures
        env_of(pieces, m) == env_of(pieces, n),
    decreases m - n,
{
    if n < m {
        env_errors_stay(pieces, n, m - 1);
    }
}

fn split_entry(entry: &str) -> (r: Option<(String, String)>)
    ensures
        match r {
            Some((k, v)) => key_value(entry@) == Some((k@, v@)),
            None => key_value(entry@) is None,
        },
{
    let chars = text::chars_of(entry);
    let mut at: usize = 0;
    while at < chars.len() && chars[at] != '='
        invariant
            chars@ == entry@,
            at <= chars.len(),
            first_at(entry@, '=', 0) == first_at(entry@, '=', at as int),
        decreases chars.len() - at,
    {
        at = at + 1;
    }
    if at == chars.len() {
        return None;
    }
    let key: Vec<char> = text::trim_chars(&chars[0..at]);
    assert(entry@.subrange(0, at as int) =~= entry@.take(at as int));
    if key.len() == 0 {
        return None;
    }
    let value: String = text::string_of(&chars[at + 1..chars.len()]);
    assert(value@ =~= entry@.skip(at as int + 1));
    Some((text::string_of(&key), value))
}

/// Reads settings: `KEY=VALUE; KEY=VALUE`.
pub fn parse_env(line: &str) -> (r: Result<Env, String>)
    ensures
        match r {
            Ok(env) => env.wf() && env_read(line@) == Ok::<_, Seq<char>>(env@),
            Err(e) => env_read(line@) == Err::<Map<Seq<char>, Seq<char>>, _>(e@),
        },
{
    let found = text::split(line, ';');
    let ghost pieces = text::pieces(line@, ';');
    let mut env: Env = Env::new();
    let mut i: usize = 0;
    while i < found.len()
        invariant
            i <= found.len(),
            pieces == text::pieces(line@, ';'),
            text::views(found@) == pieces,
            env.wf(),
            env_of(pieces, i as int) == Ok::<_, Seq<char>>(env@),
        decreases found.len() - i,
    {
        assert(pieces[i as int] == found@[i as int]@);
        let entry: String = text::trim(&found[i]);
        if !entry.as_str().is_empty() {
            match split_entry(&entry) {
                Some((key, value)) => {
                    env.insert(key, value);
                },
                None => {
                    proof {
                        env_errors_stay(pieces, i as int + 1, pieces.len() as int);
                    }
                    return Err(text::cat3("'", &entry, "' is not KEY=VALUE"));
                },
            }
        }
        i = i + 1;
    }
    assert(pieces.len() == found@.len());
    Ok(env)
}

impl Rank for (String, String) {
    open spec fn before(&self, other: &(String, String)) -> bool {
        text::precedes(self.0@, other.0@)
    }

    fn comes_before(&self, other: &(String, String)) -> (r: bool) {
        text::comes_before(&self.0, &other.0)
    }
}

/// One setting as it is written.
pub open spec fn setting(e: (Seq<char>, Seq<char>)) -> Seq<char> {
    e.0 + "="@ + e.1
}

/// Settings on one line.
pub open spec fn settings(pairs: Seq<(Seq<char>, Seq<char>)>) -> Seq<char> {
    text::joined(pairs.map_values(|e: (Seq<char>, Seq<char>)| setting(e)), "; "@)
}

/// Writes settings on one line, sorted by name, so that writing them twice does
/// not shuffle them.
pub fn fmt_env(env: &Env) -> (r: String)
    ensures
        r@ == settings(instance::env_pairs(order::sorted(env.entries@))),
{
    let mut copy: Vec<(String, String)> = Vec::new();
    let mut i: usize = 0;
    while i < env.entries.len()
        invariant
            i <= env.entries.len(),
            copy@ == env.entries@.take(i as int),
        decreases env.entries.len() - i,
    {
        let pair = (env.entries[i].0.clone(), env.entries[i].1.clone());
        assert(pair == env.entries@[i as int]);
        copy.push(pair);
        i = i + 1;
        assert(env.entries@.take(i as int) =~= env.entries@.take(i - 1).push(
            env.entries@[i - 1],
        ));
    }
    assert(env.entries@.take(i as int) =~= env.entries@);
    let ordered: Vec<(String, String)> = order::sort(copy);
    let mut out: Vec<String> = Vec::new();
    let mut j: usize = 0;
    while j < ordered.len()
        invariant
            j <= ordered.len(),
            out@.len() == j,
            forall|k: int|
                0 <= k < j ==> (#[trigger] out@[k])@ == setting(
                    (ordered@[k].0@, ordered@[k].1@),
                ),
        decreases ordered.len() - j,
    {
        out.push(text::cat3(&ordered[j].0, "=", &ordered[j].1));
        j = j + 1;
    }
    assert(text::views(out@) =~= instance::env_pairs(ordered@).map_values(
        |e: (Seq<char>, Seq<char>)| setting(e),
    ));
    text::join(&out, "; ")
}

// ---- the form ----------------------------------------------------------------------

pub open spec fn text_entry(label: Seq<char>, value: Seq<char>) -> form::Entry {
    form::Entry {
        label,
        kind: form::Content::Text { value, cursor: value.len() as int },
        hint: None,
    }
}

pub open spec fn select_entry(label: Seq<char>, options: Seq<Seq<char>>, index: int) -> form::Entry {
    form::Entry { label, kind: form::Content::Select { options, index }, hint: None }
}

pub open spec fn hinted(e: form::Entry, hint: Seq<char>) -> form::Entry {
    form::Entry { hint: Some(hint), ..e }
}

pub open spec fn policies() -> Seq<Seq<char>> {
    seq!["Never"@, "OnCrash"@, "Always"@, "Retry"@]
}

pub open spec fn sources() -> Seq<Seq<char>> {
    seq!["Git"@, "URL"@, "Upload"@, "Empty"@]
}

/// The place of a policy on the list.
pub open spec fn policy_index(policy: RetryPolicy) -> int {
    match policy {
        RetryPolicy::Never => 0,
        RetryPolicy::OnCrash => 1,
        RetryPolicy::Always => 2,
        RetryPolicy::Retry(_) => 3,
    }
}

/// The retry limit as it is written; empty where the policy has none.
pub open spec fn retries_text(policy: RetryPolicy) -> Seq<char> {
    match policy {
        RetryPolicy::Retry(n) => text::decimal(n as nat),
        _ => seq![],
    }
}

/// The place of a source on the list. An empty source has its own place, so
/// that reopening the form does not turn it into a git one.
pub open spec fn source_index(source: instance::Origin) -> int {
    match source {
        instance::Origin::Git { .. } => 0,
        instance::Origin::Nothing => 0,
        instance::Origin::Url { .. } => 1,
        instance::Origin::Upload { .. } => 2,
        instance::Origin::Empty => 3,
    }
}

pub open spec fn location_text(source: instance::Origin) -> Seq<char> {
    match source {
        instance::Origin::Git { url, .. } => url,
        instance::Origin::Url { url } => url,
        instance::Origin::Upload { desc } => desc,
        _ => seq![],
    }
}

pub open spec fn branch_text(source: instance::Origin) -> Seq<char> {
    match source {
        instance::Origin::Git { branch: Some(b), .. } => b,
        _ => seq![],
    }
}

pub open spec fn location_hint(source: instance::Origin) -> Seq<char> {
    match source {
        instance::Origin::Git { .. } => "git url"@,
        instance::Origin::Url { .. } => "download url"@,
        instance::Origin::Upload { .. } => "local path"@,
        instance::Origin::Empty => "unused — an Empty source has no location"@,
        instance::Origin::Nothing => "git url, download url or a local path - or nothing"@,
    }
}

/// What the form starts from.
#[verifier::ext_equal]
pub struct Details {
    pub name: Seq<char>,
    pub source: instance::Origin,
    pub command: Seq<char>,
    pub args: Seq<char>,
    pub env: Seq<char>,
    pub autostart: bool,
    pub retry_policy: RetryPolicy,
}

/// What an existing instance puts into the form; a new one starts empty.
pub open spec fn details_of(existing: Option<&InstanceConfig>) -> Details {
    match existing {
        Some(c) => Details {
            name: c.name@,
            source: c.source@,
            command: c.command@,
            args: args_written(text::views(c.args@)),
            env: settings(instance::env_pairs(order::sorted(c.env.entries@))),
            autostart: c.autostart,
            retry_policy: c.retry_policy,
        },
        None => Details {
            name: seq![],
            source: instance::Origin::Nothing,
            command: seq![],
            args: seq![],
            env: seq![],
            autostart: false,
            retry_policy: RetryPolicy::Never,
        },
    }
}

pub open spec fn form_entries(d: Details) -> Seq<form::Entry> {
    seq![
        text_entry("Name"@, d.name),
        select_entry("Source"@, sources(), source_index(d.source)),
        hinted(text_entry("Location"@, location_text(d.source)), location_hint(d.source)),
        hinted(text_entry("Branch"@, branch_text(d.source)), "git only, blank = the repo's default"@),
        text_entry("Command"@, d.command),
        hinted(text_entry("Arguments"@, d.args), "space separated, \"quote\" to group"@),
        hinted(text_entry("Environment"@, d.env), "KEY=VALUE; KEY=VALUE"@),
        form::Entry {
            label: "Autostart"@,
            kind: form::Content::Toggle(d.autostart),
            hint: Some("start with the server"@),
        },
        select_entry("Restart policy"@, policies(), policy_index(d.retry_policy)),
        hinted(
            text_entry("Retry limit"@, retries_text(d.retry_policy)),
            "only used by the Retry policy"@,
        ),
    ]
}

/// The form as it opens.
pub open spec fn form_for(existing: Option<&InstanceConfig>) -> form::Sheet {
    form::Sheet {
        title: match existing {
            Some(c) => "Edit instance · "@ + c.name@,
            None => "New instance"@,
        },
        fields: form_entries(details_of(existing)),
        focus: 0,
        error: None,
    }
}

fn source_options() -> (r: Vec<String>)
    ensures
        text::views(r@) == sources(),
{
    let out: Vec<String> = vec![
        "Git".to_string(),
        "URL".to_string(),
        "Upload".to_string(),
        "Empty".to_string(),
    ];
    assert(text::views(out@) =~= sources());
    out
}

fn policy_options() -> (r: Vec<String>)
    ensures
        text::views(r@) == policies(),
{
    let out: Vec<String> = vec![
        "Never".to_string(),
        "OnCrash".to_string(),
        "Always".to_string(),
        "Retry".to_string(),
    ];
    assert(text::views(out@) =~= policies());
    out
}

fn empty_text() -> (r: String)
    ensures
        r@ == Seq::<char>::empty(),
{
    String::new()
}

fn source_fields(source: &Source) -> (r: (usize, String, String))
    ensures
        r.0 == source_index(source@),
        r.1@ == location_text(source@),
        r.2@ == branch_text(source@),
{
    match source {
        Source::Git { url, branch } => (
            0,
            url.clone(),
            match branch {
                Some(b) => b.clone(),
                None => empty_text(),
            },
        ),
        Source::Url { url } => (1, url.clone(), empty_text()),
        Source::Upload { desc } => (2, desc.clone(), empty_text()),
        Source::Empty => (3, empty_text(), empty_text()),
        Source::Nothing => (0, empty_text(), empty_text()),
    }
}

fn policy_fields(policy: RetryPolicy) -> (r: (usize, String))
    ensures
        r.0 == policy_index(policy),
        r.1@ == retries_text(policy),
{
    match policy {
        RetryPolicy::Never => (0, empty_text()),
        RetryPolicy::OnCrash => (1, empty_text()),
        RetryPolicy::Always => (2, empty_text()),
        RetryPolicy::Retry(n) => (3, text::decimal_of(n as u128)),
    }
}

/// The form for a new instance, or for editing an existing one.
pub fn build(existing: Option<&InstanceConfig>) -> (r: Form)
    ensures
        r@ == form_for(existing),
        r@.wf(),
{
    let title: String = match existing {
        Some(c) => text::cat2("Edit instance · ", &c.name),
        None => "New instance".to_string(),
    };
    let (policy, retries): (usize, String) = match existing {
        Some(c) => policy_fields(c.retry_policy),
        None => (0, empty_text()),
    };
    let (source, location, branch): (usize, String, String) = match existing {
        Some(c) => source_fields(&c.source),
        None => (0, empty_text(), empty_text()),
    };
    let hint: &str = match existing {
        Some(c) => match &c.source {
            Source::Git { .. } => "git url",
            Source::Url { .. } => "download url",
            Source::Upload { .. } => "local path",
            Source::Empty => "unused — an Empty source has no location",
            Source::Nothing => "git url, download url or a local path - or nothing",
        },
        None => "git url, download url or a local path - or nothing",
    };
    let (name, command, args, env, autostart): (String, String, String, String, bool) =
        match existing {
        Some(c) => (
            c.name.clone(),
            c.command.clone(),
            fmt_args(&c.args),
            fmt_env(&c.env),
            c.autostart,
        ),
        None => (empty_text(), empty_text(), empty_text(), empty_text(), false),
    };
    let fields: Vec<Field> = vec![
        Field::text("Name", &name),
        Field::select("Source", source_options(), source),
        Field::text("Location", &location).hint(hint),
        Field::text("Branch", &branch).hint("git only, blank = the repo's default"),
        Field::text("Command", &command),
        Field::text("Arguments", &args).hint("space separated, \"quote\" to group"),
        Field::text("Environment", &env).hint("KEY=VALUE; KEY=VALUE"),
        Field::toggle("Autostart", autostart).hint("start with the server"),
        Field::select("Restart policy", policy_options(), policy),
        Field::text("Retry limit", &retries).hint("only used by the Retry policy"),
    ];
    assert(form::entries(fields@) =~= form_entries(details_of(existing)));
    Form::new(&title, fields)
}

// ---- reading the form --------------------------------------------------------------

/// What the source fields amount to.
#[derive(Debug, PartialEq, Eq)]
pub enum SourceSpec {
    Git { url: String, branch: Option<String> },
    Url { url: String },
    /// A local path whose content is pushed after saving.
    Upload { path: String },
    /// An upload that stays as it is on the server.
    UploadKeep { desc: String },
    Nothing,
}

#[verifier::ext_equal]
pub enum Chosen {
    Git { url: Seq<char>, branch: Option<Seq<char>> },
    Url { url: Seq<char> },
    Upload { path: Seq<char> },
    UploadKeep { desc: Seq<char> },
    Nothing,
}

impl View for SourceSpec {
    type V = Chosen;

    open spec fn view(&self) -> Chosen {
        match *self {
            SourceSpec::Git { url, branch } => Chosen::Git {
                url: url@,
                branch: form::opt_text(branch),
            },
            SourceSpec::Url { url } => Chosen::Url { url: url@ },
            SourceSpec::Upload { path } => Chosen::Upload { path: path@ },
            SourceSpec::UploadKeep { desc } => Chosen::UploadKeep { desc: desc@ },
            SourceSpec::Nothing => Chosen::Nothing,
        }
    }
}

/// Everything that the form yields, validated.
#[derive(Debug, PartialEq, Eq)]
pub struct Parsed {
    pub name: String,
    pub source: SourceSpec,
    pub command: String,
    pub args: Vec<String>,
    pub env: Env,
    pub autostart: bool,
    pub retry_policy: RetryPolicy,
}

#[verifier::ext_equal]
pub struct Answers {
    pub name: Seq<char>,
    pub source: Chosen,
    pub command: Seq<char>,
    pub args: Seq<Seq<char>>,
    pub env: Map<Seq<char>, Seq<char>>,
    pub autostart: bool,
    pub retry_policy: RetryPolicy,
}

impl View for Parsed {
    type V = Answers;

    open spec fn view(&self) -> Answers {
        Answers {
            name: self.name@,
            source: self.source@,
            command: self.command@,
            args: text::views(self.args@),
            env: self.env@,
            autostart: self.autostart,
            retry_policy: self.retry_policy,
        }
    }
}

pub open spec fn value_in(s: form::Sheet, i: int) -> Seq<char> {
    form::content_text(s.fields[i].kind)
}

pub open spec fn trimmed_in(s: form::Sheet, i: int) -> Seq<char> {
    text::trimmed(value_in(s, i))
}

pub open spec fn choice_in(s: form::Sheet, i: int) -> int {
    form::chosen(s.fields[i].kind)
}

/// Whether a location was left at what is recorded of an upload. White space that was
/// put around it does not count.
pub open spec fn left_at(location: Seq<char>, keep: Option<Seq<char>>) -> bool {
    keep matches Some(desc) && (location == desc || text::trimmed(location) == desc)
}

/// What the source fields amount to. `keep` is what is recorded of an upload
/// that is being edited; `found` says whether the location exists here.
pub open spec fn source_read(s: form::Sheet, keep: Option<Seq<char>>, found: bool) -> Result<
    Chosen,
    Seq<char>,
> {
    let location = trimmed_in(s, LOCATION as int);
    let branch = trimmed_in(s, BRANCH as int);
    let choice = choice_in(s, SOURCE as int);
    if choice == 0 {
        Ok(
            Chosen::Git {
                url: location,
                branch: if branch.len() == 0 {
                    None
                } else {
                    Some(branch)
                },
            },
        )
    } else if choice == 1 {
        Ok(Chosen::Url { url: location })
    } else if choice == 2 {
        if left_at(value_in(s, LOCATION as int), keep) {
            Ok(Chosen::UploadKeep { desc: keep->0 })
        } else if !found {
            Err("'"@ + location + "' does not exist here, so there is nothing to upload"@)
        } else {
            Ok(Chosen::Upload { path: location })
        }
    } else {
        Ok(Chosen::Nothing)
    }
}

/// What the policy fields amount to.
pub open spec fn policy_read(s: form::Sheet) -> Result<RetryPolicy, Seq<char>> {
    let choice = choice_in(s, POLICY as int);
    let raw = trimmed_in(s, RETRIES as int);
    if choice == 0 {
        Ok(RetryPolicy::Never)
    } else if choice == 1 {
        Ok(RetryPolicy::OnCrash)
    } else if choice == 2 {
        Ok(RetryPolicy::Always)
    } else if raw.len() == 0 {
        Err("the Retry policy needs a retry limit"@)
    } else {
        match text::parsed_number(raw, u32::MAX as nat) {
            Some(n) => Ok(RetryPolicy::Retry(n as u32)),
            None => Err("'"@ + raw + "' is not a whole number of retries"@),
        }
    }
}

/// What the form amounts to, or the first thing that is wrong with it.
pub open spec fn form_read(s: form::Sheet, keep: Option<Seq<char>>, found: bool) -> Result<
    Answers,
    Seq<char>,
> {
    let name = trimmed_in(s, NAME as int);
    let command = trimmed_in(s, COMMAND as int);
    let empty = choice_in(s, SOURCE as int) == 3;
    if name.len() == 0 {
        Err("a name is required"@)
    } else if command.len() == 0 && !empty {
        Err("a command is required"@)
    } else if trimmed_in(s, LOCATION as int).len() == 0 && !empty {
        Err("a location is required"@)
    } else {
        match source_read(s, keep, found) {
            Err(e) => Err(e),
            Ok(source) => match policy_read(s) {
                Err(e) => Err(e),
                Ok(retry_policy) => match env_read(value_in(s, ENV as int)) {
                    Err(e) => Err(e),
                    Ok(env) => Ok(
                        Answers {
                            name,
                            source,
                            command,
                            args: args_of(value_in(s, ARGS as int)),
                            env,
                            autostart: s.fields[AUTOSTART as int].kind == form::Content::Toggle(true),
                            retry_policy,
                        },
                    ),
                },
            },
        }
    }
}

fn trimmed_field(form: &Form, i: usize) -> (r: String)
    requires
        i < form.fields@.len(),
    ensures
        r@ == trimmed_in(form@, i as int),
{
    text::trim(&form.field(i).text_value())
}

fn parse_source(form: &Form, keep_desc: Option<&str>, found: bool) -> (r: Result<SourceSpec, String>)
    requires
        form.fields@.len() > RETRIES,
    ensures
        ({
            let keep = match keep_desc {
                Some(d) => Some(d@),
                None => None,
            };
            match r {
                Ok(source) => source_read(form@, keep, found) == Ok::<Chosen, Seq<char>>(source@),
                Err(e) => source_read(form@, keep, found) == Err::<Chosen, Seq<char>>(e@),
            }
        }),
{
    let location: String = trimmed_field(form, LOCATION);
    let choice: usize = form.field(SOURCE).select_index();
    if choice == 0 {
        let branch: String = trimmed_field(form, BRANCH);
        let named: bool = !branch.as_str().is_empty();
        Ok(
            SourceSpec::Git {
                url: location,
                branch: if named {
                    Some(branch)
                } else {
                    None
                },
            },
        )
    } else if choice == 1 {
        Ok(SourceSpec::Url { url: location })
    } else if choice == 2 {
        if let Some(desc) = keep_desc {
            if text::same(desc, &location) || text::same(
                desc,
                &form.field(LOCATION).text_value(),
            ) {
                return Ok(SourceSpec::UploadKeep { desc: desc.to_string() });
            }
        }
        if !found {
            Err(
                text::cat3(
                    "'",
                    &location,
                    "' does not exist here, so there is nothing to upload",
                ),
            )
        } else {
            Ok(SourceSpec::Upload { path: location })
        }
    } else {
        Ok(SourceSpec::Nothing)
    }
}

fn parse_policy(form: &Form) -> (r: Result<RetryPolicy, String>)
    requires
        form.fields@.len() > RETRIES,
    ensures
        match r {
            Ok(policy) => policy_read(form@) == Ok::<RetryPolicy, Seq<char>>(policy),
            Err(e) => policy_read(form@) == Err::<RetryPolicy, Seq<char>>(e@),
        },
{
    let choice: usize = form.field(POLICY).select_index();
    if choice == 0 {
        Ok(RetryPolicy::Never)
    } else if choice == 1 {
        Ok(RetryPolicy::OnCrash)
    } else if choice == 2 {
        Ok(RetryPolicy::Always)
    } else {
        let raw: String = trimmed_field(form, RETRIES);
        if raw.as_str().is_empty() {
            return Err("the Retry policy needs a retry limit".to_string());
        }
        match text::parse_u32(&raw) {
            Some(n) => Ok(RetryPolicy::Retry(n)),
            None => Err(text::cat3("'", &raw, "' is not a whole number of retries")),
        }
    }
}

/// Reads the form. `keep_desc` is what is recorded of an upload that is being
/// edited: a location left at that text keeps the uploaded content. `found`
/// says whether the path that the location names exists here.
pub fn parse(form: &Form, keep_desc: Option<&str>, found: bool) -> (r: Result<Parsed, String>)
    requires
        form.fields@.len() > RETRIES,
    ensures
        ({
            let keep = match keep_desc {
                Some(d) => Some(d@),
                None => None,
            };
            match r {
                Ok(parsed) => parsed.env.wf() && form_read(form@, keep, found) == Ok::<
                    Answers,
                    Seq<char>,
                >(parsed@),
                Err(e) => form_read(form@, keep, found) == Err::<Answers, Seq<char>>(e@),
            }
        }),
{
    let empty: bool = form.field(SOURCE).select_index() == 3;
    let name: String = trimmed_field(form, NAME);
    if name.as_str().is_empty() {
        return Err("a name is required".to_string());
    }
    let command: String = trimmed_field(form, COMMAND);
    if command.as_str().is_empty() && !empty {
        return Err("a command is required".to_string());
    }
    if trimmed_field(form, LOCATION).as_str().is_empty() && !empty {
        return Err("a location is required".to_string());
    }
    let source: SourceSpec = match parse_source(form, keep_desc, found) {
        Ok(source) => source,
        Err(e) => {
            return Err(e);
        },
    };
    let retry_policy: RetryPolicy = match parse_policy(form) {
        Ok(policy) => policy,
        Err(e) => {
            return Err(e);
        },
    };
    match parse_env(&form.field(ENV).text_value()) {
        Err(e) => Err(e),
        Ok(env) => Ok(
            Parsed {
                name,
                source,
                command,
                args: parse_args(&form.field(ARGS).text_value()),
                env,
                autostart: form.field(AUTOSTART).bool_value(),
                retry_policy,
            },
        ),
    }
}

/// The location that must exist here for the form to be accepted, where it is
/// about an upload of new content.
pub fn upload_location(form: &Form) -> (r: Option<String>)
    requires
        form.fields@.len() > RETRIES,
    ensures
        form::opt_text(r) == (if choice_in(form@, SOURCE as int) == 2 {
            Some(trimmed_in(form@, LOCATION as int))
        } else {
            None
        }),
{
    if form.field(SOURCE).select_index() == 2 {
        Some(trimmed_field(form, LOCATION))
    } else {
        None
    }
}

/// How a choice of source is recorded: an upload by the name of what was pushed.
pub open spec fn recorded(source: Chosen, platform: Platform) -> instance::Origin {
    match source {
        Chosen::Git { url, branch } => instance::Origin::Git { url, branch },
        Chosen::Url { url } => instance::Origin::Url { url },
        Chosen::Upload { path } => instance::Origin::Upload {
            desc: match path::name_of(path, platform) {
                Some(name) => name,
                None => path,
            },
        },
        Chosen::UploadKeep { desc } => instance::Origin::Upload { desc },
        Chosen::Nothing => instance::Origin::Empty,
    }
}

impl SourceSpec {
    /// The source as it is recorded.
    pub fn to_source(&self, platform: Platform) -> (r: Source)
        ensures
            r@ == recorded(self@, platform),
    {
        match self {
            SourceSpec::Git { url, branch } => Source::Git {
                url: url.clone(),
                branch: match branch {
                    Some(b) => Some(b.clone()),
                    None => None,
                },
            },
            SourceSpec::Url { url } => Source::Url { url: url.clone() },
            SourceSpec::Upload { path } => Source::Upload {
                desc: match path::file_name(path, platform) {
                    Some(name) => name,
                    None => path.clone(),
                },
            },
            SourceSpec::UploadKeep { desc } => Source::Upload { desc: desc.clone() },
            SourceSpec::Nothing => Source::Empty,
        }
    }

    /// The local path to push after saving, where there is one.
    pub fn upload_path(&self) -> (r: Option<String>)
        ensures
            form::opt_text(r) == (match self@ {
                Chosen::Upload { path } => Some(path),
                _ => None,
            }),
    {
        match self {
            SourceSpec::Upload { path } => Some(path.clone()),
            _ => None,
        }
    }
}

/// A source on one line.
pub open spec fn source_line(source: instance::Origin) -> Seq<char> {
    match source {
        instance::Origin::Git { url, branch } => url + " ("@ + (match branch {
            Some(b) => b,
            None => "default branch"@,
        }) + ")"@,
        instance::Origin::Url { url } => url + " (download)"@,
        instance::Origin::Upload { desc } => "uploaded '"@ + desc + "'"@,
        instance::Origin::Empty => "empty — content is managed by hand"@,
        instance::Origin::Nothing => "—"@,
    }
}

/// One line for the detail pane.
pub fn fmt_source(source: &Source) -> (r: String)
    ensures
        r@ == source_line(source@),
{
    match source {
        Source::Git { url, branch } => match branch {
            Some(b) => text::cat4(url, " (", b, ")"),
            None => text::cat4(url, " (", "default branch", ")"),
        },
        Source::Url { url } => text::cat2(url, " (download)"),
        Source::Upload { desc } => text::cat3("uploaded '", desc, "'"),
        Source::Empty => "empty — content is managed by hand".to_string(),
        Source::Nothing => "—".to_string(),
    }
}

// ---- laws --------------------------------------------------------------------------

/// Whether an argument survives being written on a line: it is not empty and
/// holds no quotation mark.
pub open spec fn plain_arg(arg: Seq<char>) -> bool {
    arg.len() > 0 && !arg.contains('"')
}

proof fn scan_concat(from: ArgScan, a: Seq<char>, b: Seq<char>)
    ensures
        arg_scan(from, a + b) == arg_scan(arg_scan(from, a), b),
    decreases b.len(),
{
    if b.len() == 0 {
        assert(a + b =~= a);
    } else {
        assert((a + b).drop_last() =~= a + b.drop_last());
        scan_concat(from, a, b.drop_last());
    }
}

proof fn scan_of_plain(from: ArgScan, arg: Seq<char>)
    requires
        !arg.contains('"'),
        from.quoted || !spaced(arg),
    ensures
        arg_scan(from, arg) == (ArgScan {
            current: from.current + arg,
            started: from.started || arg.len() > 0,
            ..from
        }),
    decreases arg.len(),
{
    if arg.len() > 0 {
        let front = arg.drop_last();
        assert(!front.contains('"')) by {
            if front.contains('"') {
                let i = choose|i: int| 0 <= i < front.len() && front[i] == '"';
                assert(arg[i] == '"');
            }
        }
        if !from.quoted {
            assert(!spaced(front)) by {
                if spaced(front) {
                    let i = choose|i: int|
                        0 <= i < front.len() && text::white_space(#[trigger] front[i]);
                    assert(text::white_space(arg[i]));
                }
            }
            assert(!text::white_space(arg[arg.len() - 1]));
        }
        scan_of_plain(from, front);
        assert(arg[arg.len() - 1] == arg.last());
        assert(from.current + arg =~= (from.current + front).push(arg.last()));
    } else {
        assert(from.current + arg =~= from.current);
    }
}

proof fn scan_of_written(args: Seq<Seq<char>>, arg: Seq<char>)
    requires
        plain_arg(arg),
    ensures
        ({
            let from = ArgScan { args, current: seq![], quoted: false, started: false };
            arg_scan(from, arg_written(arg)) == (ArgScan {
                args,
                current: arg,
                quoted: false,
                started: true,
            })
        }),
{
    let from = ArgScan { args, current: seq![], quoted: false, started: false };
    assert(Seq::<char>::empty() + arg =~= arg);
    if spaced(arg) {
        reveal_strlit("\"");
        let q = "\""@;
        assert(q =~= seq!['"']);
        let opened = ArgScan { quoted: true, started: true, ..from };
        assert(q.drop_last() =~= seq![]);
        assert(arg_scan(from, q.drop_last()) == from);
        assert(arg_scan(from, q) == opened);
        scan_concat(from, q, arg);
        scan_of_plain(opened, arg);
        scan_concat(from, q + arg, q);
        let inside = arg_scan(from, q + arg);
        assert(arg_scan(inside, q.drop_last()) == inside);
    } else {
        scan_of_plain(from, arg);
    }
}

proof fn scan_of_line(args: Seq<Seq<char>>)
    requires
        args.len() > 0,
        forall|i: int| 0 <= i < args.len() ==> plain_arg(#[trigger] args[i]),
    ensures
        arg_scan(no_args(), args_written(args)) == (ArgScan {
            args: args.drop_last(),
            current: args.last(),
            quoted: false,
            started: true,
        }),
    decreases args.len(),
{
    let f = |a: Seq<char>| arg_written(a);
    let words = args.map_values(f);
    let front = args.drop_last();
    assert(plain_arg(args[args.len() - 1]));
    if args.len() == 1 {
        assert(front =~= seq![]);
        scan_of_written(seq![], args[0]);
        assert(args_written(args) == arg_written(args[0]));
    } else {
        assert forall|i: int| 0 <= i < front.len() implies plain_arg(#[trigger] front[i]) by {
            assert(front[i] == args[i]);
        }
        scan_of_line(front);
        assert(words.drop_last() =~= front.map_values(f));
        assert(words.last() == arg_written(args.last()));
        reveal_strlit(" ");
        let sp = " "@;
        assert(sp =~= seq![' ']);
        let line = args_written(front);
        assert(args_written(args) == line + sp + arg_written(args.last()));
        scan_concat(no_args(), line, sp);
        let mid = arg_scan(no_args(), line);
        assert(sp.drop_last() =~= seq![]);
        assert(arg_scan(mid, sp.drop_last()) == mid);
        assert(front.drop_last().push(front.last()) =~= front);
        assert(arg_scan(mid, sp) == (ArgScan {
            args: front,
            current: seq![],
            quoted: false,
            started: false,
        }));
        scan_concat(no_args(), line + sp, arg_written(args.last()));
        scan_of_written(front, args.last());
    }
}

/// Arguments that are written on a line read back as they were, unless one is
/// empty or holds a quotation mark.
pub proof fn args_round_trip(args: Seq<Seq<char>>)
    requires
        forall|i: int| 0 <= i < args.len() ==> plain_arg(#[trigger] args[i]),
    ensures
        args_of(args_written(args)) == args,
{
    if args.len() > 0 {
        scan_of_line(args);
        assert(args.drop_last().push(args.last()) =~= args);
    } else {
        assert(args =~= seq![]);
        assert(args.map_values(|a: Seq<char>| arg_written(a)) =~= seq![]);
        assert(args_written(args) =~= seq![]);
    }
}

/// Whether a setting survives being written on a line: its name is not empty,
/// holds neither of the separators and has no white space at its ends, and its
/// value holds no semicolon and does not end in white space.
pub open spec fn plain_setting(e: (Seq<char>, Seq<char>)) -> bool {
    &&& e.0.len() > 0
    &&& !text::white_space(e.0[0])
    &&& !text::white_space(e.0.last())
    &&& !e.0.contains('=')
    &&& !e.0.contains(';')
    &&& !e.1.contains(';')
    &&& e.1.len() > 0 ==> !text::white_space(e.1.last())
}

proof fn first_at_passes(s: Seq<char>, c: char, from: int, to: int)
    requires
        0 <= from <= to <= s.len(),
        forall|i: int| from <= i < to ==> s[i] != c,
        to < s.len() ==> s[to] == c,
    ensures
        first_at(s, c, from) == to,
    decreases to - from,
{
    if from < to {
        first_at_passes(s, c, from + 1, to);
    }
}

proof fn setting_reads(e: (Seq<char>, Seq<char>), lead: Seq<char>)
    requires
        plain_setting(e),
        lead == Seq::<char>::empty() || lead == seq![' '],
    ensures
        text::trimmed(lead + setting(e)) == setting(e),
        setting(e).len() > 0,
        key_value(setting(e)) == Some(e),
        !setting(e).contains(';'),
{
    reveal_strlit("=");
    let s = setting(e);
    assert("="@ =~= seq!['=']);
    let n = e.0.len() as int;
    assert(s[0] == e.0[0]);
    assert(s.last() == if e.1.len() > 0 {
        e.1.last()
    } else {
        '='
    });
    if lead.len() > 0 {
        assert((lead + s).skip(1) =~= s);
        assert((lead + s)[0] == ' ');
    } else {
        assert(lead + s =~= s);
    }
    assert(text::trimmed_start(s) == s);
    assert(text::trimmed_start(lead + s) == s);
    text::trimmed_keeps(s);
    assert(s[n] == '=');
    assert forall|i: int| 0 <= i < n implies s[i] != '=' by {
        assert(s[i] == e.0[i]);
    }
    first_at_passes(s, '=', 0, n);
    assert(s.take(n) =~= e.0);
    assert(s.skip(n + 1) =~= e.1);
    text::trimmed_keeps(e.0);
    if s.contains(';') {
        let i = choose|i: int| 0 <= i < s.len() && s[i] == ';';
        if i < n {
            assert(e.0[i] == ';');
        } else if i > n {
            assert(e.1[i - n - 1] == ';');
        }
    }
}

/// The space before every setting but the first.
pub open spec fn lead(i: int) -> Seq<char> {
    if i == 0 {
        seq![]
    } else {
        seq![' ']
    }
}

proof fn settings_split(pairs: Seq<(Seq<char>, Seq<char>)>)
    requires
        pairs.len() > 0,
        forall|i: int| 0 <= i < pairs.len() ==> plain_setting(#[trigger] pairs[i]),
    ensures
        text::pieces(settings(pairs), ';').len() == pairs.len(),
        forall|i: int|
            0 <= i < pairs.len() ==> #[trigger] text::pieces(settings(pairs), ';')[i] == lead(i)
                + setting(pairs[i]),
    decreases pairs.len(),
{
    let f = |e: (Seq<char>, Seq<char>)| setting(e);
    let words = pairs.map_values(f);
    let last = pairs.last();
    assert(plain_setting(pairs[pairs.len() - 1]));
    setting_reads(last, seq![]);
    let none = Seq::<char>::empty();
    if pairs.len() == 1 {
        assert(settings(pairs) == setting(last));
        text::pieces_lengthen(none, setting(last), ';');
        assert(none + setting(last) =~= setting(last));
    } else {
        let front = pairs.drop_last();
        assert forall|i: int| 0 <= i < front.len() implies plain_setting(#[trigger] front[i]) by {
            assert(front[i] == pairs[i]);
        }
        settings_split(front);
        assert(words.drop_last() =~= front.map_values(f));
        assert(words.last() == setting(last));
        reveal_strlit("; ");
        let line = settings(front);
        let tail = seq![' '] + setting(last);
        assert("; "@ =~= seq![';', ' ']);
        assert(settings(pairs) == line + "; "@ + setting(last));
        assert(settings(pairs) =~= line.push(';') + tail);
        assert(line.push(';').drop_last() =~= line);
        assert(!tail.contains(';')) by {
            if tail.contains(';') {
                let i = choose|i: int| 0 <= i < tail.len() && tail[i] == ';';
                assert(setting(last)[i - 1] == ';');
            }
        }
        text::pieces_lengthen(line.push(';'), tail, ';');
        let p = text::pieces(line, ';');
        let all = text::pieces(settings(pairs), ';');
        assert(text::pieces(line.push(';'), ';') == p.push(none));
        assert(none + tail =~= tail);
        assert forall|i: int| 0 <= i < pairs.len() implies #[trigger] all[i] == lead(i) + setting(
            pairs[i],
        ) by {
            if i < front.len() {
                assert(all[i] == p[i]);
                assert(front[i] == pairs[i]);
            }
        }
    }
}

proof fn settings_accumulate(pairs: Seq<(Seq<char>, Seq<char>)>, n: int)
    requires
        0 <= n <= pairs.len(),
        pairs.len() > 0,
        forall|i: int| 0 <= i < pairs.len() ==> plain_setting(#[trigger] pairs[i]),
    ensures
        env_of(text::pieces(settings(pairs), ';'), n) == Ok::<_, Seq<char>>(
            assoc::as_map(pairs.take(n)),
        ),
    decreases n,
{
    if n > 0 {
        settings_accumulate(pairs, n - 1);
        settings_split(pairs);
        let all = text::pieces(settings(pairs), ';');
        assert(all[n - 1] == lead(n - 1) + setting(pairs[n - 1]));
        setting_reads(pairs[n - 1], lead(n - 1));
        assert(pairs.take(n).drop_last() =~= pairs.take(n - 1));
        assert(pairs.take(n).last() == pairs[n - 1]);
    }
}

/// Settings that are written on a line read back as they were.
pub proof fn settings_round_trip(pairs: Seq<(Seq<char>, Seq<char>)>)
    requires
        forall|i: int| 0 <= i < pairs.len() ==> plain_setting(#[trigger] pairs[i]),
    ensures
        env_read(settings(pairs)) == Ok::<_, Seq<char>>(assoc::as_map(pairs)),
{
    if pairs.len() > 0 {
        settings_split(pairs);
        settings_accumulate(pairs, pairs.len() as int);
        assert(pairs.take(pairs.len() as int) =~= pairs);
    } else {
        assert(pairs.map_values(|e: (Seq<char>, Seq<char>)| setting(e)) =~= seq![]);
        assert(settings(pairs) =~= seq![]);
        let none = Seq::<char>::empty();
        let all = text::pieces(none, ';');
        assert(all =~= seq![none]);
        assert(text::trimmed(none) =~= none);
        assert(env_of(all, 0) == Ok::<_, Seq<char>>(Map::<Seq<char>, Seq<char>>::empty()));
        assert(text::trimmed(all[0]).len() == 0);
        assert(env_of(all, 1) == env_of(all, 0));
        assert(assoc::as_map(pairs) =~= Map::empty());
    }
}

proof fn placing_keeps_the_map(s: Seq<(String, String)>, x: (String, String))
    requires
        assoc::distinct(instance::env_pairs(s.push(x))),
    ensures
        assoc::distinct(instance::env_pairs(order::placed(s, x))),
        assoc::as_map(instance::env_pairs(order::placed(s, x))) == assoc::as_map(
            instance::env_pairs(s),
        ).insert(x.0@, x.1@),
        order::placed(s, x).len() == s.len() + 1,
        forall|i: int|
            0 <= i < order::placed(s, x).len() ==> (#[trigger] order::placed(s, x)[i] == x
                || s.contains(order::placed(s, x)[i])),
    decreases s.len(),
{
    let ps = instance::env_pairs(s);
    let px = (x.0@, x.1@);
    let pall = instance::env_pairs(s.push(x));
    assert(pall =~= ps.push(px));
    assert(assoc::distinct(ps)) by {
        assert forall|i: int, j: int| 0 <= i < j < ps.len() implies (#[trigger] ps[i]).0 != (
        #[trigger] ps[j]).0 by {
            assert(pall[i] == ps[i] && pall[j] == ps[j]);
        }
    }
    assert forall|i: int| 0 <= i < ps.len() implies (#[trigger] ps[i]).0 != px.0 by {
        assert(pall[i] == ps[i] && pall[ps.len() as int] == px);
    }
    assoc::push_inserts(ps, px.0, px.1);
    if s.len() > 0 && x.before(&s.last()) {
        let d = s.drop_last();
        let pd = instance::env_pairs(d);
        let last = (s.last().0@, s.last().1@);
        assert(ps.drop_last() =~= pd);
        assert(ps.last() == last);
        assert(instance::env_pairs(d.push(x)) =~= pd.push(px));
        assert(assoc::distinct(pd.push(px))) by {
            let q = pd.push(px);
            assert forall|i: int, j: int| 0 <= i < j < q.len() implies (#[trigger] q[i]).0 != (
            #[trigger] q[j]).0 by {
                assert(q[i] == ps[i]);
                if j < pd.len() {
                    assert(q[j] == ps[j]);
                }
            }
        }
        placing_keeps_the_map(d, x);
        let front = order::placed(d, x);
        let pf = instance::env_pairs(front);
        let out = order::placed(s, x);
        assert(instance::env_pairs(out) =~= pf.push(last));
        assoc::as_map_holds(pf);
        assert(assoc::distinct(pd)) by {
            assert forall|i: int, j: int| 0 <= i < j < pd.len() implies (#[trigger] pd[i]).0 != (
            #[trigger] pd[j]).0 by {
                assert(pd[i] == ps[i] && pd[j] == ps[j]);
            }
        }
        assoc::as_map_holds(pd);
        assert forall|i: int| 0 <= i < pf.len() implies (#[trigger] pf[i]).0 != last.0 by {
            if pf[i].0 == last.0 {
                assert(assoc::as_map(pf).contains_key(last.0));
                if last.0 == px.0 {
                    assert(ps[ps.len() - 1].0 != px.0);
                } else {
                    assert(assoc::as_map(pd).contains_key(last.0));
                    let k = choose|k: int| 0 <= k < pd.len() && (#[trigger] pd[k]).0 == last.0;
                    assert(ps[k].0 != ps[ps.len() - 1].0);
                }
            }
        }
        assoc::push_inserts(pf, last.0, last.1);
        assert(ps[ps.len() - 1].0 != px.0);
        assert(assoc::as_map(pd).insert(px.0, px.1).insert(last.0, last.1) =~= assoc::as_map(
            pd,
        ).insert(last.0, last.1).insert(px.0, px.1));
        assert forall|i: int| 0 <= i < out.len() implies (#[trigger] out[i] == x || s.contains(
            out[i],
        )) by {
            if i < front.len() {
                assert(out[i] == front[i]);
                if front[i] != x {
                    let k = choose|k: int| 0 <= k < d.len() && d[k] == front[i];
                    assert(s[k] == out[i]);
                }
            } else {
                assert(s[s.len() - 1] == out[i]);
            }
        }
    } else {
        let out = order::placed(s, x);
        assert forall|i: int| 0 <= i < out.len() implies (#[trigger] out[i] == x || s.contains(
            out[i],
        )) by {
            if i < s.len() {
                assert(s[i] == out[i]);
            }
        }
    }
}

proof fn sorting_keeps_the_map(s: Seq<(String, String)>)
    requires
        assoc::distinct(instance::env_pairs(s)),
    ensures
        assoc::distinct(instance::env_pairs(order::sorted(s))),
        assoc::as_map(instance::env_pairs(order::sorted(s))) == assoc::as_map(
            instance::env_pairs(s),
        ),
        forall|i: int| 0 <= i < order::sorted(s).len() ==> s.contains(#[trigger] order::sorted(s)[i]),
    decreases s.len(),
{
    let ps = instance::env_pairs(s);
    if s.len() > 0 {
        let d = s.drop_last();
        let x = s.last();
        let px = (x.0@, x.1@);
        let pd = instance::env_pairs(d);
        assert(pd =~= ps.drop_last());
        assert(assoc::distinct(pd)) by {
            assert forall|i: int, j: int| 0 <= i < j < pd.len() implies (#[trigger] pd[i]).0 != (
            #[trigger] pd[j]).0 by {
                assert(pd[i] == ps[i] && pd[j] == ps[j]);
            }
        }
        sorting_keeps_the_map(d);
        let sd = order::sorted(d);
        let psd = instance::env_pairs(sd);
        assoc::as_map_holds(pd);
        assoc::as_map_holds(psd);
        assert forall|i: int| 0 <= i < psd.len() implies (#[trigger] psd[i]).0 != px.0 by {
            assert(assoc::as_map(psd).contains_key(psd[i].0));
            if psd[i].0 == px.0 {
                let k = choose|k: int| 0 <= k < pd.len() && (#[trigger] pd[k]).0 == px.0;
                assert(ps[k].0 != ps[ps.len() - 1].0);
            }
        }
        assoc::push_inserts(psd, px.0, px.1);
        assert(instance::env_pairs(sd.push(x)) =~= psd.push(px));
        placing_keeps_the_map(sd, x);
        let out = order::sorted(s);
        assert forall|i: int| 0 <= i < out.len() implies s.contains(#[trigger] out[i]) by {
            if out[i] == x {
                assert(s[s.len() - 1] == out[i]);
            } else {
                let k = choose|k: int| 0 <= k < sd.len() && sd[k] == out[i];
                assert(d.contains(sd[k]));
                let m = choose|m: int| 0 <= m < d.len() && d[m] == sd[k];
                assert(s[m] == out[i]);
            }
        }
    } else {
        assert(order::sorted(s) =~= s);
    }
}

proof fn names_are_ordered()
    ensures
        order::is_order::<(String, String)>(),
{
    assert forall|a: (String, String), b: (String, String)| #[trigger] a.before(&b) implies !b.before(
        &a,
    ) by {
        text::precedes_is_total(a.0@, b.0@);
    }
    assert forall|a: (String, String), b: (String, String), c: (String, String)|
        #![trigger a.before(&b), c.before(&b)]
        #![trigger a.before(&c), b.before(&c)]
        !a.before(&b) && !b.before(&c) implies !a.before(&c) by {
        text::precedes_is_total(a.0@, b.0@);
        text::precedes_is_total(b.0@, c.0@);
        text::precedes_is_total(a.0@, c.0@);
        if a.before(&c) {
            if c.0@ == b.0@ {
            } else {
                text::precedes_chains(a.0@, c.0@, b.0@);
            }
        }
    }
}

/// Whether each name comes before the next.
spec fn ascending(pairs: Seq<(Seq<char>, Seq<char>)>) -> bool {
    forall|i: int, j: int|
        0 <= i < j < pairs.len() ==> text::precedes((#[trigger] pairs[i]).0, (#[trigger] pairs[j]).0)
}

proof fn ascending_lists_are_one(a: Seq<(Seq<char>, Seq<char>)>, b: Seq<(Seq<char>, Seq<char>)>)
    requires
        ascending(a),
        ascending(b),
        assoc::distinct(a),
        assoc::distinct(b),
        assoc::as_map(a) == assoc::as_map(b),
    ensures
        a == b,
    decreases a.len(),
{
    assoc::as_map_holds(a);
    assoc::as_map_holds(b);
    if a.len() == 0 {
        if b.len() > 0 {
            assert(assoc::as_map(b).contains_key(b[0].0));
        }
        assert(a =~= b);
    } else {
        let x = a[a.len() - 1];
        assert(assoc::as_map(b).contains_key(x.0));
        let k = choose|k: int| 0 <= k < b.len() && (#[trigger] b[k]).0 == x.0;
        let y = b[b.len() - 1];
        assert(assoc::as_map(a).contains_key(y.0));
        let m = choose|m: int| 0 <= m < a.len() && (#[trigger] a[m]).0 == y.0;
        text::precedes_is_total(x.0, y.0);
        if x.0 != y.0 {
            assert(text::precedes(b[k].0, b[b.len() - 1].0));
            assert(text::precedes(a[m].0, a[a.len() - 1].0));
        }
        assert(x == y);
        assoc::remove_removes(a, a.len() - 1);
        assoc::remove_removes(b, b.len() - 1);
        assert(a.remove(a.len() - 1) =~= a.drop_last());
        assert(b.remove(b.len() - 1) =~= b.drop_last());
        ascending_lists_are_one(a.drop_last(), b.drop_last());
        assert(a =~= a.drop_last().push(x));
        assert(b =~= b.drop_last().push(x));
    }
}

proof fn settings_ascend(env: Env)
    requires
        env.wf(),
    ensures
        ascending(instance::env_pairs(order::sorted(env.entries@))),
{
    names_are_ordered();
    order::sorting_puts_in_order(env.entries@);
    sorting_keeps_the_map(env.entries@);
    let s = order::sorted(env.entries@);
    let p = instance::env_pairs(s);
    assert forall|i: int, j: int| 0 <= i < j < p.len() implies text::precedes(
        (#[trigger] p[i]).0,
        (#[trigger] p[j]).0,
    ) by {
        assert(!s[j].before(&s[i]));
        assert(p[i].0 == s[i].0@ && p[j].0 == s[j].0@);
        text::precedes_is_total(p[i].0, p[j].0);
    }
}

/// Equal environments are written alike, in whatever order their settings came.
pub proof fn equal_environments_are_written_alike(a: Env, b: Env)
    requires
        a.wf(),
        b.wf(),
        a@ == b@,
    ensures
        settings(instance::env_pairs(order::sorted(a.entries@))) == settings(
            instance::env_pairs(order::sorted(b.entries@)),
        ),
{
    settings_ascend(a);
    settings_ascend(b);
    sorting_keeps_the_map(a.entries@);
    sorting_keeps_the_map(b.entries@);
    ascending_lists_are_one(
        instance::env_pairs(order::sorted(a.entries@)),
        instance::env_pairs(order::sorted(b.entries@)),
    );
}

/// Whether a text is not empty and has no white space at its ends.
pub open spec fn neat(s: Seq<char>) -> bool {
    s.len() > 0 && !text::white_space(s[0]) && !text::white_space(s.last())
}

/// Whether an instance survives being opened in the form and saved again.
pub open spec fn editable(c: InstanceConfig) -> bool {
    &&& neat(c.name@)
    &&& c.env.wf()
    &&& forall|i: int| 0 <= i < c.args@.len() ==> plain_arg((#[trigger] c.args@[i])@)
    &&& forall|i: int|
        0 <= i < c.env.entries@.len() ==> plain_setting(
            ((#[trigger] c.env.entries@[i]).0@, c.env.entries@[i].1@),
        )
    &&& neat(c.command@) || (c.source@ is Empty && c.command@.len() == 0)
    &&& match c.source@ {
        instance::Origin::Git { url, branch } => neat(url) && (branch matches Some(b) ==> neat(b)),
        instance::Origin::Url { url } => neat(url),
        instance::Origin::Upload { desc } => text::trimmed(desc).len() > 0,
        instance::Origin::Empty => true,
        instance::Origin::Nothing => false,
    }
}

/// What the form yields of an instance that nobody changed.
pub open spec fn unchanged(c: InstanceConfig) -> Answers {
    Answers {
        name: c.name@,
        source: match c.source@ {
            instance::Origin::Git { url, branch } => Chosen::Git { url, branch },
            instance::Origin::Url { url } => Chosen::Url { url },
            instance::Origin::Upload { desc } => Chosen::UploadKeep { desc },
            instance::Origin::Empty => Chosen::Nothing,
            instance::Origin::Nothing => Chosen::Nothing,
        },
        command: c.command@,
        args: text::views(c.args@),
        env: c.env@,
        autostart: c.autostart,
        retry_policy: c.retry_policy,
    }
}

/// Opening an instance in the form and saving it unchanged keeps everything:
/// an empty source stays empty, an upload stays as it is.
pub proof fn form_round_trips(c: InstanceConfig, found: bool, platform: Platform)
    requires
        editable(c),
    ensures
        form_read(
            form_for(Some(&c)),
            match c.source@ {
                instance::Origin::Upload { desc } => Some(desc),
                _ => None,
            },
            found,
        ) == Ok::<Answers, Seq<char>>(unchanged(c)),
        recorded(unchanged(c).source, platform) == c.source@,
{
    let s = form_for(Some(&c));
    text::trimmed_keeps(c.name@);
    text::trimmed_keeps(c.command@);
    if !(c.source@ is Upload) {
        text::trimmed_keeps(location_text(c.source@));
    }
    text::trimmed_keeps(branch_text(c.source@));
    let args = text::views(c.args@);
    assert forall|i: int| 0 <= i < args.len() implies plain_arg(#[trigger] args[i]) by {
        assert(args[i] == c.args@[i]@);
    }
    args_round_trip(args);
    let ordered = order::sorted(c.env.entries@);
    let pairs = instance::env_pairs(ordered);
    sorting_keeps_the_map(c.env.entries@);
    assert forall|i: int| 0 <= i < pairs.len() implies plain_setting(#[trigger] pairs[i]) by {
        assert(c.env.entries@.contains(ordered[i]));
        let k = choose|k: int| 0 <= k < c.env.entries@.len() && c.env.entries@[k] == ordered[i];
        assert(plain_setting((c.env.entries@[k].0@, c.env.entries@[k].1@)));
    }
    settings_round_trip(pairs);
    if let RetryPolicy::Retry(n) = c.retry_policy {
        text::decimal_round_trips(n as nat, u32::MAX as nat);
    }
    assert(s.fields[AUTOSTART as int].kind == form::Content::Toggle(c.autostart));
}

/// A form is refused exactly where it lacks a name; a command or a location, unless its
/// source is empty; a local path to upload, unless the upload was left as it is; a limit
/// for its retries that is a number; or settings that can be read.
pub proof fn forms_are_refused_for_a_reason(
    s: form::Sheet,
    keep: Option<Seq<char>>,
    found: bool,
)
    requires
        s.fields.len() == 10,
    ensures
        ({
            let name = text::trimmed(form::content_text(s.fields[0].kind));
            let location = form::content_text(s.fields[2].kind);
            let command = text::trimmed(form::content_text(s.fields[4].kind));
            let limit = text::trimmed(form::content_text(s.fields[9].kind));
            let source = form::chosen(s.fields[1].kind);
            let policy = form::chosen(s.fields[8].kind);
            let kept = keep == Some(location) || keep == Some(text::trimmed(location));
            &&& form_read(s, keep, found) is Err <==> name.len() == 0 || (source != 3 && (
            command.len() == 0 || text::trimmed(location).len() == 0)) || (source == 2 && !kept
                && !found) || (!(policy == 0 || policy == 1 || policy == 2)
                && text::parsed_number(limit, u32::MAX as nat) is None) || env_read(
                form::content_text(s.fields[6].kind),
            ) is Err
            &&& name.len() == 0 ==> form_read(s, keep, found) == Err::<Answers, Seq<char>>(
                "a name is required"@,
            )
            &&& name.len() > 0 && source != 3 && command.len() == 0 ==> form_read(s, keep, found)
                == Err::<Answers, Seq<char>>("a command is required"@)
            &&& name.len() > 0 && source != 3 && command.len() > 0 && text::trimmed(location).len()
                == 0 ==> form_read(s, keep, found) == Err::<Answers, Seq<char>>(
                "a location is required"@,
            )
        }),
{
    assert(text::parsed_number(Seq::empty(), u32::MAX as nat) is None);
    let limit = text::trimmed(form::content_text(s.fields[9].kind));
    if limit.len() == 0 {
        assert(limit =~= Seq::<char>::empty());
    }
}

/// What a form that is accepted says is what its fields say, each in its own place.
pub proof fn forms_say_what_their_fields_say(s: form::Sheet, keep: Option<Seq<char>>, found: bool)
    requires
        s.fields.len() == 10,
        form_read(s, keep, found) is Ok,
    ensures
        ({
            let a = form_read(s, keep, found)->Ok_0;
            let location = form::content_text(s.fields[2].kind);
            let branch = text::trimmed(form::content_text(s.fields[3].kind));
            let source = form::chosen(s.fields[1].kind);
            let policy = form::chosen(s.fields[8].kind);
            &&& a.name == text::trimmed(form::content_text(s.fields[0].kind))
            &&& a.command == text::trimmed(form::content_text(s.fields[4].kind))
            &&& a.args == args_of(form::content_text(s.fields[5].kind))
            &&& env_read(form::content_text(s.fields[6].kind)) == Ok::<_, Seq<char>>(a.env)
            &&& a.autostart <==> s.fields[7].kind == form::Content::Toggle(true)
            &&& source == 0 ==> (a.source matches Chosen::Git { url, branch: b } && url
                == text::trimmed(location) && (branch.len() == 0 <==> b is None) && (b is Some
                ==> b->0 == branch))
            &&& source == 1 ==> a.source == (Chosen::Url { url: text::trimmed(location) })
            &&& source == 2 && (keep == Some(location) || keep == Some(text::trimmed(location)))
                ==> a.source == (Chosen::UploadKeep { desc: keep->0 })
            &&& source == 2 && keep != Some(location) && keep != Some(text::trimmed(location))
                ==> a.source == (Chosen::Upload { path: text::trimmed(location) })
            &&& source == 3 ==> a.source is Nothing
            &&& policy == 0 ==> a.retry_policy == RetryPolicy::Never
            &&& policy == 1 ==> a.retry_policy == RetryPolicy::OnCrash
            &&& policy == 2 ==> a.retry_policy == RetryPolicy::Always
            &&& policy == 3 ==> (a.retry_policy matches RetryPolicy::Retry(n)
                && text::parsed_number(
                text::trimmed(form::content_text(s.fields[9].kind)),
                u32::MAX as nat,
            ) == Some(n as nat))
        }),
{
}

/// A form has a field for each part of a configuration, in this order, and shows that
/// part; the form of a new instance is blank, restarts nothing and starts nothing by
/// itself.
pub proof fn forms_show_the_configuration(c: InstanceConfig)
    ensures
        ({
            let f = form_for(Some(&c));
            &&& f.fields.len() == 10 && f.focus == 0 && f.error is None
            &&& f.title == "Edit instance · "@ + c.name@
            &&& form::content_text(f.fields[0].kind) == c.name@
            &&& form::content_text(f.fields[4].kind) == c.command@
            &&& f.fields[7].kind == form::Content::Toggle(c.autostart)
            &&& c.source@ matches instance::Origin::Git { url, branch } ==> form::chosen(
                f.fields[1].kind,
            ) == 0 && form::content_text(f.fields[2].kind) == url && (branch matches Some(b)
                ==> form::content_text(f.fields[3].kind) == b)
            &&& c.source@ matches instance::Origin::Url { url } ==> form::chosen(f.fields[1].kind)
                == 1 && form::content_text(f.fields[2].kind) == url
            &&& c.source@ matches instance::Origin::Upload { desc } ==> form::chosen(
                f.fields[1].kind,
            ) == 2 && form::content_text(f.fields[2].kind) == desc
            &&& c.source@ is Empty ==> form::chosen(f.fields[1].kind) == 3
            &&& c.retry_policy == RetryPolicy::Never ==> form::chosen(f.fields[8].kind) == 0
            &&& c.retry_policy == RetryPolicy::OnCrash ==> form::chosen(f.fields[8].kind) == 1
            &&& c.retry_policy == RetryPolicy::Always ==> form::chosen(f.fields[8].kind) == 2
            &&& c.retry_policy matches RetryPolicy::Retry(n) ==> form::chosen(f.fields[8].kind) == 3
                && form::content_text(f.fields[9].kind) == text::decimal(n as nat)
        }),
        ({
            let f = form_for(None);
            &&& f.fields.len() == 10 && f.focus == 0 && f.error is None && f.title
                == "New instance"@
            &&& form::content_text(f.fields[0].kind).len() == 0 && form::content_text(
                f.fields[2].kind,
            ).len() == 0 && form::content_text(f.fields[4].kind).len() == 0 && form::content_text(
                f.fields[5].kind,
            ).len() == 0 && form::content_text(f.fields[6].kind).len() == 0
            &&& form::chosen(f.fields[1].kind) == 0 && form::chosen(f.fields[8].kind) == 0
            &&& f.fields[7].kind == form::Content::Toggle(false)
            &&& f.fields[0].label == "Name"@ && f.fields[1].label == "Source"@ && f.fields[2].label
                == "Location"@ && f.fields[3].label == "Branch"@ && f.fields[4].label == "Command"@
                && f.fields[5].label == "Arguments"@ && f.fields[6].label == "Environment"@
                && f.fields[7].label == "Autostart"@ && f.fields[8].label == "Restart policy"@
                && f.fields[9].label == "Retry limit"@
            &&& f.fields[1].kind matches form::Content::Select { options, .. } && options.len() == 4
                && options[0] == "Git"@ && options[1] == "URL"@ && options[2] == "Upload"@
                && options[3] == "Empty"@
            &&& f.fields[8].kind matches form::Content::Select { options, .. } && options.len() == 4
                && options[0] == "Never"@ && options[1] == "OnCrash"@ && options[2] == "Always"@
                && options[3] == "Retry"@
        }),
{
}

/// A setting is split at its first `=`: the name before it, white space aside, and the
/// value behind it as it stands, more of them included. Without a name it is none.
pub proof fn settings_are_split_at_the_first_sign(
    name: Seq<char>,
    value: Seq<char>,
    other: Seq<char>,
)
    requires
        forall|i: int| 0 <= i < name.len() ==> #[trigger] name[i] != '=',
        forall|i: int| 0 <= i < other.len() ==> #[trigger] other[i] != '=',
    ensures
        text::trimmed(name).len() > 0 ==> key_value(name + seq!['='] + value) == Some(
            (text::trimmed(name), value),
        ),
        text::trimmed(name).len() == 0 ==> key_value(name + seq!['='] + value) is None,
        key_value(other) is None,
{
    let entry = name + seq!['='] + value;
    first_is_at(entry, '=', 0, name.len() as int);
    assert(entry.take(name.len() as int) =~= name);
    assert(entry.skip(name.len() as int + 1) =~= value);
    first_is_nowhere(other, '=', 0);
}

proof fn first_is_at(s: Seq<char>, c: char, from: int, at: int)
    requires
        0 <= from <= at < s.len(),
        s[at] == c,
        forall|i: int| from <= i < at ==> #[trigger] s[i] != c,
    ensures
        first_at(s, c, from) == at,
    decreases at - from,
{
    if from < at {
        assert(s[from] != c);
        first_is_at(s, c, from + 1, at);
    }
}

proof fn first_is_nowhere(s: Seq<char>, c: char, from: int)
    requires
        0 <= from <= s.len(),
        forall|i: int| 0 <= i < s.len() ==> #[trigger] s[i] != c,
    ensures
        first_at(s, c, from) == s.len(),
    decreases s.len() - from,
{
    if from < s.len() {
        first_is_nowhere(s, c, from + 1);
    }
}

/// Settings are taken one by one: a blank one is passed over, a later one wins over an
/// earlier one of the same name, and the first that is none is what is wrong.
pub proof fn settings_are_taken_one_by_one(pieces: Seq<Seq<char>>, n: int)
    requires
        0 < n <= pieces.len(),
    ensures
        ({
            let entry = text::trimmed(pieces[n - 1]);
            match env_of(pieces, n - 1) {
                Err(e) => env_of(pieces, n) == Err::<Map<Seq<char>, Seq<char>>, _>(e),
                Ok(before) => {
                    &&& entry.len() == 0 ==> env_of(pieces, n) == Ok::<_, Seq<char>>(before)
                    &&& entry.len() > 0 ==> match key_value(entry) {
                        Some((k, v)) => env_of(pieces, n) matches Ok(m) && m.contains_key(k) && m[k]
                            == v && m.remove(k) =~= before.remove(k),
                        None => env_of(pieces, n) == Err::<Map<Seq<char>, Seq<char>>, _>(
                            "'"@ + entry + "' is not KEY=VALUE"@,
                        ),
                    }
                },
            }
        }),
        env_of(pieces, 0) == Ok::<_, Seq<char>>(Map::<Seq<char>, Seq<char>>::empty()),
{
}

/// How arguments are read: white space parts them unless it is quoted; quotes are taken
/// away, and what they hold belongs together with what touches it, even where it is empty.
pub proof fn arguments_are_read_character_by_character(s: ArgScan, c: char)
    ensures
        c == '"' ==> arg_step(s, c).quoted == !s.quoted && arg_step(s, c).started && arg_step(
            s,
            c,
        ).current == s.current && arg_step(s, c).args == s.args,
        c != '"' && (s.quoted || !text::white_space(c)) ==> arg_step(s, c).current
            == s.current.push(c) && arg_step(s, c).started && arg_step(s, c).args == s.args
            && arg_step(s, c).quoted == s.quoted,
        c != '"' && !s.quoted && text::white_space(c) && s.started ==> arg_step(s, c).args
            == s.args.push(s.current) && arg_step(s, c).current.len() == 0 && !arg_step(
            s,
            c,
        ).started && !arg_step(s, c).quoted,
        c != '"' && !s.quoted && text::white_space(c) && !s.started ==> arg_step(s, c) == s,
        !no_args().quoted && !no_args().started && no_args().args.len() == 0
            && no_args().current.len() == 0,
{
}

/// Where an instance comes from, on one line.
pub proof fn sources_are_told(url: Seq<char>, branch: Seq<char>, desc: Seq<char>)
    ensures
        source_line(instance::Origin::Git { url, branch: Some(branch) }) == url + " ("@ + branch
            + ")"@,
        source_line(instance::Origin::Git { url, branch: None }) == url + " ("@ + "default branch"@
            + ")"@,
        source_line(instance::Origin::Url { url }) == url + " (download)"@,
        source_line(instance::Origin::Upload { desc }) == "uploaded '"@ + desc + "'"@,
        source_line(instance::Origin::Empty) == "empty — content is managed by hand"@,
{
}

} // verus!
