//! What the daemon keeps: its instances' definitions, and where everything is.
use vstd::prelude::*;

use crate::path::Platform;
use crate::protocol::instance::{Env, RetryPolicy};
use crate::{path, text};

verus! {

/// An instance: a git repository and how to run what is in it. This is what is
/// kept between two starts.
#[derive(Debug, PartialEq, Eq)]
pub struct InstanceConfig {
    pub id: u128,
    pub name: String,
    pub repo_url: String,
    pub branch: Option<String>,
    pub command: String,
    pub args: Vec<String>,
    pub env: Env,
    pub autostart: bool,
    pub retry_policy: RetryPolicy,
}

/// An instance's definition, as texts.
#[verifier::ext_equal]
pub struct Setup {
    pub id: u128,
    pub name: Seq<char>,
    pub repo_url: Seq<char>,
    pub branch: Option<Seq<char>>,
    pub command: Seq<char>,
    pub args: Seq<Seq<char>>,
    pub env: Map<Seq<char>, Seq<char>>,
    pub autostart: bool,
    pub retry_policy: RetryPolicy,
}

/// The text of an optional string.
pub open spec fn maybe(s: Option<String>) -> Option<Seq<char>> {
    match s {
        Some(s) => Some(s@),
        None => None,
    }
}

impl View for InstanceConfig {
    type V = Setup;

    open spec fn view(&self) -> Setup {
        Setup {
            id: self.id,
            name: self.name@,
            repo_url: self.repo_url@,
            branch: maybe(self.branch),
            command: self.command@,
            args: text::views(self.args@),
            env: self.env@,
            autostart: self.autostart,
            retry_policy: self.retry_policy,
        }
    }
}

/// The same texts, once more.
pub fn copy_all(all: &Vec<String>) -> (r: Vec<String>)
    ensures
        text::views(r@) == text::views(all@),
{
    let mut out: Vec<String> = Vec::new();
    let mut i: usize = 0;
    while i < all.len()
        invariant
            i <= all.len(),
            text::views(out@) == text::views(all@).take(i as int),
        decreases all.len() - i,
    {
        let ghost before = text::views(out@);
        out.push(all[i].clone());
        assert(text::views(out@) =~= before.push(all@[i as int]@));
        i = i + 1;
        assert(text::views(out@) =~= text::views(all@).take(i as int));
    }
    assert(text::views(out@) =~= text::views(all@));
    out
}

impl InstanceConfig {
    /// The same definition, once more.
    pub fn copy(&self) -> (r: InstanceConfig)
        ensures
            r@ == self@,
    {
        let branch: Option<String> = match &self.branch {
            Some(b) => Some(b.clone()),
            None => None,
        };
        InstanceConfig {
            id: self.id,
            name: self.name.clone(),
            repo_url: self.repo_url.clone(),
            branch,
            command: self.command.clone(),
            args: copy_all(&self.args),
            env: self.env.copy(),
            autostart: self.autostart,
            retry_policy: self.retry_policy,
        }
    }
}

/// The daemon's own configuration. Paths and the address are texts.
#[derive(Debug, PartialEq, Eq)]
pub struct ChildStg {
    pub addr: String,
    pub config_path: String,
    pub storage_path: String,
    /// Directories, besides the one of the instances, that file transfers may touch.
    pub file_roots: Vec<String>,
    /// For how many seconds a session offer can be taken up.
    pub session_ttl_secs: u64,
    /// What a shell session runs.
    pub shell: String,
}

pub open spec fn shell_on(platform: Platform) -> Seq<char> {
    if platform == Platform::Windows {
        "cmd.exe"@
    } else {
        "/bin/sh"@
    }
}

/// The shell that sessions run where none is configured.
pub fn default_shell(platform: Platform) -> (r: String)
    ensures
        r@ == shell_on(platform),
{
    match platform {
        Platform::Windows => "cmd.exe".to_string(),
        _ => "/bin/sh".to_string(),
    }
}

/// The file that lists the instances.
pub open spec fn index_in(storage: Seq<char>, platform: Platform) -> Seq<char> {
    path::joined(storage, "instances.chld"@, platform)
}

/// The directory of all instances.
pub open spec fn instances_in(storage: Seq<char>, platform: Platform) -> Seq<char> {
    path::joined(storage, "instances"@, platform)
}

/// The directory of one instance.
pub open spec fn instance_in(storage: Seq<char>, id: u128, platform: Platform) -> Seq<char> {
    path::joined(instances_in(storage, platform), text::hex(id as nat, 32), platform)
}

/// The directory of one instance's files.
pub open spec fn repo_in(storage: Seq<char>, id: u128, platform: Platform) -> Seq<char> {
    path::joined(instance_in(storage, id, platform), "repo"@, platform)
}

impl ChildStg {
    pub fn instances_index_path(&self, platform: Platform) -> (r: String)
        ensures
            r@ == index_in(self.storage_path@, platform),
    {
        path::join(&self.storage_path, "instances.chld", platform)
    }

    /// Where the list of instances is written before it takes the old one's place.
    pub fn instances_index_draft(&self, platform: Platform) -> (r: String)
        ensures
            r@ == path::extended(index_in(self.storage_path@, platform), "chld.tmp"@, platform),
    {
        path::with_extension(&self.instances_index_path(platform), "chld.tmp", platform)
    }

    pub fn instances_dir(&self, platform: Platform) -> (r: String)
        ensures
            r@ == instances_in(self.storage_path@, platform),
    {
        path::join(&self.storage_path, "instances", platform)
    }

    pub fn instance_dir(&self, id: u128, platform: Platform) -> (r: String)
        ensures
            r@ == instance_in(self.storage_path@, id, platform),
    {
        path::join(&self.instances_dir(platform), &text::hex_of(id, 32), platform)
    }

    pub fn repo_dir(&self, id: u128, platform: Platform) -> (r: String)
        ensures
            r@ == repo_in(self.storage_path@, id, platform),
    {
        path::join(&self.instance_dir(id, platform), "repo", platform)
    }
}

/// The roots in an answer to the prompt: what stands between the `;`, trimmed,
/// where anything is left.
pub open spec fn roots_in(answer: Seq<char>, n: int) -> Seq<Seq<char>>
    decreases n,
{
    if n <= 0 {
        seq![]
    } else {
        let before = roots_in(answer, n - 1);
        let root = text::trimmed(text::pieces(answer, ';')[n - 1]);
        if root.len() == 0 {
            before
        } else {
            before.push(root)
        }
    }
}

/// Reads the file roots from the answer to their prompt.
pub fn parse_roots(answer: &str) -> (r: Vec<String>)
    ensures
        text::views(r@) == roots_in(answer@, text::pieces(answer@, ';').len() as int),
{
    let pieces = text::split(answer, ';');
    let mut out: Vec<String> = Vec::new();
    let mut i: usize = 0;
    assert(text::views(out@) =~= roots_in(answer@, 0));
    while i < pieces.len()
        invariant
            text::views(pieces@) == text::pieces(answer@, ';'),
            i <= pieces.len(),
            text::views(out@) == roots_in(answer@, i as int),
        decreases pieces.len() - i,
    {
        let ghost before = text::views(out@);
        assert(text::views(pieces@)[i as int] == pieces@[i as int]@);
        let root: String = text::trim(&pieces[i]);
        if !root.as_str().is_empty() {
            out.push(root);
            assert(text::views(out@) =~= before.push(root@));
        }
        i = i + 1;
    }
    assert(text::views(pieces@).len() == pieces@.len());
    out
}

proof fn hex_is_as_long(n: nat, width: nat)
    requires
        n < pow16(width),
    ensures
        text::hex(n, width).len() == width,
        forall|i: int|
            0 <= i < width ==> text::is_digit(#[trigger] text::hex(n, width)[i]) || 'a'
                <= text::hex(n, width)[i] <= 'f',
    decreases width,
{
    if width > 0 {
        let up = pow16((width - 1) as nat);
        assert(n / 16 < up) by (nonlinear_arith)
            requires
                n < 16 * up,
        ;
        hex_is_as_long(n / 16, (width - 1) as nat);
    }
}

spec fn pow16(width: nat) -> nat
    decreases width,
{
    if width == 0 {
        1
    } else {
        16 * pow16((width - 1) as nat)
    }
}

proof fn hex_tells_numbers_apart(a: nat, b: nat, width: nat)
    requires
        a < pow16(width),
        b < pow16(width),
        text::hex(a, width) == text::hex(b, width),
    ensures
        a == b,
    decreases width,
{
    if width > 0 {
        let up = pow16((width - 1) as nat);
        assert(a / 16 < up && b / 16 < up) by (nonlinear_arith)
            requires
                a < 16 * up,
                b < 16 * up,
        ;
        let x = text::hex(a, width);
        let y = text::hex(b, width);
        assert(x.drop_last() =~= text::hex(a / 16, (width - 1) as nat));
        assert(y.drop_last() =~= text::hex(b / 16, (width - 1) as nat));
        hex_tells_numbers_apart(a / 16, b / 16, (width - 1) as nat);
        assert(x.last() == text::digit((a % 16) as int));
        assert(y.last() == text::digit((b % 16) as int));
    }
}

proof fn ids_fit_in_their_digits(id: u128)
    ensures
        (id as nat) < pow16(32),
{
    reveal_with_fuel(pow16, 33);
}

/// No two instances share a directory.
pub proof fn instances_have_their_own_directories(
    storage: Seq<char>,
    a: u128,
    b: u128,
    platform: Platform,
)
    requires
        instance_in(storage, a, platform) == instance_in(storage, b, platform),
    ensures
        a == b,
{
    let base = instances_in(storage, platform);
    let x = text::hex(a as nat, 32);
    let y = text::hex(b as nat, 32);
    ids_fit_in_their_digits(a);
    ids_fit_in_their_digits(b);
    hex_is_as_long(a as nat, 32);
    hex_is_as_long(b as nat, 32);
    path::plain_names_come_last(base, x, platform);
    path::plain_names_come_last(base, y, platform);
    hex_tells_numbers_apart(a as nat, b as nat, 32);
}

/// Everything of an instance lies below the storage directory: all instances in
/// `instances`, each in a directory named by the 32 digits of its identity, its files in
/// `repo` there; the list of them beside.
pub proof fn instances_are_kept_below_storage(storage: Seq<char>, id: u128, platform: Platform)
    ensures
        index_in(storage, platform) == path::joined(storage, "instances.chld"@, platform),
        instances_in(storage, platform) == path::joined(storage, "instances"@, platform),
        instance_in(storage, id, platform) == path::joined(
            path::joined(storage, "instances"@, platform),
            text::hex(id as nat, 32),
            platform,
        ),
        repo_in(storage, id, platform) == path::joined(
            instance_in(storage, id, platform),
            "repo"@,
            platform,
        ),
        shell_on(Platform::Windows) == "cmd.exe"@,
        shell_on(Platform::Unix) == "/bin/sh"@,
        shell_on(Platform::MacOs) == "/bin/sh"@,
{
}

/// Directories are read from an answer one by one, parted by semicolons; white space
/// around them does not count, and blank ones are passed over.
pub proof fn directories_are_read_one_by_one(answer: Seq<char>, n: int)
    requires
        0 < n <= text::pieces(answer, ';').len(),
    ensures
        ({
            let root = text::trimmed(text::pieces(answer, ';')[n - 1]);
            &&& root.len() > 0 ==> roots_in(answer, n) == roots_in(answer, n - 1).push(root)
            &&& root.len() == 0 ==> roots_in(answer, n) == roots_in(answer, n - 1)
            &&& roots_in(answer, 0).len() == 0
        }),
{
}

} // verus!
