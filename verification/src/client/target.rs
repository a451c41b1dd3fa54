//! Finding the instance that a command line names.
//!
//! `server/instance` is unambiguous; a bare `instance` is looked for on every
//! known server, and more than one hit is an error. An identity works wherever
//! a name does, in the 32 hexadecimal digits in which it is printed.
use vstd::prelude::*;

use crate::client::book::{Book, ServerEntry};
use crate::client::book;
use crate::client::net::Endpoint;
use crate::client::net;
use crate::protocol::instance::InstanceStatResponse;
use crate::text;

verus! {

pub struct Resolved {
    pub server: ServerEntry,
    pub instance: InstanceStatResponse,
    pub endpoint: Endpoint,
}

/// `server/instance`.
pub open spec fn label_of(server: Seq<char>, instance: Seq<char>) -> Seq<char> {
    server + "/"@ + instance
}

impl Resolved {
    /// The unambiguous spelling.
    pub fn label(&self) -> (r: String)
        ensures
            r@ == label_of(self.server.name@, self.instance.name@),
    {
        text::cat3(&self.server.name, "/", &self.instance.name)
    }
}

/// Whether an instance is what a reference names.
pub open spec fn is_meant(instance: InstanceStatResponse, spec: Seq<char>) -> bool {
    text::ascii_lowered(instance.name@) == text::ascii_lowered(spec) || text::hex(
        instance.id as nat,
        32,
    ) == text::lowercase(spec)
}

/// Whether `at` is the first instance on the list that is meant.
pub open spec fn first_meant(list: Seq<InstanceStatResponse>, spec: Seq<char>, at: int) -> bool {
    &&& 0 <= at < list.len()
    &&& is_meant(list[at], spec)
    &&& forall|j: int| 0 <= j < at ==> !is_meant(#[trigger] list[j], spec)
}

pub open spec fn none_meant(list: Seq<InstanceStatResponse>, spec: Seq<char>) -> bool {
    forall|j: int| 0 <= j < list.len() ==> !is_meant(#[trigger] list[j], spec)
}

fn meant(instance: &InstanceStatResponse, spec: &str, lowered: &str) -> (r: bool)
    requires
        lowered@ == text::lowercase(spec@),
    ensures
        r == is_meant(*instance, spec@),
{
    text::same_ignoring_case(&instance.name, spec) || text::same(
        &text::hex_of(instance.id, 32),
        lowered,
    )
}

/// The place of the first instance that a reference names.
pub fn pick(list: &Vec<InstanceStatResponse>, spec: &str) -> (r: Option<usize>)
    ensures
        match r {
            Some(i) => first_meant(list@, spec@, i as int),
            None => none_meant(list@, spec@),
        },
{
    let lowered: String = text::to_lowercase(spec);
    let mut i: usize = 0;
    while i < list.len()
        invariant
            i <= list.len(),
            lowered@ == text::lowercase(spec@),
            forall|j: int| 0 <= j < i ==> !is_meant(#[trigger] list@[j], spec@),
        decreases list.len() - i,
    {
        if meant(&list[i], spec, &lowered) {
            return Some(i);
        }
        i = i + 1;
    }
    None
}

/// What to look for, and where.
#[derive(Debug)]
pub enum Search {
    /// On the server at this place in the book.
    On { server: usize, instance: String },
    /// On every server.
    Everywhere,
}

/// Where a slash first stands; the length where there is none.
pub open spec fn slash_at(s: Seq<char>, from: int) -> int
    decreases s.len() - from,
{
    if 0 <= from < s.len() && s[from] != '/' {
        slash_at(s, from + 1)
    } else {
        from
    }
}

/// The names of the servers, in order.
pub open spec fn server_names(servers: Seq<ServerEntry>) -> Seq<Seq<char>> {
    servers.map_values(|s: ServerEntry| s.name@)
}

pub open spec fn no_servers() -> Seq<char> {
    "no servers configured — add one in the TUI first (run `client` with no arguments)"@
}

pub open spec fn no_such_server(book: Book, name: Seq<char>) -> Seq<char> {
    "no server named '"@ + name + "' (known: "@ + text::joined(
        server_names(book.servers@),
        ", "@,
    ) + ")"@
}

/// Whether `at` is the first server with the given name.
pub open spec fn first_named(servers: Seq<ServerEntry>, name: Seq<char>, at: int) -> bool {
    &&& 0 <= at < servers.len()
    &&& book::is_named(servers[at], name)
    &&& forall|j: int| 0 <= j < at ==> !book::is_named(#[trigger] servers[j], name)
}

/// Where to look for what a command line names.
pub fn resolve(known: &Book, spec: &str) -> (r: Result<Search, String>)
    ensures
        ({
            let at = slash_at(spec@, 0);
            let server = spec@.take(at);
            if known.servers@.len() == 0 {
                r matches Err(e) && e@ == no_servers()
            } else if at >= spec@.len() {
                r matches Ok(Search::Everywhere)
            } else if forall|j: int|
                0 <= j < known.servers@.len() ==> !book::is_named(#[trigger] known.servers@[j], server) {
                r matches Err(e) && e@ == no_such_server(*known, server)
            } else {
                r matches Ok(Search::On { server: i, instance }) && first_named(
                    known.servers@,
                    server,
                    i as int,
                ) && instance@ == spec@.skip(at + 1)
            }
        }),
{
    if known.servers.len() == 0 {
        return Err(
            "no servers configured — add one in the TUI first (run `client` with no arguments)".to_string(),
        );
    }
    let chars = text::chars_of(spec);
    let mut at: usize = 0;
    while at < chars.len() && chars[at] != '/'
        invariant
            chars@ == spec@,
            at <= chars.len(),
            slash_at(spec@, 0) == slash_at(spec@, at as int),
        decreases chars.len() - at,
    {
        at = at + 1;
    }
    if at == chars.len() {
        return Ok(Search::Everywhere);
    }
    let name: String = text::string_of(&chars[0..at]);
    assert(name@ =~= spec@.take(at as int));
    let instance: String = text::string_of(&chars[at + 1..chars.len()]);
    assert(instance@ =~= spec@.skip(at as int + 1));
    let mut names: Vec<String> = Vec::new();
    let mut i: usize = 0;
    while i < known.servers.len()
        invariant
            i <= known.servers.len(),
            names@.len() == i,
            forall|j: int| 0 <= j < i ==> (#[trigger] names@[j])@ == known.servers@[j].name@,
            forall|j: int| 0 <= j < i ==> !book::is_named(#[trigger] known.servers@[j], name@),
            known.servers@.len() > 0,
            at == slash_at(spec@, 0),
            at < spec@.len(),
            name@ == spec@.take(at as int),
            instance@ == spec@.skip(at as int + 1),
        decreases known.servers.len() - i,
    {
        if text::same_ignoring_case(&known.servers[i].name, &name) {
            assert(book::is_named(known.servers@[i as int], name@));
            return Ok(Search::On { server: i, instance });
        }
        names.push(known.servers[i].name.clone());
        i = i + 1;
    }
    assert(text::views(names@) =~= server_names(known.servers@));
    Err(
        text::cat5(
            "no server named '",
            &name,
            "' (known: ",
            &text::join(&names, ", "),
            ")",
        ),
    )
}

/// The instance on the server that was named, given that server's list.
pub fn resolve_on(known: &Book, server: usize, spec: &str, list: Vec<InstanceStatResponse>) -> (r:
    Result<Resolved, String>)
    requires
        server < known.servers@.len(),
    ensures
        match r {
            Ok(found) => {
                &&& found.server@ == known.servers@[server as int]@
                &&& found.endpoint@ == book::dest_of(known.key@, known.servers@[server as int]@)
                &&& exists|i: int|
                    #[trigger] first_meant(list@, spec@, i) && found.instance == list@[i]
            },
            Err(e) => none_meant(list@, spec@) && e@ == "server '"@
                + known.servers@[server as int].name@ + "' has no instance '"@ + spec@ + "'"@,
        },
{
    match pick(&list, spec) {
        Some(i) => {
            let mut list = list;
            let instance = list.swap_remove(i);
            Ok(
                Resolved {
                    server: known.servers[server].copy(),
                    instance,
                    endpoint: known.endpoint_or_keyless(&known.servers[server]),
                },
            )
        },
        None => Err(
            text::cat5(
                "server '",
                &known.servers[server].name,
                "' has no instance '",
                spec,
                "'",
            ),
        ),
    }
}

/// What asking one server for its instances gave.
pub type Listing = Result<Vec<InstanceStatResponse>, String>;

/// How many of the first `n` instances on a list are meant.
pub open spec fn meant_among(list: Seq<InstanceStatResponse>, spec: Seq<char>, n: int) -> nat
    decreases n,
{
    if n <= 0 {
        0
    } else {
        meant_among(list, spec, n - 1) + if is_meant(list[n - 1], spec) {
            1nat
        } else {
            0
        }
    }
}

/// How many instances are meant on the first `n` servers, as far as they listed any.
pub open spec fn hits(listings: Seq<Listing>, spec: Seq<char>, n: int) -> nat
    decreases n,
{
    if n <= 0 {
        0
    } else {
        hits(listings, spec, n - 1) + match listings[n - 1] {
            Ok(list) => meant_among(list@, spec, list@.len() as int),
            Err(_) => 0,
        }
    }
}

/// One line for each of the first `n` servers that could not be asked.
pub open spec fn failures(servers: Seq<ServerEntry>, listings: Seq<Listing>, n: int) -> Seq<
    Seq<char>,
>
    decreases n,
{
    if n <= 0 {
        seq![]
    } else {
        let before = failures(servers, listings, n - 1);
        match listings[n - 1] {
            Ok(_) => before,
            Err(e) => before.push(
                "  "@ + servers[n - 1].name@ + " ("@ + net::target_text(servers[n - 1].addr)
                    + "): "@ + e@,
            ),
        }
    }
}

/// One line for each of the first `n` instances on a server that is meant.
pub open spec fn meant_lines(
    server: Seq<char>,
    list: Seq<InstanceStatResponse>,
    spec: Seq<char>,
    n: int,
) -> Seq<Seq<char>>
    decreases n,
{
    if n <= 0 {
        seq![]
    } else {
        let before = meant_lines(server, list, spec, n - 1);
        if is_meant(list[n - 1], spec) {
            before.push("  "@ + label_of(server, list[n - 1].name@))
        } else {
            before
        }
    }
}

/// One line for each instance that is meant on the first `n` servers.
pub open spec fn choices(
    servers: Seq<ServerEntry>,
    listings: Seq<Listing>,
    spec: Seq<char>,
    n: int,
) -> Seq<Seq<char>>
    decreases n,
{
    if n <= 0 {
        seq![]
    } else {
        choices(servers, listings, spec, n - 1) + match listings[n - 1] {
            Ok(list) => meant_lines(servers[n - 1].name@, list@, spec, list@.len() as int),
            Err(_) => seq![],
        }
    }
}

pub open spec fn not_found(servers: Seq<ServerEntry>, listings: Seq<Listing>, spec: Seq<char>) -> Seq<
    char,
> {
    let lines = failures(servers, listings, servers.len() as int);
    let head = "no instance named '"@ + spec + "' on any known server"@;
    if lines.len() == 0 {
        head
    } else {
        head + "\nthese servers could not be reached:\n"@ + text::joined(lines, "\n"@)
    }
}

pub open spec fn ambiguous(servers: Seq<ServerEntry>, listings: Seq<Listing>, spec: Seq<char>) -> Seq<
    char,
> {
    "'"@ + spec + "' is ambiguous — name the server too:\n"@ + text::joined(
        choices(servers, listings, spec, servers.len() as int),
        "\n"@,
    )
}

proof fn a_line_for_each_meant(
    server: Seq<char>,
    list: Seq<InstanceStatResponse>,
    spec: Seq<char>,
    n: int,
)
    ensures
        meant_lines(server, list, spec, n).len() == meant_among(list, spec, n),
    decreases n,
{
    if n > 0 {
        a_line_for_each_meant(server, list, spec, n - 1);
    }
}

proof fn a_choice_for_each_hit(
    servers: Seq<ServerEntry>,
    listings: Seq<Listing>,
    spec: Seq<char>,
    n: int,
)
    ensures
        choices(servers, listings, spec, n).len() == hits(listings, spec, n),
    decreases n,
{
    if n > 0 {
        a_choice_for_each_hit(servers, listings, spec, n - 1);
        if let Ok(list) = listings[n - 1] {
            a_line_for_each_meant(servers[n - 1].name@, list@, spec, list@.len() as int);
        }
    }
}

/// Whether the instance at `i` on the list of the server at `s` is meant.
pub open spec fn is_hit(listings: Seq<Listing>, spec: Seq<char>, s: int, i: int) -> bool {
    &&& 0 <= s < listings.len()
    &&& listings[s] matches Ok(list) && 0 <= i < list@.len() && is_meant(list@[i], spec)
}

proof fn meant_counts(list: Seq<InstanceStatResponse>, spec: Seq<char>, n: int, i: int)
    requires
        0 <= i < n <= list.len(),
        is_meant(list[i], spec),
    ensures
        meant_among(list, spec, n) >= 1,
        forall|j: int|
            0 <= j < n && j != i && is_meant(#[trigger] list[j], spec) ==> meant_among(
                list,
                spec,
                n,
            ) >= 2,
    decreases n,
{
    if i < n - 1 {
        meant_counts(list, spec, n - 1, i);
    } else {
        assert forall|j: int|
            0 <= j < n && j != i && is_meant(#[trigger] list[j], spec) implies meant_among(
            list,
            spec,
            n,
        ) >= 2 by {
            meant_counts(list, spec, n - 1, j);
        }
    }
}

proof fn hit_counts(listings: Seq<Listing>, spec: Seq<char>, n: int, s: int, i: int)
    requires
        0 <= s < n <= listings.len(),
        is_hit(listings, spec, s, i),
    ensures
        hits(listings, spec, n) >= 1,
        forall|t: int, j: int|
            t < n && (t != s || j != i) && #[trigger] is_hit(listings, spec, t, j) ==> hits(
                listings,
                spec,
                n,
            ) >= 2,
    decreases n,
{
    let last = listings[n - 1];
    if s < n - 1 {
        hit_counts(listings, spec, n - 1, s, i);
        assert forall|t: int, j: int|
            t < n && (t != s || j != i) && #[trigger] is_hit(listings, spec, t, j) implies hits(
            listings,
            spec,
            n,
        ) >= 2 by {
            if t == n - 1 {
                meant_counts(last->Ok_0@, spec, last->Ok_0@.len() as int, j);
            }
        }
    } else {
        meant_counts(last->Ok_0@, spec, last->Ok_0@.len() as int, i);
        assert forall|t: int, j: int|
            t < n && (t != s || j != i) && #[trigger] is_hit(listings, spec, t, j) implies hits(
            listings,
            spec,
            n,
        ) >= 2 by {
            if t < n - 1 {
                hit_counts(listings, spec, n - 1, t, j);
            } else {
                assert(is_meant(last->Ok_0@[j], spec));
            }
        }
    }
}

/// Ambiguity is never settled in silence: where two instances are meant, on one
/// server or on two, more than one is counted.
pub proof fn two_that_are_meant_are_ambiguous(
    listings: Seq<Listing>,
    spec: Seq<char>,
    s: int,
    i: int,
    t: int,
    j: int,
)
    requires
        is_hit(listings, spec, s, i),
        is_hit(listings, spec, t, j),
        s != t || i != j,
    ensures
        hits(listings, spec, listings.len() as int) >= 2,
{
    hit_counts(listings, spec, listings.len() as int, s, i);
}

/// One that is meant is counted, whatever servers could not be asked.
pub proof fn one_that_is_meant_is_found(listings: Seq<Listing>, spec: Seq<char>, s: int, i: int)
    requires
        is_hit(listings, spec, s, i),
        forall|t: int, j: int|
            #[trigger] is_hit(listings, spec, t, j) ==> t == s && j == i,
    ensures
        hits(listings, spec, listings.len() as int) == 1,
{
    hit_counts(listings, spec, listings.len() as int, s, i);
    lone_hit(listings, spec, listings.len() as int, s, i);
}

proof fn lone_meant(list: Seq<InstanceStatResponse>, spec: Seq<char>, n: int, i: int)
    requires
        n <= list.len(),
        forall|j: int| 0 <= j < n && is_meant(#[trigger] list[j], spec) ==> j == i,
    ensures
        meant_among(list, spec, n) <= 1,
        !(0 <= i < n) ==> meant_among(list, spec, n) == 0,
    decreases n,
{
    if n > 0 {
        lone_meant(list, spec, n - 1, i);
        if n - 1 != i {
            assert(!is_meant(list[n - 1], spec));
        }
    }
}

proof fn lone_hit(listings: Seq<Listing>, spec: Seq<char>, n: int, s: int, i: int)
    requires
        n <= listings.len(),
        forall|t: int, j: int|
            #[trigger] is_hit(listings, spec, t, j) ==> t == s && j == i,
    ensures
        hits(listings, spec, n) <= 1,
        !(0 <= s < n) ==> hits(listings, spec, n) == 0,
    decreases n,
{
    if n > 0 {
        lone_hit(listings, spec, n - 1, s, i);
        if let Ok(list) = listings[n - 1] {
            let at = if n - 1 == s {
                i
            } else {
                -1
            };
            assert forall|j: int|
                0 <= j < list@.len() && is_meant(#[trigger] list@[j], spec) implies j == at by {
                assert(is_hit(listings, spec, n - 1, j));
            }
            lone_meant(list@, spec, list@.len() as int, at);
        }
    }
}

/// The instance that a bare name means, given what each known server listed.
/// Servers that could not be asked are passed over: one being down does not
/// keep another from being used.
pub fn resolve_bare(known: &Book, spec: &str, listings: Vec<Listing>) -> (r: Result<
    Resolved,
    String,
>)
    requires
        listings@.len() == known.servers@.len(),
    ensures
        ({
            let n = hits(listings@, spec@, listings@.len() as int);
            match r {
                Ok(found) => {
                    &&& n == 1
                    &&& exists|s: int, i: int|
                        #[trigger] is_hit(listings@, spec@, s, i) && found.server@
                            == known.servers@[s]@ && found.endpoint@ == book::dest_of(
                            known.key@,
                            known.servers@[s]@,
                        ) && found.instance == listings@[s]->Ok_0@[i]
                },
                Err(e) => {
                    &&& n != 1
                    &&& n == 0 ==> e@ == not_found(known.servers@, listings@, spec@)
                    &&& n > 1 ==> e@ == ambiguous(known.servers@, listings@, spec@)
                },
            }
        }),
{
    let ghost all = listings@;
    let ghost servers = known.servers@;
    let lowered: String = text::to_lowercase(spec);
    let mut at: (usize, usize) = (0, 0);
    let mut lines: Vec<String> = Vec::new();
    let mut options: Vec<String> = Vec::new();
    let mut s: usize = 0;
    assert(text::views(lines@) =~= seq![]);
    assert(text::views(options@) =~= seq![]);
    while s < listings.len()
        invariant
            s <= listings.len(),
            all == listings@,
            servers == known.servers@,
            all.len() == servers.len(),
            lowered@ == text::lowercase(spec@),
            options@.len() > 0 ==> is_hit(all, spec@, at.0 as int, at.1 as int),
            text::views(lines@) == failures(servers, all, s as int),
            text::views(options@) == choices(servers, all, spec@, s as int),
        decreases listings.len() - s,
    {
        match &listings[s] {
            Ok(list) => {
                let ghost before = text::views(options@);
                let ghost name = servers[s as int].name@;
                let mut i: usize = 0;
                assert(before + Seq::<Seq<char>>::empty() =~= before);
                while i < list.len()
                    invariant
                        i <= list.len(),
                        s < all.len(),
                        all.len() == servers.len(),
                        servers == known.servers@,
                        name == servers[s as int].name@,
                        all[s as int] == Ok::<Vec<InstanceStatResponse>, String>(*list),
                        lowered@ == text::lowercase(spec@),
                        options@.len() > 0 ==> is_hit(all, spec@, at.0 as int, at.1 as int),
                        text::views(options@) == before + meant_lines(
                            name,
                            list@,
                            spec@,
                            i as int,
                        ),
                    decreases list.len() - i,
                {
                    if meant(&list[i], spec, &lowered) {
                        let label: String = text::cat3(&known.servers[s].name, "/", &list[i].name);
                        let line: String = text::cat2("  ", &label);
                        let ghost so_far = text::views(options@);
                        let ghost l = line@;
                        options.push(line);
                        assert(text::views(options@) =~= so_far.push(l));
                        assert(so_far.push(l) =~= before + meant_lines(
                            name,
                            list@,
                            spec@,
                            i as int + 1,
                        ));
                        at = (s, i);
                    }
                    i = i + 1;
                }
            },
            Err(e) => {
                let mut line: String = text::cat4(
                    "  ",
                    &known.servers[s].name,
                    " (",
                    &known.servers[s].addr.text(),
                );
                line.append("): ");
                line.append(e);
                let ghost before = text::views(lines@);
                let ghost l = line@;
                lines.push(line);
                assert(text::views(lines@) =~= before.push(l));
            },
        }
        s = s + 1;
    }
    proof {
        a_choice_for_each_hit(servers, all, spec@, all.len() as int);
        assert(text::views(options@).len() == options@.len());
    }
    if options.len() == 0 {
        let mut msg: String = text::cat3(
            "no instance named '",
            spec,
            "' on any known server",
        );
        if lines.len() > 0 {
            msg.append("\nthese servers could not be reached:\n");
            msg.append(&text::join(&lines, "\n"));
        }
        assert(text::views(lines@).len() == lines@.len());
        return Err(msg);
    }
    if options.len() > 1 {
        return Err(
            text::cat4(
                "'",
                spec,
                "' is ambiguous — name the server too:\n",
                &text::join(&options, "\n"),
            ),
        );
    }
    let mut listings = listings;
    let chosen: Listing = listings.swap_remove(at.0);
    match chosen {
        Ok(list) => {
            let mut list = list;
            let instance = list.swap_remove(at.1);
            Ok(
                Resolved {
                    server: known.servers[at.0].copy(),
                    instance,
                    endpoint: known.endpoint_or_keyless(&known.servers[at.0]),
                },
            )
        },
        Err(e) => Err(e),
    }
}

/// An instance is meant by its name, whatever the case of its letters, and by the digits of
/// its identity; nothing else means it.
pub proof fn names_and_identities_are_meant(
    instance: InstanceStatResponse,
    spec: Seq<char>,
    other: Seq<char>,
)
    ensures
        is_meant(instance, instance.name@),
        is_meant(instance, spec) && text::ascii_lowered(instance.name@) != text::ascii_lowered(spec)
            ==> text::lowercase(spec) == text::hex(instance.id as nat, 32),
        text::lowercase(spec) == text::hex(instance.id as nat, 32) ==> is_meant(instance, spec),
        text::ascii_lowered(spec) == text::ascii_lowered(other) && text::lowercase(spec)
            == text::lowercase(other) ==> is_meant(instance, spec) == is_meant(instance, other),
{
}

/// A reference is parted at its first slash: there is none before it.
pub proof fn references_are_parted_at_the_first_slash(s: Seq<char>, from: int)
    requires
        0 <= from <= s.len(),
    ensures
        from <= slash_at(s, from) <= s.len(),
        slash_at(s, from) < s.len() ==> s[slash_at(s, from)] == '/',
        forall|i: int| from <= i < slash_at(s, from) ==> #[trigger] s[i] != '/',
    decreases s.len() - from,
{
    if from < s.len() && s[from] != '/' {
        references_are_parted_at_the_first_slash(s, from + 1);
    }
}

/// Where nothing is found, each server that could not be asked is named, with its address
/// and why; where too much is, each of the candidates is, with its server.
pub proof fn what_was_looked_for_is_told(
    servers: Seq<ServerEntry>,
    listings: Seq<Listing>,
    spec: Seq<char>,
    n: int,
)
    requires
        0 < n <= listings.len(),
        listings.len() == servers.len(),
    ensures
        listings[n - 1] matches Err(e) ==> failures(servers, listings, n) == failures(
            servers,
            listings,
            n - 1,
        ).push(
            "  "@ + servers[n - 1].name@ + " ("@ + net::target_text(servers[n - 1].addr) + "): "@
                + e@,
        ),
        listings[n - 1] is Ok ==> failures(servers, listings, n) == failures(
            servers,
            listings,
            n - 1,
        ),
        failures(servers, listings, 0).len() == 0,
        listings[n - 1] matches Ok(list) ==> forall|i: int|
            0 <= i < list@.len() && #[trigger] is_meant(list@[i], spec) ==> choices(
                servers,
                listings,
                spec,
                n,
            ).contains("  "@ + (servers[n - 1].name@ + "/"@ + list@[i].name@)),
{
    if let Ok(list) = listings[n - 1] {
        assert forall|i: int|
            0 <= i < list@.len() && #[trigger] is_meant(list@[i], spec) implies choices(
            servers,
            listings,
            spec,
            n,
        ).contains("  "@ + (servers[n - 1].name@ + "/"@ + list@[i].name@)) by {
            let lines = meant_lines(servers[n - 1].name@, list@, spec, list@.len() as int);
            let line = "  "@ + (servers[n - 1].name@ + "/"@ + list@[i].name@);
            meant_are_lined_up(servers[n - 1].name@, list@, spec, list@.len() as int, i);
            let k = choose|k: int| 0 <= k < lines.len() && lines[k] == line;
            let before = choices(servers, listings, spec, n - 1);
            assert(choices(servers, listings, spec, n)[before.len() + k] == line);
        }
    }
}

proof fn meant_are_lined_up(
    server: Seq<char>,
    list: Seq<InstanceStatResponse>,
    spec: Seq<char>,
    n: int,
    i: int,
)
    requires
        0 <= i < n <= list.len(),
        is_meant(list[i], spec),
    ensures
        meant_lines(server, list, spec, n).contains("  "@ + (server + "/"@ + list[i].name@)),
    decreases n,
{
    let line = "  "@ + (server + "/"@ + list[i].name@);
    let all = meant_lines(server, list, spec, n);
    if i < n - 1 {
        meant_are_lined_up(server, list, spec, n - 1, i);
        let before = meant_lines(server, list, spec, n - 1);
        let k = choose|k: int| 0 <= k < before.len() && before[k] == line;
        assert(all[k] == line);
    } else {
        assert(all[all.len() - 1] == line);
    }
}

/// The first instance that is meant is one, and nothing before it is: there is one such
/// place at most, and none exactly where nothing is meant.
pub proof fn the_first_that_is_meant_is_one_place(
    list: Seq<InstanceStatResponse>,
    spec: Seq<char>,
    a: int,
    b: int,
)
    ensures
        first_meant(list, spec, a) && first_meant(list, spec, b) ==> a == b,
        first_meant(list, spec, a) ==> 0 <= a < list.len() && is_meant(list[a], spec),
        0 <= a < list.len() && is_meant(list[a], spec) && !first_meant(list, spec, a) ==> exists|
            j: int,
        |
            0 <= j < a && is_meant(#[trigger] list[j], spec),
        none_meant(list, spec) ==> !first_meant(list, spec, a),
        0 <= a < list.len() && is_meant(list[a], spec) ==> !none_meant(list, spec),
{
}

/// The same of servers and their names.
pub proof fn the_first_of_a_name_is_one_place(
    servers: Seq<ServerEntry>,
    name: Seq<char>,
    a: int,
    b: int,
)
    ensures
        first_named(servers, name, a) && first_named(servers, name, b) ==> a == b,
        first_named(servers, name, a) ==> 0 <= a < servers.len() && text::ascii_lowered(
            servers[a].name@,
        ) == text::ascii_lowered(name),
        book::first_with_id(servers, servers[0].id, 0) <==> servers.len() > 0,
        book::first_with_id(servers, servers[a].id, a) && book::first_with_id(
            servers,
            servers[a].id,
            b,
        ) ==> a == b,
{
    if first_named(servers, name, a) && first_named(servers, name, b) {
        assert(book::is_named(servers[a], name) && book::is_named(servers[b], name));
    }
    if book::first_with_id(servers, servers[a].id, a) && book::first_with_id(
        servers,
        servers[a].id,
        b,
    ) {
        assert(servers[b].id == servers[a].id);
    }
}

/// What is said where a search fails names what was searched for, and what there is.
pub proof fn failed_searches_say_what_there_is(
    known: Book,
    servers: Seq<ServerEntry>,
    listings: Seq<Listing>,
    spec: Seq<char>,
)
    ensures
        no_servers()
            == "no servers configured — add one in the TUI first (run `client` with no arguments)"@,
        no_such_server(known, spec) == "no server named '"@ + spec + "' (known: "@ + text::joined(
            known.servers@.map_values(|s: ServerEntry| s.name@),
            ", "@,
        ) + ")"@,
        failures(servers, listings, servers.len() as int).len() == 0 ==> not_found(
            servers,
            listings,
            spec,
        ) == "no instance named '"@ + spec + "' on any known server"@,
        failures(servers, listings, servers.len() as int).len() > 0 ==> not_found(
            servers,
            listings,
            spec,
        ) == "no instance named '"@ + spec + "' on any known server"@
            + "\nthese servers could not be reached:\n"@ + text::joined(
            failures(servers, listings, servers.len() as int),
            "\n"@,
        ),
        ambiguous(servers, listings, spec) == "'"@ + spec
            + "' is ambiguous — name the server too:\n"@ + text::joined(
            choices(servers, listings, spec, servers.len() as int),
            "\n"@,
        ),
{
    assert(server_names(known.servers@) =~= known.servers@.map_values(|s: ServerEntry| s.name@));
}

} // verus!
