//! Setting the client's key.
use vstd::prelude::*;

use crate::client::book::{Book, ServerEntry};
use crate::client::book;
use crate::protocol::auth;
use crate::protocol::auth::NoEntropy;
use crate::{bytes, text};

verus! {

/// Where a key comes from.
#[derive(Clone, Copy, Debug, PartialEq, Eq, Structural)]
pub enum KeySource {
    Copied,
    Derived,
    Random,
}

impl KeySource {
    pub fn text(self) -> (r: &'static str)
        ensures
            r@ == source_text(self),
    {
        match self {
            KeySource::Copied => "copied from the server",
            KeySource::Derived => "derived from the passphrase",
            KeySource::Random => "random",
        }
    }
}

pub open spec fn source_text(s: KeySource) -> Seq<char> {
    match s {
        KeySource::Copied => "copied from the server"@,
        KeySource::Derived => "derived from the passphrase"@,
        KeySource::Random => "random"@,
    }
}

/// Why there is no key.
#[derive(Debug, PartialEq, Eq)]
pub enum KeyError {
    /// What was given as a key is none.
    Given(String),
    NoEntropy,
}

/// The key to set: the one given, the one that a phrase stands for, or a random
/// one.
pub fn choose_key(phrase: Option<&str>, given: Option<&str>) -> (r: Result<
    (Vec<u8>, KeySource),
    KeyError,
>)
    requires
        phrase matches Some(p) ==> vstd::utf8::encode_utf8(p@).len() <= 0xffff_ffff,
    ensures
        r matches Ok((k, _)) ==> k@.len() == auth::KEY_LEN,
        match given {
            Some(g) => match auth::key_of_hex(g@) {
                Ok(key) => r matches Ok((k, s)) && k@ == key && s == KeySource::Copied,
                Err(e) => r matches Err(KeyError::Given(m)) && m@ == "--key: "@ + e,
            },
            None => match phrase {
                Some(p) => p@.len() > 0 ==> (r matches Ok((k, s)) && k@ == auth::phrase_key(
                    vstd::utf8::encode_utf8(p@),
                ) && s == KeySource::Derived),
                None => true,
            },
        },
        given is None && (phrase is None || phrase->0@.len() == 0) ==> match r {
            Ok((k, s)) => auth::drawn(auth::KEY_LEN, Ok(k)) && s == KeySource::Random,
            Err(e) => auth::drawn(auth::KEY_LEN, Err(NoEntropy)) && e == KeyError::NoEntropy,
        },
{
    proof {
        if given is Some {
            auth::keys_in_hex_are_whole(given->0@);
        }
    }
    match given {
        Some(g) => match auth::from_hex(g) {
            Ok(key) => Ok((key, KeySource::Copied)),
            Err(e) => Err(KeyError::Given(text::cat2("--key: ", &e))),
        },
        None => {
            let source: KeySource = match phrase {
                Some(p) => if p.is_empty() {
                    KeySource::Random
                } else {
                    KeySource::Derived
                },
                None => KeySource::Random,
            };
            let made = auth::hash_or_random(phrase);
            match made {
                Ok(key) => Ok((key, source)),
                Err(e) => {
                    assert(e == NoEntropy);
                    Err(KeyError::NoEntropy)
                },
            }
        },
    }
}

/// Whether a key was set for the first server of the given name, which is the one
/// at `i`, and for no other, and whether that is what is said.
pub open spec fn key_set_at(
    before: Book,
    after: Book,
    i: int,
    name: Seq<char>,
    key: Seq<u8>,
    scope: Seq<char>,
) -> bool {
    &&& 0 <= i < before.servers@.len()
    &&& book::is_named(before.servers@[i], name)
    &&& forall|j: int| 0 <= j < i ==> !book::is_named(#[trigger] before.servers@[j], name)
    &&& after.key == before.key
    &&& after.servers@.len() == before.servers@.len()
    &&& after.servers@[i].key@ == key
    &&& after.servers@[i] == (ServerEntry { key: after.servers@[i].key, ..before.servers@[i] })
    &&& forall|j: int|
        0 <= j < before.servers@.len() && j != i ==> #[trigger] after.servers@[j]
            == before.servers@[j]
    &&& scope == "server '"@ + before.servers@[i].name@ + "'"@
}

/// Sets a key, and says for whom: for the first server of the given name, or for all
/// that have none of their own.
pub fn set_key(known: &mut Book, server: Option<&str>, key: &[u8], config: &str) -> (r: Result<
    String,
    String,
>)
    ensures
        server is None ==> {
            &&& r matches Ok(scope)
            &&& scope@ == "all servers without a key of their own"@
            &&& final(known).key@ == key@
            &&& final(known).servers == old(known).servers
        },
        r is Ok && server is Some ==> exists|i: int|
            key_set_at(*old(known), *final(known), i, server->0@, key@, r->Ok_0@),
        r matches Err(e) ==> {
            &&& *final(known) == *old(known)
            &&& server is Some
            &&& e@ == "no server named '"@ + server->0@ + "' in "@ + config@
            &&& forall|j: int|
                0 <= j < old(known).servers@.len() ==> !book::is_named(
                    #[trigger] old(known).servers@[j],
                    server->0@,
                )
        },
{
    match server {
        None => {
            known.key = bytes::copy_of(key);
            Ok("all servers without a key of their own".to_string())
        },
        Some(name) => {
            let mut i: usize = 0;
            while i < known.servers.len() && !text::same_ignoring_case(
                &known.servers[i].name,
                name,
            )
                invariant
                    i <= known.servers.len(),
                    *known == *old(known),
                    forall|j: int|
                        0 <= j < i ==> !book::is_named(#[trigger] known.servers@[j], name@),
                decreases known.servers.len() - i,
            {
                i = i + 1;
            }
            if i == known.servers.len() {
                return Err(text::cat4("no server named '", name, "' in ", config));
            }
            let scope: String = text::cat3("server '", &known.servers[i].name, "'");
            known.servers[i].key = bytes::copy_of(key);
            assert(key_set_at(*old(known), *known, i as int, name@, key@, scope@));
            let r: Result<String, String> = Ok(scope);
            assert(r->Ok_0@ == "server '"@ + old(known).servers@[i as int].name@ + "'"@);
            r
        },
    }
}

/// What is printed once a key is set. A random key is of no use until the other
/// end has it, so it is handed over.
pub open spec fn report(source: KeySource, scope: Seq<char>, config: Seq<char>, key: Seq<u8>) -> Seq<
    Seq<char>,
> {
    let said = seq![
        "Key ("@ + source_text(source) + ") saved for "@ + scope + " in "@ + config + "."@,
    ];
    if source == KeySource::Random {
        said + seq![
            "\nNothing can re-derive this key. Set the same one on the server with:"@,
            "server keygen --key "@ + auth::hex_text(key),
            "\n(Or run `keygen <phrase>` on both sides instead.)"@,
        ]
    } else {
        said
    }
}

pub fn report_lines(source: KeySource, scope: &str, config: &str, key: &[u8]) -> (r: Vec<String>)
    ensures
        text::views(r@) == report(source, scope@, config@, key@),
{
    let mut said: String = text::cat5("Key (", source.text(), ") saved for ", scope, " in ");
    said.append(config);
    said.append(".");
    let mut out: Vec<String> = vec![said];
    if matches!(source, KeySource::Random) {
        out.push(
            "\nNothing can re-derive this key. Set the same one on the server with:".to_string(),
        );
        out.push(text::cat2("server keygen --key ", &auth::to_hex(key)));
        out.push("\n(Or run `keygen <phrase>` on both sides instead.)".to_string());
    }
    assert(text::views(out@) =~= report(source, scope@, config@, key@));
    out
}

/// What is reported says where the key comes from, for whom it is, and where it is kept. A
/// random key, and no other, is handed over with it.
pub proof fn reports_hand_over_random_keys(
    source: KeySource,
    scope: Seq<char>,
    config: Seq<char>,
    key: Seq<u8>,
)
    ensures
        ({
            let r = report(source, scope, config, key);
            &&& r[0] == "Key ("@ + (match source {
                KeySource::Copied => "copied from the server"@,
                KeySource::Derived => "derived from the passphrase"@,
                KeySource::Random => "random"@,
            }) + ") saved for "@ + scope + " in "@ + config + "."@
            &&& source == KeySource::Random ==> r.len() == 4 && r[2] == "server keygen --key "@
                + auth::hex_text(key)
            &&& source != KeySource::Random ==> r.len() == 1
        }),
{
}

/// A key that is set for a server is that server's from then on, for every call to it; no
/// other server, and not the book's own key, is touched.
pub proof fn keys_are_set_for_the_server_named(
    before: Book,
    after: Book,
    i: int,
    name: Seq<char>,
    key: Seq<u8>,
    scope: Seq<char>,
    j: int,
)
    requires
        key_set_at(before, after, i, name, key, scope),
        key.len() == 1024,
    ensures
        book::key_of(after, after.servers@[i]) == Some(key),
        after.servers@[i].id == before.servers@[i].id,
        after.servers@[i].name == before.servers@[i].name,
        after.servers@[i].addr == before.servers@[i].addr,
        text::ascii_lowered(before.servers@[i].name@) == text::ascii_lowered(name),
        0 <= j < before.servers@.len() && j != i ==> after.servers@[j] == before.servers@[j]
            && book::key_of(after, after.servers@[j]) == book::key_of(before, before.servers@[j]),
        0 <= j < i ==> text::ascii_lowered(before.servers@[j].name@) != text::ascii_lowered(name),
        after.servers@.len() == before.servers@.len() && after.key == before.key,
        scope == "server '"@ + before.servers@[i].name@ + "'"@,
{
    if 0 <= j < i {
        assert(!book::is_named(before.servers@[j], name));
    }
}

} // verus!
