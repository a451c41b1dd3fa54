//! The servers that the client knows, and the keys it reaches them with.
use vstd::prelude::*;

use crate::client::net::{Dest, Endpoint, Target};
use crate::protocol::auth::KEY_LEN;
use crate::{bytes, chance, text};

verus! {

/// A server.
#[derive(Debug, PartialEq, Eq)]
pub struct ServerEntry {
    /// Its identity here.
    pub id: u128,
    pub name: String,
    pub addr: Target,
    /// Its own key. Where it is empty, the book's key is used.
    pub key: Vec<u8>,
}

#[verifier::ext_equal]
pub struct Known {
    pub id: u128,
    pub name: Seq<char>,
    pub addr: Target,
    pub key: Seq<u8>,
}

impl View for ServerEntry {
    type V = Known;

    open spec fn view(&self) -> Known {
        Known { id: self.id, name: self.name@, addr: self.addr, key: self.key@ }
    }
}

impl ServerEntry {
    /// A server under a random identity, with no key of its own.
    pub fn new(name: String, addr: Target) -> (r: ServerEntry)
        ensures
            r.name == name,
            r.addr == addr,
            r.key@ == Seq::<u8>::empty(),
            chance::drawn(r.id),
    {
        ServerEntry { id: chance::number(), name, addr, key: Vec::new() }
    }

    /// The same server, once more.
    pub fn copy(&self) -> (r: ServerEntry)
        ensures
            r@ == self@,
    {
        ServerEntry {
            id: self.id,
            name: self.name.clone(),
            addr: self.addr,
            key: bytes::copy_of(&self.key),
        }
    }
}

/// All known servers.
#[derive(Debug, PartialEq, Eq)]
pub struct Book {
    /// The key for servers that have none of their own.
    pub key: Vec<u8>,
    pub servers: Vec<ServerEntry>,
}

impl Default for Book {
    fn default() -> (r: Book)
        ensures
            r.key@.len() == 0,
            r.servers@.len() == 0,
    {
        Book { key: Vec::new(), servers: Vec::new() }
    }
}

/// The key to sign requests to a server with: its own, or else the book's. One
/// of another length is none.
pub open spec fn key_of(book: Book, entry: ServerEntry) -> Option<Seq<u8>> {
    if entry.key@.len() == KEY_LEN {
        Some(entry.key@)
    } else if book.key@.len() == KEY_LEN {
        Some(book.key@)
    } else {
        None
    }
}

/// How to reach a server, given the book's key; with an empty key where there
/// is none of the right length.
pub open spec fn dest_of(book_key: Seq<u8>, entry: Known) -> Dest {
    Dest {
        addr: entry.addr,
        key: if entry.key.len() == KEY_LEN {
            entry.key
        } else if book_key.len() == KEY_LEN {
            book_key
        } else {
            seq![]
        },
    }
}

/// Whether `at` is the first of the servers with that identity.
pub open spec fn first_with_id(servers: Seq<ServerEntry>, id: u128, at: int) -> bool {
    &&& 0 <= at < servers.len()
    &&& servers[at].id == id
    &&& forall|j: int| 0 <= j < at ==> (#[trigger] servers[j]).id != id
}

/// Whether a server has the given name, up to the case of letters.
pub open spec fn is_named(entry: ServerEntry, name: Seq<char>) -> bool {
    text::ascii_lowered(entry.name@) == text::ascii_lowered(name)
}

impl Book {
    /// The key to sign requests to `entry` with; none where neither it nor the
    /// book has one.
    pub fn key_for<'a>(&'a self, entry: &'a ServerEntry) -> (r: Option<&'a [u8]>)
        ensures
            match r {
                Some(k) => key_of(*self, *entry) == Some(k@),
                None => key_of(*self, *entry) is None,
            },
    {
        if entry.key.len() == KEY_LEN {
            Some(entry.key.as_slice())
        } else if self.key.len() == KEY_LEN {
            Some(self.key.as_slice())
        } else {
            None
        }
    }

    /// How to reach a server, where there is a key for it.
    pub fn endpoint_for(&self, entry: &ServerEntry) -> (r: Option<Endpoint>)
        ensures
            match r {
                Some(e) => e.addr == entry.addr && key_of(*self, *entry) == Some(e.key@),
                None => key_of(*self, *entry) is None,
            },
    {
        match self.key_for(entry) {
            Some(key) => Some(Endpoint::new(entry.addr, bytes::copy_of(key))),
            None => None,
        }
    }

    /// How to reach a server; without a key for it, with an empty one, which
    /// every call then refuses.
    pub fn endpoint_or_keyless(&self, entry: &ServerEntry) -> (r: Endpoint)
        ensures
            r@ == dest_of(self.key@, entry@),
    {
        match self.endpoint_for(entry) {
            Some(e) => e,
            None => Endpoint::new(entry.addr, Vec::new()),
        }
    }

    /// The place of a server in the book.
    pub fn index_of(&self, id: u128) -> (r: Option<usize>)
        ensures
            match r {
                Some(i) => first_with_id(self.servers@, id, i as int),
                None => forall|j: int| 0 <= j < self.servers@.len() ==> (#[trigger] self.servers@[j]).id
                    != id,
            },
    {
        let mut i: usize = 0;
        while i < self.servers.len()
            invariant
                i <= self.servers.len(),
                forall|j: int| 0 <= j < i ==> (#[trigger] self.servers@[j]).id != id,
            decreases self.servers.len() - i,
        {
            if self.servers[i].id == id {
                return Some(i);
            }
            i = i + 1;
        }
        None
    }

    /// The first server with that identity.
    pub fn entry(&self, id: u128) -> (r: Option<&ServerEntry>)
        ensures
            match r {
                Some(e) => exists|i: int|
                    #[trigger] first_with_id(self.servers@, id, i) && *e == self.servers@[i],
                None => forall|j: int| 0 <= j < self.servers@.len() ==> (#[trigger] self.servers@[j]).id
                    != id,
            },
    {
        match self.index_of(id) {
            Some(i) => Some(&self.servers[i]),
            None => None,
        }
    }

    /// The first server with that name, up to the case of letters.
    pub fn find_by_name(&self, name: &str) -> (r: Option<&ServerEntry>)
        ensures
            match r {
                Some(e) => exists|i: int|
                    0 <= i < self.servers@.len() && *e == #[trigger] self.servers@[i] && is_named(
                        *e,
                        name@,
                    ) && forall|j: int| 0 <= j < i ==> !is_named(#[trigger] self.servers@[j], name@),
                None => forall|j: int|
                    0 <= j < self.servers@.len() ==> !is_named(#[trigger] self.servers@[j], name@),
            },
    {
        let mut i: usize = 0;
        while i < self.servers.len()
            invariant
                i <= self.servers.len(),
                forall|j: int| 0 <= j < i ==> !is_named(#[trigger] self.servers@[j], name@),
            decreases self.servers.len() - i,
        {
            if text::same_ignoring_case(&self.servers[i].name, name) {
                assert(is_named(self.servers@[i as int], name@));
                return Some(&self.servers[i]);
            }
            i = i + 1;
        }
        None
    }
}

/// A server's own key comes first, then the book's. A key that is not whole is none.
pub proof fn own_keys_come_first(book: Book, entry: ServerEntry)
    ensures
        entry.key@.len() == 1024 ==> key_of(book, entry) == Some(entry.key@) && dest_of(
            book.key@,
            entry@,
        ).key == entry.key@,
        entry.key@.len() != 1024 && book.key@.len() == 1024 ==> key_of(book, entry) == Some(
            book.key@,
        ) && dest_of(book.key@, entry@).key == book.key@,
        entry.key@.len() != 1024 && book.key@.len() != 1024 ==> key_of(book, entry) is None
            && dest_of(book.key@, entry@).key.len() == 0,
        dest_of(book.key@, entry@).addr == entry.addr,
{
}

/// A server goes by its name, whatever the case of its letters, and by no longer or shorter
/// one.
pub proof fn servers_go_by_their_name(entry: ServerEntry, name: Seq<char>)
    ensures
        is_named(entry, entry.name@),
        is_named(entry, name) <==> name.len() == entry.name@.len() && forall|i: int|
            0 <= i < name.len() ==> text::ascii_lower(#[trigger] name[i]) == text::ascii_lower(
                entry.name@[i],
            ),
{
    let a = text::ascii_lowered(entry.name@);
    let b = text::ascii_lowered(name);
    assert(a.len() == entry.name@.len() && b.len() == name.len());
    if is_named(entry, name) {
        assert forall|i: int| 0 <= i < name.len() implies text::ascii_lower(#[trigger] name[i])
            == text::ascii_lower(entry.name@[i]) by {
            assert(a[i] == text::ascii_lower(entry.name@[i]));
            assert(b[i] == text::ascii_lower(name[i]));
        }
    }
    if name.len() == entry.name@.len() && forall|i: int|
        0 <= i < name.len() ==> text::ascii_lower(#[trigger] name[i]) == text::ascii_lower(
            entry.name@[i],
        ) {
        assert(a =~= b);
    }
}

} // verus!
