//! Which servers to poll: all that are known, but none while it is being asked.
use std::collections::HashSet;

use vstd::prelude::*;

use crate::client::book::{Book, Known, ServerEntry};
use crate::client::app;
use crate::client::book;
use crate::client::net::{Dest, Endpoint};

verus! {

broadcast use vstd::std_specs::hash::group_hash_axioms;

/// A poll to start.
#[derive(Debug)]
pub struct Poll {
    pub server: u128,
    pub endpoint: Endpoint,
}

pub struct Poller {
    /// Servers that have been asked and have not answered.
    pub inflight: HashSet<u128>,
}

/// The servers being asked once the first `n` have been gone through.
pub open spec fn asked(servers: Seq<Known>, before: Set<u128>, n: int) -> Set<u128>
    decreases n,
{
    if n <= 0 {
        before
    } else {
        asked(servers, before, n - 1).insert(servers[n - 1].id)
    }
}

/// The polls that the first `n` servers start. Without a key for it a server is
/// polled too, so that its row can say so.
pub open spec fn polls(key: Seq<u8>, servers: Seq<Known>, before: Set<u128>, n: int) -> Seq<
    (u128, Dest),
>
    decreases n,
{
    if n <= 0 {
        seq![]
    } else {
        let earlier = polls(key, servers, before, n - 1);
        let s = servers[n - 1];
        if asked(servers, before, n - 1).contains(s.id) {
            earlier
        } else {
            earlier.push((s.id, book::dest_of(key, s)))
        }
    }
}

pub open spec fn poll_views(v: Seq<Poll>) -> Seq<(u128, Dest)> {
    v.map_values(|p: Poll| (p.server, p.endpoint@))
}

impl Poller {
    pub fn new() -> (r: Poller)
        ensures
            r.inflight@ == Set::<u128>::empty(),
    {
        Poller { inflight: HashSet::new() }
    }

    /// The polls to start now.
    pub fn due(&mut self, known: &Book) -> (r: Vec<Poll>)
        ensures
            ({
                let servers = app::known(known.servers@);
                let n = servers.len() as int;
                &&& poll_views(r@) == polls(known.key@, servers, old(self).inflight@, n)
                &&& final(self).inflight@ == asked(servers, old(self).inflight@, n)
            }),
    {
        let ghost servers = app::known(known.servers@);
        let ghost before = self.inflight@;
        let mut out: Vec<Poll> = Vec::new();
        let mut i: usize = 0;
        assert(poll_views(out@) =~= seq![]);
        while i < known.servers.len()
            invariant
                i <= known.servers.len(),
                servers == app::known(known.servers@),
                before == old(self).inflight@,
                self.inflight@ == asked(servers, before, i as int),
                poll_views(out@) == polls(known.key@, servers, before, i as int),
            decreases known.servers.len() - i,
        {
            let entry: &ServerEntry = &known.servers[i];
            assert(servers[i as int] == entry@);
            if self.inflight.insert(entry.id) {
                let ghost earlier = poll_views(out@);
                let poll = Poll { server: entry.id, endpoint: known.endpoint_or_keyless(entry) };
                let ghost p = (poll.server, poll.endpoint@);
                out.push(poll);
                assert(poll_views(out@) =~= earlier.push(p));
            } else {
                assert(self.inflight@ =~= asked(servers, before, i as int + 1));
            }
            i = i + 1;
        }
        assert(servers.len() == known.servers@.len());
        out
    }

    /// A server has answered, or failed to.
    pub fn answered(&mut self, server: u128)
        ensures
            final(self).inflight@ == old(self).inflight@.remove(server),
    {
        self.inflight.remove(&server);
        assert(self.inflight@ =~= old(self).inflight@.remove(server));
    }
}

/// No server is asked while it is still being asked, and none twice at once.
pub proof fn polls_do_not_overlap(
    key: Seq<u8>,
    servers: Seq<Known>,
    before: Set<u128>,
    n: int,
)
    requires
        0 <= n <= servers.len(),
    ensures
        forall|i: int|
            0 <= i < polls(key, servers, before, n).len() ==> !before.contains(
                (#[trigger] polls(key, servers, before, n)[i]).0,
            ) && asked(servers, before, n).contains(polls(key, servers, before, n)[i].0),
        forall|i: int, j: int|
            0 <= i < j < polls(key, servers, before, n).len() ==> (#[trigger] polls(
                key,
                servers,
                before,
                n,
            )[i]).0 != (#[trigger] polls(key, servers, before, n)[j]).0,
        forall|id: u128| before.contains(id) ==> #[trigger] asked(servers, before, n).contains(id),
    decreases n,
{
    if n > 0 {
        polls_do_not_overlap(key, servers, before, n - 1);
        let earlier = polls(key, servers, before, n - 1);
        let all = polls(key, servers, before, n);
        let seen = asked(servers, before, n - 1);
        assert forall|i: int| 0 <= i < all.len() implies !before.contains((#[trigger] all[i]).0)
            && asked(servers, before, n).contains(all[i].0) by {
            if i < earlier.len() {
                assert(all[i] == earlier[i]);
                assert(seen.contains(earlier[i].0));
            } else if before.contains(all[i].0) {
                assert(seen.contains(all[i].0));
            }
        }
        assert forall|i: int, j: int| 0 <= i < j < all.len() implies (#[trigger] all[i]).0 != (
        #[trigger] all[j]).0 by {
            assert(all[i] == earlier[i]);
            assert(seen.contains(earlier[i].0));
            if j < earlier.len() {
                assert(all[j] == earlier[j]);
            }
        }
        assert forall|id: u128| before.contains(id) implies #[trigger] asked(
            servers,
            before,
            n,
        ).contains(id) by {
            assert(seen.contains(id));
        }
    }
}

/// Every server that is not being asked already is asked, at its own address and with its
/// own key, and counts as being asked from then on.
pub proof fn every_server_is_asked(
    key: Seq<u8>,
    servers: Seq<Known>,
    before: Set<u128>,
    n: int,
    i: int,
)
    requires
        0 <= i < n <= servers.len(),
        forall|j: int| 0 <= j < i ==> (#[trigger] servers[j]).id != servers[i].id,
    ensures
        asked(servers, before, n).contains(servers[i].id),
        !before.contains(servers[i].id) ==> exists|k: int|
            0 <= k < polls(key, servers, before, n).len() && #[trigger] polls(
                key,
                servers,
                before,
                n,
            )[k] == (servers[i].id, book::dest_of(key, servers[i])),
    decreases n,
{
    if i < n - 1 {
        every_server_is_asked(key, servers, before, n - 1, i);
        if !before.contains(servers[i].id) {
            let earlier = polls(key, servers, before, n - 1);
            let k = choose|k: int|
                0 <= k < earlier.len() && #[trigger] earlier[k] == (
                    servers[i].id,
                    book::dest_of(key, servers[i]),
                );
            assert(polls(key, servers, before, n)[k] == earlier[k]);
        }
    } else {
        not_asked_before(servers, before, i, servers[i].id);
        if !before.contains(servers[i].id) {
            let all = polls(key, servers, before, n);
            assert(all[all.len() - 1] == (servers[i].id, book::dest_of(key, servers[i])));
        }
    }
}

proof fn not_asked_before(servers: Seq<Known>, before: Set<u128>, n: int, id: u128)
    requires
        0 <= n <= servers.len(),
        forall|j: int| 0 <= j < n ==> (#[trigger] servers[j]).id != id,
    ensures
        asked(servers, before, n).contains(id) <==> before.contains(id),
    decreases n,
{
    if n > 0 {
        not_asked_before(servers, before, n - 1, id);
    }
}

/// A server is reached at its own address, with its own key where it has one of the right
/// length, and else with the book's, or with none.
pub proof fn servers_are_reached_with_their_key(key: Seq<u8>, s: Known)
    ensures
        book::dest_of(key, s).addr == s.addr,
        s.key.len() == 1024 ==> book::dest_of(key, s).key == s.key,
        s.key.len() != 1024 && key.len() == 1024 ==> book::dest_of(key, s).key == key,
        s.key.len() != 1024 && key.len() != 1024 ==> book::dest_of(key, s).key.len() == 0,
{
}

} // verus!
