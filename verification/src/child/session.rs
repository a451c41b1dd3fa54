//! Side-channel sessions: a port of their own, taken up with a token.
use vstd::prelude::*;

use crate::{bytes, chance};

verus! {

/// What the client needs to take a session up: the port, on the host that it has
/// called, the token that it sends first, and for how long the offer stands.
#[derive(Debug, PartialEq, Eq)]
pub struct SessionOffer {
    pub port: u16,
    pub token: Vec<u8>,
    pub ttl_secs: u64,
}

pub const TOKEN_LEN: usize = 32;

/// For how many seconds a connection's token is waited for.
pub const TOKEN_WAIT_SECS: u64 = 5;

/// What the server sends once the token is accepted.
pub const ACK: u8 = 1;

/// Whether two tokens are the same. Every byte is looked at, wherever they differ
/// first.
pub fn token_matches(a: &[u8; TOKEN_LEN], b: &[u8; TOKEN_LEN]) -> (r: bool)
    ensures
        r == (a@ == b@),
{
    let mut acc: u8 = 0;
    let mut i: usize = 0;
    while i < TOKEN_LEN
        invariant
            i <= TOKEN_LEN,
            a@.len() == TOKEN_LEN,
            b@.len() == TOKEN_LEN,
            acc == 0 <==> (forall|k: int| 0 <= k < i ==> a@[k] == b@[k]),
        decreases TOKEN_LEN - i,
    {
        let x: u8 = a[i];
        let y: u8 = b[i];
        let before: u8 = acc;
        acc = before | (x ^ y);
        assert((before | (x ^ y)) == 0 <==> before == 0 && x == y) by (bit_vector);
        i = i + 1;
    }
    assert(acc == 0 ==> a@ =~= b@);
    acc == 0
}

/// An offer that can be taken up once.
#[derive(Debug)]
pub struct Offer {
    pub token: [u8; TOKEN_LEN],
    /// Whether it still stands.
    pub open: bool,
}

/// What happens to an offer.
#[derive(Debug)]
pub enum OfferEvent {
    /// A connection came and presented a token.
    Presented([u8; TOKEN_LEN]),
    /// A connection came, and presented none in time.
    Silent,
    /// No connections can be taken any more.
    AcceptFailed,
    /// Its time is over.
    Expired,
}

/// What becomes of it.
#[derive(Clone, Copy, Debug, PartialEq, Eq, Structural)]
pub enum OfferAct {
    /// The session begins on this connection.
    Serve,
    /// The connection is dropped, and the next one waited for.
    Refuse,
    /// Nothing more is waited for.
    End,
}

/// What becomes of an offer, and whether it still stands then.
pub open spec fn offered(token: Seq<u8>, open: bool, event: OfferEvent) -> (bool, OfferAct) {
    if !open {
        (false, OfferAct::End)
    } else {
        match event {
            OfferEvent::Presented(presented) => if presented@ == token {
                (false, OfferAct::Serve)
            } else {
                (true, OfferAct::Refuse)
            },
            OfferEvent::Silent => (true, OfferAct::Refuse),
            OfferEvent::AcceptFailed => (false, OfferAct::End),
            OfferEvent::Expired => (false, OfferAct::End),
        }
    }
}

impl Offer {
    /// An offer under a given token.
    pub fn with_token(token: [u8; TOKEN_LEN]) -> (r: Offer)
        ensures
            r.token == token,
            r.open,
    {
        Offer { token, open: true }
    }

    /// An offer under a random token, and what the client is told of it.
    pub fn open(port: u16, ttl_secs: u64) -> (r: (Offer, SessionOffer))
        ensures
            r.0.open,
            chance::token_drawn(r.0.token),
            r.1.port == port,
            r.1.ttl_secs == ttl_secs,
            r.1.token@ == r.0.token@,
            r.1.token@.len() == TOKEN_LEN,
    {
        let offer = Offer::with_token(chance::token());
        let token: Vec<u8> = bytes::copy_of(offer.token.as_slice());
        (offer, SessionOffer { port, token, ttl_secs })
    }

    /// One thing that happens to the offer.
    pub fn on(&mut self, event: OfferEvent) -> (r: OfferAct)
        ensures
            final(self).token == old(self).token,
            (final(self).open, r) == offered(old(self).token@, old(self).open, event),
    {
        if !self.open {
            return OfferAct::End;
        }
        match event {
            OfferEvent::Presented(presented) => {
                if token_matches(&presented, &self.token) {
                    self.open = false;
                    OfferAct::Serve
                } else {
                    OfferAct::Refuse
                }
            },
            OfferEvent::Silent => OfferAct::Refuse,
            OfferEvent::AcceptFailed | OfferEvent::Expired => {
                self.open = false;
                OfferAct::End
            },
        }
    }
}

/// Only the token is served, and a connection without it leaves the offer as it was.
pub proof fn only_the_token_is_served(token: Seq<u8>, open: bool, event: OfferEvent)
    ensures
        offered(token, open, event).1 == OfferAct::Serve ==> open && (event
            matches OfferEvent::Presented(p) && p@ == token),
        offered(token, open, event).1 == OfferAct::Refuse ==> open && offered(
            token,
            open,
            event,
        ).0,
{
}

/// An offer is taken up once at most: whatever follows a served connection, no
/// other is served.
pub proof fn offers_are_taken_up_once(token: Seq<u8>, open: bool, first: OfferEvent, next: OfferEvent)
    requires
        offered(token, open, first).1 == OfferAct::Serve,
    ensures
        offered(token, offered(token, open, first).0, next).1 != OfferAct::Serve,
{
}

/// Whoever presents the token of an offer that stands is served, and the offer is taken
/// up by that. Another token, or none in time, is refused and the offer goes on; its time
/// running out ends it, and so does an end of connections. An offer that ended serves no
/// one.
pub proof fn offers_serve_their_token(token: Seq<u8>, presented: [u8; 32])
    ensures
        presented@ == token ==> offered(token, true, OfferEvent::Presented(presented)) == (
            false,
            OfferAct::Serve,
        ),
        presented@ != token ==> offered(token, true, OfferEvent::Presented(presented)) == (
            true,
            OfferAct::Refuse,
        ),
        offered(token, true, OfferEvent::Silent) == (true, OfferAct::Refuse),
        offered(token, true, OfferEvent::Expired) == (false, OfferAct::End),
        offered(token, true, OfferEvent::AcceptFailed) == (false, OfferAct::End),
        offered(token, false, OfferEvent::Presented(presented)) == (false, OfferAct::End),
        offered(token, false, OfferEvent::Silent) == (false, OfferAct::End),
{
}

} // verus!
