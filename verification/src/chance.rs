//! Random numbers.
use vstd::prelude::*;

verus! {

/// `rand::random::<u128>`: a random number. Nothing is claimed of it.
#[verifier::external_body]
fn random_number() -> (r: u128) {
    rand::random::<u128>()
}

/// Whether a number was drawn at random.
pub closed spec fn drawn(number: u128) -> bool {
    call_ensures(random_number, (), number)
}

pub(crate) fn number() -> (r: u128)
    ensures
        drawn(r),
{
    random_number()
}

/// `rand::random::<[u8; 32]>`: random bytes. Nothing is claimed of them.
#[verifier::external_body]
fn random_token() -> (r: [u8; 32]) {
    rand::random::<[u8; 32]>()
}

/// Whether a token was drawn at random.
pub closed spec fn token_drawn(token: [u8; 32]) -> bool {
    call_ensures(random_token, (), token)
}

pub(crate) fn token() -> (r: [u8; 32])
    ensures
        token_drawn(r),
{
    random_token()
}

} // verus!
