//! Randomness: the thread-local generator and random identifiers.
use rand::Rng;
use vstd::prelude::*;

verus! {

#[verifier::external_type_specification]
#[verifier::external_body]
pub struct ExThreadRng(rand::rngs::ThreadRng);

/// A lowercase hexadecimal digit.
pub open spec fn is_lower_hex(c: char) -> bool {
    ('0' <= c && c <= '9') || ('a' <= c && c <= 'f')
}

/// `rand::rng()`: a handle on this thread's generator. Nothing is claimed of it.
#[verifier::external_body]
pub(crate) fn thread_rng() -> rand::rngs::ThreadRng {
    rand::rng()
}

/// `Rng::random_range(0..n)`: a number drawn from `0..n`; the range must not be empty.
#[verifier::external_body]
pub(crate) fn random_below(rng: &mut rand::rngs::ThreadRng, n: usize) -> (r: usize)
    requires
        n > 0,
    ensures
        r < n,
{
    rng.random_range(0..n)
}

/// `uuid::Uuid::new_v4().simple().to_string()`: a fresh random identifier, written as
/// 32 lowercase hexadecimal digits without hyphens. Which digits come is chance.
#[verifier::external_body]
pub(crate) fn simple_uuid() -> (r: String)
    ensures
        r@.len() == 32,
        forall|k: int| 0 <= k < 32 ==> is_lower_hex(#[trigger] r@[k]),
{
    uuid::Uuid::new_v4().simple().to_string()
}

} // verus!
