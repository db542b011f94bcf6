//! Draws from `rand`'s thread-local generator. Nothing is claimed about which
//! values come out beyond their range.
use vstd::prelude::*;
use rand::Rng;
use rand::seq::SliceRandom;

verus! {

/// `rand`'s thread-local generator, opaque.
#[verifier::external_type_specification]
#[verifier::external_body]
pub struct ExThreadRng(rand::rngs::ThreadRng);

/// `rand::thread_rng()`.
#[verifier::external_body]
pub(crate) fn thread_rng() -> rand::rngs::ThreadRng {
    rand::thread_rng()
}

/// `Rng::gen_range(0..n)`: claims a value below `n` (it panics on an empty range,
/// hence the precondition).
#[verifier::external_body]
pub(crate) fn gen_below(rng: &mut rand::rngs::ThreadRng, n: usize) -> (res: usize)
    requires
        n > 0,
    ensures
        res < n,
{
    rng.gen_range(0..n)
}

/// `Rng::gen_range(lo..=hi)` on bytes: claims a value in the closed range.
#[verifier::external_body]
pub(crate) fn gen_byte_in(rng: &mut rand::rngs::ThreadRng, lo: u8, hi: u8) -> (res: u8)
    requires
        lo <= hi,
    ensures
        lo <= res <= hi,
{
    rng.gen_range(lo..=hi)
}

/// `rand::random::<u8>()`.
#[verifier::external_body]
pub(crate) fn random_byte() -> u8 {
    rand::random::<u8>()
}

/// `Rng::fill` on a 12-byte array, returned as a vector.
#[verifier::external_body]
pub(crate) fn random_nonce() -> (res: Vec<u8>)
    ensures
        res@.len() == 12,
{
    let mut nonce_bytes = [0u8; 12];
    rand::thread_rng().fill(&mut nonce_bytes);
    nonce_bytes.to_vec()
}

/// `order` lists each index below `n` exactly once.
pub open spec fn is_index_permutation(order: Seq<int>, n: nat) -> bool {
    &&& order.len() == n
    &&& forall|i: int| 0 <= i < n ==> 0 <= #[trigger] order[i] < n
    &&& forall|i: int, j: int|
        0 <= i < n && 0 <= j < n && i != j ==> #[trigger] order[i] != #[trigger] order[j]
}

/// `after` holds the elements of `before` in the order `order`.
pub open spec fn reordered<T>(after: Seq<T>, before: Seq<T>, order: Seq<int>) -> bool {
    &&& is_index_permutation(order, before.len())
    &&& after.len() == before.len()
    &&& forall|i: int| 0 <= i < after.len() ==> #[trigger] after[i] == before[order[i]]
}

/// `SliceRandom::shuffle` on a vector of strings: claims the result holds the
/// same elements in some order (it swaps elements in place). Which order is left open.
#[verifier::external_body]
pub(crate) fn shuffle_strings(rng: &mut rand::rngs::ThreadRng, v: &mut Vec<String>)
    ensures
        exists|order: Seq<int>| reordered(final(v)@, old(v)@, order),
{
    v.shuffle(rng);
}

} // verus!
