//! Random selection, delegated to the `rand` crate.

use rand::seq::{IteratorRandom, SliceRandom};
use vstd::prelude::*;

verus! {

/// Whether some string of the list holds the text `t`.
pub open spec fn has_text(items: Seq<String>, t: Seq<char>) -> bool {
    exists|i: int| 0 <= i < items.len() && (#[trigger] items[i])@ == t
}

/// Calls `rand::seq::SliceRandom::choose` on the list with the thread's
/// generator. Trusted: an empty list gives nothing; otherwise the result is
/// a reference to one of the list's elements. Which one is left open.
#[verifier::external_body]
pub(crate) fn choose_text<'a>(items: &'a Vec<String>) -> (r: Option<&'a String>)
    ensures
        r is Some <==> items.len() > 0,
        r is Some ==> has_text(items@, r.unwrap()@),
{
    items.choose(&mut rand::thread_rng())
}

/// Calls `rand::seq::IteratorRandom::choose` on the range `0..n` with the
/// thread's generator. Trusted: an empty range gives nothing; otherwise the
/// result is some number below `n`. Which one is left open.
#[verifier::external_body]
pub(crate) fn choose_index(n: usize) -> (r: Option<usize>)
    ensures
        r is Some <==> n > 0,
        r is Some ==> r.unwrap() < n,
{
    (0..n).choose(&mut rand::thread_rng())
}

} // verus!
