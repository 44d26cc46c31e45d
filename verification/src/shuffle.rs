//! Random placement of cells, by the `rand` crate.

use vstd::prelude::*;
use rand::Rng;
use crate::cell::Cell;

verus! {

/// The per-thread random number generator of `rand`. Nothing is known of
/// what it holds.
#[verifier::external_type_specification]
#[verifier::external_body]
pub struct ExThreadRng(rand::ThreadRng);

/// `rand::thread_rng` hands out the generator of the calling thread, which
/// the operating system seeds. Nothing is claimed of it. It panics on a
/// machine that has no source of entropy at all.
pub assume_specification[ rand::thread_rng ]() -> (rng: rand::ThreadRng);

/// `Rng::shuffle` reorders a slice in place by swapping pairs of its
/// elements, at positions that the generator draws. Assumed here: the
/// cells after the call are the cells before it, each as often as before,
/// in some order.
#[verifier::external_body]
pub(crate) fn shuffle_cells(rng: &mut rand::ThreadRng, cells: &mut Vec<Cell>)
    ensures
        final(cells)@.to_multiset() == old(cells)@.to_multiset(),
{
    rng.shuffle(cells.as_mut_slice());
}

} // verus!
