//! The random order of the catalog, drawn by the `rand` crate.

use vstd::prelude::*;
use rand::rngs::ThreadRng;
use crate::data::file::File;
use crate::data::order::file_views;

verus! {

/// Makes `rand::rngs::ThreadRng` known to the verifier, as a value of which
/// nothing is known.
#[verifier::external_type_specification]
#[verifier::external_body]
pub struct ExThreadRng(ThreadRng);

/// Calls `rand::thread_rng`, which hands out the generator of the current
/// thread, seeded by the system. Nothing is promised of the generator. The
/// call gives up only where the system has no randomness to seed it with.
#[verifier::external_body]
pub(crate) fn thread_rng() -> (rng: ThreadRng) {
    rand::thread_rng()
}

/// Calls `SliceRandom::shuffle`, which swaps elements of the slice at places
/// that the generator picks. Whatever it picks, the slice afterwards holds
/// the same files, each as often as before.
#[verifier::external_body]
pub(crate) fn shuffle(files: &mut Vec<File>, rng: &mut ThreadRng)
    ensures
        file_views(final(files)@).to_multiset() == file_views(old(files)@).to_multiset(),
{
    rand::seq::SliceRandom::shuffle(files.as_mut_slice(), rng)
}

} // verus!
