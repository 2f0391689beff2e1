//! The intents that the overlay with the file list reports.

use vstd::prelude::*;

verus! {

/// What the overlay asks for: a step through the files or the choice of one.
#[derive(Copy, Clone, Debug)]
pub enum Action {
    ImageNext,
    ImagePrev,
    Select(usize),
}

} // verus!
