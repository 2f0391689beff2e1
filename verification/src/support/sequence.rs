//! Small notions about sequences and options that the contracts share.

use vstd::prelude::*;

verus! {

/// The one value of an option as a sequence, or the empty sequence.
pub open spec fn optional<T>(o: Option<T>) -> Seq<T> {
    match o {
        Some(x) => seq![x],
        None => Seq::empty(),
    }
}

/// The sequence ends with the value of the option, if it has one.
pub open spec fn ends_with<T>(s: Seq<T>, o: Option<T>) -> bool {
    match o {
        Some(x) => s.len() > 0 && s.last() == x,
        None => true,
    }
}

/// The sequence without its last value, if the option has one.
pub open spec fn without<T>(s: Seq<T>, o: Option<T>) -> Seq<T> {
    match o {
        Some(_) => s.drop_last(),
        None => s,
    }
}

} // verus!
