//! Small conversions of results and options.

use vstd::prelude::*;
use vstd::string::to_string_from_display_ensures;

verus! {

/// Turns the error of a result into the text that it displays as.
pub trait ErrToString<T> {
    fn err_to_string(self) -> Result<T, String>;
}

impl<T, E> ErrToString<T> for Result<T, E> where E: std::fmt::Display {
    fn err_to_string(self) -> (r: Result<T, String>)
        ensures
            match self {
                Ok(value) => r == Ok::<T, String>(value),
                Err(error) => r is Err && to_string_from_display_ensures(&error, r->Err_0),
            },
    {
        match self {
            Ok(value) => Ok(value),
            Err(error) => Err(error.to_string()),
        }
    }
}

/// Stands for no value of whatever type is asked for.
pub trait ToNone {
    fn none<O>(&self) -> (r: Option<O>)
        ensures
            r is None,
    {
        None
    }
}

impl ToNone for () {

}

} // verus!
