//! The intents that the viewer's widgets report.

use vstd::prelude::*;
use crate::data::file::Rating;
use crate::data::file_list::FileSort;

verus! {

/// What a widget of the viewer asks for.
#[derive(Debug)]
pub enum Action {
    ImageNext,
    ImagePrev,
    Select(usize),
    Sort(FileSort),
    /// Load the image at this path.
    LoadImage(String),
    FilterByText(String),
    FilterByRating(Option<Rating>),
    SetRating(Option<Rating>),
}

impl Clone for Action {
    fn clone(&self) -> (r: Action)
        ensures
            r == *self,
    {
        match self {
            Action::ImageNext => Action::ImageNext,
            Action::ImagePrev => Action::ImagePrev,
            Action::Select(index) => Action::Select(*index),
            Action::Sort(method) => Action::Sort(*method),
            Action::LoadImage(path) => Action::LoadImage(path.clone()),
            Action::FilterByText(text) => Action::FilterByText(text.clone()),
            Action::FilterByRating(rating) => Action::FilterByRating(*rating),
            Action::SetRating(rating) => Action::SetRating(*rating),
        }
    }
}

} // verus!
