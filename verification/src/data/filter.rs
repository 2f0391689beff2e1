//! The filter that decides which files of the catalog are visible.

use vstd::prelude::*;
use crate::data::file::{rating_view, text_view, File, FileView, Rating};
use crate::support::text::{
    contains, is_substring, lemma_prefix_of_substring, lowercase, starts_with, to_lowercase,
};

verus! {

/// A filter on the file list: a text that the lowercase file name must
/// contain, and a rating that the file must reach.
#[derive(Debug)]
pub struct Filter {
    /// The file name should contain this. This value is always lowercase.
    file_name: Option<String>,
    rating: Option<Rating>,
}

/// What a filter asks for.
pub struct FilterView {
    pub file_name: Option<Seq<char>>,
    pub rating: Option<int>,
}

impl FilterView {
    /// The filter that lets every file through.
    pub open spec fn all() -> FilterView {
        FilterView { file_name: None, rating: None }
    }

    /// This filter with its text replaced by the lowercase form of `name`,
    /// or with no text if `name` is empty.
    pub open spec fn with_name(self, name: Seq<char>) -> FilterView {
        FilterView {
            file_name: if name.len() == 0 {
                None
            } else {
                Some(lowercase(name))
            },
            rating: self.rating,
        }
    }

    /// This filter with its rating floor replaced.
    pub open spec fn with_rating(self, rating: Option<int>) -> FilterView {
        FilterView { file_name: self.file_name, rating }
    }

    /// The name part of `is_subset_of`: this filter's text starts with the
    /// other's, where no text is the least specific.
    pub open spec fn name_is_subset_of(self, other: FilterView) -> bool {
        match (self.file_name, other.file_name) {
            (_, None) => true,
            (None, Some(_)) => false,
            (Some(new), Some(current)) => current.is_prefix_of(new),
        }
    }

    /// The rating part of `is_subset_of`: this filter's floor is at least the
    /// other's, where no floor is the lowest.
    pub open spec fn rating_is_subset_of(self, other: FilterView) -> bool {
        match (self.rating, other.rating) {
            (_, None) => true,
            (None, Some(_)) => false,
            (Some(new), Some(current)) => current <= new,
        }
    }

    /// This filter is at least as specific as `other`, in its text and in
    /// its rating.
    pub open spec fn is_subset_of(self, other: FilterView) -> bool {
        self.name_is_subset_of(other) && self.rating_is_subset_of(other)
    }

    /// The file's lowercase name contains the filter's text.
    pub open spec fn name_matches(self, file: FileView) -> bool {
        match (self.file_name, file.file_name) {
            (None, _) => true,
            (Some(_), None) => false,
            (Some(text), Some(name)) => is_substring(text, lowercase(name)),
        }
    }

    /// The file's rating reaches the filter's floor.
    pub open spec fn rating_matches(self, file: FileView) -> bool {
        match (self.rating, file.rating) {
            (None, _) => true,
            (Some(_), None) => false,
            (Some(floor), Some(stars)) => floor <= stars,
        }
    }

    /// The file passes the filter.
    pub open spec fn matches(self, file: FileView) -> bool {
        self.name_matches(file) && self.rating_matches(file)
    }
}

impl View for Filter {
    type V = FilterView;

    closed spec fn view(&self) -> FilterView {
        FilterView { file_name: text_view(self.file_name), rating: rating_view(self.rating) }
    }
}

impl Clone for Filter {
    fn clone(&self) -> (r: Filter)
        ensures
            r@ == self@,
    {
        Filter { file_name: self.file_name.clone(), rating: self.rating }
    }
}

impl Default for Filter {
    fn default() -> (r: Filter)
        ensures
            r@ == FilterView::all(),
    {
        Filter { file_name: None, rating: None }
    }
}

// Builder methods
impl Filter {
    /// The same filter with its text replaced by the lowercase form of
    /// `name`, or with no text if `name` is empty.
    pub fn with_name(self, name: &str) -> (r: Filter)
        ensures
            r@ == self@.with_name(name@),
    {
        let file_name = if name.is_empty() {
            None
        } else {
            Some(to_lowercase(name))
        };
        Filter { file_name, rating: self.rating }
    }

    /// The same filter with its rating floor replaced.
    pub fn with_rating(self, rating: &Option<Rating>) -> (r: Filter)
        ensures
            r@ == self@.with_rating(rating_view(*rating)),
    {
        Filter { file_name: self.file_name, rating: *rating }
    }
}

// Utility
impl Filter {
    /// Decides whether this filter is at least as specific as `other`, so
    /// that every file it lets through passes `other` too.
    pub fn is_subset_of(&self, other: &Filter) -> (r: bool)
        ensures
            r == self@.is_subset_of(other@),
    {
        let is_file_name_subset = match (&self.file_name, &other.file_name) {
            (None, None) => true,
            (Some(_), None) => true,
            (None, Some(_)) => false,
            (Some(new), Some(current)) => starts_with(new.as_str(), current.as_str()),
        };

        let is_rating_subset = match (&self.rating, &other.rating) {
            (None, None) => true,
            (Some(_), None) => true,
            (None, Some(_)) => false,
            (Some(new), Some(current)) => current.as_i64() <= new.as_i64(),
        };

        is_file_name_subset && is_rating_subset
    }

    /// Decides whether the file passes the filter.
    pub fn matches(&self, file: &File) -> (r: bool)
        ensures
            r == self@.matches(file@),
    {
        let name_matches = match (&self.file_name, &file.file_name) {
            (Some(_), None) => false,
            (None, _) => true,
            (Some(filter), Some(name)) => {
                let lower = to_lowercase(name.as_str());
                contains(lower.as_str(), filter.as_str())
            },
        };

        let rating_matches = match (&self.rating, &file.rating) {
            (Some(_), None) => false,
            (None, _) => true,
            (Some(filter), Some(rating)) => filter.as_i64() <= rating.as_i64(),
        };

        name_matches && rating_matches
    }
}

/// Every filter is a subset of itself.
pub proof fn lemma_subset_reflexive(a: FilterView)
    ensures
        a.is_subset_of(a),
{
}

/// Every filter is a subset of the filter that lets every file through.
pub proof fn lemma_subset_of_all(a: FilterView)
    ensures
        a.is_subset_of(FilterView::all()),
{
}

/// A subset of a subset is a subset.
pub proof fn lemma_subset_transitive(a: FilterView, b: FilterView, c: FilterView)
    requires
        a.is_subset_of(b),
        b.is_subset_of(c),
    ensures
        a.is_subset_of(c),
{
}

/// A file that passes a filter passes every filter that this one is a subset
/// of.
pub proof fn lemma_subset_matches(a: FilterView, b: FilterView, file: FileView)
    requires
        a.is_subset_of(b),
        a.matches(file),
    ensures
        b.matches(file),
{
    match (a.file_name, b.file_name, file.file_name) {
        (Some(new), Some(current), Some(name)) => {
            lemma_prefix_of_substring(current, new, lowercase(name));
        },
        _ => {},
    }
}

/// Every file passes the filter that lets every file through.
pub proof fn lemma_all_matches(file: FileView)
    ensures
        FilterView::all().matches(file),
{
}

} // verus!
