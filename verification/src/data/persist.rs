//! What the catalog exchanges with the store of ratings: the rows that the
//! store holds, and the writes that the catalog asks for.

use vstd::prelude::*;
use crate::data::file::{clamp_to_rating, rating_view, File, FileView, Rating};
use crate::data::order::file_views;

verus! {

/// A row of the store: a file name and the rating stored for it, if any.
#[derive(Debug)]
pub struct RatingRow {
    pub name: String,
    pub rating: Option<i64>,
}

/// A row as the contracts speak of it.
pub struct RatingRowView {
    pub name: Seq<char>,
    pub rating: Option<int>,
}

impl View for RatingRow {
    type V = RatingRowView;

    open spec fn view(&self) -> RatingRowView {
        RatingRowView {
            name: self.name@,
            rating: match self.rating {
                Some(r) => Some(r as int),
                None => None,
            },
        }
    }
}

/// The rows of a sequence as the contracts speak of them.
pub open spec fn row_views(rows: Seq<RatingRow>) -> Seq<RatingRowView> {
    rows.map_values(|r: RatingRow| r@)
}

/// A write to the store: the rating to keep for a file name, or the request
/// to keep none.
#[derive(Debug)]
pub struct RatingWrite {
    pub file_name: String,
    pub rating: Option<Rating>,
}

/// A write as the contracts speak of it.
pub struct RatingWriteView {
    pub file_name: Seq<char>,
    pub rating: Option<int>,
}

impl View for RatingWrite {
    type V = RatingWriteView;

    open spec fn view(&self) -> RatingWriteView {
        RatingWriteView { file_name: self.file_name@, rating: rating_view(self.rating) }
    }
}

/// The writes of a sequence as the contracts speak of them.
pub open spec fn write_views(writes: Seq<RatingWrite>) -> Seq<RatingWriteView> {
    writes.map_values(|w: RatingWrite| w@)
}

/// The name under which a file is kept in the store: the final component of
/// its path, or the empty text if it has none.
pub open spec fn stored_name(file: FileView) -> Seq<char> {
    match file.file_name {
        Some(name) => name,
        None => Seq::empty(),
    }
}

/// What the store says about `name`: the rating of the last row with that
/// name, or nothing if no row has it.
pub open spec fn stored_rating(rows: Seq<RatingRowView>, name: Seq<char>) -> Option<Option<int>>
    decreases rows.len(),
{
    if rows.len() == 0 {
        None
    } else if rows.last().name == name {
        Some(rows.last().rating)
    } else {
        stored_rating(rows.drop_last(), name)
    }
}

/// The file with the rating that the store holds for it, clamped into the
/// range of ratings. A file that the store does not know keeps its rating.
pub open spec fn populated(file: FileView, rows: Seq<RatingRowView>) -> FileView {
    match stored_rating(rows, stored_name(file)) {
        Some(Some(raw)) => FileView { rating: Some(clamp_to_rating(raw)), ..file },
        Some(None) => FileView { rating: None, ..file },
        None => file,
    }
}

/// Looks up what the store says about `name`.
fn find_rating(rows: &Vec<RatingRow>, name: &String) -> (r: Option<Option<i64>>)
    ensures
        match r {
            Some(Some(raw)) => stored_rating(row_views(rows@), name@) == Some(Some(raw as int)),
            Some(None) => stored_rating(row_views(rows@), name@) == Some(None::<int>),
            None => stored_rating(row_views(rows@), name@) is None,
        },
{
    let mut i = rows.len();
    assert(row_views(rows@).take(i as int) =~= row_views(rows@));
    while i > 0
        invariant
            i <= rows@.len(),
            stored_rating(row_views(rows@), name@) == stored_rating(
                row_views(rows@).take(i as int),
                name@,
            ),
        decreases i,
    {
        proof {
            let upto = row_views(rows@).take(i as int);
            assert(upto.drop_last() =~= row_views(rows@).take(i - 1));
        }
        i = i - 1;
        if rows[i].name == *name {
            return Some(rows[i].rating);
        }
    }
    None
}

/// Gives each file the rating that the store holds under its name.
pub fn populate_files(files: &mut Vec<File>, rows: &Vec<RatingRow>)
    ensures
        file_views(final(files)@) == file_views(old(files)@).map_values(
            |f: FileView| populated(f, row_views(rows@)),
        ),
{
    let n = files.len();
    let mut i: usize = 0;
    while i < n
        invariant
            i <= n,
            n == files@.len(),
            n == old(files)@.len(),
            forall|j: int|
                0 <= j < i ==> (#[trigger] files@[j])@ == populated(
                    old(files)@[j]@,
                    row_views(rows@),
                ),
            forall|j: int| i <= j < n ==> (#[trigger] files@[j])@ == old(files)@[j]@,
        decreases n - i,
    {
        let name = files[i].name();
        match find_rating(rows, &name) {
            Some(stored) => {
                let rating = match stored {
                    Some(raw) => Some(Rating::new(raw)),
                    None => None,
                };
                files[i].rating = rating;
            },
            None => {},
        }
        i = i + 1;
    }
}

} // verus!
