//! A file of the catalog and its rating.

use vstd::prelude::*;
use vstd::std_specs::convert::FromSpecImpl;
use vstd::string::StringExecFns;
use crate::support::path::{
    extension_component, extension_equals, final_component, ExtensionIs,
};

verus! {

/// A rating between one and five stars.
#[derive(Debug, Clone, Copy, PartialEq, Eq, PartialOrd, Ord, Hash, Structural)]
pub struct Rating(usize);

impl View for Rating {
    type V = int;

    /// The number of stars.
    closed spec fn view(&self) -> int {
        self.0 as int
    }
}

/// The number of stars that an integer is clamped to.
pub open spec fn clamp_to_rating(raw: int) -> int {
    if raw < 1 {
        1
    } else if raw > 5 {
        5
    } else {
        raw
    }
}

/// The five characters that show `stars` stars: an asterisk for each star
/// reached, an underscore for each one missing.
pub open spec fn star_text(stars: int) -> Seq<char> {
    Seq::new(5, |i: int| if i < stars { '*' } else { '_' })
}

impl Rating {
    #[verifier::type_invariant]
    spec fn in_range(self) -> bool {
        1 <= self.0 <= 5
    }

    /// The rating with `clamp_to_rating(raw)` stars.
    pub closed spec fn clamped(raw: int) -> Rating {
        Rating(clamp_to_rating(raw) as usize)
    }

    /// The rating for `raw`, clamped into the range from one to five.
    pub fn new(raw: i64) -> (r: Rating)
        ensures
            r == Rating::clamped(raw as int),
            r@ == clamp_to_rating(raw as int),
    {
        if raw < 1 {
            Rating(1)
        } else if raw > 5 {
            Rating(5)
        } else {
            Rating(raw as usize)
        }
    }

    /// The number of stars.
    pub fn as_i64(&self) -> (r: i64)
        ensures
            r == self@,
            1 <= r <= 5,
    {
        proof {
            use_type_invariant(self);
        }
        self.0 as i64
    }

    /// The most stars a rating can have.
    pub fn max_value() -> (r: usize)
        ensures
            r == 5,
    {
        5
    }

    /// The fewest stars a rating can have.
    pub fn min_value() -> (r: usize)
        ensures
            r == 1,
    {
        1
    }

    /// The rating as five characters, as `star_text` gives them.
    pub fn stars(&self) -> (r: String)
        ensures
            r@ == star_text(self@),
    {
        star_string(self.0)
    }

    /// A clamped rating has the clamped number of stars.
    pub proof fn lemma_clamped(raw: int)
        ensures
            Rating::clamped(raw)@ == clamp_to_rating(raw),
    {
    }
}

/// Five characters that show `stars` stars.
fn star_string(stars: usize) -> (r: String)
    ensures
        r@ == star_text(stars as int),
{
    let mut out = String::new();
    let mut v: usize = 1;
    while v <= 5
        invariant
            1 <= v <= 6,
            out@.len() == v - 1,
            forall|i: int| 0 <= i < v - 1 ==> out@[i] == (if i < stars { '*' } else { '_' }),
        decreases 6 - v,
    {
        proof {
            reveal_strlit("*");
            reveal_strlit("_");
        }
        if v <= stars {
            out.append("*");
        } else {
            out.append("_");
        }
        v = v + 1;
    }
    out
}

impl From<i64> for Rating {
    fn from(rating: i64) -> (r: Rating)
        ensures
            r@ == clamp_to_rating(rating as int),
    {
        Rating::new(rating)
    }
}

impl FromSpecImpl<i64> for Rating {
    open spec fn obeys_from_spec() -> bool {
        true
    }

    open spec fn from_spec(v: i64) -> Rating {
        Rating::clamped(v as int)
    }
}

impl From<i32> for Rating {
    fn from(rating: i32) -> (r: Rating)
        ensures
            r@ == clamp_to_rating(rating as int),
    {
        Rating::new(rating as i64)
    }
}

impl FromSpecImpl<i32> for Rating {
    open spec fn obeys_from_spec() -> bool {
        true
    }

    open spec fn from_spec(v: i32) -> Rating {
        Rating::clamped(v as int)
    }
}

impl From<usize> for Rating {
    fn from(rating: usize) -> (r: Rating)
        ensures
            r@ == clamp_to_rating(rating as int),
    {
        if rating > 5 {
            Rating::new(5)
        } else {
            Rating::new(rating as i64)
        }
    }
}

impl FromSpecImpl<usize> for Rating {
    open spec fn obeys_from_spec() -> bool {
        true
    }

    open spec fn from_spec(v: usize) -> Rating {
        Rating::clamped(v as int)
    }
}

impl From<Rating> for usize {
    fn from(rating: Rating) -> (r: usize)
        ensures
            r == rating@,
    {
        proof {
            use_type_invariant(rating);
        }
        rating.0
    }
}

impl FromSpecImpl<Rating> for usize {
    open spec fn obeys_from_spec() -> bool {
        true
    }

    open spec fn from_spec(rating: Rating) -> usize {
        rating@ as usize
    }
}

impl From<Rating> for i64 {
    fn from(rating: Rating) -> (r: i64)
        ensures
            r == rating@,
    {
        rating.as_i64()
    }
}

impl FromSpecImpl<Rating> for i64 {
    open spec fn obeys_from_spec() -> bool {
        true
    }

    open spec fn from_spec(rating: Rating) -> i64 {
        rating@ as i64
    }
}

/// The rating after a click on a star, counted from one: that many stars,
/// or no rating if the file has exactly that many already.
pub open spec fn rating_after_click(rating: Option<int>, star: int) -> Option<int> {
    if rating == Some(star) {
        None
    } else {
        Some(clamp_to_rating(star))
    }
}

/// Decides the rating after a click on a star, counted from one.
pub fn star_clicked(rating: Option<Rating>, star: usize) -> (r: Option<Rating>)
    ensures
        rating_view(r) == rating_after_click(rating_view(rating), star as int),
{
    let same = match rating {
        Some(current) => current.as_i64() as usize == star,
        None => false,
    };
    if same {
        None
    } else {
        Some(Rating::from(star))
    }
}

/// The number of stars of an optional rating.
pub open spec fn rating_view(rating: Option<Rating>) -> Option<int> {
    match rating {
        Some(r) => Some(r@),
        None => None,
    }
}

/// The characters of an optional text.
pub open spec fn text_view(text: Option<String>) -> Option<Seq<char>> {
    match text {
        Some(t) => Some(t@),
        None => None,
    }
}

/// The size of a file in bytes.
#[derive(Debug, Clone, Copy, PartialEq, Eq, Structural)]
pub struct FileSize(pub u64);

impl FileSize {
    /// The number of bytes.
    pub fn bytes(&self) -> (r: u64)
        ensures
            r == self.0,
    {
        self.0
    }
}

/// A file of the catalog: its path, what the file system said about it when
/// the catalog was built, and its rating.
#[derive(Debug)]
pub struct File {
    pub path: String,
    pub rating: Option<Rating>,
    /// The final component of the path, if it has one.
    pub file_name: Option<String>,
    /// The extension of the final component, if it has one.
    pub extension: Option<String>,
    /// When the file was last modified, in nanoseconds since the Unix epoch.
    pub modified: u64,
    /// The size of the file in bytes.
    pub size: u64,
}

/// What the catalog's rules read of a file.
pub struct FileView {
    pub path: Seq<char>,
    pub rating: Option<int>,
    pub file_name: Option<Seq<char>>,
    pub extension: Option<Seq<char>>,
    pub modified: nat,
    pub size: nat,
}

impl View for File {
    type V = FileView;

    open spec fn view(&self) -> FileView {
        FileView {
            path: self.path@,
            rating: rating_view(self.rating),
            file_name: text_view(self.file_name),
            extension: text_view(self.extension),
            modified: self.modified as nat,
            size: self.size as nat,
        }
    }
}

impl Clone for File {
    fn clone(&self) -> (r: File)
        ensures
            r@ == self@,
    {
        File {
            path: self.path.clone(),
            rating: self.rating,
            file_name: self.file_name.clone(),
            extension: self.extension.clone(),
            modified: self.modified,
            size: self.size,
        }
    }
}

impl<'a> From<&'a str> for File {
    /// An unrated file at `path`, with the name and extension that the
    /// standard library's path type finds in it, modified at the epoch and
    /// empty.
    fn from(path: &'a str) -> (f: File)
        ensures
            f@.path == path@,
            f@.rating is None,
            f@.modified == 0,
            f@.size == 0,
    {
        let file_name = final_component(path);
        let extension = extension_component(path);
        File::from_parts(path.to_owned(), file_name, extension, 0, 0, None)
    }
}

impl<'a> FromSpecImpl<&'a str> for File {
    /// Which name and extension a path has is for the standard library to
    /// say, so the conversion is no function that the contracts know.
    open spec fn obeys_from_spec() -> bool {
        false
    }

    open spec fn from_spec(path: &'a str) -> File {
        arbitrary()
    }
}

impl File {
    /// A file from its parts: the path, its final component and extension as
    /// the host read them, the modification time in nanoseconds since the Unix
    /// epoch, the size in bytes, and the rating.
    pub fn from_parts(
        path: String,
        file_name: Option<String>,
        extension: Option<String>,
        modified: u64,
        size: u64,
        rating: Option<Rating>,
    ) -> (f: File)
        ensures
            f@ == (FileView {
                path: path@,
                rating: rating_view(rating),
                file_name: text_view(file_name),
                extension: text_view(extension),
                modified: modified as nat,
                size: size as nat,
            }),
    {
        File { path, rating, file_name, extension, modified, size }
    }

    /// The final component of the path, or the empty text if it has none.
    pub fn name(&self) -> (r: String)
        ensures
            r@ == (match self@.file_name {
                Some(n) => n,
                None => Seq::<char>::empty(),
            }),
    {
        match &self.file_name {
            Some(n) => n.clone(),
            None => String::new(),
        }
    }

    /// The size of the file when the catalog was built.
    pub fn size(&self) -> (r: FileSize)
        ensures
            r.0 == self@.size,
    {
        FileSize(self.size)
    }

    /// When the file was last modified, in nanoseconds since the Unix epoch.
    pub fn last_modified(&self) -> (r: u64)
        ensures
            r == self@.modified,
    {
        self.modified
    }

    /// The stars of the rating, a space and the name: `_____` stands for no
    /// rating.
    pub fn title(&self) -> (r: String)
        ensures
            r@ == title_text(self@),
    {
        let mut out = match &self.rating {
            Some(rating) => rating.stars(),
            None => star_string(0),
        };
        proof {
            reveal_strlit(" ");
        }
        out.append(" ");
        let name = self.name();
        out.append(name.as_str());
        out
    }
}

/// The title of a file: the stars of its rating, a space and its name.
pub open spec fn title_text(file: FileView) -> Seq<char> {
    star_text(
        match file.rating {
            Some(stars) => stars,
            None => 0,
        },
    ) + seq![' '] + (match file.file_name {
        Some(n) => n,
        None => Seq::<char>::empty(),
    })
}

impl ExtensionIs for File {
    open spec fn extension_view(&self) -> Option<Seq<char>> {
        self@.extension
    }

    fn extension_is(&self, ext: &str) -> (r: bool) {
        extension_equals(&self.extension, ext)
    }
}

} // verus!
