//! What the standard library's path type says about a path given as text.

use vstd::prelude::*;
use crate::support::text::{lowercase, to_lowercase};

verus! {

/// Calls `Path::file_name`: the final component of the path, if there is
/// one. How a path splits into components depends on the platform, so the
/// contract promises nothing about the text that comes back.
#[verifier::external_body]
pub(crate) fn final_component(path: &str) -> (r: Option<String>) {
    std::path::Path::new(path).file_name().map(|n| n.to_string_lossy().into_owned())
}

/// Calls `Path::extension`: the part of the final component after its last
/// dot, if there is one. It rests on the same platform rules as the final
/// component, so the contract promises nothing about the text that comes
/// back.
#[verifier::external_body]
pub(crate) fn extension_component(path: &str) -> (r: Option<String>) {
    std::path::Path::new(path).extension().map(|e| e.to_string_lossy().into_owned())
}

/// An extension, if there is one, equals `ext` when case is ignored.
pub open spec fn extension_matches(extension: Option<Seq<char>>, ext: Seq<char>) -> bool {
    match extension {
        Some(e) => lowercase(e) == lowercase(ext),
        None => false,
    }
}

/// Decides whether an extension equals `ext` when case is ignored.
pub fn extension_equals(extension: &Option<String>, ext: &str) -> (r: bool)
    ensures
        r == extension_matches(
            match extension {
                Some(e) => Some(e@),
                None => None,
            },
            ext@,
        ),
{
    match extension {
        Some(e) => {
            let have = to_lowercase(e.as_str());
            let want = to_lowercase(ext);
            have == want
        },
        None => false,
    }
}

/// Something that has a file extension which can be compared with a given
/// one, ignoring case.
pub trait ExtensionIs {
    /// The extension as a sequence of characters, if there is one.
    spec fn extension_view(&self) -> Option<Seq<char>>;

    fn extension_is(&self, ext: &str) -> (r: bool)
        ensures
            r == extension_matches(self.extension_view(), ext@),
    ;
}

} // verus!
