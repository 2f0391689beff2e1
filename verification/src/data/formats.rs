//! The image formats that the viewer reads, told by the extension of a
//! file.

use vstd::prelude::*;
use crate::data::file::{File, FileView};
use crate::support::path::{extension_matches, ExtensionIs};

verus! {

/// The file has one of the extensions of the image formats that the viewer
/// reads, in any case.
pub open spec fn is_image(file: FileView) -> bool {
    ||| extension_matches(file.extension, "png"@)
    ||| extension_matches(file.extension, "jpg"@)
    ||| extension_matches(file.extension, "jpeg"@)
    ||| extension_matches(file.extension, "bmp"@)
    ||| extension_matches(file.extension, "gif"@)
}

/// The file is of the one format that can hold several frames.
pub open spec fn is_animated(file: FileView) -> bool {
    extension_matches(file.extension, "gif"@)
}

/// Decides whether a file has the extension of a supported image format.
pub fn is_image_file(file: &File) -> (r: bool)
    ensures
        r == is_image(file@),
{
    file.extension_is("png") || file.extension_is("jpg") || file.extension_is("jpeg")
        || file.extension_is("bmp") || file.extension_is("gif")
}

/// The test that a file is an image file.
pub open spec fn image_test() -> spec_fn(FileView) -> bool {
    |file: FileView| is_image(file)
}

} // verus!
