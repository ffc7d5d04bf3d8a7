//! The EXIF-carrying bitmap formats: files whose metadata an EXIF parser
//! extracts.

use vstd::prelude::*;

use super::ImageLoader;
use crate::text::str_eq;

verus! {

/// The family of EXIF-carrying bitmap formats.
pub struct RexifImage {}

impl ImageLoader for RexifImage {
    open spec fn spec_supports(ext: Seq<char>) -> bool {
        ||| ext == "JPG"@
        ||| ext == "JPEG"@
        ||| ext == "TIF"@
        ||| ext == "TIFF"@
        ||| ext == "JIF"@
        ||| ext == "JFIF"@
    }

    fn supports(extension: &str) -> (r: bool) {
        str_eq(extension, "JPG") || str_eq(extension, "JPEG") || str_eq(extension, "TIF")
            || str_eq(extension, "TIFF") || str_eq(extension, "JIF") || str_eq(extension, "JFIF")
    }
}

} // verus!
