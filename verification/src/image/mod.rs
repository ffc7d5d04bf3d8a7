//! Turning one image's metadata into its rendered relative path.
//!
//! Decoding binary image formats is the business of outside decoders; this
//! module only chooses, by file extension, which decoder a file belongs to,
//! and renders an already-filled [`Metadata`] record against a template.

use vstd::prelude::*;

pub mod metadata;
pub mod rawler;
pub mod rexif;

pub use metadata::Metadata;

use crate::errors::Error;
use crate::template::{spec_render, DataSource, TemplateContext, Transform};
use crate::text::{ascii_upper, to_ascii_upper, trim_spec};

verus! {

/// A family of image files, named by the extensions it covers.
pub trait ImageLoader {
    /// The uppercased extensions this loader handles.
    spec fn spec_supports(ext: Seq<char>) -> bool;

    /// Whether this loader handles the (already uppercased) extension.
    fn supports(extension: &str) -> (r: bool)
        ensures
            r == Self::spec_supports(extension@),
    ;
}

/// The decoder responsible for a file, by its extension.
#[derive(Debug, Clone, Copy, PartialEq, Eq, Structural)]
pub enum LoaderKind {
    /// A raw sensor format.
    Rawler,
    /// An EXIF-carrying bitmap format.
    Rexif,
}

/// Which decoder the extension belongs to, if any. Matching ignores ASCII
/// case.
pub open spec fn spec_loader_for(ext: Seq<char>) -> Option<LoaderKind> {
    if rawler::RawlerImage::spec_supports(ascii_upper(ext)) {
        Some(LoaderKind::Rawler)
    } else if rexif::RexifImage::spec_supports(ascii_upper(ext)) {
        Some(LoaderKind::Rexif)
    } else {
        None
    }
}

/// Choose the decoder for a file extension, if any handles it.
pub fn loader_for(extension: &str) -> (r: Option<LoaderKind>)
    ensures
        r == spec_loader_for(extension@),
{
    let up = to_ascii_upper(extension);
    if rawler::RawlerImage::supports(up.as_str()) {
        Some(LoaderKind::Rawler)
    } else if rexif::RexifImage::supports(up.as_str()) {
        Some(LoaderKind::Rexif)
    } else {
        None
    }
}

/// Render the relative path for one image from its metadata: the record is
/// first validated (a usable year must be present), then the template is
/// rendered against it.
pub fn render<T: Transform>(ctx: &TemplateContext<T>, metadata: &Metadata) -> (r: Result<
    String,
    Error,
>)
    requires
        ctx.wf(),
        metadata.inv(),
    ensures
        ({
            let year_ok = metadata.date_time matches Some(d) && trim_spec(
                d@.subrange(0, 4),
            ).len() == 4;
            if !year_ok {
                r == Err::<String, Error>(Error::MissingRequiredField)
            } else {
                match spec_render(ctx.regs(), *metadata, ctx.spec_template()) {
                    Ok(s) => r matches Ok(out) && out@ == s,
                    Err(e) => r == Err::<String, Error>(Error::Parse(e)),
                }
            }
        }),
{
    match metadata.validate() {
        Err(e) => Err(e),
        Ok(()) => match ctx.render(metadata) {
            Ok(s) => Ok(s),
            Err(e) => Err(Error::Parse(e)),
        },
    }
}

} // verus!
