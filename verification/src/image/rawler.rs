//! The raw sensor formats: files whose metadata a raw decoder extracts.

use vstd::prelude::*;

use super::ImageLoader;
use crate::text::str_eq;

verus! {

/// The family of raw sensor formats.
pub struct RawlerImage {}

impl ImageLoader for RawlerImage {
    open spec fn spec_supports(ext: Seq<char>) -> bool {
        ||| ext == "ARI"@
        ||| ext == "ARW"@
        ||| ext == "CR2"@
        ||| ext == "CR3"@
        ||| ext == "CRM"@
        ||| ext == "CRW"@
        ||| ext == "DCR"@
        ||| ext == "DCS"@
        ||| ext == "DNG"@
        ||| ext == "ERF"@
        ||| ext == "IIQ"@
        ||| ext == "KDC"@
        ||| ext == "MEF"@
        ||| ext == "MOS"@
        ||| ext == "MRW"@
        ||| ext == "NEF"@
        ||| ext == "NRW"@
        ||| ext == "ORF"@
        ||| ext == "PEF"@
        ||| ext == "RAF"@
        ||| ext == "RAW"@
        ||| ext == "RW2"@
        ||| ext == "RWL"@
        ||| ext == "SRW"@
        ||| ext == "3FR"@
        ||| ext == "FFF"@
        ||| ext == "X3F"@
    }

    fn supports(extension: &str) -> (r: bool) {
        str_eq(extension, "ARI") || str_eq(extension, "ARW") || str_eq(extension, "CR2")
            || str_eq(extension, "CR3") || str_eq(extension, "CRM") || str_eq(extension, "CRW")
            || str_eq(extension, "DCR") || str_eq(extension, "DCS") || str_eq(extension, "DNG")
            || str_eq(extension, "ERF") || str_eq(extension, "IIQ") || str_eq(extension, "KDC")
            || str_eq(extension, "MEF") || str_eq(extension, "MOS") || str_eq(extension, "MRW")
            || str_eq(extension, "NEF") || str_eq(extension, "NRW") || str_eq(extension, "ORF")
            || str_eq(extension, "PEF") || str_eq(extension, "RAF") || str_eq(extension, "RAW")
            || str_eq(extension, "RW2") || str_eq(extension, "RWL") || str_eq(extension, "SRW")
            || str_eq(extension, "3FR") || str_eq(extension, "FFF") || str_eq(extension, "X3F")
    }
}

} // verus!
