//! Resource extraction for Super Smash Bros. 64 ROM images.
//!
//! The library locates an entry in the ROM's packed resource table, decodes
//! its fixed-size record, derives the payload byte range, and walks and
//! rewrites the relocation chains embedded in the payload. Decompression of
//! vpk0-compressed payloads stays with the caller, who runs the `vpk0`
//! decoder and hands the library its verdict (see [`vpk`]).

pub mod bytes;
pub mod export;
pub mod extract;
pub mod render;
pub mod rom_info;
pub mod ssb;
pub mod versions;
pub mod vpk;

use vstd::prelude::*;

verus! {

/// Top-level error of the export entry points.
#[derive(Debug)]
pub enum ResError {
    /// Problem exporting file data.
    Export(crate::export::ExportError),
}

impl core::convert::From<crate::export::ExportError> for ResError {
    fn from(e: crate::export::ExportError) -> Self {
        ResError::Export(e)
    }
}

impl vstd::std_specs::convert::FromSpecImpl<crate::export::ExportError> for ResError {
    open spec fn obeys_from_spec() -> bool {
        true
    }

    open spec fn from_spec(e: crate::export::ExportError) -> Self {
        ResError::Export(e)
    }
}

} // verus!
