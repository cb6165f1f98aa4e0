//! Decoder for a chunk-based binary asset container: tagged records are read
//! one at a time from a byte stream and folded into typed values (materials
//! and palette-indexed pixel maps), and indexed images are remapped through a
//! palette into a true-color raster.
use vstd::prelude::*;

pub mod chunk;
pub mod export;
pub mod material;
pub mod pixelmap;
pub mod reader;

verus! {

/// Failures surfaced by the decoders and the exporter. A decode error aborts
/// the whole in-progress record: there is no partial result.
#[derive(Clone, Copy, Debug, PartialEq, Eq, Structural)]
pub enum Error {
    /// An open/read/write failure of the host filesystem, mapped in by callers.
    IoError,
    /// Fewer bytes remain than a chunk's declared or implicit payload size.
    Truncated,
    /// The leading discriminator matches no known chunk variant.
    UnknownTag,
    /// A length field is internally inconsistent, or a chunk that is valid in
    /// the stream is not accepted by the record being decoded.
    Malformed,
    /// A file-type header does not match the constant expected by a decoder.
    InvalidFormat,
    /// An image index exceeds the number of entries the palette supplies.
    PaletteIndexOutOfRange,
}

} // verus!
