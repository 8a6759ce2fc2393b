//! The ways in which recognising or decoding a file can fail.
use vstd::prelude::*;

verus! {

/// The field of a `CRAW` header that was found out of range.
#[derive(Debug, Clone, Copy, PartialEq, Eq, Structural)]
pub enum HeaderFault {
    /// The width or the height is zero.
    Dimensions,
    /// The bit depth is zero or above 32.
    BitDepth,
    /// The component count is zero.
    Components,
}

/// A failed decode. `NotBmff` says that the input is not of this format at
/// all; every other variant says that it is of this format and damaged, or
/// that it asks for something that is not supported.
#[derive(Debug, Clone, Copy, PartialEq, Eq, Structural)]
pub enum Cr3Error {
    /// A brand given as text is not exactly four bytes long.
    MalformedBrandTag,
    /// The input does not start with an `ftyp` box.
    NotBmff,
    /// The input ends inside a structural header.
    TruncatedHeader,
    /// A box uses the 64-bit size escape.
    UnsupportedLargeBox,
    /// A box declares a size below that of its own header.
    InvalidBoxSize,
    /// A box declares a size that reaches past the end of the input.
    BoxOutOfBounds,
    /// No `CRAW` box was found.
    CrawNotFound,
    /// A field of the `CRAW` header is out of range.
    InvalidCrawHeader(HeaderFault),
    /// The bit depth asks for a sample width other than one or two bytes.
    UnsupportedBitDepth,
    /// The image would not fit in memory on this machine.
    ImageTooLarge,
    /// The input ends inside the row `row` of the sample data, which starts
    /// at byte `offset`.
    TruncatedPixelData { offset: u64, row: u32 },
    /// The camera named by the TIFF metadata is not a known one.
    UnsupportedCamera,
}

impl Cr3Error {
    /// Whether the error says "not this format" rather than "this format, but
    /// damaged": a dispatcher may try another decoder only on the former.
    pub open spec fn is_foreign_format(self) -> bool {
        self == Cr3Error::NotBmff
    }

    /// Tells "not this format" apart from every other failure.
    pub fn is_not_this_format(&self) -> (foreign: bool)
        ensures
            foreign == self.is_foreign_format(),
    {
        match self {
            Cr3Error::NotBmff => true,
            _ => false,
        }
    }
}

} // verus!
