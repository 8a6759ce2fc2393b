//! The `CRAW` payload as a function of its bytes: a header of 28 bytes, then
//! the samples, row after row.
//!
//! The header holds the width and the height as big-endian 32-bit integers,
//! then one byte each for the bit depth, the component count and the bit
//! depth of a component; the rest of the 28 bytes is not used. Samples are
//! one or two bytes wide, and a sample of two bytes is little-endian.
use vstd::prelude::*;
use crate::decoders::endian::{be_u32_at, le_u16_at};
use crate::decoders::error::{Cr3Error, HeaderFault};

verus! {

/// The length of the `CRAW` header in bytes.
pub const CRAW_HEADER_LEN: usize = 28;

/// The fields of a `CRAW` header.
#[derive(Debug, Clone, Copy, PartialEq, Eq, Structural)]
pub struct CrawHeader {
    pub width: u32,
    pub height: u32,
    pub bit_depth: u8,
    pub components: u8,
    pub component_bit_depth: u8,
}

impl CrawHeader {
    /// What holds of every header that was parsed: neither dimension is zero,
    /// the bit depth is between 1 and 32, and there is a component.
    pub open spec fn is_valid(&self) -> bool {
        &&& self.width > 0
        &&& self.height > 0
        &&& 1 <= self.bit_depth <= 32
        &&& self.components > 0
    }

    /// The number of samples of the image.
    pub open spec fn sample_count(&self) -> int {
        self.width * self.height
    }

    /// The number of bytes that hold one sample: the bit depth in bytes,
    /// rounded up.
    pub open spec fn sample_bytes(&self) -> int {
        (self.bit_depth + 7) / 8
    }

    /// The number of bytes that hold one row of samples.
    pub open spec fn row_bytes(&self) -> int {
        self.width * self.sample_bytes()
    }
}

/// The header that starts at `at`, or why there is none. The tests are made
/// in this order: the 28 bytes are there; neither dimension is zero; the bit
/// depth is in range; the component count is not zero.
pub open spec fn craw_header_at(bytes: Seq<u8>, at: int) -> Result<CrawHeader, Cr3Error> {
    if at < 0 || at + CRAW_HEADER_LEN > bytes.len() {
        Err(Cr3Error::TruncatedHeader)
    } else {
        let width = be_u32_at(bytes, at);
        let height = be_u32_at(bytes, at + 4);
        let bit_depth = bytes[at + 8];
        let components = bytes[at + 9];
        if width == 0 || height == 0 {
            Err(Cr3Error::InvalidCrawHeader(HeaderFault::Dimensions))
        } else if bit_depth == 0 || bit_depth > 32 {
            Err(Cr3Error::InvalidCrawHeader(HeaderFault::BitDepth))
        } else if components == 0 {
            Err(Cr3Error::InvalidCrawHeader(HeaderFault::Components))
        } else {
            Ok(
                CrawHeader {
                    width: width as u32,
                    height: height as u32,
                    bit_depth,
                    components,
                    component_bit_depth: bytes[at + 10],
                },
            )
        }
    }
}

/// Every header that parses is valid.
pub proof fn lemma_parsed_header_is_valid(bytes: Seq<u8>, at: int)
    requires
        craw_header_at(bytes, at) is Ok,
    ensures
        craw_header_at(bytes, at)->Ok_0.is_valid(),
{
}

/// The most samples that an image can have on this machine: a buffer of
/// 16-bit samples cannot be longer than a quarter of the largest `usize`.
pub open spec fn max_samples() -> int {
    usize::MAX as int / 4
}

/// The sample number `index` of the data that starts at `start`, where
/// samples are `sample_bytes` wide: a single byte as it is, two bytes as a
/// little-endian integer.
pub open spec fn sample_at(bytes: Seq<u8>, start: int, sample_bytes: int, index: int) -> u16 {
    if sample_bytes == 1 {
        bytes[start + index] as u16
    } else {
        le_u16_at(bytes, start + 2 * index) as u16
    }
}

/// The number of rows of `row_bytes` bytes each that lie wholly inside a
/// buffer of `len` bytes from `start` on.
pub open spec fn whole_rows(len: int, start: int, row_bytes: int) -> int {
    if start > len || row_bytes <= 0 {
        0
    } else {
        (len - start) / row_bytes
    }
}

/// The samples of the image whose data starts at `start`, or why there are
/// none. An image of more samples than the machine can hold is refused in
/// either mode. In dummy mode the result is as many zeros as the image has
/// samples, and no byte of the data is looked at. Otherwise the sample width
/// must be one or two bytes, and every row must lie wholly inside the buffer:
/// the first row that does not is reported with the offset at which it
/// starts.
pub open spec fn samples_at(bytes: Seq<u8>, start: int, header: CrawHeader, dummy: bool) -> Result<
    Seq<u16>,
    Cr3Error,
> {
    let count = header.sample_count();
    let width = header.sample_bytes();
    let rows = whole_rows(bytes.len() as int, start, header.row_bytes());
    if count > max_samples() {
        Err(Cr3Error::ImageTooLarge)
    } else if dummy {
        Ok(Seq::new(count as nat, |index: int| 0u16))
    } else if width != 1 && width != 2 {
        Err(Cr3Error::UnsupportedBitDepth)
    } else if rows < header.height {
        Err(
            Cr3Error::TruncatedPixelData {
                offset: (start + rows * header.row_bytes()) as u64,
                row: rows as u32,
            },
        )
    } else {
        Ok(Seq::new(count as nat, |index: int| sample_at(bytes, start, width, index)))
    }
}

/// The number of bytes that reading the samples takes from the buffer: all
/// rows where the samples are read, nothing in dummy mode or on failure.
pub open spec fn bytes_taken(bytes: Seq<u8>, start: int, header: CrawHeader, dummy: bool) -> int {
    if !dummy && samples_at(bytes, start, header, dummy) is Ok {
        header.height * header.row_bytes()
    } else {
        0
    }
}

/// Decoding yields one sample for each position of the image, whatever the
/// mode.
pub proof fn lemma_sample_count(bytes: Seq<u8>, start: int, header: CrawHeader, dummy: bool)
    requires
        samples_at(bytes, start, header, dummy) is Ok,
    ensures
        samples_at(bytes, start, header, dummy)->Ok_0.len() == header.width * header.height,
{
    assert(header.width * header.height >= 0) by (nonlinear_arith);
}

/// In dummy mode nothing is read: the result is the same for every buffer
/// and every start, and no byte is taken.
pub proof fn lemma_dummy_reads_nothing(
    bytes: Seq<u8>,
    start: int,
    other_bytes: Seq<u8>,
    other_start: int,
    header: CrawHeader,
)
    ensures
        samples_at(bytes, start, header, true) == samples_at(other_bytes, other_start, header, true),
        bytes_taken(bytes, start, header, true) == 0,
{
}

/// Where the samples can be read, dummy mode gives as many zeros.
pub proof fn lemma_dummy_has_the_same_shape(bytes: Seq<u8>, start: int, header: CrawHeader)
    requires
        samples_at(bytes, start, header, false) is Ok,
    ensures
        samples_at(bytes, start, header, true) is Ok,
        samples_at(bytes, start, header, true)->Ok_0.len() == samples_at(
            bytes,
            start,
            header,
            false,
        )->Ok_0.len(),
        forall|index: int|
            0 <= index < samples_at(bytes, start, header, true)->Ok_0.len() ==> samples_at(
                bytes,
                start,
                header,
                true,
            )->Ok_0[index] == 0,
{
}

/// A sample of one byte is below 256: the byte as it is.
pub proof fn lemma_narrow_samples_are_bytes(bytes: Seq<u8>, start: int, index: int)
    ensures
        sample_at(bytes, start, 1, index) == bytes[start + index],
        sample_at(bytes, start, 1, index) < 256,
{
}

/// A sample of two bytes has the first byte as its low half and the second
/// as its high half.
pub proof fn lemma_wide_samples_are_little_endian(bytes: Seq<u8>, start: int, index: int)
    ensures
        sample_at(bytes, start, 2, index) == bytes[start + 2 * index] + 256 * bytes[start + 2
            * index + 1],
{
}

} // verus!
