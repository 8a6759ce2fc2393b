//! The decoder for Canon CR3 files.
use vstd::prelude::*;
use vstd::string::StringExecFns;
use crate::decoders::boxes::{
    box_at,
    first_of,
    is_container,
    lemma_first_of_concat,
    walk,
    BoxHeader,
    BoxView,
    Visit,
};
use crate::decoders::camera::{
    enriched,
    fallback_camera,
    make_fallback_camera,
    resolved_camera,
    tiff_of,
    Camera,
    CameraView,
    RawImage,
    RawImageView,
    RawLoader,
    TiffIFD,
    TiffView,
};
use crate::decoders::craw::{
    bytes_taken,
    craw_header_at,
    lemma_dummy_has_the_same_shape,
    lemma_sample_count,
    sample_at,
    samples_at,
    CrawHeader,
    CRAW_HEADER_LEN,
};
use crate::decoders::cursor::ByteCursor;
use crate::decoders::endian::{u16_from_le, u32_from_be};
use crate::decoders::error::{Cr3Error, HeaderFault};
use crate::decoders::tags::{
    same_tag,
    BOX_TYPE_CRAW,
    BOX_TYPE_MDIA,
    BOX_TYPE_MINF,
    BOX_TYPE_MOOV,
    BOX_TYPE_STBL,
    BOX_TYPE_TRAK,
    BOX_TYPE_UUID,
    BRAND_CRX,
    BRAND_CRX2,
    BRAND_CRXM,
};

verus! {

/// Whether a brand is one of those that mark a CR3 file: the standard one,
/// that of the second version, and that of a movie.
pub open spec fn is_cr3_brand_tag(brand: Seq<u8>) -> bool {
    brand == BRAND_CRX@ || brand == BRAND_CRX2@ || brand == BRAND_CRXM@
}

/// Whether boxes of this type hold further boxes: `moov`, `trak`, `mdia`,
/// `minf`, `stbl` and `uuid` do.
pub fn is_container_box(box_type: &[u8; 4]) -> (container: bool)
    ensures
        container == is_container(box_type@),
{
    same_tag(box_type, &BOX_TYPE_MOOV) || same_tag(box_type, &BOX_TYPE_TRAK) || same_tag(
        box_type,
        &BOX_TYPE_MDIA,
    ) || same_tag(box_type, &BOX_TYPE_MINF) || same_tag(box_type, &BOX_TYPE_STBL) || same_tag(
        box_type,
        &BOX_TYPE_UUID,
    )
}

/// Whether a brand marks a CR3 file.
pub fn is_cr3_brand(brand: &[u8; 4]) -> (known: bool)
    ensures
        known == is_cr3_brand_tag(brand@),
{
    same_tag(brand, &BRAND_CRX) || same_tag(brand, &BRAND_CRX2) || same_tag(brand, &BRAND_CRXM)
}

/// The limit of a search as a plain value.
pub open spec fn limit_of(bound: Option<u64>) -> Option<int> {
    match bound {
        Some(end) => Some(end as int),
        None => None,
    }
}

/// What decoding a file gives. The camera is resolved first, and the
/// metadata is read into its record. Then the first `CRAW` box of the whole
/// buffer is searched for, its header is parsed at the start of its payload,
/// and the samples are read from behind the header. The first step that
/// fails decides the error; nothing is made up in place of what is missing.
pub open spec fn decoded(
    bytes: Seq<u8>,
    table: Seq<CameraView>,
    tiff: Option<TiffView>,
    dummy: bool,
) -> Result<RawImageView, Cr3Error> {
    match resolved_camera(table, tiff) {
        Err(error) => Err(error),
        Ok(camera) => match first_of(walk(bytes, 0, None), BOX_TYPE_CRAW@) {
            None => Err(Cr3Error::CrawNotFound),
            Some(craw) => match craw_header_at(bytes, craw.data_offset) {
                Err(error) => Err(error),
                Ok(header) => match samples_at(
                    bytes,
                    craw.data_offset + CRAW_HEADER_LEN,
                    header,
                    dummy,
                ) {
                    Err(error) => Err(error),
                    Ok(data) => Ok(
                        RawImageView {
                            width: header.width as int,
                            height: header.height as int,
                            data,
                            camera: enriched(camera, tiff),
                        },
                    ),
                },
            },
        },
    }
}

/// An image that decodes has the dimensions of its header, neither of them
/// zero, and one sample for each position. Where the file came without
/// metadata, its camera is the fallback record.
pub proof fn lemma_decoded_shape(
    bytes: Seq<u8>,
    table: Seq<CameraView>,
    tiff: Option<TiffView>,
    dummy: bool,
)
    requires
        decoded(bytes, table, tiff, dummy) is Ok,
    ensures
        ({
            let image = decoded(bytes, table, tiff, dummy)->Ok_0;
            let craw = first_of(walk(bytes, 0, None), BOX_TYPE_CRAW@)->Some_0;
            let header = craw_header_at(bytes, craw.data_offset)->Ok_0;
            &&& image.width == header.width
            &&& image.height == header.height
            &&& image.width > 0
            &&& image.height > 0
            &&& image.data.len() == image.width * image.height
            &&& tiff is None ==> image.camera == fallback_camera()
        }),
{
    let craw = first_of(walk(bytes, 0, None), BOX_TYPE_CRAW@)->Some_0;
    let header = craw_header_at(bytes, craw.data_offset)->Ok_0;
    lemma_sample_count(bytes, craw.data_offset + CRAW_HEADER_LEN, header, dummy);
}

/// The mode changes the samples only. A file that decodes also decodes in
/// dummy mode, to an image of the same dimensions and the same camera whose
/// samples are all zero.
pub proof fn lemma_dummy_mode_agrees(bytes: Seq<u8>, table: Seq<CameraView>, tiff: Option<TiffView>)
    requires
        decoded(bytes, table, tiff, false) is Ok,
    ensures
        decoded(bytes, table, tiff, true) is Ok,
        ({
            let read = decoded(bytes, table, tiff, false)->Ok_0;
            let dummy = decoded(bytes, table, tiff, true)->Ok_0;
            &&& dummy.width == read.width
            &&& dummy.height == read.height
            &&& dummy.camera == read.camera
            &&& dummy.data.len() == read.data.len()
            &&& forall|index: int| 0 <= index < dummy.data.len() ==> dummy.data[index] == 0
        }),
{
    let craw = first_of(walk(bytes, 0, None), BOX_TYPE_CRAW@)->Some_0;
    let header = craw_header_at(bytes, craw.data_offset)->Ok_0;
    lemma_dummy_has_the_same_shape(bytes, craw.data_offset + CRAW_HEADER_LEN, header);
}

/// A decode fails in dummy mode only as it would fail otherwise too, or, put
/// the other way round: what dummy mode refuses, no mode decodes. Dummy mode
/// is refused for the camera, the container, the header and the size of the
/// image, never for the samples.
pub proof fn lemma_dummy_mode_fails_less(
    bytes: Seq<u8>,
    table: Seq<CameraView>,
    tiff: Option<TiffView>,
)
    requires
        decoded(bytes, table, tiff, true) is Err,
    ensures
        decoded(bytes, table, tiff, false) == decoded(bytes, table, tiff, true),
        decoded(bytes, table, tiff, true)->Err_0 != Cr3Error::UnsupportedBitDepth,
        !(decoded(bytes, table, tiff, true)->Err_0 is TruncatedPixelData),
{
}

/// Decoder for CR3 files.
#[derive(Debug)]
pub struct Cr3Decoder<'a> {
    buffer: &'a [u8],
    rawloader: &'a RawLoader,
    tiff: Option<TiffIFD>,
}

impl<'a> Clone for Cr3Decoder<'a> {
    /// A decoder of the same file, with the same metadata and camera table.
    fn clone(&self) -> (copy: Self)
        ensures
            copy.bytes() == self.bytes(),
            copy.cameras() == self.cameras(),
            copy.metadata() == self.metadata(),
    {
        Cr3Decoder {
            buffer: self.buffer,
            rawloader: self.rawloader,
            tiff: match &self.tiff {
                Some(tiff) => Some(tiff.clone()),
                None => None,
            },
        }
    }
}

impl<'a> Cr3Decoder<'a> {
    /// The bytes of the file.
    pub closed spec fn bytes(&self) -> Seq<u8> {
        self.buffer@
    }

    /// The table of known cameras.
    pub closed spec fn cameras(&self) -> Seq<CameraView> {
        self.rawloader@
    }

    /// The TIFF metadata that came with the file, if any did.
    pub closed spec fn metadata(&self) -> Option<TiffView> {
        tiff_of(self.tiff)
    }

    /// A decoder for the file in `buf`, with the TIFF metadata that was found
    /// for it, if any was, and the table of known cameras.
    pub fn new(
        buf: &'a [u8],
        tiff: Option<TiffIFD>,
        _bmff: Option<()>,
        rawloader: &'a RawLoader,
    ) -> (decoder: Cr3Decoder<'a>)
        ensures
            decoder.bytes() == buf@,
            decoder.cameras() == rawloader@,
            decoder.metadata() == tiff_of(tiff),
    {
        Cr3Decoder { buffer: buf, tiff, rawloader }
    }

    /// Reads the header of the box at the cursor. On success the cursor
    /// stands at the start of the payload; on failure it stands where it
    /// stood.
    pub fn read_box(cursor: &mut ByteCursor<'_>) -> (parsed: Result<BoxHeader, Cr3Error>)
        ensures
            final(cursor).bytes() == old(cursor).bytes(),
            match parsed {
                Ok(header) => {
                    &&& box_at(old(cursor).bytes(), old(cursor).offset()) == Ok::<
                        BoxView,
                        Cr3Error,
                    >(header@)
                    &&& header@.fits(old(cursor).bytes())
                    &&& final(cursor).offset() == header@.data_offset
                },
                Err(error) => {
                    &&& box_at(old(cursor).bytes(), old(cursor).offset()) == Err::<
                        BoxView,
                        Cr3Error,
                    >(error)
                    &&& final(cursor).offset() == old(cursor).offset()
                },
            },
    {
        let offset = cursor.position();
        let len = cursor.len();
        let size = match cursor.read_u32_be() {
            Some(size) => size,
            None => return Err(Cr3Error::TruncatedHeader),
        };
        let box_type = match cursor.read_tag() {
            Some(tag) => tag,
            None => {
                cursor.seek(offset);
                return Err(Cr3Error::TruncatedHeader);
            },
        };
        if size == 1 {
            cursor.seek(offset);
            return Err(Cr3Error::UnsupportedLargeBox);
        }
        if same_tag(&box_type, &BOX_TYPE_UUID) && cursor.read_exact(16).is_none() {
            cursor.seek(offset);
            return Err(Cr3Error::TruncatedHeader);
        }
        let data_offset = cursor.position();
        if size < 8 {
            cursor.seek(offset);
            return Err(Cr3Error::InvalidBoxSize);
        }
        if size as u64 > len as u64 - offset {
            cursor.seek(offset);
            return Err(Cr3Error::BoxOutOfBounds);
        }
        Ok(BoxHeader { box_type, size, offset, data_offset })
    }

    /// Searches the boxes from the cursor on for the first of type `target`,
    /// going into the boxes of container types, and into none that starts at
    /// or after `bound`. A position that holds no box ends the search there:
    /// that is no failure. Where a box is found the cursor stands at the
    /// start of its payload; where none is found it stands where it stood.
    pub fn find_box(cursor: &mut ByteCursor<'_>, target: &[u8; 4], bound: Option<u64>) -> (found:
        Option<BoxHeader>)
        ensures
            final(cursor).bytes() == old(cursor).bytes(),
            match found {
                Some(header) => {
                    &&& first_of(
                        walk(old(cursor).bytes(), old(cursor).offset(), limit_of(bound)),
                        target@,
                    ) == Some(header@)
                    &&& header@.tag == target@
                    &&& header@.fits(old(cursor).bytes())
                    &&& old(cursor).offset() <= header@.offset
                    &&& final(cursor).offset() == header@.data_offset
                },
                None => {
                    &&& first_of(
                        walk(old(cursor).bytes(), old(cursor).offset(), limit_of(bound)),
                        target@,
                    ) is None
                    &&& final(cursor).offset() == old(cursor).offset()
                },
            },
        decreases old(cursor).bytes().len() - old(cursor).offset(),
    {
        let start = cursor.position();
        let ghost bytes = cursor.bytes();
        let ghost limit = limit_of(bound);
        loop
            invariant
                cursor.bytes() == bytes,
                bytes == old(cursor).bytes(),
                start == old(cursor).offset(),
                limit == limit_of(bound),
                start <= cursor.offset(),
                first_of(walk(bytes, start as int, limit), target@) == first_of(
                    walk(bytes, cursor.offset(), limit),
                    target@,
                ),
            ensures
                first_of(walk(bytes, start as int, limit), target@) is None,
            decreases bytes.len() - cursor.offset(),
        {
            let ghost at = cursor.offset();
            let header = match Self::read_box(cursor) {
                Ok(header) => header,
                Err(_) => {
                    break ;
                },
            };
            if let Some(end) = bound {
                if header.offset >= end {
                    break ;
                }
            }
            let ghost inside = if header@.descends() {
                walk(bytes, header@.data_offset, Some(header@.end()))
            } else {
                Seq::empty()
            };
            let ghost behind = walk(bytes, header@.end(), limit);
            let ghost head = seq![Visit { header: header@, limit }];
            proof {
                assert(walk(bytes, at, limit) == head + inside + behind);
                lemma_first_of_concat(head + inside, behind, target@);
                lemma_first_of_concat(head, inside, target@);
                assert(head.subrange(1, 1) =~= Seq::<Visit>::empty());
            }
            if same_tag(&header.box_type, target) {
                return Some(header);
            }
            proof {
                cursor.lemma_buffer_fits();
            }
            let box_end: u64 = header.offset + header.size as u64;
            if header.size > 8 && is_container_box(&header.box_type) {
                let inner = Self::find_box(cursor, target, Some(box_end));
                if inner.is_some() {
                    return inner;
                }
            }
            cursor.seek(box_end);
        }
        cursor.seek(start);
        None
    }

    /// Parses the `CRAW` header at the cursor. On success the cursor stands
    /// behind the 28 bytes of the header; on failure it stands where it
    /// stood.
    pub fn parse_craw_header(&self, cursor: &mut ByteCursor<'_>) -> (parsed: Result<
        CrawHeader,
        Cr3Error,
    >)
        ensures
            final(cursor).bytes() == old(cursor).bytes(),
            match parsed {
                Ok(header) => {
                    &&& craw_header_at(old(cursor).bytes(), old(cursor).offset()) == Ok::<
                        CrawHeader,
                        Cr3Error,
                    >(header)
                    &&& header.is_valid()
                    &&& final(cursor).offset() == old(cursor).offset() + CRAW_HEADER_LEN
                },
                Err(error) => {
                    &&& craw_header_at(old(cursor).bytes(), old(cursor).offset()) == Err::<
                        CrawHeader,
                        Cr3Error,
                    >(error)
                    &&& final(cursor).offset() == old(cursor).offset()
                },
            },
    {
        let start = cursor.position();
        let raw = match cursor.read_exact(CRAW_HEADER_LEN) {
            Some(raw) => raw,
            None => return Err(Cr3Error::TruncatedHeader),
        };
        let width = u32_from_be(raw[0], raw[1], raw[2], raw[3]);
        let height = u32_from_be(raw[4], raw[5], raw[6], raw[7]);
        let bit_depth = raw[8];
        let components = raw[9];
        let component_bit_depth = raw[10];
        if width == 0 || height == 0 {
            cursor.seek(start);
            return Err(Cr3Error::InvalidCrawHeader(HeaderFault::Dimensions));
        }
        if bit_depth == 0 || bit_depth > 32 {
            cursor.seek(start);
            return Err(Cr3Error::InvalidCrawHeader(HeaderFault::BitDepth));
        }
        if components == 0 {
            cursor.seek(start);
            return Err(Cr3Error::InvalidCrawHeader(HeaderFault::Components));
        }
        Ok(CrawHeader { width, height, bit_depth, components, component_bit_depth })
    }

    /// Reads the make, the model and the maker note of the metadata into a
    /// camera record. Each of them may be missing, so this never fails.
    pub fn extract_basic_metadata(&self, camera: &mut Camera) -> (done: Result<(), Cr3Error>)
        ensures
            done is Ok,
            final(camera)@ == enriched(old(camera)@, self.metadata()),
    {
        if let Some(tiff) = &self.tiff {
            if let Some(make) = &tiff.make {
                camera.make = make.clone();
                camera.clean_make = make.clone();
            }
            if let Some(model) = &tiff.model {
                camera.model = model.clone();
                camera.clean_model = model.clone();
            }
            if let Some(exif) = &tiff.exif {
                if let Some(note) = &exif.makernote {
                    let hint = String::from_str("EXIF: ").concat(note.as_str());
                    camera.hints.push(hint);
                    assert(camera.hints.deep_view() =~= old(camera).hints.deep_view().push(
                        hint@,
                    ));
                }
            }
        }
        Ok(())
    }

    /// Reads the samples of an image from the cursor on. In dummy mode the
    /// buffer of the right length is all zeros and the cursor stays; else
    /// every row must be there before any is read, and the cursor ends behind
    /// the last. On failure the cursor stands where it stood.
    pub fn decode_raw_image(
        &self,
        cursor: &mut ByteCursor<'_>,
        header: &CrawHeader,
        dummy: bool,
    ) -> (image: Result<Vec<u16>, Cr3Error>)
        requires
            header.is_valid(),
        ensures
            final(cursor).bytes() == old(cursor).bytes(),
            final(cursor).offset() == old(cursor).offset() + bytes_taken(
                old(cursor).bytes(),
                old(cursor).offset(),
                *header,
                dummy,
            ),
            match image {
                Ok(pixels) => samples_at(
                    old(cursor).bytes(),
                    old(cursor).offset(),
                    *header,
                    dummy,
                ) == Ok::<Seq<u16>, Cr3Error>(pixels@),
                Err(error) => samples_at(
                    old(cursor).bytes(),
                    old(cursor).offset(),
                    *header,
                    dummy,
                ) == Err::<Seq<u16>, Cr3Error>(error),
            },
    {
        let start = cursor.position();
        let len = cursor.len();
        let ghost bytes = cursor.bytes();
        let wide_width = header.width as u64;
        let wide_height = header.height as u64;
        assert(wide_width * wide_height <= 0xffff_ffff * 0xffff_ffff) by (nonlinear_arith)
            requires
                0 <= wide_width <= 0xffff_ffff,
                0 <= wide_height <= 0xffff_ffff,
        ;
        let wide_count: u64 = wide_width * wide_height;
        if wide_count > (usize::MAX / 4) as u64 {
            return Err(Cr3Error::ImageTooLarge);
        }
        let count: usize = wide_count as usize;
        if dummy {
            let pixels = vec![0u16; count];
            assert(pixels@ =~= Seq::new(count as nat, |index: int| 0u16));
            return Ok(pixels);
        }
        let sample_bytes: usize = (header.bit_depth as usize + 7) / 8;
        if sample_bytes != 1 && sample_bytes != 2 {
            return Err(Cr3Error::UnsupportedBitDepth);
        }
        let width = header.width as usize;
        let height = header.height as usize;
        assert(width <= count) by (nonlinear_arith)
            requires
                count == width * height,
                height >= 1,
                width >= 0,
        ;
        let row_bytes: usize = if sample_bytes == 1 {
            width
        } else {
            2 * width
        };
        assert(row_bytes == header.row_bytes()) by (nonlinear_arith)
            requires
                header.row_bytes() == width * sample_bytes,
                sample_bytes == 1 ==> row_bytes == width,
                sample_bytes == 2 ==> row_bytes == 2 * width,
                sample_bytes == 1 || sample_bytes == 2,
        ;
        let rows: usize = if start > len as u64 {
            0
        } else {
            (len - start as usize) / row_bytes
        };
        assert(rows * row_bytes <= len - start || start > len) by (nonlinear_arith)
            requires
                start <= len ==> rows == (len - start) / (row_bytes as int),
                0 < row_bytes,
        ;
        if rows < height {
            return Err(
                Cr3Error::TruncatedPixelData {
                    offset: start + (rows * row_bytes) as u64,
                    row: rows as u32,
                },
            );
        }
        let total: usize = if sample_bytes == 1 {
            count
        } else {
            2 * count
        };
        assert(total == height * row_bytes && total <= rows * row_bytes) by (nonlinear_arith)
            requires
                count == width * height,
                sample_bytes == 1 ==> row_bytes == width && total == count,
                sample_bytes == 2 ==> row_bytes == 2 * width && total == 2 * count,
                sample_bytes == 1 || sample_bytes == 2,
                height <= rows,
                0 <= width,
        ;
        let data = cursor.take(total);
        let mut pixels: Vec<u16> = Vec::with_capacity(count);
        let mut index: usize = 0;
        while index < count
            invariant
                index <= count,
                count <= usize::MAX / 4,
                pixels.len() == index,
                sample_bytes == 1 || sample_bytes == 2,
                sample_bytes == 1 ==> total == count,
                sample_bytes == 2 ==> total == 2 * count,
                start + total <= bytes.len(),
                data@ == bytes.subrange(start as int, start + total),
                forall|done: int|
                    0 <= done < index ==> pixels[done] == sample_at(
                        bytes,
                        start as int,
                        sample_bytes as int,
                        done,
                    ),
            decreases count - index,
        {
            let value: u16 = if sample_bytes == 1 {
                data[index] as u16
            } else {
                u16_from_le(data[2 * index], data[2 * index + 1])
            };
            pixels.push(value);
            index += 1;
        }
        assert(pixels@ =~= Seq::new(
            count as nat,
            |index: int| sample_at(bytes, start as int, sample_bytes as int, index),
        ));
        Ok(pixels)
    }

    /// Decodes the file: resolves the camera, finds the `CRAW` box, parses
    /// its header and reads the samples, or in dummy mode only sizes the
    /// buffer for them.
    pub fn image(&self, dummy: bool) -> (image: Result<RawImage, Cr3Error>)
        ensures
            match image {
                Ok(image) => decoded(self.bytes(), self.cameras(), self.metadata(), dummy) == Ok::<
                    RawImageView,
                    Cr3Error,
                >(image@),
                Err(error) => decoded(self.bytes(), self.cameras(), self.metadata(), dummy)
                    == Err::<RawImageView, Cr3Error>(error),
            },
    {
        let mut camera = match &self.tiff {
            Some(tiff) => match self.rawloader.check_supported(tiff) {
                Ok(camera) => camera,
                Err(error) => return Err(error),
            },
            None => make_fallback_camera(),
        };
        match self.extract_basic_metadata(&mut camera) {
            Ok(()) => {},
            Err(error) => return Err(error),
        }
        let mut cursor = ByteCursor::new(self.buffer);
        if Self::find_box(&mut cursor, &BOX_TYPE_CRAW, None).is_none() {
            return Err(Cr3Error::CrawNotFound);
        }
        let header = match self.parse_craw_header(&mut cursor) {
            Ok(header) => header,
            Err(error) => return Err(error),
        };
        let data = match self.decode_raw_image(&mut cursor, &header, dummy) {
            Ok(data) => data,
            Err(error) => return Err(error),
        };
        Ok(RawImage { width: header.width as usize, height: header.height as usize, data, camera })
    }
}

} // verus!
