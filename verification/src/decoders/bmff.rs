//! Brand detection: the `ftyp` box at the start of a container.
//!
//! The box is laid out as a big-endian size, the tag `ftyp`, the major brand,
//! a minor version, and then the compatible brands, four bytes each, up to the
//! declared size.
use vstd::prelude::*;
use vstd::slice::slice_to_vec;
use vstd::string::StringSliceAdditionalSpecFns;
use crate::decoders::cursor::ByteCursor;
use crate::decoders::endian::be_u32_at;
use crate::decoders::error::Cr3Error;
use crate::decoders::tags::{same_tag, BOX_TYPE_FTYP};

verus! {

/// The most compatible brands that a well-formed file declares. A box that
/// declares more is taken for malformed, and none of them is listed.
pub const MAX_COMPATIBLE_BRANDS: usize = 100;

/// The number of compatible brands that the size field declares.
pub open spec fn declared_brands(bytes: Seq<u8>) -> int {
    (be_u32_at(bytes, 0) - 16) / 4
}

/// The number of compatible brands that are listed: those that the box
/// declares and that lie wholly inside the input. It is zero where the input
/// ends before the brands begin, where the declared size is below the fixed
/// part of the box, and where more than the accepted number is declared.
pub open spec fn listed_brands(bytes: Seq<u8>) -> int {
    let declared = declared_brands(bytes);
    let present = (bytes.len() - 16) / 4;
    if bytes.len() < 16 || be_u32_at(bytes, 0) < 16 || declared > MAX_COMPATIBLE_BRANDS {
        0
    } else if declared <= present {
        declared
    } else {
        present
    }
}

/// The compatible brand number `index`, counted from zero.
pub open spec fn compatible_brand_at(bytes: Seq<u8>, index: int) -> Seq<u8> {
    bytes.subrange(16 + 4 * index, 20 + 4 * index)
}

/// The brands of a stream that begins with an `ftyp` box: the major brand
/// first, then the listed compatible brands in their order in the file.
pub open spec fn brand_list(bytes: Seq<u8>) -> Seq<Seq<u8>> {
    seq![bytes.subrange(8, 12)] + Seq::new(
        listed_brands(bytes) as nat,
        |index: int| compatible_brand_at(bytes, index),
    )
}

/// The brands of a stream, or why it has none: the stream ends inside the
/// first twelve bytes, or they do not carry the tag `ftyp`.
pub open spec fn brand_table(bytes: Seq<u8>) -> Result<Seq<Seq<u8>>, Cr3Error> {
    if bytes.len() < 12 {
        Err(Cr3Error::TruncatedHeader)
    } else if bytes.subrange(4, 8) != BOX_TYPE_FTYP@ {
        Err(Cr3Error::NotBmff)
    } else {
        Ok(brand_list(bytes))
    }
}

/// Whether a stream is compatible with a brand: the brand is four bytes long,
/// the stream begins with an `ftyp` box, and the brand is among its brands.
pub open spec fn is_compatible(bytes: Seq<u8>, brand: Seq<u8>) -> bool {
    &&& brand.len() == 4
    &&& brand_table(bytes) matches Ok(brands)
    &&& brands.contains(brand)
}

/// A brand that is not four bytes long is compatible with no stream.
pub proof fn lemma_brand_of_other_length_is_never_compatible(bytes: Seq<u8>, brand: Seq<u8>)
    requires
        brand.len() != 4,
    ensures
        !is_compatible(bytes, brand),
{
}

/// A stream that does not begin with an `ftyp` box is compatible with no
/// brand.
pub proof fn lemma_no_ftyp_no_brand(bytes: Seq<u8>, brand: Seq<u8>)
    requires
        brand_table(bytes) is Err,
    ensures
        !is_compatible(bytes, brand),
{
}

/// A stream that begins with an `ftyp` box is compatible with its major
/// brand, whatever follows it.
pub proof fn lemma_major_brand_is_compatible(bytes: Seq<u8>)
    requires
        brand_table(bytes) is Ok,
    ensures
        is_compatible(bytes, bytes.subrange(8, 12)),
{
    let brands = brand_list(bytes);
    assert(brands[0] == bytes.subrange(8, 12));
}

/// The brand list is never empty, holds at most one brand more than the
/// accepted number of compatible ones, and each brand is four bytes of the
/// stream.
pub proof fn lemma_brand_list_shape(bytes: Seq<u8>)
    requires
        brand_table(bytes) is Ok,
    ensures
        1 <= brand_list(bytes).len() <= MAX_COMPATIBLE_BRANDS + 1,
        16 + 4 * listed_brands(bytes) <= bytes.len() || listed_brands(bytes) == 0,
        forall|index: int|
            0 <= index < brand_list(bytes).len() ==> (#[trigger] brand_list(bytes)[index]).len()
                == 4,
{
    assert forall|index: int| 0 <= index < brand_list(bytes).len() implies (
    #[trigger] brand_list(bytes)[index]).len() == 4 by {
        if index > 0 {
            assert(brand_list(bytes)[index] == compatible_brand_at(bytes, index - 1));
        }
    }
}

/// The head of a container stream, kept for brand detection.
#[derive(Debug)]
pub struct Bmff {
    data: Vec<u8>,
}

impl View for Bmff {
    type V = Seq<u8>;

    closed spec fn view(&self) -> Seq<u8> {
        self.data@
    }
}

impl Bmff {
    /// Keeps a copy of `data`. This never fails.
    pub fn new(data: &[u8]) -> (made: Result<Self, String>)
        ensures
            made matches Ok(bmff) && bmff@ == data@,
    {
        Ok(Bmff { data: slice_to_vec(data) })
    }

    /// The four bytes of a brand given as text; a text of any other length
    /// is no brand.
    pub fn brand_tag(brand: &str) -> (tag: Result<[u8; 4], Cr3Error>)
        ensures
            match tag {
                Ok(tag) => tag@ == brand.spec_bytes(),
                Err(error) => error == Cr3Error::MalformedBrandTag && brand.spec_bytes().len()
                    != 4,
            },
    {
        let bytes = brand.as_bytes();
        if bytes.len() != 4 {
            return Err(Cr3Error::MalformedBrandTag);
        }
        let tag: [u8; 4] = [bytes[0], bytes[1], bytes[2], bytes[3]];
        assert(tag@ =~= bytes@);
        Ok(tag)
    }

    /// The major brand and the number of listed compatible brands.
    fn layout(&self) -> (found: Result<([u8; 4], usize), Cr3Error>)
        ensures
            match found {
                Ok((major, listed)) => {
                    &&& brand_table(self@) is Ok
                    &&& major@ == self@.subrange(8, 12)
                    &&& listed == listed_brands(self@)
                    &&& listed <= MAX_COMPATIBLE_BRANDS
                    &&& listed > 0 ==> 16 + 4 * listed <= self@.len()
                },
                Err(error) => brand_table(self@) == Err::<Seq<Seq<u8>>, Cr3Error>(error),
            },
    {
        let mut cursor = ByteCursor::new(self.data.as_slice());
        let size = match cursor.read_u32_be() {
            Some(size) => size,
            None => return Err(Cr3Error::TruncatedHeader),
        };
        let box_type = match cursor.read_tag() {
            Some(tag) => tag,
            None => return Err(Cr3Error::TruncatedHeader),
        };
        let major = match cursor.read_tag() {
            Some(tag) => tag,
            None => return Err(Cr3Error::TruncatedHeader),
        };
        if !same_tag(&box_type, &BOX_TYPE_FTYP) {
            return Err(Cr3Error::NotBmff);
        }
        // The minor version must be there before any compatible brand is.
        if cursor.read_tag().is_none() || size < 16 {
            return Ok((major, 0));
        }
        let declared: usize = (size as usize - 16) / 4;
        if declared > MAX_COMPATIBLE_BRANDS {
            return Ok((major, 0));
        }
        let present: usize = (cursor.len() - 16) / 4;
        if declared <= present {
            Ok((major, declared))
        } else {
            Ok((major, present))
        }
    }

    /// The compatible brand number `index` of a stream that lists it.
    fn compatible_at(&self, index: usize) -> (tag: [u8; 4])
        requires
            20 + 4 * index <= self@.len(),
        ensures
            tag@ == compatible_brand_at(self@, index as int),
    {
        assert(self.data.len() == self@.len());
        let at: usize = 16 + 4 * index;
        let tag: [u8; 4] = [self.data[at], self.data[at + 1], self.data[at + 2], self.data[at + 3]];
        assert(tag@ =~= compatible_brand_at(self@, index as int));
        tag
    }

    /// The brands of the stream in order, the major brand first. Brands that
    /// the box declares and the stream does not hold are left out: a short
    /// list is a result, not a failure. The call fails only where the stream
    /// ends inside the first twelve bytes or they are not an `ftyp` header.
    pub fn get_brands(&self) -> (brands: Result<Vec<[u8; 4]>, Cr3Error>)
        ensures
            match brands {
                Ok(brands) => brand_table(self@) == Ok::<Seq<Seq<u8>>, Cr3Error>(
                    brands.deep_view(),
                ),
                Err(error) => brand_table(self@) == Err::<Seq<Seq<u8>>, Cr3Error>(error),
            },
    {
        let (major, listed) = match self.layout() {
            Ok(found) => found,
            Err(error) => return Err(error),
        };
        let mut brands: Vec<[u8; 4]> = Vec::new();
        brands.push(major);
        let mut index: usize = 0;
        while index < listed
            invariant
                index <= listed,
                listed <= MAX_COMPATIBLE_BRANDS,
                listed > 0 ==> 16 + 4 * listed <= self@.len(),
                brands.len() == index + 1,
                brands[0]@ == self@.subrange(8, 12),
                forall|done: int|
                    0 <= done < index ==> (#[trigger] brands[done + 1])@ == compatible_brand_at(
                        self@,
                        done,
                    ),
            decreases listed - index,
        {
            let tag = self.compatible_at(index);
            brands.push(tag);
            index += 1;
        }
        proof {
            let expected = brand_list(self@);
            let got = brands.deep_view();
            assert(got.len() == expected.len());
            assert forall|at: int| 0 <= at < got.len() implies got[at] == expected[at] by {
                assert(got[at] == brands[at]@);
                if at > 0 {
                    assert(brands[(at - 1) + 1]@ == compatible_brand_at(self@, at - 1));
                }
            }
            assert(got =~= expected);
        }
        Ok(brands)
    }

    /// Whether the stream has the four-byte brand `tag`, as its major brand
    /// or among its listed compatible brands.
    pub fn has_brand(&self, tag: &[u8; 4]) -> (compatible: bool)
        ensures
            compatible == is_compatible(self@, tag@),
    {
        let (major, listed) = match self.layout() {
            Ok(found) => found,
            Err(_) => return false,
        };
        if same_tag(&major, tag) {
            proof {
                lemma_major_brand_is_compatible(self@);
            }
            return true;
        }
        let mut index: usize = 0;
        while index < listed
            invariant
                index <= listed,
                listed == listed_brands(self@),
                listed <= MAX_COMPATIBLE_BRANDS,
                listed > 0 ==> 16 + 4 * listed <= self@.len(),
                brand_table(self@) is Ok,
                self@.subrange(8, 12) != tag@,
                forall|done: int|
                    0 <= done < index ==> #[trigger] compatible_brand_at(self@, done) != tag@,
            decreases listed - index,
        {
            let candidate = self.compatible_at(index);
            if same_tag(&candidate, tag) {
                proof {
                    let brands = brand_list(self@);
                    assert(brands[index + 1] == tag@);
                }
                return true;
            }
            index += 1;
        }
        proof {
            let brands = brand_list(self@);
            assert forall|at: int| 0 <= at < brands.len() implies brands[at] != tag@ by {
                if at > 0 {
                    assert(brands[at] == compatible_brand_at(self@, at - 1));
                }
            }
        }
        false
    }

    /// Whether the stream is compatible with `brand`: the brand is exactly
    /// four bytes long, the stream begins with a well-formed `ftyp` box, and
    /// the brand is its major brand or one of its compatible brands. Anything
    /// else, a brand of another length among it, gives `false`.
    pub fn compatible_brand(&mut self, brand: &str) -> (compatible: bool)
        ensures
            final(self)@ == old(self)@,
            compatible == is_compatible(old(self)@, brand.spec_bytes()),
            brand.spec_bytes().len() != 4 ==> !compatible,
    {
        match Self::brand_tag(brand) {
            Ok(tag) => self.has_brand(&tag),
            Err(_) => false,
        }
    }
}

} // verus!
