//! Four-byte type tags.
use vstd::prelude::*;

verus! {

/// The file-type box that opens every file of the family.
pub const BOX_TYPE_FTYP: [u8; 4] = [0x66, 0x74, 0x79, 0x70];

/// The box that holds the raw image.
pub const BOX_TYPE_CRAW: [u8; 4] = [0x43, 0x52, 0x41, 0x57];

/// The movie box, the outermost container.
pub const BOX_TYPE_MOOV: [u8; 4] = [0x6d, 0x6f, 0x6f, 0x76];

/// A track inside the movie box.
pub const BOX_TYPE_TRAK: [u8; 4] = [0x74, 0x72, 0x61, 0x6b];

/// The media of a track.
pub const BOX_TYPE_MDIA: [u8; 4] = [0x6d, 0x64, 0x69, 0x61];

/// The media information.
pub const BOX_TYPE_MINF: [u8; 4] = [0x6d, 0x69, 0x6e, 0x66];

/// The sample table, which holds the sample descriptions.
pub const BOX_TYPE_STBL: [u8; 4] = [0x73, 0x74, 0x62, 0x6c];

/// A box with an identifier of sixteen bytes before its payload.
pub const BOX_TYPE_UUID: [u8; 4] = [0x75, 0x75, 0x69, 0x64];

/// The media data. It is not a container, and no search goes into it.
pub const BOX_TYPE_MDAT: [u8; 4] = [0x6d, 0x64, 0x61, 0x74];

/// Canon's table of the offsets of the tracks. No search goes into it.
pub const BOX_TYPE_CTBO: [u8; 4] = [0x43, 0x54, 0x42, 0x4f];

/// The brand of a standard file: `crx` and a space.
pub const BRAND_CRX: [u8; 4] = [0x63, 0x72, 0x78, 0x20];

/// The brand of the second version of the format.
pub const BRAND_CRX2: [u8; 4] = [0x63, 0x72, 0x78, 0x32];

/// The brand of a movie.
pub const BRAND_CRXM: [u8; 4] = [0x63, 0x72, 0x78, 0x6d];

/// Whether two tags hold the same four bytes.
pub fn same_tag(a: &[u8; 4], b: &[u8; 4]) -> (same: bool)
    ensures
        same == (a@ == b@),
{
    let same = a[0] == b[0] && a[1] == b[1] && a[2] == b[2] && a[3] == b[3];
    proof {
        if same {
            assert(a@ =~= b@);
        } else {
            assert(a@[0] == a[0] && b@[0] == b[0]);
        }
    }
    same
}

} // verus!
