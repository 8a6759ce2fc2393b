use rawloader::decoders::bmff::Bmff;
use rawloader::decoders::cr3::is_cr3_brand;
use rawloader::decoders::error::Cr3Error;

/// An `ftyp` box with the given declared size, major brand and compatible
/// brands, the minor version being zero.
fn ftyp(size: u32, major: &[u8; 4], compatible: &[&[u8; 4]]) -> Vec<u8> {
    let mut bytes = Vec::new();
    bytes.extend_from_slice(&size.to_be_bytes());
    bytes.extend_from_slice(b"ftyp");
    bytes.extend_from_slice(major);
    bytes.extend_from_slice(&[0, 0, 0, 0]);
    for brand in compatible {
        bytes.extend_from_slice(*brand);
    }
    bytes
}

fn canon_ftyp() -> Vec<u8> {
    ftyp(24, b"crx2", &[b"iso2", b"crx "])
}

#[test]
fn new_keeps_any_bytes() {
    assert!(Bmff::new(&[]).is_ok());
    assert!(Bmff::new(&[1, 2, 3]).is_ok());
    assert!(Bmff::new(&canon_ftyp()).is_ok());
}

#[test]
fn compatible_brand_finds_a_listed_brand() {
    let mut bmff = Bmff::new(&canon_ftyp()).unwrap();
    assert!(bmff.compatible_brand("crx "));
}

#[test]
fn compatible_brand_finds_the_major_brand() {
    let mut bmff = Bmff::new(&canon_ftyp()).unwrap();
    assert!(bmff.compatible_brand("crx2"));
}

#[test]
fn compatible_brand_refuses_an_absent_brand() {
    let mut bmff = Bmff::new(&canon_ftyp()).unwrap();
    assert!(!bmff.compatible_brand("heic"));
}

#[test]
fn compatible_brand_answers_the_same_each_time() {
    let mut bmff = Bmff::new(&canon_ftyp()).unwrap();
    assert!(bmff.compatible_brand("iso2"));
    assert!(!bmff.compatible_brand("heic"));
    assert!(bmff.compatible_brand("iso2"));
    assert_eq!(bmff.get_brands().unwrap().len(), 3);
    assert!(bmff.compatible_brand("crx "));
}

#[test]
fn get_brands_lists_major_then_compatible_in_file_order() {
    let bmff = Bmff::new(&canon_ftyp()).unwrap();
    assert_eq!(bmff.get_brands(), Ok(vec![*b"crx2", *b"iso2", *b"crx "]));
}

#[test]
fn compatible_brand_refuses_brands_that_are_not_four_bytes() {
    let mut bmff = Bmff::new(&canon_ftyp()).unwrap();
    assert!(!bmff.compatible_brand(""));
    assert!(!bmff.compatible_brand("crx"));
    assert!(!bmff.compatible_brand("crx2 "));
    assert!(!bmff.compatible_brand("crx2iso2"));
}

#[test]
fn compatible_brand_counts_bytes_not_characters() {
    // Four characters, six bytes.
    let mut bmff = Bmff::new(&canon_ftyp()).unwrap();
    assert!(!bmff.compatible_brand("crx\u{20ac}"));
    // Two characters, four bytes.
    let tag = [0xc3, 0xa9, 0xc3, 0xa9];
    let mut accented = Bmff::new(&ftyp(16, &tag, &[])).unwrap();
    assert!(accented.compatible_brand("\u{e9}\u{e9}"));
    assert!(!bmff.compatible_brand("\u{e9}\u{e9}"));
}

#[test]
fn brand_tag_takes_four_bytes_only() {
    assert_eq!(Bmff::brand_tag("crx "), Ok(*b"crx "));
    assert_eq!(Bmff::brand_tag("heic"), Ok([0x68, 0x65, 0x69, 0x63]));
    assert_eq!(Bmff::brand_tag("crx"), Err(Cr3Error::MalformedBrandTag));
    assert_eq!(Bmff::brand_tag(""), Err(Cr3Error::MalformedBrandTag));
    assert_eq!(Bmff::brand_tag("crx\u{20ac}"), Err(Cr3Error::MalformedBrandTag));
}

#[test]
fn has_brand_agrees_with_compatible_brand() {
    let mut bmff = Bmff::new(&canon_ftyp()).unwrap();
    for brand in ["crx2", "iso2", "crx ", "heic", "mp41"] {
        let tag = Bmff::brand_tag(brand).unwrap();
        assert_eq!(bmff.has_brand(&tag), bmff.compatible_brand(brand));
    }
}

#[test]
fn a_stream_without_ftyp_has_no_brands() {
    let mut bytes = canon_ftyp();
    bytes[4..8].copy_from_slice(b"moov");
    let mut bmff = Bmff::new(&bytes).unwrap();
    assert!(!bmff.compatible_brand("crx2"));
    assert!(!bmff.compatible_brand("crx "));
    assert_eq!(bmff.get_brands(), Err(Cr3Error::NotBmff));
}

#[test]
fn a_stream_shorter_than_the_header_has_no_brands() {
    for len in 0..12 {
        let bytes = canon_ftyp();
        let mut bmff = Bmff::new(&bytes[..len]).unwrap();
        assert!(!bmff.compatible_brand("crx2"));
        assert_eq!(bmff.get_brands(), Err(Cr3Error::TruncatedHeader));
    }
}

#[test]
fn a_short_stream_fails_as_truncated_whatever_its_tag() {
    let bmff = Bmff::new(b"\x00\x00\x00\x18moovcrx").unwrap();
    assert_eq!(bmff.get_brands(), Err(Cr3Error::TruncatedHeader));
}

#[test]
fn the_major_brand_is_found_without_the_rest_of_the_box() {
    let bytes = canon_ftyp();
    let mut bmff = Bmff::new(&bytes[..12]).unwrap();
    assert!(bmff.compatible_brand("crx2"));
    assert!(!bmff.compatible_brand("iso2"));
    assert_eq!(bmff.get_brands(), Ok(vec![*b"crx2"]));
}

#[test]
fn a_cut_minor_version_leaves_the_major_brand_only() {
    let bytes = canon_ftyp();
    let mut bmff = Bmff::new(&bytes[..15]).unwrap();
    assert!(bmff.compatible_brand("crx2"));
    assert_eq!(bmff.get_brands(), Ok(vec![*b"crx2"]));
}

#[test]
fn get_brands_returns_what_a_cut_list_still_holds() {
    let bytes = ftyp(28, b"crx2", &[b"iso2", b"crx ", b"mp41"]);
    // The last brand is cut in the middle.
    let mut bmff = Bmff::new(&bytes[..26]).unwrap();
    assert_eq!(bmff.get_brands(), Ok(vec![*b"crx2", *b"iso2", *b"crx "]));
    assert!(bmff.compatible_brand("crx "));
    assert!(!bmff.compatible_brand("mp41"));
    // Only the first brand is whole.
    let mut shorter = Bmff::new(&bytes[..23]).unwrap();
    assert_eq!(shorter.get_brands(), Ok(vec![*b"crx2", *b"iso2"]));
    assert!(!shorter.compatible_brand("crx "));
}

#[test]
fn brands_behind_the_declared_size_are_not_listed() {
    // The size declares one compatible brand; the stream goes on.
    let bytes = ftyp(20, b"crx2", &[b"iso2", b"crx "]);
    let mut bmff = Bmff::new(&bytes).unwrap();
    assert_eq!(bmff.get_brands(), Ok(vec![*b"crx2", *b"iso2"]));
    assert!(bmff.compatible_brand("iso2"));
    assert!(!bmff.compatible_brand("crx "));
}

#[test]
fn the_brand_count_rounds_down() {
    // 16 + 4 + 3: one whole brand is declared.
    let bytes = ftyp(23, b"crx2", &[b"iso2", b"crx "]);
    let bmff = Bmff::new(&bytes).unwrap();
    assert_eq!(bmff.get_brands(), Ok(vec![*b"crx2", *b"iso2"]));
    // 16 + 3: none is.
    let bytes = ftyp(19, b"crx2", &[b"iso2", b"crx "]);
    let mut bmff = Bmff::new(&bytes).unwrap();
    assert_eq!(bmff.get_brands(), Ok(vec![*b"crx2"]));
    assert!(!bmff.compatible_brand("iso2"));
}

#[test]
fn a_size_below_the_fixed_part_lists_no_compatible_brand() {
    for size in [0u32, 1, 8, 12, 15] {
        let bytes = ftyp(size, b"crx2", &[b"iso2", b"crx "]);
        let mut bmff = Bmff::new(&bytes).unwrap();
        assert!(bmff.compatible_brand("crx2"));
        assert!(!bmff.compatible_brand("iso2"));
        assert!(!bmff.compatible_brand("crx "));
        assert_eq!(bmff.get_brands(), Ok(vec![*b"crx2"]));
    }
}

#[test]
fn a_hundred_compatible_brands_are_accepted() {
    let mut brands: Vec<&[u8; 4]> = vec![b"iso2"; 99];
    brands.push(b"crx ");
    let bytes = ftyp(16 + 4 * 100, b"heic", &brands);
    let mut bmff = Bmff::new(&bytes).unwrap();
    assert!(bmff.compatible_brand("crx "));
    let listed = bmff.get_brands().unwrap();
    assert_eq!(listed.len(), 101);
    assert_eq!(listed[0], *b"heic");
    assert_eq!(listed[1], *b"iso2");
    assert_eq!(listed[100], *b"crx ");
}

#[test]
fn more_than_a_hundred_compatible_brands_are_malformed() {
    let brands: Vec<&[u8; 4]> = vec![b"crx "; 101];
    let bytes = ftyp(16 + 4 * 101, b"heic", &brands);
    let mut bmff = Bmff::new(&bytes).unwrap();
    assert!(!bmff.compatible_brand("crx "));
    assert!(bmff.compatible_brand("heic"));
    assert_eq!(bmff.get_brands(), Ok(vec![*b"heic"]));
    // The ceiling is on what is declared, also where little is there.
    let bytes = ftyp(u32::MAX, b"heic", &[b"crx "]);
    let mut bmff = Bmff::new(&bytes).unwrap();
    assert!(!bmff.compatible_brand("crx "));
    assert_eq!(bmff.get_brands(), Ok(vec![*b"heic"]));
}

#[test]
fn the_size_is_read_big_endian() {
    // Little-endian the size would be 0x18000000 and over the ceiling.
    let bytes = ftyp(0x18, b"crx2", &[b"iso2", b"crx "]);
    assert_eq!(&bytes[..4], &[0, 0, 0, 0x18]);
    let mut bmff = Bmff::new(&bytes).unwrap();
    assert!(bmff.compatible_brand("crx "));
}

#[test]
fn is_cr3_brand_knows_the_three_brands() {
    assert!(is_cr3_brand(b"crx "));
    assert!(is_cr3_brand(b"crx2"));
    assert!(is_cr3_brand(b"crxm"));
    assert!(!is_cr3_brand(b"crx3"));
    assert!(!is_cr3_brand(b"CRX "));
    assert!(!is_cr3_brand(b"heic"));
    assert!(!is_cr3_brand(b"iso2"));
    assert!(!is_cr3_brand(&[0, 0, 0, 0]));
}

#[test]
fn a_cr3_file_is_recognised_by_its_brands() {
    let bmff = Bmff::new(&canon_ftyp()).unwrap();
    let brands = bmff.get_brands().unwrap();
    assert!(brands.iter().any(|brand| is_cr3_brand(brand)));
    let other = Bmff::new(&ftyp(24, b"heic", &[b"mif1", b"iso2"])).unwrap();
    let brands = other.get_brands().unwrap();
    assert!(!brands.iter().any(|brand| is_cr3_brand(brand)));
}

#[test]
fn only_a_missing_ftyp_says_not_this_format() {
    assert!(Cr3Error::NotBmff.is_not_this_format());
    assert!(!Cr3Error::TruncatedHeader.is_not_this_format());
    assert!(!Cr3Error::CrawNotFound.is_not_this_format());
    assert!(!Cr3Error::UnsupportedCamera.is_not_this_format());
    assert!(!Cr3Error::MalformedBrandTag.is_not_this_format());
}
