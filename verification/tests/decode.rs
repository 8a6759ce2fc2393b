use rawloader::decoders::bmff::Bmff;
use rawloader::decoders::camera::{Camera, ExifIFD, RawLoader, TiffIFD};
use rawloader::decoders::cr3::{is_cr3_brand, Cr3Decoder};
use rawloader::decoders::error::{Cr3Error, HeaderFault};

fn packed(tag: &[u8; 4], payload: &[u8]) -> Vec<u8> {
    let mut bytes = Vec::new();
    bytes.extend_from_slice(&((payload.len() + 8) as u32).to_be_bytes());
    bytes.extend_from_slice(tag);
    bytes.extend_from_slice(payload);
    bytes
}

fn craw_payload(width: u32, height: u32, bit_depth: u8, components: u8, data: &[u8]) -> Vec<u8> {
    let mut bytes = Vec::new();
    bytes.extend_from_slice(&width.to_be_bytes());
    bytes.extend_from_slice(&height.to_be_bytes());
    bytes.push(bit_depth);
    bytes.push(components);
    bytes.push(bit_depth);
    bytes.resize(28, 0);
    bytes.extend_from_slice(data);
    bytes
}

/// `ftyp`, then `moov/trak/mdia/minf/stbl` around a `CRAW` box.
fn container(craw: &[u8]) -> Vec<u8> {
    let stbl = packed(b"stbl", &packed(b"CRAW", craw));
    let minf = packed(b"minf", &stbl);
    let mdia = packed(b"mdia", &minf);
    let trak = packed(b"trak", &mdia);
    let moov = packed(b"moov", &trak);
    let mut bytes = packed(b"ftyp", b"crx2\0\0\0\0iso2crx ");
    bytes.extend(moov);
    bytes
}

fn camera(make: &str, model: &str) -> Camera {
    let mut camera = Camera::new();
    camera.make = make.to_string();
    camera.clean_make = make.to_string();
    camera.model = model.to_string();
    camera.clean_model = model.to_string();
    camera
}

fn tiff(make: Option<&str>, model: Option<&str>, makernote: Option<Option<&str>>) -> TiffIFD {
    TiffIFD {
        make: make.map(|text| text.to_string()),
        model: model.map(|text| text.to_string()),
        exif: makernote.map(|note| ExifIFD { makernote: note.map(|text| text.to_string()) }),
    }
}

#[test]
fn a_minimal_container_decodes_end_to_end() {
    let bytes = container(&craw_payload(3, 1, 8, 1, &[0x00, 0x7f, 0xff]));
    let loader = RawLoader::new(Vec::new());
    let decoder = Cr3Decoder::new(&bytes, None, None, &loader);
    let image = decoder.image(false).unwrap();
    assert_eq!(image.width, 3);
    assert_eq!(image.height, 1);
    assert_eq!(image.data, vec![0, 127, 255]);
    assert_eq!(image.camera.make, "Canon");
    assert_eq!(image.camera.model, "EOS CR3");
    assert_eq!(image.camera.clean_make, "Canon");
    assert_eq!(image.camera.clean_model, "EOS CR3");
    assert!(image.camera.hints.is_empty());
}

#[test]
fn a_minimal_container_decodes_in_dummy_mode() {
    let bytes = container(&craw_payload(3, 2, 16, 1, &[]));
    let loader = RawLoader::new(Vec::new());
    let decoder = Cr3Decoder::new(&bytes, None, None, &loader);
    let image = decoder.image(true).unwrap();
    assert_eq!(image.width, 3);
    assert_eq!(image.height, 2);
    assert_eq!(image.data, vec![0; 6]);
    assert_eq!(image.camera.make, "Canon");
    assert_eq!(image.camera.model, "EOS CR3");
    // The same file has no samples to read.
    assert_eq!(
        decoder.image(false).unwrap_err(),
        Cr3Error::TruncatedPixelData { offset: bytes.len() as u64, row: 0 }
    );
}

#[test]
fn sixteen_bit_rows_decode_end_to_end() {
    let data = [0x34, 0x12, 0xff, 0xff, 0x00, 0x00, 0x01, 0x00];
    let bytes = container(&craw_payload(2, 2, 14, 3, &data));
    let loader = RawLoader::new(Vec::new());
    let decoder = Cr3Decoder::new(&bytes, None, None, &loader);
    let image = decoder.image(false).unwrap();
    assert_eq!((image.width, image.height), (2, 2));
    assert_eq!(image.data, vec![0x1234, 0xffff, 0, 1]);
}

#[test]
fn the_samples_may_run_on_behind_the_box() {
    // The rows are read from behind the header, whatever the box declares.
    let mut bytes = container(&craw_payload(2, 2, 8, 1, &[1, 2]));
    bytes.extend_from_slice(&[3, 4, 5]);
    let loader = RawLoader::new(Vec::new());
    let decoder = Cr3Decoder::new(&bytes, None, None, &loader);
    assert_eq!(decoder.image(false).unwrap().data, vec![1, 2, 3, 4]);
}

#[test]
fn a_file_without_a_craw_box_fails() {
    let mut bytes = packed(b"ftyp", b"crx2\0\0\0\0");
    bytes.extend(packed(b"moov", &packed(b"trak", &packed(b"mdat", &[0; 40]))));
    let loader = RawLoader::new(Vec::new());
    let decoder = Cr3Decoder::new(&bytes, None, None, &loader);
    assert_eq!(decoder.image(false).unwrap_err(), Cr3Error::CrawNotFound);
    assert_eq!(decoder.image(true).unwrap_err(), Cr3Error::CrawNotFound);
    let empty = Cr3Decoder::new(&[], None, None, &loader);
    assert_eq!(empty.image(true).unwrap_err(), Cr3Error::CrawNotFound);
}

#[test]
fn a_craw_box_inside_a_plain_box_is_not_found() {
    let bytes = packed(b"mdat", &packed(b"CRAW", &craw_payload(1, 1, 8, 1, &[5])));
    let loader = RawLoader::new(Vec::new());
    let decoder = Cr3Decoder::new(&bytes, None, None, &loader);
    assert_eq!(decoder.image(false).unwrap_err(), Cr3Error::CrawNotFound);
}

#[test]
fn a_damaged_box_before_the_craw_box_hides_it() {
    let mut bytes = packed(b"ftyp", b"crx2\0\0\0\0");
    bytes.extend_from_slice(&[0, 0, 0, 4]);
    bytes.extend_from_slice(b"free");
    bytes.extend(packed(b"CRAW", &craw_payload(1, 1, 8, 1, &[5])));
    let loader = RawLoader::new(Vec::new());
    let decoder = Cr3Decoder::new(&bytes, None, None, &loader);
    assert_eq!(decoder.image(false).unwrap_err(), Cr3Error::CrawNotFound);
}

#[test]
fn an_invalid_header_fails_the_decode() {
    let loader = RawLoader::new(Vec::new());
    let bytes = container(&craw_payload(0, 1, 8, 1, &[1]));
    let decoder = Cr3Decoder::new(&bytes, None, None, &loader);
    assert_eq!(decoder.image(true).unwrap_err(), Cr3Error::InvalidCrawHeader(HeaderFault::Dimensions));
    let bytes = container(&craw_payload(1, 1, 33, 1, &[1]));
    let decoder = Cr3Decoder::new(&bytes, None, None, &loader);
    assert_eq!(decoder.image(true).unwrap_err(), Cr3Error::InvalidCrawHeader(HeaderFault::BitDepth));
    let bytes = container(&craw_payload(1, 1, 8, 0, &[1]));
    let decoder = Cr3Decoder::new(&bytes, None, None, &loader);
    assert_eq!(decoder.image(false).unwrap_err(), Cr3Error::InvalidCrawHeader(HeaderFault::Components));
}

#[test]
fn an_invalid_first_craw_box_is_not_passed_over() {
    let mut bytes = packed(b"CRAW", &craw_payload(0, 1, 8, 1, &[]));
    bytes.extend(packed(b"CRAW", &craw_payload(1, 1, 8, 1, &[7])));
    let loader = RawLoader::new(Vec::new());
    let decoder = Cr3Decoder::new(&bytes, None, None, &loader);
    assert_eq!(decoder.image(false).unwrap_err(), Cr3Error::InvalidCrawHeader(HeaderFault::Dimensions));
}

#[test]
fn a_cut_header_fails_the_decode() {
    let bytes = container(&[0, 0, 0, 1, 0, 0, 0, 1, 8, 1]);
    let loader = RawLoader::new(Vec::new());
    let decoder = Cr3Decoder::new(&bytes, None, None, &loader);
    assert_eq!(decoder.image(true).unwrap_err(), Cr3Error::TruncatedHeader);
}

#[test]
fn cut_sample_data_fails_the_decode() {
    let bytes = container(&craw_payload(4, 3, 8, 1, &[1, 2, 3, 4, 5, 6]));
    let data_start = bytes.len() as u64 - 6;
    let loader = RawLoader::new(Vec::new());
    let decoder = Cr3Decoder::new(&bytes, None, None, &loader);
    assert_eq!(
        decoder.image(false).unwrap_err(),
        Cr3Error::TruncatedPixelData { offset: data_start + 4, row: 1 }
    );
    assert_eq!(decoder.image(true).unwrap().data, vec![0; 12]);
}

#[test]
fn an_unsupported_sample_width_fails_the_decode() {
    let bytes = container(&craw_payload(1, 1, 24, 1, &[1, 2, 3]));
    let loader = RawLoader::new(Vec::new());
    let decoder = Cr3Decoder::new(&bytes, None, None, &loader);
    assert_eq!(decoder.image(false).unwrap_err(), Cr3Error::UnsupportedBitDepth);
    assert_eq!(decoder.image(true).unwrap().data, vec![0]);
}

#[test]
fn an_oversized_image_fails_the_decode() {
    let bytes = container(&craw_payload(u32::MAX, u32::MAX, 8, 1, &[1, 2, 3]));
    let loader = RawLoader::new(Vec::new());
    let decoder = Cr3Decoder::new(&bytes, None, None, &loader);
    assert_eq!(decoder.image(false).unwrap_err(), Cr3Error::ImageTooLarge);
    assert_eq!(decoder.image(true).unwrap_err(), Cr3Error::ImageTooLarge);
}

#[test]
fn a_craw_box_in_a_uuid_box_is_found_behind_the_identifier() {
    let mut payload = vec![0x5au8; 16];
    payload.extend(packed(b"CRAW", &craw_payload(2, 1, 8, 1, &[8, 9])));
    let mut bytes = packed(b"ftyp", b"crx2\0\0\0\0");
    bytes.extend(packed(b"uuid", &payload));
    let loader = RawLoader::new(Vec::new());
    let decoder = Cr3Decoder::new(&bytes, None, None, &loader);
    assert_eq!(decoder.image(false).unwrap().data, vec![8, 9]);
}

#[test]
fn an_unknown_camera_fails_the_decode() {
    let bytes = container(&craw_payload(1, 1, 8, 1, &[5]));
    let loader = RawLoader::new(vec![camera("Canon", "EOS R5")]);
    let metadata = tiff(Some("Canon"), Some("EOS R6"), None);
    let decoder = Cr3Decoder::new(&bytes, Some(metadata), None, &loader);
    assert_eq!(decoder.image(false).unwrap_err(), Cr3Error::UnsupportedCamera);
    assert_eq!(decoder.image(true).unwrap_err(), Cr3Error::UnsupportedCamera);
}

#[test]
fn metadata_without_make_or_model_names_no_camera() {
    let bytes = container(&craw_payload(1, 1, 8, 1, &[5]));
    let loader = RawLoader::new(vec![camera("Canon", "EOS R5"), camera("", "")]);
    for metadata in [
        tiff(None, Some("EOS R5"), None),
        tiff(Some("Canon"), None, None),
        tiff(None, None, Some(Some("note"))),
    ] {
        let decoder = Cr3Decoder::new(&bytes, Some(metadata), None, &loader);
        assert_eq!(decoder.image(false).unwrap_err(), Cr3Error::UnsupportedCamera);
    }
}

#[test]
fn the_camera_is_resolved_before_the_container_is_read() {
    let loader = RawLoader::new(Vec::new());
    let metadata = tiff(Some("Canon"), Some("EOS R6"), None);
    let decoder = Cr3Decoder::new(&[], Some(metadata), None, &loader);
    assert_eq!(decoder.image(false).unwrap_err(), Cr3Error::UnsupportedCamera);
}

#[test]
fn a_known_camera_comes_from_the_table() {
    let bytes = container(&craw_payload(1, 1, 8, 1, &[5]));
    let mut known = camera("Canon", "EOS R5");
    known.clean_make = "canon".to_string();
    known.clean_model = "r5".to_string();
    known.hints.push("table".to_string());
    let loader = RawLoader::new(vec![camera("Canon", "EOS R6"), known, camera("Canon", "EOS R5")]);
    let metadata = tiff(Some("Canon"), Some("EOS R5"), Some(Some("v1")));
    let decoder = Cr3Decoder::new(&bytes, Some(metadata), None, &loader);
    let image = decoder.image(false).unwrap();
    assert_eq!(image.data, vec![5]);
    assert_eq!(image.camera.make, "Canon");
    assert_eq!(image.camera.model, "EOS R5");
    // The metadata is copied into the clean names as it stands.
    assert_eq!(image.camera.clean_make, "Canon");
    assert_eq!(image.camera.clean_model, "EOS R5");
    assert_eq!(image.camera.hints, vec!["table".to_string(), "EXIF: v1".to_string()]);
}

#[test]
fn check_supported_takes_the_first_record_of_a_make_and_model() {
    let mut first = camera("Canon", "EOS R5");
    first.hints.push("first".to_string());
    let mut second = camera("Canon", "EOS R5");
    second.hints.push("second".to_string());
    let loader = RawLoader::new(vec![camera("Nikon", "EOS R5"), camera("Canon", "Z9"), first, second]);
    let found = loader.check_supported(&tiff(Some("Canon"), Some("EOS R5"), None)).unwrap();
    assert_eq!(found.hints, vec!["first".to_string()]);
    assert_eq!(
        loader.check_supported(&tiff(Some("Nikon"), Some("Z9"), None)).unwrap_err(),
        Cr3Error::UnsupportedCamera
    );
    assert_eq!(
        loader.check_supported(&tiff(Some("canon"), Some("EOS R5"), None)).unwrap_err(),
        Cr3Error::UnsupportedCamera
    );
}

#[test]
fn a_clone_decodes_the_same_image() {
    let bytes = container(&craw_payload(2, 1, 16, 1, &[1, 0, 2, 0]));
    let loader = RawLoader::new(vec![camera("Canon", "EOS R5")]);
    let metadata = tiff(Some("Canon"), Some("EOS R5"), Some(Some("note")));
    let decoder = Cr3Decoder::new(&bytes, Some(metadata), None, &loader);
    let copy = decoder.clone();
    let first = decoder.image(false).unwrap();
    let second = copy.image(false).unwrap();
    assert_eq!(first.data, vec![1, 2]);
    assert_eq!(first.data, second.data);
    assert_eq!((first.width, first.height), (second.width, second.height));
    assert_eq!(first.camera.make, second.camera.make);
    assert_eq!(first.camera.model, second.camera.model);
    assert_eq!(first.camera.hints, second.camera.hints);
    assert_eq!(second.camera.hints, vec!["EXIF: note".to_string()]);
}

#[test]
fn a_file_is_recognised_and_then_decoded() {
    let bytes = container(&craw_payload(1, 1, 8, 1, &[42]));
    let mut bmff = Bmff::new(&bytes).unwrap();
    assert!(bmff.compatible_brand("crx "));
    assert!(bmff.get_brands().unwrap().iter().any(|brand| is_cr3_brand(brand)));
    let loader = RawLoader::new(Vec::new());
    let decoder = Cr3Decoder::new(&bytes, None, Some(()), &loader);
    assert_eq!(decoder.image(false).unwrap().data, vec![42]);
}
