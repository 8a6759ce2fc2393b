//! The camera record of an image, the TIFF metadata that names the camera,
//! and the table of the cameras that are known.
use vstd::prelude::*;
use vstd::string::StringExecFns;
use crate::decoders::error::Cr3Error;

verus! {

/// What is known of the camera that took an image. The clean names are the
/// normalised ones by which a camera is looked up; the hints are diagnostic
/// texts in the order in which they were found.
#[derive(Debug)]
pub struct Camera {
    pub make: String,
    pub clean_make: String,
    pub model: String,
    pub clean_model: String,
    pub hints: Vec<String>,
}

/// A camera record as plain values.
pub struct CameraView {
    pub make: Seq<char>,
    pub clean_make: Seq<char>,
    pub model: Seq<char>,
    pub clean_model: Seq<char>,
    pub hints: Seq<Seq<char>>,
}

impl View for Camera {
    type V = CameraView;

    open spec fn view(&self) -> CameraView {
        CameraView {
            make: self.make@,
            clean_make: self.clean_make@,
            model: self.model@,
            clean_model: self.clean_model@,
            hints: self.hints.deep_view(),
        }
    }
}

impl Camera {
    /// A record with empty names and no hints.
    pub fn new() -> (camera: Camera)
        ensures
            camera@ == (CameraView {
                make: Seq::empty(),
                clean_make: Seq::empty(),
                model: Seq::empty(),
                clean_model: Seq::empty(),
                hints: Seq::empty(),
            }),
    {
        let camera = Camera {
            make: String::new(),
            clean_make: String::new(),
            model: String::new(),
            clean_model: String::new(),
            hints: Vec::new(),
        };
        assert(camera.hints.deep_view() =~= Seq::<Seq<char>>::empty());
        camera
    }
}

impl Clone for Camera {
    /// A record with the same names and hints.
    fn clone(&self) -> (copy: Camera)
        ensures
            copy@ == self@,
    {
        let mut hints: Vec<String> = Vec::new();
        let mut index: usize = 0;
        while index < self.hints.len()
            invariant
                index <= self.hints.len(),
                hints.len() == index,
                forall|done: int| 0 <= done < index ==> (#[trigger] hints[done])@ == self.hints[done]@,
            decreases self.hints.len() - index,
        {
            hints.push(self.hints[index].clone());
            index += 1;
        }
        assert(hints.deep_view() =~= self.hints.deep_view());
        Camera {
            make: self.make.clone(),
            clean_make: self.clean_make.clone(),
            model: self.model.clone(),
            clean_model: self.clean_model.clone(),
            hints,
        }
    }
}

/// The view of a text that may be absent.
pub open spec fn text_of(text: Option<String>) -> Option<Seq<char>> {
    match text {
        Some(text) => Some(text@),
        None => None,
    }
}

/// A copy of a text that may be absent.
pub fn clone_text(text: &Option<String>) -> (copy: Option<String>)
    ensures
        text_of(copy) == text_of(*text),
{
    match text {
        Some(text) => Some(text.clone()),
        None => None,
    }
}

/// The EXIF directory of a TIFF tree, as far as a decoder reads it.
#[derive(Debug)]
pub struct ExifIFD {
    /// The text of the `Makernote` entry, where there is one.
    pub makernote: Option<String>,
}

/// The root directory of a TIFF tree, as far as a decoder reads it.
#[derive(Debug)]
pub struct TiffIFD {
    /// The text of the `Make` entry, where there is one.
    pub make: Option<String>,
    /// The text of the `Model` entry, where there is one.
    pub model: Option<String>,
    /// The directory behind the `ExifIFDPointer` entry, where there is one.
    pub exif: Option<ExifIFD>,
}

/// TIFF metadata as plain values. Where there is no EXIF directory there is
/// no maker note either.
pub struct TiffView {
    pub make: Option<Seq<char>>,
    pub model: Option<Seq<char>>,
    pub has_exif: bool,
    pub makernote: Option<Seq<char>>,
}

impl View for TiffIFD {
    type V = TiffView;

    open spec fn view(&self) -> TiffView {
        TiffView {
            make: text_of(self.make),
            model: text_of(self.model),
            has_exif: self.exif is Some,
            makernote: match self.exif {
                Some(exif) => text_of(exif.makernote),
                None => None,
            },
        }
    }
}

impl Clone for TiffIFD {
    /// A tree with the same entries.
    fn clone(&self) -> (copy: TiffIFD)
        ensures
            copy@ == self@,
    {
        TiffIFD {
            make: clone_text(&self.make),
            model: clone_text(&self.model),
            exif: match &self.exif {
                Some(exif) => Some(ExifIFD { makernote: clone_text(&exif.makernote) }),
                None => None,
            },
        }
    }
}

/// The view of metadata that may be absent.
pub open spec fn tiff_of(tiff: Option<TiffIFD>) -> Option<TiffView> {
    match tiff {
        Some(tiff) => Some(tiff@),
        None => None,
    }
}

/// Whether a record of the table is the one for a make and a model.
pub open spec fn is_camera(camera: CameraView, make: Seq<char>, model: Seq<char>) -> bool {
    camera.make == make && camera.model == model
}

/// The first record from index `from` on that is the one for a make and a
/// model.
pub open spec fn camera_from(
    table: Seq<CameraView>,
    make: Seq<char>,
    model: Seq<char>,
    from: int,
) -> Option<CameraView>
    decreases table.len() - from,
{
    if from < 0 || from >= table.len() {
        None
    } else if is_camera(table[from], make, model) {
        Some(table[from])
    } else {
        camera_from(table, make, model, from + 1)
    }
}

/// The record of the camera that the metadata names: the first in the table
/// whose make and model are those of the `Make` and `Model` entries. There
/// is none where an entry is missing or no record has both.
pub open spec fn supported_camera(table: Seq<CameraView>, tiff: TiffView) -> Option<CameraView> {
    match (tiff.make, tiff.model) {
        (Some(make), Some(model)) => camera_from(table, make, model, 0),
        _ => None,
    }
}

/// The record that stands for the camera where a file has no metadata.
pub open spec fn fallback_camera() -> CameraView {
    CameraView {
        make: "Canon"@,
        clean_make: "Canon"@,
        model: "EOS CR3"@,
        clean_model: "EOS CR3"@,
        hints: Seq::empty(),
    }
}

/// The record with which a decode starts: without metadata the fallback
/// record, with metadata the record of the camera that it names, and a
/// failure where that camera is not known.
pub open spec fn resolved_camera(table: Seq<CameraView>, tiff: Option<TiffView>) -> Result<
    CameraView,
    Cr3Error,
> {
    match tiff {
        None => Ok(fallback_camera()),
        Some(tiff) => match supported_camera(table, tiff) {
            Some(camera) => Ok(camera),
            None => Err(Cr3Error::UnsupportedCamera),
        },
    }
}

/// The hint that records a maker note.
pub open spec fn makernote_hint(note: Seq<char>) -> Seq<char> {
    "EXIF: "@ + note
}

/// A record after the metadata was read into it. A `Make` entry replaces the
/// make and the clean make, a `Model` entry the model and the clean model,
/// each with the text as it stands; a maker note adds a hint. An entry that
/// is missing changes nothing.
pub open spec fn enriched(camera: CameraView, tiff: Option<TiffView>) -> CameraView {
    match tiff {
        None => camera,
        Some(tiff) => CameraView {
            make: if tiff.make is Some {
                tiff.make->Some_0
            } else {
                camera.make
            },
            clean_make: if tiff.make is Some {
                tiff.make->Some_0
            } else {
                camera.clean_make
            },
            model: if tiff.model is Some {
                tiff.model->Some_0
            } else {
                camera.model
            },
            clean_model: if tiff.model is Some {
                tiff.model->Some_0
            } else {
                camera.clean_model
            },
            hints: if tiff.makernote is Some {
                camera.hints.push(makernote_hint(tiff.makernote->Some_0))
            } else {
                camera.hints
            },
        },
    }
}

/// The table of the cameras that are known.
#[derive(Debug)]
pub struct RawLoader {
    cameras: Vec<Camera>,
}

impl View for RawLoader {
    type V = Seq<CameraView>;

    closed spec fn view(&self) -> Seq<CameraView> {
        self.cameras.deep_view()
    }
}

impl DeepView for Camera {
    type V = CameraView;

    open spec fn deep_view(&self) -> CameraView {
        self@
    }
}

impl RawLoader {
    /// A table of the given records, in their order.
    pub fn new(cameras: Vec<Camera>) -> (loader: RawLoader)
        ensures
            loader@ == cameras.deep_view(),
    {
        RawLoader { cameras }
    }

    /// The record of the camera that the metadata names, or
    /// `UnsupportedCamera` where the table has none.
    pub fn check_supported(&self, tiff: &TiffIFD) -> (found: Result<Camera, Cr3Error>)
        ensures
            match found {
                Ok(camera) => supported_camera(self@, tiff@) == Some(camera@),
                Err(error) => error == Cr3Error::UnsupportedCamera && supported_camera(
                    self@,
                    tiff@,
                ) is None,
            },
    {
        let (make, model) = match (&tiff.make, &tiff.model) {
            (Some(make), Some(model)) => (make, model),
            _ => return Err(Cr3Error::UnsupportedCamera),
        };
        let mut index: usize = 0;
        while index < self.cameras.len()
            invariant
                index <= self.cameras.len(),
                tiff@.make == Some(make@),
                tiff@.model == Some(model@),
                camera_from(self@, make@, model@, 0) == camera_from(
                    self@,
                    make@,
                    model@,
                    index as int,
                ),
            decreases self.cameras.len() - index,
        {
            let camera = &self.cameras[index];
            assert(self@[index as int] == camera@);
            if camera.make == *make && camera.model == *model {
                let copy = camera.clone();
                assert(is_camera(self@[index as int], make@, model@));
                return Ok(copy);
            }
            index += 1;
        }
        Err(Cr3Error::UnsupportedCamera)
    }
}

/// A decoded image: its dimensions, its samples row after row, and the
/// record of its camera.
#[derive(Debug)]
pub struct RawImage {
    pub width: usize,
    pub height: usize,
    pub data: Vec<u16>,
    pub camera: Camera,
}

/// A decoded image as plain values.
pub struct RawImageView {
    pub width: int,
    pub height: int,
    pub data: Seq<u16>,
    pub camera: CameraView,
}

impl View for RawImage {
    type V = RawImageView;

    open spec fn view(&self) -> RawImageView {
        RawImageView {
            width: self.width as int,
            height: self.height as int,
            data: self.data@,
            camera: self.camera@,
        }
    }
}

/// The fallback record.
pub fn make_fallback_camera() -> (camera: Camera)
    ensures
        camera@ == fallback_camera(),
{
    let camera = Camera {
        make: String::from_str("Canon"),
        clean_make: String::from_str("Canon"),
        model: String::from_str("EOS CR3"),
        clean_model: String::from_str("EOS CR3"),
        hints: Vec::new(),
    };
    assert(camera.hints.deep_view() =~= Seq::<Seq<char>>::empty());
    camera
}

} // verus!
