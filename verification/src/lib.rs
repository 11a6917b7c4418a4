//! Reads Fluke is2 thermal imagery: the thermal data, the standard
//! markers and the visible-light images of a thermogram.
//!
//! The library is entered through `SerendipThermogram::new_from_bytes`;
//! format variants are enum cases.

use vstd::prelude::*;

pub mod markers;
pub mod parsing;
pub mod text;

use crate::parsing::zip_format::decode::{
    SerendipZip, SerendipZipView, decode_zip_format, spec_decode_zip_format, thermal_height,
    thermal_width,
};
use crate::parsing::zip_format::files::{Files, is_least_path};

verus! {

/// `std::io::Error`, opaque: the error a thermogram that cannot be decoded
/// gives.
#[verifier::external_type_specification]
#[verifier::external_body]
pub struct ExIoError(std::io::Error);

/// The error that `std::io::Error::new` builds of kind
/// `ErrorKind::InvalidData` with this message.
pub uninterp spec fn invalid_data_error_with(message: Seq<char>) -> std::io::Error;

/// The message of the error a thermogram that cannot be decoded gives.
pub const DECODE_ERROR_MESSAGE: &'static str = "Could not decode thermogram";

/// Builds an error of kind `ErrorKind::InvalidData` with this message, with
/// `std::io::Error::new`.
///
/// Claims: the error is `invalid_data_error_with` of the message; what the
/// error value holds inside is left to the name.
#[verifier::external_body]
fn invalid_data_error(message: &str) -> (r: std::io::Error)
    ensures
        r == invalid_data_error_with(message@),
{
    std::io::Error::new(std::io::ErrorKind::InvalidData, message)
}

/// A decoded thermogram, in whichever container format it came.
#[derive(Clone, Debug)]
pub enum SerendipThermogram {
    Zip(SerendipZip),
}

/// `SerendipThermogram`, mathematically.
pub enum SerendipThermogramView {
    Zip(SerendipZipView),
}

impl View for SerendipThermogram {
    type V = SerendipThermogramView;

    open spec fn view(&self) -> SerendipThermogramView {
        match self {
            SerendipThermogram::Zip(t) => SerendipThermogramView::Zip(t@),
        }
    }
}

/// The visible-light images of a thermogram, by path.
pub open spec fn thermogram_visuals(t: SerendipThermogramView) -> Map<Seq<char>, Seq<u8>> {
    match t {
        SerendipThermogramView::Zip(z) => z.visuals,
    }
}

/// The bytes begin with the ZIP local file header signature `PK\x03\x04`.
pub open spec fn is_zip(bytes: Seq<u8>) -> bool {
    bytes.len() >= 4 && bytes[0] == 0x50 && bytes[1] == 0x4B && bytes[2] == 0x03 && bytes[3] == 0x04
}

/// The thermogram that a file with these bytes holds: only the ZIP-based
/// format is supported; the older monolithic blob format is not.
pub open spec fn spec_thermogram(bytes: Seq<u8>) -> Option<SerendipThermogramView> {
    if is_zip(bytes) {
        match spec_decode_zip_format(bytes) {
            Some(t) => Some(SerendipThermogramView::Zip(t)),
            None => None,
        }
    } else {
        None
    }
}

impl SerendipThermogram {
    /// Decodes a thermogram from the bytes of an is2 file; see
    /// `spec_thermogram`. A file that does not decode gives an error of
    /// kind `InvalidData` with the message `DECODE_ERROR_MESSAGE`.
    pub fn new_from_bytes(bytes: &[u8]) -> (r: Result<SerendipThermogram, std::io::Error>)
        ensures
            r is Ok <==> spec_thermogram(bytes@) is Some,
            r matches Ok(t) ==> spec_thermogram(bytes@) == Some(t@),
            r matches Err(e) ==> e == invalid_data_error_with(DECODE_ERROR_MESSAGE@),
    {
        let is_zip = bytes.len() >= 4 && bytes[0] == 0x50 && bytes[1] == 0x4B && bytes[2] == 0x03
            && bytes[3] == 0x04;
        let decoded = if is_zip {
            match decode_zip_format(bytes) {
                Some(t) => Some(SerendipThermogram::Zip(t)),
                None => None,
            }
        } else {
            None
        };
        match decoded {
            Some(t) => Ok(t),
            None => Err(invalid_data_error(DECODE_ERROR_MESSAGE)),
        }
    }

    /// Returns the set of encoded images present in this is2.
    pub fn visuals(&self) -> (r: &Files)
        ensures
            r@ == thermogram_visuals(self@),
    {
        match self {
            SerendipThermogram::Zip(t) => &t.visuals,
        }
    }

    /// Deterministically returns a single encoded image from the set
    /// of images in this is2: the one whose path sorts first, so that
    /// the choice does not depend on any iteration order.
    pub fn visual(&self) -> (r: Option<&[u8]>)
        ensures
            r is None <==> thermogram_visuals(self@).dom().len() == 0,
            r matches Some(image) ==> exists|path: Seq<char>|
                is_least_path(thermogram_visuals(self@), path) && #[trigger] thermogram_visuals(self@)[path] == image@,
    {
        match self.visuals().first_by_path() {
            Some(image) => Some(image.as_slice()),
            None => None,
        }
    }

    /// The width of the thermal frame.
    pub fn width(&self) -> (r: u16)
        ensures
            r == match self@ {
                SerendipThermogramView::Zip(t) => thermal_width(t.thermal),
            },
    {
        match self {
            SerendipThermogram::Zip(t) => t.width(),
        }
    }

    /// The height of the thermal frame.
    pub fn height(&self) -> (r: u16)
        ensures
            r == match self@ {
                SerendipThermogramView::Zip(t) => thermal_height(t.thermal),
            },
    {
        match self {
            SerendipThermogram::Zip(t) => t.height(),
        }
    }
}

} // verus!
