//! Where the instrument stood.

use vstd::prelude::*;
use vstd::string::*;
use crate::text::{chars_eq_str, chars_of};
use crate::decimal::{Decimal, SCALE};
use crate::timestamp::Timestamp;

verus! {

/// Why a source of coordinates could not be set up.
#[derive(Clone, Debug, PartialEq, Eq)]
pub enum CoordinateError {
    /// The file could not be read; the fields are its path and the reason.
    CannotReadFile(String, String),
    /// The file does not hold a description of coordinates; the fields are
    /// its path and the reason.
    DeserializationError(String, String),
    /// The file's extension is not one that is understood.
    UnknownExtension(String),
    /// The file's extension is not valid Unicode.
    InvalidExtension(String),
}

/// The formats in which coordinates are written.
#[derive(Clone, Copy, Debug, PartialEq, Eq, Structural)]
pub enum CoordinateFileType {
    Json,
}

/// How the extension of a path came out.
#[derive(Clone, Debug, PartialEq, Eq)]
pub enum PathExtension {
    /// The path has no extension.
    Absent,
    /// The extension, without its dot.
    Text(String),
    /// The extension is not valid Unicode.
    NotUnicode,
}

impl CoordinateFileType {
    /// Tells the format of a coordinates file from the extension of its
    /// path: `json` is the one that is understood. A path without extension
    /// counts as one with an empty extension.
    pub fn for_extension(path: &str, extension: &PathExtension) -> (r: Result<
        CoordinateFileType,
        CoordinateError,
    >)
        ensures
            match r {
                Ok(t) => t == CoordinateFileType::Json && (extension matches PathExtension::Text(e)
                    && e@ == "json"@),
                Err(CoordinateError::InvalidExtension(p)) => extension is NotUnicode && p@ == path@,
                Err(CoordinateError::UnknownExtension(p)) => p@ == path@ && !(
                extension is NotUnicode) && !(extension matches PathExtension::Text(e) && e@
                    == "json"@),
                Err(_) => false,
            },
    {
        match extension {
            PathExtension::NotUnicode => Err(CoordinateError::InvalidExtension(path.to_owned())),
            PathExtension::Absent => Err(CoordinateError::UnknownExtension(path.to_owned())),
            PathExtension::Text(e) => {
                let cs = chars_of(e.as_str());
                if chars_eq_str(cs.as_slice(), "json") {
                    Ok(CoordinateFileType::Json)
                } else {
                    Err(CoordinateError::UnknownExtension(path.to_owned()))
                }
            },
        }
    }
}

/// A source of the geographic position of the instrument. Latitude and
/// longitude are in degrees, south and west negative; altitude is in metres.
#[derive(Clone, Copy, Debug, PartialEq, Eq, Structural)]
pub enum CoordinateSource {
    /// The instrument stood at one place for all of the measurements.
    Fixed { latitude: Decimal, longitude: Decimal, altitude: Decimal },
}

/// A position on the globe: degrees of latitude and longitude, metres of
/// altitude.
#[derive(Clone, Copy, Debug, PartialEq, Eq, Structural)]
pub struct Coordinates {
    pub latitude: Decimal,
    pub longitude: Decimal,
    pub altitude: Decimal,
}

impl Coordinates {
    /// Latitude within 90 degrees of the equator and longitude within 180
    /// degrees of the prime meridian.
    pub open spec fn in_range(&self) -> bool {
        &&& -90 * SCALE <= self.latitude.value() <= 90 * SCALE
        &&& -180 * SCALE <= self.longitude.value() <= 180 * SCALE
    }

    /// Tests the position for being on the globe.
    pub fn is_in_range(&self) -> (r: bool)
        ensures
            r == self.in_range(),
    {
        self.latitude.is_within(-90, 90) && self.longitude.is_within(-180, 180)
    }
}

impl CoordinateSource {
    /// Where the instrument stood at `datetime`.
    pub open spec fn coords_at(&self, datetime: Timestamp) -> Coordinates {
        match *self {
            CoordinateSource::Fixed { latitude, longitude, altitude } => Coordinates {
                latitude,
                longitude,
                altitude,
            },
        }
    }

    /// Where the instrument stood at `datetime`.
    pub fn get_coords_for_datetime(&self, datetime: Timestamp) -> (r: Coordinates)
        ensures
            r == self.coords_at(datetime),
    {
        match self {
            CoordinateSource::Fixed { latitude, longitude, altitude } => Coordinates {
                latitude: *latitude,
                longitude: *longitude,
                altitude: *altitude,
            },
        }
    }
}

} // verus!
