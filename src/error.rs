use vstd::prelude::*;

verus! {

/// What can go wrong while decoding one image.
///
/// Fatal errors stop a batch of files; the other ones only mean that the
/// image contributes no waypoint.
#[derive(Debug, Clone, Copy, PartialEq, Eq, Structural)]
pub enum GeoError {
    /// A read or seek went past the end of the data.
    UnexpectedEnd,
    /// A cursor position was restored while none was saved.
    EmptyCursorStack,
    /// A segment declares a length too small for its own header.
    BadSegmentLength,
    /// The data does not start with the JPEG start-of-image marker.
    NotJpeg,
    /// The start-of-scan marker came before any APP1 segment.
    NoExif,
    /// The TIFF header is not little endian or its first directory is not at offset 8.
    BadTiffHeader,
    /// The top-level directory has no GPS entry.
    NoGpsSection,
    /// The GPS directory does not hold exactly six essential entries.
    IncompleteGps,
    /// A quadrant entry holds a character other than the expected ones.
    BadQuadrant,
    /// The GPS date is not of the form `YYYY:MM:DD` with a month and a day from 1.
    BadDate,
    /// A rational number has a zero denominator.
    ZeroDenominator,
}

impl GeoError {
    /// Whether the error must stop the processing of a whole batch.
    pub open spec fn spec_is_fatal(&self) -> bool {
        match self {
            GeoError::UnexpectedEnd | GeoError::EmptyCursorStack | GeoError::BadSegmentLength => true,
            _ => false,
        }
    }

    /// Malformed data layouts and broken cursor pairing are fatal; everything
    /// else only drops the image at hand.
    #[verifier::when_used_as_spec(spec_is_fatal)]
    pub fn is_fatal(&self) -> (r: bool)
        ensures
            r == self.spec_is_fatal(),
    {
        match self {
            GeoError::UnexpectedEnd | GeoError::EmptyCursorStack | GeoError::BadSegmentLength => true,
            _ => false,
        }
    }
}

} // verus!
