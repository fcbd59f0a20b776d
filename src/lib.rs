//! Extraction of GPS geotags from JPEG/EXIF images and rendering of a GPX
//! track from them.
//!
//! The library works on bytes that the caller has already read:
//! - [`jpeg`] walks the JPEG marker stream to the APP1 segment and the
//!   EXIF/TIFF top-level directory to the GPS directory;
//! - [`gps`] decodes the GPS directory into a [`GpsInfo`] waypoint, with
//!   [`rational`] for the degree/minute/second and hour/minute/second triples
//!   and [`time`] for the composite time;
//! - [`cursor`] is the byte buffer they read through, [`ifd`] its fixed-size
//!   records;
//! - [`track`] orders waypoints by time and drops near duplicates;
//! - [`gpx`] renders the GPX 1.1 document.
pub mod error;
pub mod cursor;
pub mod rational;
pub mod time;
pub mod ifd;
pub mod gps;
pub mod jpeg;
pub mod track;
pub mod gpx;

pub use cursor::BufReader;
pub use error::GeoError;
pub use gps::GpsInfo;
pub use gpx::render_gpx;
pub use jpeg::parse_image;
pub use track::{sort_by_time, TrackFilter};
