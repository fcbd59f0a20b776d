use vstd::prelude::*;
use crate::cursor::{BufReader, be_u16, le_u16, read_tag, read_u16};
use crate::error::GeoError;
use crate::gps::{GpsInfo, gps_section_at, process_gps_section};
use crate::ifd::{ExifBody, IfdEntry, exif_body_at, ifd_entry_at, IFD_ENTRY_SIZE};

verus! {

/// JPEG start-of-image marker.
pub const SOI: u16 = 0xffd8;

/// JPEG start-of-scan marker: image data follows, no more metadata.
pub const SOS: u16 = 0xffda;

/// JPEG APP1 marker, the segment that holds EXIF data.
pub const APP1: u16 = 0xffe1;

/// Tag of the top-level directory entry that points to the GPS directory.
pub const GPS: u16 = 0x8825;

/// Bytes of the `Exif\0\0` identifier that precede the TIFF header.
pub const EXIF_ID_SIZE: u16 = 6;

/// The offset of the GPS directory, named by the first GPS entry among the
/// `remaining` directory entries from `at` on.
pub open spec fn gps_dir_search(s: Seq<u8>, at: int, remaining: nat) -> Result<u32, GeoError>
    decreases remaining,
{
    if remaining == 0 {
        Err(GeoError::NoGpsSection)
    } else if at + IFD_ENTRY_SIZE > s.len() {
        Err(GeoError::UnexpectedEnd)
    } else if ifd_entry_at(s, at).tag == GPS {
        Ok(ifd_entry_at(s, at).offset)
    } else {
        gps_dir_search(s, at + IFD_ENTRY_SIZE, (remaining - 1) as nat)
    }
}

/// The waypoint of an EXIF payload that starts with its TIFF header: the
/// header must be supported, the top-level directory (right after the
/// header) must point to a GPS directory, and that directory must be
/// complete.
pub open spec fn exif_at(p: Seq<u8>) -> Result<GpsInfo, GeoError> {
    if p.len() < 8 {
        Err(GeoError::UnexpectedEnd)
    } else if !exif_body_at(p, 0).spec_is_valid() {
        Err(GeoError::BadTiffHeader)
    } else if p.len() < 10 {
        Err(GeoError::UnexpectedEnd)
    } else {
        match gps_dir_search(p, 10, le_u16(p, 8) as nat) {
            Err(x) => Err(x),
            Ok(o) => if o >= p.len() {
                Err(GeoError::UnexpectedEnd)
            } else {
                gps_section_at(p, o as int)
            },
        }
    }
}

/// The waypoint of an APP1 segment whose payload of `len` bytes starts at
/// `at`.
pub open spec fn app1_at(s: Seq<u8>, at: int, len: int) -> Result<GpsInfo, GeoError> {
    if len < EXIF_ID_SIZE {
        Err(GeoError::BadSegmentLength)
    } else if at + len > s.len() {
        Err(GeoError::UnexpectedEnd)
    } else {
        exif_at(s.subrange(at + EXIF_ID_SIZE, at + len))
    }
}

/// The outcome of scanning JPEG segments from `at` on: each segment is a
/// big-endian marker and a big-endian length that counts its own two bytes.
/// The first APP1 segment decides; start-of-scan ends the search.
pub open spec fn segments_from(s: Seq<u8>, at: int) -> Result<GpsInfo, GeoError>
    decreases s.len() - at,
{
    if at + 2 > s.len() {
        Err(GeoError::UnexpectedEnd)
    } else if be_u16(s, at) == SOS {
        Err(GeoError::NoExif)
    } else if at + 4 > s.len() {
        Err(GeoError::UnexpectedEnd)
    } else if be_u16(s, at + 2) < 2 {
        Err(GeoError::BadSegmentLength)
    } else {
        let len = be_u16(s, at + 2) - 2;
        if be_u16(s, at) == APP1 {
            app1_at(s, at + 4, len)
        } else if at + 4 + len + 2 > s.len() {
            Err(GeoError::UnexpectedEnd)
        } else {
            segments_from(s, at + 4 + len)
        }
    }
}

/// The waypoint of a JPEG file's bytes.
pub open spec fn image_at(s: Seq<u8>) -> Result<GpsInfo, GeoError> {
    if s.len() < 2 {
        Err(GeoError::UnexpectedEnd)
    } else if be_u16(s, 0) != SOI {
        Err(GeoError::NotJpeg)
    } else {
        segments_from(s, 2)
    }
}

/// Decodes an EXIF payload that starts with its TIFF header.
pub fn decode_exif(payload: Vec<u8>) -> (r: Result<GpsInfo, GeoError>)
    ensures
        r == exif_at(payload@),
{
    let ghost p = payload@;
    let mut buffer = BufReader::new(payload);
    let eb = ExifBody::read(&mut buffer)?;
    if !eb.is_valid() {
        return Err(GeoError::BadTiffHeader);
    }
    let mut num_entries = read_u16(&mut buffer)?;
    while num_entries != 0
        invariant
            buffer.wf(),
            buffer.data() == p,
            p == payload@,
            buffer.saved().len() == 0,
            p.len() >= 10,
            exif_body_at(p, 0).spec_is_valid(),
            gps_dir_search(p, 10, le_u16(p, 8) as nat) == gps_dir_search(
                p,
                buffer.pos(),
                num_entries as nat,
            ),
        decreases num_entries,
    {
        let entry = IfdEntry::read(&mut buffer)?;
        if entry.tag == GPS {
            buffer.set_cursor(entry.offset as usize)?;
            return process_gps_section(&mut buffer);
        }
        num_entries = num_entries - 1;
    }
    Err(GeoError::NoGpsSection)
}

/// Decodes the APP1 segment whose payload of `len` bytes starts at the read
/// position.
pub fn handle_app1(file: &mut BufReader, len: u16) -> (r: Result<GpsInfo, GeoError>)
    requires
        old(file).wf(),
    ensures
        final(file).wf(),
        final(file).data() == old(file).data(),
        r == app1_at(old(file).data(), old(file).pos(), len as int),
{
    if len < EXIF_ID_SIZE {
        return Err(GeoError::BadSegmentLength);
    }
    let ghost s = file.data();
    let ghost at = file.pos();
    let _id = file.read(EXIF_ID_SIZE as usize)?;
    let payload = file.read((len - EXIF_ID_SIZE) as usize)?;
    assert(payload@ =~= s.subrange(at + EXIF_ID_SIZE, at + len));
    decode_exif(payload)
}

/// Scans the bytes of a JPEG file for its EXIF segment and decodes the
/// waypoint that its GPS directory describes.
pub fn parse_image(data: Vec<u8>) -> (r: Result<GpsInfo, GeoError>)
    ensures
        r == image_at(data@),
{
    let ghost s = data@;
    let mut file = BufReader::new(data);
    let t = read_tag(&mut file)?;
    if t != SOI {
        return Err(GeoError::NotJpeg);
    }
    loop
        invariant
            file.wf(),
            file.data() == s,
            s == data@,
            file.saved().len() == 0,
            2 <= file.pos() <= s.len(),
            be_u16(s, 0) == SOI,
            segments_from(s, file.pos()) == image_at(s),
        decreases s.len() - file.pos(),
    {
        let t = read_tag(&mut file)?;
        if t == SOS {
            return Err(GeoError::NoExif);
        }
        let declared = read_tag(&mut file)?;
        if declared < 2 {
            return Err(GeoError::BadSegmentLength);
        }
        let len = declared - 2;
        if t == APP1 {
            return handle_app1(&mut file, len);
        }
        if file.len() - file.position() < len as usize + 2 {
            return Err(GeoError::UnexpectedEnd);
        }
        let here = file.position();
        file.set_cursor(here + len as usize)?;
    }
}

} // verus!
