use vstd::prelude::*;
use crate::cursor::{BufReader, le_u16, le_u32, read_u16, read_u32};
use crate::error::GeoError;

verus! {

/// Byte-order mark of a little-endian TIFF header ("II").
pub const TIFF_LITTLE_ENDIAN: u16 = 0x4949;

/// Offset of the first directory that this decoder supports.
pub const FIRST_IFD_OFFSET: u32 = 8;

/// Size in bytes of a TIFF header.
pub const EXIF_BODY_SIZE: usize = 8;

/// Size in bytes of a directory entry.
pub const IFD_ENTRY_SIZE: usize = 12;

/// The TIFF header at the start of the EXIF payload.
#[derive(Debug, Clone, Copy, PartialEq, Eq, Structural)]
pub struct ExifBody {
    pub tiff: u16,
    pub size: u16,
    pub offset: u32,
}

/// One fixed-size directory entry: a tag, a type, a count and either an
/// inline value or the offset of the value.
#[derive(Debug, Clone, Copy, PartialEq, Eq, Structural)]
pub struct IfdEntry {
    pub tag: u16,
    pub typ_e: u16,
    pub count: u32,
    pub offset: u32,
}

/// The TIFF header stored at `at`, all fields little endian.
pub open spec fn exif_body_at(s: Seq<u8>, at: int) -> ExifBody {
    ExifBody {
        tiff: le_u16(s, at) as u16,
        size: le_u16(s, at + 2) as u16,
        offset: le_u32(s, at + 4) as u32,
    }
}

/// The directory entry stored at `at`, all fields little endian.
pub open spec fn ifd_entry_at(s: Seq<u8>, at: int) -> IfdEntry {
    IfdEntry {
        tag: le_u16(s, at) as u16,
        typ_e: le_u16(s, at + 2) as u16,
        count: le_u32(s, at + 4) as u32,
        offset: le_u32(s, at + 8) as u32,
    }
}

impl ExifBody {
    /// Decodes the header at the read position, field by field.
    pub fn read(buf: &mut BufReader) -> (r: Result<ExifBody, GeoError>)
        requires
            old(buf).wf(),
        ensures
            final(buf).wf(),
            final(buf).data() == old(buf).data(),
            final(buf).saved() == old(buf).saved(),
            r is Ok <==> old(buf).pos() + EXIF_BODY_SIZE <= old(buf).data().len(),
            r matches Ok(b) ==> b == exif_body_at(old(buf).data(), old(buf).pos()) && final(buf).pos() == old(buf).pos() + EXIF_BODY_SIZE,
            r is Err ==> r == Err::<ExifBody, GeoError>(GeoError::UnexpectedEnd) && final(buf).pos()
                == old(buf).pos(),
    {
        if buf.len() - buf.position() < EXIF_BODY_SIZE {
            return Err(GeoError::UnexpectedEnd);
        }
        let tiff = read_u16(buf)?;
        let size = read_u16(buf)?;
        let offset = read_u32(buf)?;
        Ok(ExifBody { tiff, size, offset })
    }

    pub fn tiff(&self) -> (r: u16)
        ensures
            r == self.tiff,
    {
        self.tiff
    }

    pub fn size(&self) -> (r: u16)
        ensures
            r == self.size,
    {
        self.size
    }

    pub fn offset(&self) -> (r: u32)
        ensures
            r == self.offset,
    {
        self.offset
    }

    /// A little-endian header whose first directory is at offset 8.
    pub open spec fn spec_is_valid(&self) -> bool {
        self.tiff == TIFF_LITTLE_ENDIAN && self.offset == FIRST_IFD_OFFSET
    }

    /// Whether this decoder supports the header.
    #[verifier::when_used_as_spec(spec_is_valid)]
    pub fn is_valid(&self) -> (r: bool)
        ensures
            r == self.spec_is_valid(),
    {
        self.tiff == TIFF_LITTLE_ENDIAN && self.offset == FIRST_IFD_OFFSET
    }
}

impl IfdEntry {
    /// Decodes the entry at the read position, field by field.
    pub fn read(buf: &mut BufReader) -> (r: Result<IfdEntry, GeoError>)
        requires
            old(buf).wf(),
        ensures
            final(buf).wf(),
            final(buf).data() == old(buf).data(),
            final(buf).saved() == old(buf).saved(),
            r is Ok <==> old(buf).pos() + IFD_ENTRY_SIZE <= old(buf).data().len(),
            r matches Ok(e) ==> e == ifd_entry_at(old(buf).data(), old(buf).pos()) && final(buf).pos() == old(buf).pos() + IFD_ENTRY_SIZE,
            r is Err ==> r == Err::<IfdEntry, GeoError>(GeoError::UnexpectedEnd) && final(buf).pos()
                == old(buf).pos(),
    {
        if buf.len() - buf.position() < IFD_ENTRY_SIZE {
            return Err(GeoError::UnexpectedEnd);
        }
        let tag = read_u16(buf)?;
        let typ_e = read_u16(buf)?;
        let count = read_u32(buf)?;
        let offset = read_u32(buf)?;
        Ok(IfdEntry { tag, typ_e, count, offset })
    }

    pub fn tag(&self) -> (r: u16)
        ensures
            r == self.tag,
    {
        self.tag
    }

    pub fn typ_e(&self) -> (r: u16)
        ensures
            r == self.typ_e,
    {
        self.typ_e
    }

    pub fn count(&self) -> (r: u32)
        ensures
            r == self.count,
    {
        self.count
    }

    pub fn offset(&self) -> (r: u32)
        ensures
            r == self.offset,
    {
        self.offset
    }
}

} // verus!
