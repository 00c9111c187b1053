//! The binary header at the start of an extent file.

use vstd::prelude::*;
use crate::endian::{le_u16, le_u32, le_u64, u16_at, u32_at, u64_at};
use crate::error::{is_outcome, ErrorView, VmdkError};
use crate::sector::SectorType;

verus! {

/// The extent signature, the bytes `KDMV` read as a little-endian integer.
pub const EXTENT_MAGIC: u32 = 0x564d444b;

/// The one format version that is decoded.
pub const EXTENT_VERSION: u32 = 1;

/// The number of bytes that the header's fields take. The rest of the
/// header's sector is padding.
pub const HEADER_LEN: usize = 78;

/// The leading fields of an extent file, in the order in which the file
/// stores them.
#[derive(Debug, Clone, Copy, PartialEq, Eq)]
pub struct ExtentHeader {
    /// The signature, always `EXTENT_MAGIC` in a decoded header.
    pub magic_number: u32,
    /// The format version, always `EXTENT_VERSION` in a decoded header.
    pub version: u32,
    /// Flags, not interpreted.
    pub flags: u32,
    /// The capacity of the extent.
    pub capacity: SectorType,
    /// The size of one grain.
    pub grain_size: SectorType,
    /// Where the embedded descriptor starts, from the start of the file.
    pub desc_offset: SectorType,
    /// The size of the embedded descriptor.
    pub desc_size: SectorType,
    /// The number of entries in one grain table.
    pub gtes_per_gt: u32,
    /// Where the redundant grain directory starts.
    pub rgd_offset: SectorType,
    /// Where the grain directory starts.
    pub gd_offset: SectorType,
    /// The size of the metadata at the start of the extent.
    pub overhead: SectorType,
    /// Not zero when the extent was not closed cleanly.
    pub dirty_shutdown: u8,
    /// The single end-of-line marker.
    pub single_eol_char: u8,
    /// The marker that is no end of line.
    pub non_eol_char: u8,
    /// The double end-of-line marker.
    pub dbl_eol_char: u8,
    /// The key of the compression method, not interpreted.
    pub compress_method: u16,
}

/// The header whose fields the first `HEADER_LEN` bytes of `b` hold.
pub open spec fn header_fields(b: Seq<u8>) -> ExtentHeader {
    ExtentHeader {
        magic_number: le_u32(b) as u32,
        version: le_u32(b.skip(4)) as u32,
        flags: le_u32(b.skip(8)) as u32,
        capacity: SectorType(le_u64(b.skip(12)) as u64),
        grain_size: SectorType(le_u64(b.skip(20)) as u64),
        desc_offset: SectorType(le_u64(b.skip(28)) as u64),
        desc_size: SectorType(le_u64(b.skip(36)) as u64),
        gtes_per_gt: le_u32(b.skip(44)) as u32,
        rgd_offset: SectorType(le_u64(b.skip(48)) as u64),
        gd_offset: SectorType(le_u64(b.skip(56)) as u64),
        overhead: SectorType(le_u64(b.skip(64)) as u64),
        dirty_shutdown: b[72],
        single_eol_char: b[73],
        non_eol_char: b[74],
        dbl_eol_char: b[75],
        compress_method: le_u16(b.skip(76)) as u16,
    }
}

/// What decoding the start of a file gives. The fields are read in order, and
/// the signature and the version are judged as soon as they are read: a wrong
/// signature is reported whatever follows it.
pub open spec fn decode_header(b: Seq<u8>) -> Result<ExtentHeader, ErrorView> {
    if b.len() < 4 {
        Err(ErrorView::Truncated)
    } else if le_u32(b) != EXTENT_MAGIC {
        Err(ErrorView::FormatMismatch)
    } else if b.len() < 8 {
        Err(ErrorView::Truncated)
    } else if le_u32(b.skip(4)) != EXTENT_VERSION {
        Err(ErrorView::UnsupportedVersion)
    } else if b.len() < HEADER_LEN {
        Err(ErrorView::Truncated)
    } else {
        Ok(header_fields(b))
    }
}

/// Whether `b` starts with the four bytes of the signature, `KDMV`.
pub open spec fn starts_with_signature(b: Seq<u8>) -> bool {
    b.len() >= 4 && b[0] == 0x4b && b[1] == 0x44 && b[2] == 0x4d && b[3] == 0x56
}

/// A header is decoded only from bytes that start with the signature, and
/// its magic number is then the signature. At least four bytes that start
/// otherwise are a `FormatMismatch`, whatever follows them.
pub proof fn lemma_signature(b: Seq<u8>)
    ensures
        decode_header(b) matches Ok(h) ==> starts_with_signature(b) && h.magic_number
            == EXTENT_MAGIC,
        b.len() >= 4 && !starts_with_signature(b) ==> decode_header(b) == Err::<
            ExtentHeader,
            ErrorView,
        >(ErrorView::FormatMismatch),
        b.len() >= 4 ==> (starts_with_signature(b) <==> le_u32(b) == EXTENT_MAGIC),
{
}

/// Decoding reads the first `HEADER_LEN` bytes and nothing behind them: the
/// padding that fills the header's sector has no say.
pub proof fn lemma_padding_unread(a: Seq<u8>, b: Seq<u8>)
    requires
        a.len() >= HEADER_LEN,
        b.len() >= HEADER_LEN,
        a.take(HEADER_LEN as int) == b.take(HEADER_LEN as int),
    ensures
        decode_header(a) == decode_header(b),
{
    assert forall|i: int| 0 <= i < HEADER_LEN implies a[i] == b[i] by {
        assert(a.take(HEADER_LEN as int)[i] == a[i]);
        assert(b.take(HEADER_LEN as int)[i] == b[i]);
    }
}

impl ExtentHeader {
    /// Whether the header is one that decoding gives: it carries the
    /// signature and the supported version.
    pub open spec fn wf(&self) -> bool {
        self.magic_number == EXTENT_MAGIC && self.version == EXTENT_VERSION
    }

    /// Decodes the header from the bytes at the start of an extent file.
    pub fn new(bytes: &[u8]) -> (r: Result<ExtentHeader, VmdkError>)
        ensures
            is_outcome(r, decode_header(bytes@)),
            r matches Ok(h) ==> h.wf(),
            bytes@.len() >= 4 && !starts_with_signature(bytes@) ==> r == Err::<
                ExtentHeader,
                VmdkError,
            >(VmdkError::FormatMismatch),
    {
        proof {
            lemma_signature(bytes@);
        }
        let magic = match u32_at(bytes, 0) {
            Some(v) => v,
            None => { return Err(VmdkError::Truncated); },
        };
        if magic != EXTENT_MAGIC {
            return Err(VmdkError::FormatMismatch);
        }
        let version = match u32_at(bytes, 4) {
            Some(v) => v,
            None => { return Err(VmdkError::Truncated); },
        };
        if version != EXTENT_VERSION {
            return Err(VmdkError::UnsupportedVersion);
        }
        if bytes.len() < HEADER_LEN {
            return Err(VmdkError::Truncated);
        }
        let flags = u32_at(bytes, 8).unwrap();
        let capacity = SectorType(u64_at(bytes, 12).unwrap());
        let grain_size = SectorType(u64_at(bytes, 20).unwrap());
        let desc_offset = SectorType(u64_at(bytes, 28).unwrap());
        let desc_size = SectorType(u64_at(bytes, 36).unwrap());
        let gtes_per_gt = u32_at(bytes, 44).unwrap();
        let rgd_offset = SectorType(u64_at(bytes, 48).unwrap());
        let gd_offset = SectorType(u64_at(bytes, 56).unwrap());
        let overhead = SectorType(u64_at(bytes, 64).unwrap());
        let compress_method = u16_at(bytes, 76).unwrap();
        Ok(
            ExtentHeader {
                magic_number: magic,
                version,
                flags,
                capacity,
                grain_size,
                desc_offset,
                desc_size,
                gtes_per_gt,
                rgd_offset,
                gd_offset,
                overhead,
                dirty_shutdown: bytes[72],
                single_eol_char: bytes[73],
                non_eol_char: bytes[74],
                dbl_eol_char: bytes[75],
                compress_method,
            },
        )
    }
}

} // verus!
