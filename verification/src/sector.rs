//! Sector counts, the unit in which the container measures itself.

use vstd::prelude::*;
use crate::error::VmdkError;

verus! {

/// The size of one sector in bytes.
pub const SECTOR_SIZE: u64 = 512;

/// A count of sectors. It is a type of its own so that it is never taken for
/// a count of bytes.
#[derive(Debug, Clone, Copy, PartialEq, Eq)]
pub struct SectorType(pub u64);

impl SectorType {
    /// The number of bytes in this many sectors.
    pub open spec fn in_bytes(self) -> int {
        self.0 * SECTOR_SIZE
    }

    /// A count of `sectors` sectors.
    pub fn new(sectors: u64) -> (s: SectorType)
        ensures
            s.0 == sectors,
    {
        SectorType(sectors)
    }

    /// The number of sectors.
    pub fn sectors(&self) -> (n: u64)
        ensures
            n == self.0,
    {
        self.0
    }

    /// The byte offset at which this sector starts, `RangeOverflow` when it
    /// does not fit 64 bits.
    pub fn byte_offset(&self) -> (r: Result<u64, VmdkError>)
        ensures
            self.in_bytes() <= u64::MAX ==> r == Ok::<u64, VmdkError>(self.in_bytes() as u64),
            self.in_bytes() > u64::MAX ==> r == Err::<u64, VmdkError>(VmdkError::RangeOverflow),
    {
        match self.0.checked_mul(SECTOR_SIZE) {
            Some(bytes) => Ok(bytes),
            None => Err(VmdkError::RangeOverflow),
        }
    }

    /// The length in bytes of this many sectors, `RangeOverflow` when no
    /// buffer of this platform can be that long.
    pub fn byte_len(&self) -> (r: Result<usize, VmdkError>)
        ensures
            self.in_bytes() <= usize::MAX ==> r == Ok::<usize, VmdkError>(
                self.in_bytes() as usize,
            ),
            self.in_bytes() > usize::MAX ==> r == Err::<usize, VmdkError>(
                VmdkError::RangeOverflow,
            ),
    {
        match self.0.checked_mul(SECTOR_SIZE) {
            Some(bytes) => {
                if bytes <= usize::MAX as u64 {
                    Ok(bytes as usize)
                } else {
                    Err(VmdkError::RangeOverflow)
                }
            },
            None => Err(VmdkError::RangeOverflow),
        }
    }
}

} // verus!
