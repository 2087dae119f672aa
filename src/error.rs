use vstd::prelude::*;

verus! {

/// The closed set of outcomes other than success that cross the boundary.
#[derive(Clone, Copy, Debug, PartialEq, Eq, Structural)]
pub enum CryptoErrno {
    /// An unknown, closed or wrong-kind handle.
    InvalidHandle,
    /// A name that is not well-formed UTF-8.
    InvalidEncoding,
    /// A guest region that does not lie inside guest memory.
    OutOfBounds,
    /// Two guest regions of one call overlap where one of them is written.
    RegionOverlap,
    /// A value that does not fit the fixed wire width.
    Overflow,
    /// The handle space of a registry is used up.
    ResourceExhausted,
    /// An operation that the resource does not support.
    UnsupportedOperation,
    /// Any other failure of the host.
    Internal,
}

impl CryptoErrno {
    /// The wire code of this error.
    pub fn code(&self) -> (r: u16)
        ensures
            r == errno_code(*self),
    {
        match self {
            CryptoErrno::InvalidHandle => 1,
            CryptoErrno::InvalidEncoding => 2,
            CryptoErrno::OutOfBounds => 3,
            CryptoErrno::RegionOverlap => 4,
            CryptoErrno::Overflow => 5,
            CryptoErrno::ResourceExhausted => 6,
            CryptoErrno::UnsupportedOperation => 7,
            CryptoErrno::Internal => 8,
        }
    }
}

/// Wire codes: zero stands for success, each error has its own code.
pub open spec fn errno_code(e: CryptoErrno) -> u16 {
    match e {
        CryptoErrno::InvalidHandle => 1,
        CryptoErrno::InvalidEncoding => 2,
        CryptoErrno::OutOfBounds => 3,
        CryptoErrno::RegionOverlap => 4,
        CryptoErrno::Overflow => 5,
        CryptoErrno::ResourceExhausted => 6,
        CryptoErrno::UnsupportedOperation => 7,
        CryptoErrno::Internal => 8,
    }
}

/// Collapses a host-side length to the 32-bit wire size; a length that does
/// not fit is an overflow, never a truncation.
pub fn to_wire_size(n: usize) -> (r: Result<u32, CryptoErrno>)
    ensures
        n <= u32::MAX ==> r == Ok::<u32, CryptoErrno>(n as u32),
        n > u32::MAX ==> r == Err::<u32, CryptoErrno>(CryptoErrno::Overflow),
{
    if n <= u32::MAX as usize {
        Ok(n as u32)
    } else {
        Err(CryptoErrno::Overflow)
    }
}

} // verus!
