use vstd::prelude::*;
use crate::error::CryptoErrno;

verus! {

#[verifier::external_type_specification]
#[verifier::external_body]
pub struct ExGuestError(wiggle::GuestError);

/// Whether the region of `len` bytes at `ptr` lies inside a memory of
/// `mem_len` bytes.
pub open spec fn in_bounds(mem_len: nat, ptr: u32, len: u32) -> bool {
    ptr + len <= mem_len
}

/// The bytes of the region of `len` bytes at `ptr`.
pub open spec fn region(mem: Seq<u8>, ptr: u32, len: u32) -> Seq<u8> {
    mem.subrange(ptr as int, ptr + len)
}

/// Guest memory after `data` was written at `ptr`.
pub open spec fn written(mem: Seq<u8>, ptr: u32, data: Seq<u8>) -> Seq<u8> {
    mem.subrange(0, ptr as int) + data + mem.subrange(ptr + data.len(), mem.len() as int)
}

/// Whether two regions share a byte.
pub open spec fn overlap(a_ptr: u32, a_len: u32, b_ptr: u32, b_len: u32) -> bool {
    a_len > 0 && b_len > 0 && a_ptr < b_ptr + b_len && b_ptr < a_ptr + a_len
}

/// Whether a byte sequence is well-formed UTF-8.
pub uninterp spec fn utf8_valid(b: Seq<u8>) -> bool;

/// Relies on wiggle::GuestMemory::to_vec: a copy of the region when it lies
/// inside memory, an error otherwise; memory is only read.
#[verifier::external_body]
fn guest_to_vec(mem: &mut Vec<u8>, ptr: u32, len: u32) -> (r: Result<Vec<u8>, wiggle::GuestError>)
    requires
        ptr + len <= usize::MAX,
    ensures
        *final(mem) == *old(mem),
        r is Ok <==> in_bounds(old(mem)@.len(), ptr, len),
        r matches Ok(v) ==> v@ == region(old(mem)@, ptr, len),
{
    let m = wiggle::GuestMemory::Unshared(mem.as_mut_slice());
    m.to_vec(wiggle::GuestPtr::<[u8]>::new((ptr, len)))
}

/// Relies on wiggle::GuestMemory::as_cow_str: the region's bytes when it lies
/// inside memory and holds well-formed UTF-8, an error otherwise.
#[verifier::external_body]
fn guest_str(mem: &mut Vec<u8>, ptr: u32, len: u32) -> (r: Result<Vec<u8>, wiggle::GuestError>)
    requires
        ptr + len <= usize::MAX,
    ensures
        *final(mem) == *old(mem),
        r is Ok <==> in_bounds(old(mem)@.len(), ptr, len) && utf8_valid(region(old(mem)@, ptr, len)),
        r matches Ok(v) ==> v@ == region(old(mem)@, ptr, len),
{
    let m = wiggle::GuestMemory::Unshared(mem.as_mut_slice());
    match m.as_cow_str(wiggle::GuestPtr::<str>::new((ptr, len))) {
        Ok(s) => Ok(s.into_owned().into_bytes()),
        Err(e) => Err(e),
    }
}

/// Relies on wiggle::GuestMemory::as_slice_mut: succeeds exactly when the
/// region lies inside memory; memory is not changed.
#[verifier::external_body]
fn guest_check_mut(mem: &mut Vec<u8>, ptr: u32, len: u32) -> (r: Result<(), wiggle::GuestError>)
    requires
        ptr + len <= usize::MAX,
    ensures
        *final(mem) == *old(mem),
        r is Ok <==> in_bounds(old(mem)@.len(), ptr, len),
{
    let mut m = wiggle::GuestMemory::Unshared(mem.as_mut_slice());
    match m.as_slice_mut(wiggle::GuestPtr::<[u8]>::new((ptr, len))) {
        Ok(_) => Ok(()),
        Err(e) => Err(e),
    }
}

/// Relies on wiggle::GuestMemory::copy_from_slice: an empty slice is a no-op;
/// otherwise the bytes are written at `ptr` when the region lies inside
/// memory, and nothing is written when it does not.
#[verifier::external_body]
fn guest_copy_from(mem: &mut Vec<u8>, data: &[u8], ptr: u32) -> (r: Result<(), wiggle::GuestError>)
    requires
        data@.len() <= u32::MAX,
        ptr + data@.len() <= usize::MAX,
    ensures
        data@.len() == 0 ==> r is Ok && *final(mem) == *old(mem),
        data@.len() > 0 ==> (r is Ok <==> in_bounds(old(mem)@.len(), ptr, data@.len() as u32)),
        r is Ok ==> final(mem)@ == written(old(mem)@, ptr, data@),
        r is Err ==> *final(mem) == *old(mem),
{
    let mut m = wiggle::GuestMemory::Unshared(mem.as_mut_slice());
    m.copy_from_slice(data, wiggle::GuestPtr::<[u8]>::new((ptr, data.len() as u32)))
}

/// Copies a borrowed guest region to the host.
pub fn read_bytes(mem: &mut Vec<u8>, ptr: u32, len: u32) -> (r: Result<Vec<u8>, CryptoErrno>)
    ensures
        *final(mem) == *old(mem),
        in_bounds(old(mem)@.len(), ptr, len) ==> (r matches Ok(v) && v@ == region(old(mem)@, ptr, len)),
        !in_bounds(old(mem)@.len(), ptr, len) ==> r == Err::<Vec<u8>, CryptoErrno>(CryptoErrno::OutOfBounds),
{
    let mem_len = mem.len();
    if len as usize > usize::MAX - ptr as usize {
        return Err(CryptoErrno::OutOfBounds);
    }
    match guest_to_vec(mem, ptr, len) {
        Ok(v) => Ok(v),
        Err(_) => Err(CryptoErrno::OutOfBounds),
    }
}

/// Copies a guest region that must hold a well-formed UTF-8 name; an
/// out-of-bounds region is reported before the encoding.
pub fn read_name(mem: &mut Vec<u8>, ptr: u32, len: u32) -> (r: Result<Vec<u8>, CryptoErrno>)
    ensures
        *final(mem) == *old(mem),
        !in_bounds(old(mem)@.len(), ptr, len) ==> r == Err::<Vec<u8>, CryptoErrno>(CryptoErrno::OutOfBounds),
        in_bounds(old(mem)@.len(), ptr, len) && !utf8_valid(region(old(mem)@, ptr, len))
            ==> r == Err::<Vec<u8>, CryptoErrno>(CryptoErrno::InvalidEncoding),
        in_bounds(old(mem)@.len(), ptr, len) && utf8_valid(region(old(mem)@, ptr, len))
            ==> (r matches Ok(v) && v@ == region(old(mem)@, ptr, len)),
{
    let mem_len = mem.len();
    if len as usize > usize::MAX - ptr as usize {
        return Err(CryptoErrno::OutOfBounds);
    }
    let in_mem = ptr as usize + len as usize <= mem_len;
    match guest_str(mem, ptr, len) {
        Ok(v) => Ok(v),
        Err(_) => {
            if in_mem {
                Err(CryptoErrno::InvalidEncoding)
            } else {
                Err(CryptoErrno::OutOfBounds)
            }
        },
    }
}

/// Validates a guest region that the host is to write.
pub fn check_writable(mem: &mut Vec<u8>, ptr: u32, len: u32) -> (r: Result<(), CryptoErrno>)
    ensures
        *final(mem) == *old(mem),
        in_bounds(old(mem)@.len(), ptr, len) ==> r is Ok,
        !in_bounds(old(mem)@.len(), ptr, len) ==> r == Err::<(), CryptoErrno>(CryptoErrno::OutOfBounds),
{
    let mem_len = mem.len();
    if len as usize > usize::MAX - ptr as usize {
        return Err(CryptoErrno::OutOfBounds);
    }
    match guest_check_mut(mem, ptr, len) {
        Ok(()) => Ok(()),
        Err(_) => Err(CryptoErrno::OutOfBounds),
    }
}

/// Writes host bytes into guest memory at `ptr`; nothing is written unless
/// the whole region lies inside memory.
pub fn write_bytes(mem: &mut Vec<u8>, ptr: u32, data: &[u8]) -> (r: Result<(), CryptoErrno>)
    requires
        data@.len() <= u32::MAX,
    ensures
        in_bounds(old(mem)@.len(), ptr, data@.len() as u32) ==> r is Ok && final(mem)@ == written(old(mem)@, ptr, data@),
        !in_bounds(old(mem)@.len(), ptr, data@.len() as u32) ==> {
            &&& r == Err::<(), CryptoErrno>(CryptoErrno::OutOfBounds)
            &&& *final(mem) == *old(mem)
        },
{
    let mem_len = mem.len();
    if data.len() > usize::MAX - ptr as usize || ptr as usize + data.len() > mem_len {
        return Err(CryptoErrno::OutOfBounds);
    }
    match guest_copy_from(mem, data, ptr) {
        Ok(()) => Ok(()),
        Err(_) => Err(CryptoErrno::OutOfBounds),
    }
}

/// Whether two guest regions share a byte.
pub fn regions_overlap(a_ptr: u32, a_len: u32, b_ptr: u32, b_len: u32) -> (r: bool)
    ensures
        r == overlap(a_ptr, a_len, b_ptr, b_len),
{
    a_len > 0 && b_len > 0 && (a_ptr as u64) < b_ptr as u64 + b_len as u64 && (b_ptr as u64) < a_ptr as u64
        + a_len as u64
}

} // verus!
