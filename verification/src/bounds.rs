//! The two checks that every access goes through: does the range lie inside
//! the buffer, and is the address aligned for the type.
//!
//! Both are stated over plain numbers, so that they can be held against any
//! storage: a buffer of this crate, or memory that only its caller can reach.

use vstd::prelude::*;
use crate::error::Error;

verus! {

/// `n` as far as a `usize` can hold it.
pub open spec fn saturated(n: nat) -> usize {
    if n > usize::MAX {
        usize::MAX
    } else {
        n as usize
    }
}

/// `offset + size` as far as a `usize` can hold it: the end that an error
/// reports for a range that runs past the last address.
pub open spec fn saturating_end(offset: usize, size: nat) -> usize {
    saturated(offset as nat + size)
}

/// Why the range of `size` bytes at `offset` is refused in a buffer of `len`
/// bytes, if it is.
///
/// The offset itself has to be a valid index, so an empty range at the very
/// end is refused too. The sum is taken over the naturals: it does not wrap.
pub open spec fn range_refusal(len: nat, offset: usize, size: nat) -> Option<Error> {
    if offset >= len {
        Some(Error::OutOfBounds(saturated(len), offset))
    } else if offset + size > len {
        Some(Error::OutOfBounds(saturated(len), saturating_end(offset, size)))
    } else {
        None
    }
}

/// Why `address` is refused for a type that asks for `align`, if it is.
pub open spec fn alignment_refusal(address: usize, align: usize) -> Option<Error> {
    if address % align != 0 {
        Some(Error::BadAlignment(align, address % align))
    } else {
        None
    }
}

/// The address of the byte at `offset` in storage that starts at `address`.
///
/// Addresses are taken modulo the size of the address space, as pointer
/// arithmetic does. Storage that a program can hold never reaches round the
/// top of the address space, and there the sum is the plain one.
pub open spec fn address_at(address: usize, offset: usize) -> usize {
    address.wrapping_add(offset)
}

/// Why the `size` bytes at `offset` of a buffer of `len` bytes that starts at
/// `address` are refused for a type that asks for `align`, if they are.
/// Bounds come first, alignment second.
pub open spec fn access_refusal(
    len: nat,
    address: usize,
    offset: usize,
    size: nat,
    align: usize,
) -> Option<Error> {
    match range_refusal(len, offset, size) {
        Some(error) => Some(error),
        None => alignment_refusal(address_at(address, offset), align),
    }
}

/// Checks that the `size` bytes at `offset` lie inside a buffer of `len` bytes.
pub fn check_range(len: usize, offset: usize, size: usize) -> (r: Result<(), Error>)
    ensures
        r == match range_refusal(len as nat, offset, size as nat) {
            Some(error) => Err::<(), Error>(error),
            None => Ok(()),
        },
{
    if offset >= len {
        return Err(Error::OutOfBounds(len, offset));
    }
    match offset.checked_add(size) {
        Some(end) => {
            if end > len {
                Err(Error::OutOfBounds(len, end))
            } else {
                Ok(())
            }
        },
        None => Err(Error::OutOfBounds(len, usize::MAX)),
    }
}

/// Checks that `count` items of `item_size` bytes each, at `offset`, lie
/// inside a buffer of `len` bytes. Returns the number of bytes they take.
pub fn check_items(len: usize, offset: usize, item_size: usize, count: usize) -> (r: Result<
    usize,
    Error,
>)
    ensures
        r == match range_refusal(len as nat, offset, item_size as nat * count as nat) {
            Some(error) => Err::<usize, Error>(error),
            None => Ok(saturated(item_size as nat * count as nat)),
        },
{
    if offset >= len {
        return Err(Error::OutOfBounds(len, offset));
    }
    match item_size.checked_mul(count) {
        Some(total) => {
            match check_range(len, offset, total) {
                Ok(()) => Ok(total),
                Err(error) => Err(error),
            }
        },
        None => Err(Error::OutOfBounds(len, usize::MAX)),
    }
}

/// Checks that `address` is a multiple of `align`.
pub fn check_alignment(address: usize, align: usize) -> (r: Result<(), Error>)
    requires
        align > 0,
    ensures
        r == match alignment_refusal(address, align) {
            Some(error) => Err::<(), Error>(error),
            None => Ok(()),
        },
{
    let residue: usize = address % align;
    if residue != 0 {
        Err(Error::BadAlignment(align, residue))
    } else {
        Ok(())
    }
}

} // verus!
