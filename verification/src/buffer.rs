//! The capability interface: everything that can be done with a run of bytes
//! at an address, whatever holds them.

use vstd::prelude::*;
use crate::bounds::{access_refusal, check_alignment, check_range, range_refusal, saturated};
use crate::castable::Castable;
use crate::convert::{
    address_of, bytes_needed, decode_items, encode_all, is_zero_sized, ref_to_bytes,
    slice_ref_to_bytes,
};
use crate::error::Error;
use crate::iter::{BufferIter, BufferIterMut};
use crate::model::{
    bytes_at, end_address, is_window, items_at, items_at_unaligned, offset_of, pointer_at,
    points_into, refusal_at, spliced, typed_at, typed_at_unaligned, viewed, viewed_slice,
    window_outcome, window_refusal, windows_refusal, windows_refusal_unaligned, written,
    written_at_end,
};
use crate::search::{matches_at, scan, scan_finds, search_result, BufferSearchIter};

verus! {

/// Whether `a` and `b` hold the same bytes.
pub fn same_bytes(a: &[u8], b: &[u8]) -> (same: bool)
    ensures
        same == (a@ == b@),
{
    if a.len() != b.len() {
        return false;
    }
    let n: usize = a.len();
    let mut i: usize = 0;
    while i < n
        invariant
            i <= n,
            n == a@.len() == b@.len(),
            forall|j: int| 0 <= j < i ==> a@[j] == b@[j],
        decreases n - i,
    {
        if a[i] != b[i] {
            return false;
        }
        i += 1;
    }
    assert(a@ =~= b@);
    true
}

/// Checks that `count` values of type `T` at `offset` lie inside a buffer of
/// `len` bytes. Returns the number of bytes they take.
fn check_typed_range<T: Castable>(len: usize, offset: usize, count: usize) -> (r: Result<
    usize,
    Error,
>)
    ensures
        r == match range_refusal(len as nat, offset, T::spec_size() * count as nat) {
            Some(error) => Err::<usize, Error>(error),
            None => Ok(saturated(T::spec_size() * count as nat)),
        },
{
    match bytes_needed::<T>(count) {
        Some(total) => {
            check_range(len, offset, total)?;
            Ok(total)
        },
        None => {
            if offset >= len {
                Err(Error::OutOfBounds(len, offset))
            } else {
                Err(Error::OutOfBounds(len, usize::MAX))
            }
        },
    }
}

/// Checks that `count` values of type `T` at `offset` lie inside a buffer of
/// `len` bytes that starts at `address`, at an address aligned for `T`.
/// Returns the number of bytes they take.
fn check_typed<T: Castable>(len: usize, address: usize, offset: usize, count: usize) -> (r: Result<
    usize,
    Error,
>)
    ensures
        r == match access_refusal(
            len as nat,
            address,
            offset,
            T::spec_size() * count as nat,
            T::spec_align(),
        ) {
            Some(error) => Err::<usize, Error>(error),
            None => Ok(saturated(T::spec_size() * count as nat)),
        },
{
    let total: usize = check_typed_range::<T>(len, offset, count)?;
    check_alignment(address.wrapping_add(offset), T::align())?;
    Ok(total)
}

/// Cuts the window of `size` bytes at `offset` out of `bytes`.
fn carve(bytes: &mut [u8], offset: usize, size: usize) -> (window: &mut [u8])
    requires
        offset + size <= old(bytes)@.len(),
    ensures
        is_window(old(bytes)@, final(bytes)@, offset, size as nat, window@, final(window)@),
{
    let (head, rest) = bytes.split_at_mut(offset);
    let (window, tail) = rest.split_at_mut(size);
    proof {
        let before = old(bytes)@;
        assert(window@ =~= before.subrange(offset as int, offset + size));
        assert(tail@ =~= before.subrange(offset + size, before.len() as int));
        assert(head@ + (final(window)@ + tail@) =~= spliced(
            before,
            offset as int,
            size as int,
            final(window)@,
        ));
    }
    window
}

/// A run of bytes at an address, and all that can be done with it.
///
/// A backend gives four things: how many bytes there are, at which address
/// they start, and the bytes themselves to read and to write. Everything else
/// is built on these and is the same for every backend.
///
/// The address is a number. It serves the checks on alignment and the
/// conversions between offsets and pointers, and nothing is ever read or
/// written through it. Addresses are counted modulo the size of the address
/// space.
pub trait Buffer: View<V = Seq<u8>> {
    /// The address of the first byte.
    spec fn address(&self) -> usize;

    /// The borrow through which the buffer reaches bytes that somebody else
    /// holds. Every operation that writes keeps it, so that whoever lent the
    /// bytes finds in them, when the buffer is gone, what the buffer held at
    /// its end. For a buffer that holds its own bytes this is of no account.
    spec fn lent(&self) -> &mut [u8];

    /// The number of bytes.
    fn len(&self) -> (n: usize)
        ensures
            n == self@.len(),
    ;

    /// The address of the first byte.
    fn as_ptr(&self) -> (pointer: usize)
        ensures
            pointer == self.address(),
    ;

    /// The bytes, to read.
    fn as_slice(&self) -> (bytes: &[u8])
        ensures
            bytes@ == self@,
    ;

    /// The bytes, to write. Writing does not move them: the address stays.
    fn as_mut_slice(&mut self) -> (bytes: &mut [u8])
        ensures
            bytes@ == old(self)@,
            final(self)@ == final(bytes)@,
            final(self).address() == old(self).address(),
            final(final(self).lent())@ == final(old(self).lent())@,
    ;

    /// The address just past the last byte. No byte lies there: it is a mark
    /// to measure against.
    fn eob(&self) -> (pointer: usize)
        ensures
            pointer == end_address(self.address(), self@.len()),
    {
        self.as_ptr().wrapping_add(self.len())
    }

    /// The addresses of the first byte and just past the last.
    fn as_ptr_range(&self) -> (range: (usize, usize))
        ensures
            range == (self.address(), end_address(self.address(), self@.len())),
    {
        (self.as_ptr(), self.eob())
    }

    /// Whether there are no bytes.
    fn is_empty(&self) -> (empty: bool)
        ensures
            empty == (self@.len() == 0),
    {
        self.len() == 0
    }

    /// Whether `pointer` is the address of a byte of this buffer.
    fn validate_ptr(&self, pointer: usize) -> (valid: bool)
        ensures
            valid == points_into(self.address(), self@.len(), pointer),
    {
        pointer.wrapping_sub(self.as_ptr()) < self.len()
    }

    /// The address of the byte at `offset`.
    ///
    /// Fails with `OutOfBounds` unless `offset` is the index of a byte.
    fn offset_to_ptr(&self, offset: usize) -> (r: Result<usize, Error>)
        ensures
            r == pointer_at(self.address(), self@.len(), offset),
    {
        if offset >= self.len() {
            return Err(Error::OutOfBounds(self.len(), offset));
        }
        Ok(self.as_ptr().wrapping_add(offset))
    }

    /// The address of the first byte, asked for in order to write. It is the
    /// address that `as_ptr` gives.
    fn as_mut_ptr(&mut self) -> (pointer: usize)
        ensures
            pointer == old(self).address(),
            final(self)@ == old(self)@,
            final(self).address() == old(self).address(),
            final(final(self).lent())@ == final(old(self).lent())@,
    {
        self.as_ptr()
    }

    /// The addresses of the first byte and just past the last, asked for in
    /// order to write. They are the addresses that `as_ptr_range` gives.
    fn as_mut_ptr_range(&mut self) -> (range: (usize, usize))
        ensures
            range == (old(self).address(), end_address(old(self).address(), old(self)@.len())),
            final(self)@ == old(self)@,
            final(self).address() == old(self).address(),
            final(final(self).lent())@ == final(old(self).lent())@,
    {
        self.as_ptr_range()
    }

    /// The address of the byte at `offset`, asked for in order to write. It
    /// is the address that `offset_to_ptr` gives.
    ///
    /// Fails with `OutOfBounds` unless `offset` is the index of a byte.
    fn offset_to_mut_ptr(&mut self, offset: usize) -> (r: Result<usize, Error>)
        ensures
            r == pointer_at(old(self).address(), old(self)@.len(), offset),
            final(self)@ == old(self)@,
            final(self).address() == old(self).address(),
            final(final(self).lent())@ == final(old(self).lent())@,
    {
        self.offset_to_ptr(offset)
    }

    /// The offset of the byte at the address `pointer`.
    ///
    /// Fails with `InvalidPointer` unless `pointer` is the address of a byte
    /// of this buffer.
    fn ptr_to_offset(&self, pointer: usize) -> (r: Result<usize, Error>)
        ensures
            r == offset_of(self.address(), self@.len(), pointer),
    {
        if !self.validate_ptr(pointer) {
            return Err(Error::InvalidPointer(pointer));
        }
        Ok(pointer.wrapping_sub(self.as_ptr()))
    }

    /// The offset at which `data` lies in this buffer.
    ///
    /// Where `data` lies is for the machine to say, so the result is stated
    /// for every address: it is the offset of a byte of this buffer, or
    /// `InvalidPointer` with an address that is none of this buffer's.
    fn ref_to_offset<T>(&self, data: &T) -> (r: Result<usize, Error>)
        ensures
            match r {
                Ok(offset) => offset < self@.len(),
                Err(Error::InvalidPointer(pointer)) => !points_into(
                    self.address(),
                    self@.len(),
                    pointer,
                ),
                Err(_) => false,
            },
    {
        self.ptr_to_offset(address_of(data))
    }

    /// The offset at which the first item of `data` lies in this buffer.
    ///
    /// As for `ref_to_offset`, the result is stated for every address: it is
    /// the offset of a byte of this buffer, or `InvalidPointer` with an
    /// address that is none of this buffer's.
    fn slice_ref_to_offset<T>(&self, data: &[T]) -> (r: Result<usize, Error>)
        ensures
            match r {
                Ok(offset) => offset < self@.len(),
                Err(Error::InvalidPointer(pointer)) => !points_into(
                    self.address(),
                    self@.len(),
                    pointer,
                ),
                Err(_) => false,
            },
    {
        self.ptr_to_offset(address_of(data))
    }

    /// A copy of the bytes.
    fn to_vec(&self) -> (bytes: Vec<u8>)
        ensures
            bytes@ == self@,
    {
        vstd::slice::slice_to_vec(self.as_slice())
    }

    /// The byte at `index`, if there is one.
    fn get(&self, index: usize) -> (r: Option<&u8>)
        ensures
            index < self@.len() ==> r == Some(&self@[index as int]),
            index >= self@.len() ==> r is None,
    {
        let bytes = self.as_slice();
        if index < bytes.len() {
            Some(&bytes[index])
        } else {
            None
        }
    }

    /// The `size` bytes at `offset`.
    ///
    /// Fails with `OutOfBounds` if `offset` is not the index of a byte or if
    /// the range runs past the end, and never in another way.
    fn read(&self, offset: usize, size: usize) -> (r: Result<&[u8], Error>)
        ensures
            viewed_slice(r) == bytes_at(self@, offset, size),
    {
        check_range(self.len(), offset, size)?;
        Ok(vstd::slice::slice_subrange(self.as_slice(), offset, offset + size))
    }

    /// The value of type `T` at `offset`.
    ///
    /// Fails with `OutOfBounds` if `offset` is not the index of a byte or if
    /// the value would run past the end; with `BadAlignment` if the address of
    /// that byte is not aligned for `T`.
    fn get_ref<T: Castable>(&self, offset: usize) -> (r: Result<T, Error>)
        ensures
            r == typed_at::<T>(self@, self.address(), offset),
    {
        let size: usize = check_typed::<T>(self.len(), self.as_ptr(), offset, 1)?;
        Ok(T::from_bytes(vstd::slice::slice_subrange(self.as_slice(), offset, offset + size)))
    }

    /// The value of type `T` at `offset`, wherever that lies.
    ///
    /// Fails with `OutOfBounds` as `get_ref` does, and never for alignment.
    fn get_ref_unaligned<T: Castable>(&self, offset: usize) -> (r: Result<T, Error>)
        ensures
            r == typed_at_unaligned::<T>(self@, offset),
    {
        let size: usize = check_typed_range::<T>(self.len(), offset, 1)?;
        Ok(T::from_bytes(vstd::slice::slice_subrange(self.as_slice(), offset, offset + size)))
    }

    /// The value of type `T` at `offset`: by `get_ref`, and where that fails
    /// for alignment, and only there, by `get_ref_unaligned`.
    fn force_get_ref<T: Castable>(&self, offset: usize) -> (r: Result<T, Error>)
        ensures
            r == typed_at_unaligned::<T>(self@, offset),
    {
        match self.get_ref::<T>(offset) {
            Ok(value) => Ok(value),
            Err(Error::BadAlignment(_, _)) => self.get_ref_unaligned::<T>(offset),
            Err(error) => Err(error),
        }
    }

    /// The `count` values of type `T` at `offset`.
    ///
    /// Fails with `ZeroSizedType` if `T` has size zero; with `OutOfBounds` if
    /// `offset` is not the index of a byte or if the values would run past the
    /// end; with `BadAlignment` if the address of that byte is not aligned for
    /// `T`.
    fn get_slice_ref<T: Castable>(&self, offset: usize, count: usize) -> (r: Result<Vec<T>, Error>)
        ensures
            viewed(r) == items_at::<T>(self@, self.address(), offset, count),
    {
        if is_zero_sized::<T>() {
            return Err(Error::ZeroSizedType);
        }
        let total: usize = check_typed::<T>(self.len(), self.as_ptr(), offset, count)?;
        let window = vstd::slice::slice_subrange(self.as_slice(), offset, offset + total);
        Ok(decode_items::<T>(window, count))
    }

    /// The `count` values of type `T` at `offset`, wherever that lies.
    ///
    /// Fails as `get_slice_ref` does, but never for alignment.
    fn get_slice_ref_unaligned<T: Castable>(&self, offset: usize, count: usize) -> (r: Result<
        Vec<T>,
        Error,
    >)
        ensures
            viewed(r) == items_at_unaligned::<T>(self@, offset, count),
    {
        if is_zero_sized::<T>() {
            return Err(Error::ZeroSizedType);
        }
        let total: usize = check_typed_range::<T>(self.len(), offset, count)?;
        let window = vstd::slice::slice_subrange(self.as_slice(), offset, offset + total);
        Ok(decode_items::<T>(window, count))
    }

    /// The `count` values of type `T` at `offset`: by `get_slice_ref`, and
    /// where that fails for alignment, and only there, by
    /// `get_slice_ref_unaligned`.
    fn force_get_slice_ref<T: Castable>(&self, offset: usize, count: usize) -> (r: Result<
        Vec<T>,
        Error,
    >)
        ensures
            viewed(r) == items_at_unaligned::<T>(self@, offset, count),
    {
        match self.get_slice_ref::<T>(offset, count) {
            Ok(items) => Ok(items),
            Err(Error::BadAlignment(_, _)) => self.get_slice_ref_unaligned::<T>(offset, count),
            Err(error) => Err(error),
        }
    }

    /// The byte at `index`, to write, if there is one.
    fn get_mut(&mut self, index: usize) -> (r: Option<&mut u8>)
        ensures
            final(self).address() == old(self).address(),
            final(final(self).lent())@ == final(old(self).lent())@,
            match r {
                Some(byte) => index < old(self)@.len() && *byte == old(self)@[index as int]
                    && final(self)@ == old(self)@.update(index as int, *final(byte)),
                None => index >= old(self)@.len() && final(self)@ == old(self)@,
            },
    {
        if index >= self.len() {
            return None;
        }
        let bytes = self.as_mut_slice();
        Some(&mut bytes[index])
    }

    /// Exchanges the bytes at `a` and `b`. Both have to be indices of bytes.
    fn swap(&mut self, a: usize, b: usize)
        requires
            a < old(self)@.len(),
            b < old(self)@.len(),
        ensures
            final(self)@ == old(self)@.update(a as int, old(self)@[b as int]).update(
                b as int,
                old(self)@[a as int],
            ),
            final(self).address() == old(self).address(),
            final(final(self).lent())@ == final(old(self).lent())@,
    {
        let bytes = self.as_mut_slice();
        let first: u8 = bytes[a];
        let second: u8 = bytes[b];
        bytes[a] = second;
        bytes[b] = first;
    }

    /// Sets every byte to `value`.
    fn fill(&mut self, value: u8)
        ensures
            final(self)@ == Seq::new(old(self)@.len(), |i: int| value),
            final(self).address() == old(self).address(),
            final(final(self).lent())@ == final(old(self).lent())@,
    {
        let bytes = self.as_mut_slice();
        let n: usize = bytes.len();
        let mut i: usize = 0;
        while i < n
            invariant
                i <= n,
                bytes@.len() == n,
                forall|j: int| 0 <= j < i ==> bytes@[j] == value,
            decreases n - i,
        {
            bytes[i] = value;
            i += 1;
        }
        assert(bytes@ =~= Seq::new(n as nat, |i: int| value));
    }

    /// The `size` bytes at `offset`, to write.
    ///
    /// Fails as `read` does, and then leaves the buffer as it was. What is
    /// written to the window is written to the buffer.
    fn read_mut(&mut self, offset: usize, size: usize) -> (r: Result<&mut [u8], Error>)
        ensures
            final(self).address() == old(self).address(),
            final(final(self).lent())@ == final(old(self).lent())@,
            window_outcome(
                range_refusal(old(self)@.len(), offset, size as nat),
                old(self)@,
                final(self)@,
                offset,
                size as nat,
                match r {
                    Ok(window) => Ok((window@, final(window)@)),
                    Err(error) => Err(error),
                },
            ),
    {
        check_range(self.len(), offset, size)?;
        Ok(carve(self.as_mut_slice(), offset, size))
    }

    /// The bytes that hold the value of type `T` at `offset`, to write.
    ///
    /// Fails as `get_ref` does, and then leaves the buffer as it was. The
    /// window has the size of `T` and lies at an address aligned for `T`.
    /// What is written to it is written to the buffer.
    fn get_mut_ref<T: Castable>(&mut self, offset: usize) -> (r: Result<&mut [u8], Error>)
        ensures
            final(self).address() == old(self).address(),
            final(final(self).lent())@ == final(old(self).lent())@,
            window_outcome(
                window_refusal::<T>(old(self)@.len(), old(self).address(), offset),
                old(self)@,
                final(self)@,
                offset,
                T::spec_size(),
                match r {
                    Ok(window) => Ok((window@, final(window)@)),
                    Err(error) => Err(error),
                },
            ),
    {
        let size: usize = check_typed::<T>(self.len(), self.as_ptr(), offset, 1)?;
        Ok(carve(self.as_mut_slice(), offset, size))
    }

    /// The bytes that hold the value of type `T` at `offset`, to write,
    /// wherever they lie.
    ///
    /// Fails as `get_ref_unaligned` does, and then leaves the buffer as it was.
    fn get_mut_ref_unaligned<T: Castable>(&mut self, offset: usize) -> (r: Result<
        &mut [u8],
        Error,
    >)
        ensures
            final(self).address() == old(self).address(),
            final(final(self).lent())@ == final(old(self).lent())@,
            window_outcome(
                range_refusal(old(self)@.len(), offset, T::spec_size()),
                old(self)@,
                final(self)@,
                offset,
                T::spec_size(),
                match r {
                    Ok(window) => Ok((window@, final(window)@)),
                    Err(error) => Err(error),
                },
            ),
    {
        let size: usize = check_typed_range::<T>(self.len(), offset, 1)?;
        Ok(carve(self.as_mut_slice(), offset, size))
    }

    /// The bytes that hold the value of type `T` at `offset`, to write: as
    /// `get_mut_ref` gives them, and where that fails for alignment, and only
    /// there, as `get_mut_ref_unaligned` gives them.
    fn force_get_mut_ref<T: Castable>(&mut self, offset: usize) -> (r: Result<&mut [u8], Error>)
        ensures
            final(self).address() == old(self).address(),
            final(final(self).lent())@ == final(old(self).lent())@,
            window_outcome(
                range_refusal(old(self)@.len(), offset, T::spec_size()),
                old(self)@,
                final(self)@,
                offset,
                T::spec_size(),
                match r {
                    Ok(window) => Ok((window@, final(window)@)),
                    Err(error) => Err(error),
                },
            ),
    {
        match check_typed::<T>(self.len(), self.as_ptr(), offset, 1) {
            Ok(size) => Ok(carve(self.as_mut_slice(), offset, size)),
            Err(Error::BadAlignment(_, _)) => self.get_mut_ref_unaligned::<T>(offset),
            Err(error) => Err(error),
        }
    }

    /// The bytes that hold the value of type `T` at the address `pointer`, to
    /// write.
    ///
    /// Fails with `InvalidPointer` unless `pointer` is the address of a byte
    /// of this buffer, and else as `get_mut_ref` does at the offset of that
    /// byte.
    fn make_mut_ref<T: Castable>(&mut self, pointer: usize) -> (r: Result<&mut [u8], Error>)
        ensures
            final(self).address() == old(self).address(),
            final(final(self).lent())@ == final(old(self).lent())@,
            window_outcome(
                refusal_at(
                    old(self).address(),
                    old(self)@.len(),
                    pointer,
                    window_refusal::<T>(
                        old(self)@.len(),
                        old(self).address(),
                        pointer.wrapping_sub(old(self).address()),
                    ),
                ),
                old(self)@,
                final(self)@,
                pointer.wrapping_sub(old(self).address()),
                T::spec_size(),
                match r {
                    Ok(window) => Ok((window@, final(window)@)),
                    Err(error) => Err(error),
                },
            ),
    {
        let offset: usize = self.ptr_to_offset(pointer)?;
        self.get_mut_ref::<T>(offset)
    }

    /// The bytes that hold the value of type `T` at the address `pointer`, to
    /// write, whatever the alignment.
    ///
    /// Fails with `InvalidPointer` unless `pointer` is the address of a byte
    /// of this buffer, and else as `get_mut_ref_unaligned` does at the offset
    /// of that byte.
    fn make_mut_ref_unaligned<T: Castable>(&mut self, pointer: usize) -> (r: Result<
        &mut [u8],
        Error,
    >)
        ensures
            final(self).address() == old(self).address(),
            final(final(self).lent())@ == final(old(self).lent())@,
            window_outcome(
                refusal_at(
                    old(self).address(),
                    old(self)@.len(),
                    pointer,
                    range_refusal(
                        old(self)@.len(),
                        pointer.wrapping_sub(old(self).address()),
                        T::spec_size(),
                    ),
                ),
                old(self)@,
                final(self)@,
                pointer.wrapping_sub(old(self).address()),
                T::spec_size(),
                match r {
                    Ok(window) => Ok((window@, final(window)@)),
                    Err(error) => Err(error),
                },
            ),
    {
        let offset: usize = self.ptr_to_offset(pointer)?;
        self.get_mut_ref_unaligned::<T>(offset)
    }

    /// The bytes that hold the value of type `T` at the address `pointer`, to
    /// write: as `make_mut_ref` gives them, and where that fails for
    /// alignment, and only there, as `make_mut_ref_unaligned` gives them.
    fn force_make_mut_ref<T: Castable>(&mut self, pointer: usize) -> (r: Result<&mut [u8], Error>)
        ensures
            final(self).address() == old(self).address(),
            final(final(self).lent())@ == final(old(self).lent())@,
            window_outcome(
                refusal_at(
                    old(self).address(),
                    old(self)@.len(),
                    pointer,
                    range_refusal(
                        old(self)@.len(),
                        pointer.wrapping_sub(old(self).address()),
                        T::spec_size(),
                    ),
                ),
                old(self)@,
                final(self)@,
                pointer.wrapping_sub(old(self).address()),
                T::spec_size(),
                match r {
                    Ok(window) => Ok((window@, final(window)@)),
                    Err(error) => Err(error),
                },
            ),
    {
        let offset: usize = self.ptr_to_offset(pointer)?;
        self.force_get_mut_ref::<T>(offset)
    }

    /// The bytes that hold the `count` values of type `T` at `offset`, to
    /// write.
    ///
    /// Fails as `get_slice_ref` does, and then leaves the buffer as it was.
    /// What is written to the window is written to the buffer.
    fn get_mut_slice_ref<T: Castable>(&mut self, offset: usize, count: usize) -> (r: Result<
        &mut [u8],
        Error,
    >)
        ensures
            final(self).address() == old(self).address(),
            final(final(self).lent())@ == final(old(self).lent())@,
            window_outcome(
                windows_refusal::<T>(old(self)@.len(), old(self).address(), offset, count),
                old(self)@,
                final(self)@,
                offset,
                T::spec_size() * count as nat,
                match r {
                    Ok(window) => Ok((window@, final(window)@)),
                    Err(error) => Err(error),
                },
            ),
    {
        if is_zero_sized::<T>() {
            return Err(Error::ZeroSizedType);
        }
        let total: usize = check_typed::<T>(self.len(), self.as_ptr(), offset, count)?;
        Ok(carve(self.as_mut_slice(), offset, total))
    }

    /// The bytes that hold the `count` values of type `T` at `offset`, to
    /// write, wherever they lie.
    ///
    /// Fails as `get_slice_ref_unaligned` does, and then leaves the buffer as
    /// it was.
    fn get_mut_slice_ref_unaligned<T: Castable>(&mut self, offset: usize, count: usize) -> (r:
        Result<&mut [u8], Error>)
        ensures
            final(self).address() == old(self).address(),
            final(final(self).lent())@ == final(old(self).lent())@,
            window_outcome(
                windows_refusal_unaligned::<T>(old(self)@.len(), offset, count),
                old(self)@,
                final(self)@,
                offset,
                T::spec_size() * count as nat,
                match r {
                    Ok(window) => Ok((window@, final(window)@)),
                    Err(error) => Err(error),
                },
            ),
    {
        if is_zero_sized::<T>() {
            return Err(Error::ZeroSizedType);
        }
        let total: usize = check_typed_range::<T>(self.len(), offset, count)?;
        Ok(carve(self.as_mut_slice(), offset, total))
    }

    /// The bytes that hold the `count` values of type `T` at `offset`, to
    /// write: as `get_mut_slice_ref` gives them, and where that fails for
    /// alignment, and only there, as `get_mut_slice_ref_unaligned` gives them.
    fn force_get_mut_slice_ref<T: Castable>(&mut self, offset: usize, count: usize) -> (r: Result<
        &mut [u8],
        Error,
    >)
        ensures
            final(self).address() == old(self).address(),
            final(final(self).lent())@ == final(old(self).lent())@,
            window_outcome(
                windows_refusal_unaligned::<T>(old(self)@.len(), offset, count),
                old(self)@,
                final(self)@,
                offset,
                T::spec_size() * count as nat,
                match r {
                    Ok(window) => Ok((window@, final(window)@)),
                    Err(error) => Err(error),
                },
            ),
    {
        if is_zero_sized::<T>() {
            return Err(Error::ZeroSizedType);
        }
        match check_typed::<T>(self.len(), self.as_ptr(), offset, count) {
            Ok(total) => Ok(carve(self.as_mut_slice(), offset, total)),
            Err(Error::BadAlignment(_, _)) => self.get_mut_slice_ref_unaligned::<T>(offset, count),
            Err(error) => Err(error),
        }
    }

    /// The bytes that hold the `count` values of type `T` at the address
    /// `pointer`, to write.
    ///
    /// Fails with `InvalidPointer` unless `pointer` is the address of a byte
    /// of this buffer, and else as `get_mut_slice_ref` does at the offset of
    /// that byte.
    fn make_mut_slice_ref<T: Castable>(&mut self, pointer: usize, count: usize) -> (r: Result<
        &mut [u8],
        Error,
    >)
        ensures
            final(self).address() == old(self).address(),
            final(final(self).lent())@ == final(old(self).lent())@,
            window_outcome(
                refusal_at(
                    old(self).address(),
                    old(self)@.len(),
                    pointer,
                    windows_refusal::<T>(
                        old(self)@.len(),
                        old(self).address(),
                        pointer.wrapping_sub(old(self).address()),
                        count,
                    ),
                ),
                old(self)@,
                final(self)@,
                pointer.wrapping_sub(old(self).address()),
                T::spec_size() * count as nat,
                match r {
                    Ok(window) => Ok((window@, final(window)@)),
                    Err(error) => Err(error),
                },
            ),
    {
        let offset: usize = self.ptr_to_offset(pointer)?;
        self.get_mut_slice_ref::<T>(offset, count)
    }

    /// The bytes that hold the `count` values of type `T` at the address
    /// `pointer`, to write, whatever the alignment.
    ///
    /// Fails with `InvalidPointer` unless `pointer` is the address of a byte
    /// of this buffer, and else as `get_mut_slice_ref_unaligned` does at the
    /// offset of that byte.
    fn make_mut_slice_ref_unaligned<T: Castable>(&mut self, pointer: usize, count: usize) -> (r:
        Result<&mut [u8], Error>)
        ensures
            final(self).address() == old(self).address(),
            final(final(self).lent())@ == final(old(self).lent())@,
            window_outcome(
                refusal_at(
                    old(self).address(),
                    old(self)@.len(),
                    pointer,
                    windows_refusal_unaligned::<T>(
                        old(self)@.len(),
                        pointer.wrapping_sub(old(self).address()),
                        count,
                    ),
                ),
                old(self)@,
                final(self)@,
                pointer.wrapping_sub(old(self).address()),
                T::spec_size() * count as nat,
                match r {
                    Ok(window) => Ok((window@, final(window)@)),
                    Err(error) => Err(error),
                },
            ),
    {
        let offset: usize = self.ptr_to_offset(pointer)?;
        self.get_mut_slice_ref_unaligned::<T>(offset, count)
    }

    /// The bytes that hold the `count` values of type `T` at the address
    /// `pointer`, to write: as `make_mut_slice_ref` gives them, and where that
    /// fails for alignment, and only there, as `make_mut_slice_ref_unaligned`
    /// gives them.
    fn force_make_mut_slice_ref<T: Castable>(&mut self, pointer: usize, count: usize) -> (r:
        Result<&mut [u8], Error>)
        ensures
            final(self).address() == old(self).address(),
            final(final(self).lent())@ == final(old(self).lent())@,
            window_outcome(
                refusal_at(
                    old(self).address(),
                    old(self)@.len(),
                    pointer,
                    windows_refusal_unaligned::<T>(
                        old(self)@.len(),
                        pointer.wrapping_sub(old(self).address()),
                        count,
                    ),
                ),
                old(self)@,
                final(self)@,
                pointer.wrapping_sub(old(self).address()),
                T::spec_size() * count as nat,
                match r {
                    Ok(window) => Ok((window@, final(window)@)),
                    Err(error) => Err(error),
                },
            ),
    {
        let offset: usize = self.ptr_to_offset(pointer)?;
        self.force_get_mut_slice_ref::<T>(offset, count)
    }

    /// Writes `data` at `offset`.
    ///
    /// Fails with `OutOfBounds` if `offset` is not the index of a byte or if
    /// `data` would run past the end. The range is checked before anything is
    /// written: a write that fails leaves the buffer as it was.
    fn write(&mut self, offset: usize, data: &[u8]) -> (r: Result<(), Error>)
        ensures
            final(self).address() == old(self).address(),
            final(final(self).lent())@ == final(old(self).lent())@,
            match r {
                Ok(()) => written(old(self)@, offset, data@) == Ok::<Seq<u8>, Error>(final(self)@),
                Err(error) => written(old(self)@, offset, data@) == Err::<Seq<u8>, Error>(error)
                    && final(self)@ == old(self)@,
            },
    {
        let size: usize = data.len();
        check_range(self.len(), offset, size)?;
        let window = carve(self.as_mut_slice(), offset, size);
        let mut i: usize = 0;
        while i < size
            invariant
                i <= size,
                size == data@.len(),
                window@.len() == size,
                forall|j: int| 0 <= j < i ==> window@[j] == data@[j],
            decreases size - i,
        {
            window[i] = data[i];
            i += 1;
        }
        assert(window@ =~= data@);
        Ok(())
    }

    /// Writes the bytes that represent `data` at `offset`.
    ///
    /// Fails as `write` does. Alignment is not asked for.
    fn write_ref<T: Castable>(&mut self, offset: usize, data: &T) -> (r: Result<(), Error>)
        ensures
            final(self).address() == old(self).address(),
            final(final(self).lent())@ == final(old(self).lent())@,
            match r {
                Ok(()) => written(old(self)@, offset, data.encode()) == Ok::<Seq<u8>, Error>(
                    final(self)@,
                ),
                Err(error) => written(old(self)@, offset, data.encode()) == Err::<Seq<u8>, Error>(
                    error,
                ) && final(self)@ == old(self)@,
            },
    {
        let bytes = ref_to_bytes::<T>(data)?;
        self.write(offset, bytes.as_slice())
    }

    /// Writes the bytes that represent the items of `data` at `offset`.
    ///
    /// Fails with `ZeroSizedType` if `T` has size zero, else as `write` does.
    fn write_slice_ref<T: Castable>(&mut self, offset: usize, data: &[T]) -> (r: Result<(), Error>)
        ensures
            final(self).address() == old(self).address(),
            final(final(self).lent())@ == final(old(self).lent())@,
            match r {
                Ok(()) => T::spec_size() != 0 && written(old(self)@, offset, encode_all(data@))
                    == Ok::<Seq<u8>, Error>(final(self)@),
                Err(error) => final(self)@ == old(self)@ && if T::spec_size() == 0 {
                    error == Error::ZeroSizedType
                } else {
                    written(old(self)@, offset, encode_all(data@)) == Err::<Seq<u8>, Error>(error)
                },
            },
    {
        let bytes = slice_ref_to_bytes::<T>(data)?;
        self.write(offset, bytes.as_slice())
    }

    /// Writes `data` at the start.
    ///
    /// Fails as `write` at offset 0 does.
    fn start_with(&mut self, data: &[u8]) -> (r: Result<(), Error>)
        ensures
            final(self).address() == old(self).address(),
            final(final(self).lent())@ == final(old(self).lent())@,
            match r {
                Ok(()) => written(old(self)@, 0, data@) == Ok::<Seq<u8>, Error>(final(self)@),
                Err(error) => written(old(self)@, 0, data@) == Err::<Seq<u8>, Error>(error)
                    && final(self)@ == old(self)@,
            },
    {
        self.write(0, data)
    }

    /// Writes the bytes that represent `data` at the start.
    fn start_with_ref<T: Castable>(&mut self, data: &T) -> (r: Result<(), Error>)
        ensures
            final(self).address() == old(self).address(),
            final(final(self).lent())@ == final(old(self).lent())@,
            match r {
                Ok(()) => written(old(self)@, 0, data.encode()) == Ok::<Seq<u8>, Error>(
                    final(self)@,
                ),
                Err(error) => written(old(self)@, 0, data.encode()) == Err::<Seq<u8>, Error>(error)
                    && final(self)@ == old(self)@,
            },
    {
        self.write_ref::<T>(0, data)
    }

    /// Writes the bytes that represent the items of `data` at the start.
    fn start_with_slice_ref<T: Castable>(&mut self, data: &[T]) -> (r: Result<(), Error>)
        ensures
            final(self).address() == old(self).address(),
            final(final(self).lent())@ == final(old(self).lent())@,
            match r {
                Ok(()) => T::spec_size() != 0 && written(old(self)@, 0, encode_all(data@))
                    == Ok::<Seq<u8>, Error>(final(self)@),
                Err(error) => final(self)@ == old(self)@ && if T::spec_size() == 0 {
                    error == Error::ZeroSizedType
                } else {
                    written(old(self)@, 0, encode_all(data@)) == Err::<Seq<u8>, Error>(error)
                },
            },
    {
        self.write_slice_ref::<T>(0, data)
    }

    /// Writes `data` so that it ends where the buffer ends.
    ///
    /// Fails with `OutOfBounds` if `data` is longer than the buffer, and as
    /// `write` does otherwise. Whether it fails or not, the bytes before the
    /// place where `data` would start are left as they were.
    fn end_with(&mut self, data: &[u8]) -> (r: Result<(), Error>)
        ensures
            final(self).address() == old(self).address(),
            final(final(self).lent())@ == final(old(self).lent())@,
            match r {
                Ok(()) => written_at_end(old(self)@, data@) == Ok::<Seq<u8>, Error>(final(self)@),
                Err(error) => written_at_end(old(self)@, data@) == Err::<Seq<u8>, Error>(error)
                    && final(self)@ == old(self)@,
            },
            data@.len() > old(self)@.len() ==> r is Err && r->Err_0 is OutOfBounds,
            data@.len() <= old(self)@.len() ==> final(self)@.len() == old(self)@.len()
                && final(self)@.subrange(0, old(self)@.len() - data@.len()) == old(self)@.subrange(
                0,
                old(self)@.len() - data@.len(),
            ),
    {
        let len: usize = self.len();
        if data.len() > len {
            return Err(Error::OutOfBounds(len, data.len()));
        }
        let r = self.write(len - data.len(), data);
        proof {
            let before = old(self)@;
            let start = before.len() - data@.len();
            if r is Ok {
                assert(self@.subrange(0, start) =~= before.subrange(0, start));
            }
        }
        r
    }

    /// Writes the bytes that represent `data` so that they end where the
    /// buffer ends.
    fn end_with_ref<T: Castable>(&mut self, data: &T) -> (r: Result<(), Error>)
        ensures
            final(self).address() == old(self).address(),
            final(final(self).lent())@ == final(old(self).lent())@,
            match r {
                Ok(()) => written_at_end(old(self)@, data.encode()) == Ok::<Seq<u8>, Error>(
                    final(self)@,
                ),
                Err(error) => written_at_end(old(self)@, data.encode()) == Err::<Seq<u8>, Error>(
                    error,
                ) && final(self)@ == old(self)@,
            },
    {
        let bytes = ref_to_bytes::<T>(data)?;
        self.end_with(bytes.as_slice())
    }

    /// Writes the bytes that represent the items of `data` so that they end
    /// where the buffer ends.
    fn end_with_slice_ref<T: Castable>(&mut self, data: &[T]) -> (r: Result<(), Error>)
        ensures
            final(self).address() == old(self).address(),
            final(final(self).lent())@ == final(old(self).lent())@,
            match r {
                Ok(()) => T::spec_size() != 0 && written_at_end(old(self)@, encode_all(data@))
                    == Ok::<Seq<u8>, Error>(final(self)@),
                Err(error) => final(self)@ == old(self)@ && if T::spec_size() == 0 {
                    error == Error::ZeroSizedType
                } else {
                    written_at_end(old(self)@, encode_all(data@)) == Err::<Seq<u8>, Error>(error)
                },
            },
    {
        let bytes = slice_ref_to_bytes::<T>(data)?;
        self.end_with(bytes.as_slice())
    }

    /// Turns the order of the bytes round.
    fn reverse(&mut self)
        ensures
            final(self)@ == old(self)@.reverse(),
            final(self).address() == old(self).address(),
            final(final(self).lent())@ == final(old(self).lent())@,
    {
        let bytes = self.as_mut_slice();
        let n: usize = bytes.len();
        let ghost before = bytes@;
        let mut i: usize = 0;
        while i < n / 2
            invariant
                i <= n / 2,
                bytes@.len() == n == before.len(),
                forall|j: int| 0 <= j < i ==> bytes@[j] == before[n - 1 - j],
                forall|j: int| n - i <= j < n ==> bytes@[j] == before[n - 1 - j],
                forall|j: int| i <= j < n - i ==> bytes@[j] == before[j],
            decreases n / 2 - i,
        {
            let low: u8 = bytes[i];
            let high: u8 = bytes[n - 1 - i];
            bytes[i] = high;
            bytes[n - 1 - i] = low;
            i += 1;
        }
        assert(bytes@ =~= before.reverse());
    }

    /// Copies `src` over the bytes. `src` has to be as long as the buffer.
    fn copy_from_data(&mut self, src: &[u8])
        requires
            src@.len() == old(self)@.len(),
        ensures
            final(self)@ == src@,
            final(self).address() == old(self).address(),
            final(final(self).lent())@ == final(old(self).lent())@,
    {
        let bytes = self.as_mut_slice();
        let n: usize = bytes.len();
        let mut i: usize = 0;
        while i < n
            invariant
                i <= n,
                bytes@.len() == n == src@.len(),
                forall|j: int| 0 <= j < i ==> bytes@[j] == src@[j],
            decreases n - i,
        {
            bytes[i] = src[i];
            i += 1;
        }
        assert(bytes@ =~= src@);
    }

    /// A walk over the bytes, from the first on.
    fn iter(&self) -> (iter: BufferIter<'_>)
        ensures
            iter.remaining() == self@,
    {
        let iter = BufferIter::new(self.as_slice(), 0);
        assert(self@.subrange(0, self@.len() as int) =~= self@);
        iter
    }

    /// A walk over the bytes, from the first on, to write them. What is
    /// written on the walk is written to the buffer.
    fn iter_mut(&mut self) -> (iter: BufferIterMut<'_>)
        ensures
            iter.buffer@ == old(self)@,
            iter.index == 0,
            final(self)@ == final(iter.buffer)@,
            final(self).address() == old(self).address(),
            final(final(self).lent())@ == final(old(self).lent())@,
    {
        BufferIterMut::new(self.as_mut_slice(), 0)
    }

    /// Looks for `data` in the buffer.
    ///
    /// Fails with `OutOfBounds` if `data` is empty or longer than the buffer.
    /// Else the result hands out every offset at which `data` occurs, in
    /// ascending order, occurrences that overlap too.
    fn search(&self, data: &[u8]) -> (r: Result<BufferSearchIter<'_>, Error>)
        ensures
            match r {
                Ok(found) => search_result(self@, data@) == Ok::<Seq<usize>, Error>(
                    found.remaining(),
                ),
                Err(error) => search_result(self@, data@) == Err::<Seq<usize>, Error>(error),
            },
    {
        BufferSearchIter::new(self.as_slice(), data)
    }

    /// Looks for the bytes that represent `data` in the buffer, as `search`
    /// does.
    fn search_ref<T: Castable>(&self, data: &T) -> (r: Result<BufferSearchIter<'_>, Error>)
        ensures
            match r {
                Ok(found) => search_result(self@, data.encode()) == Ok::<Seq<usize>, Error>(
                    found.remaining(),
                ),
                Err(error) => search_result(self@, data.encode()) == Err::<Seq<usize>, Error>(
                    error,
                ),
            },
    {
        let bytes = ref_to_bytes::<T>(data)?;
        BufferSearchIter::new(self.as_slice(), bytes.as_slice())
    }

    /// Looks for the bytes that represent the items of `data` in the buffer,
    /// as `search` does.
    ///
    /// Fails with `ZeroSizedType` if `T` has size zero.
    fn search_slice_ref<T: Castable>(&self, data: &[T]) -> (r: Result<BufferSearchIter<'_>, Error>)
        ensures
            match r {
                Ok(found) => T::spec_size() != 0 && search_result(self@, encode_all(data@))
                    == Ok::<Seq<usize>, Error>(found.remaining()),
                Err(error) => if T::spec_size() == 0 {
                    error == Error::ZeroSizedType
                } else {
                    search_result(self@, encode_all(data@)) == Err::<Seq<usize>, Error>(error)
                },
            },
    {
        let bytes = slice_ref_to_bytes::<T>(data)?;
        BufferSearchIter::new(self.as_slice(), bytes.as_slice())
    }

    /// Whether one scan over the buffer matches all of `data`.
    ///
    /// The scan counts the bytes of `data` that it has matched. A byte that
    /// does not match sets the count to zero and is not looked at again, so
    /// an occurrence that begins at such a byte is passed over. A true
    /// answer means that `data` occurs; a false one need not mean that it
    /// does not.
    fn contains(&self, data: &[u8]) -> (found: bool)
        ensures
            found == scan_finds(self@, data@),
    {
        let bytes = self.as_slice();
        let len: usize = bytes.len();
        let size: usize = data.len();
        if size > len {
            return false;
        }
        let mut matched: usize = 0;
        let mut i: usize = 0;
        while i < len && matched < size
            invariant
                i <= len,
                matched <= size,
                len == bytes@.len(),
                size == data@.len(),
                scan(bytes@, data@, i as int, matched as int) == scan(bytes@, data@, 0, 0),
            decreases len - i,
        {
            if bytes[i] != data[matched] {
                matched = 0;
            } else {
                matched += 1;
            }
            i += 1;
        }
        matched == size
    }

    /// Whether one scan over the buffer matches the bytes that represent
    /// `data`, as `contains` does. This never fails.
    fn contains_ref<T: Castable>(&self, data: &T) -> (r: Result<bool, Error>)
        ensures
            r == Ok::<bool, Error>(scan_finds(self@, data.encode())),
    {
        let bytes = ref_to_bytes::<T>(data)?;
        Ok(self.contains(bytes.as_slice()))
    }

    /// Whether one scan over the buffer matches the bytes that represent the
    /// items of `data`, as `contains` does.
    ///
    /// Fails with `ZeroSizedType` if `T` has size zero.
    fn contains_slice_ref<T: Castable>(&self, data: &[T]) -> (r: Result<bool, Error>)
        ensures
            r == if T::spec_size() == 0 {
                Err::<bool, Error>(Error::ZeroSizedType)
            } else {
                Ok::<bool, Error>(scan_finds(self@, encode_all(data@)))
            },
    {
        let bytes = slice_ref_to_bytes::<T>(data)?;
        Ok(self.contains(bytes.as_slice()))
    }

    /// Whether the buffer begins with `needle`.
    fn starts_with(&self, needle: &[u8]) -> (found: bool)
        ensures
            found == needle@.is_prefix_of(self@),
    {
        let bytes = self.as_slice();
        if needle.len() > bytes.len() {
            return false;
        }
        let found = matches_at(bytes, needle, 0);
        proof {
            if found {
                assert(needle@ =~= self@.subrange(0, needle@.len() as int));
            }
        }
        found
    }

    /// Whether the buffer ends with `needle`.
    fn ends_with(&self, needle: &[u8]) -> (found: bool)
        ensures
            found == needle@.is_suffix_of(self@),
    {
        let bytes = self.as_slice();
        if needle.len() > bytes.len() {
            return false;
        }
        let found = matches_at(bytes, needle, bytes.len() - needle.len());
        proof {
            if found {
                assert(needle@ =~= self@.subrange(
                    self@.len() - needle@.len(),
                    self@.len() as int,
                ));
            }
        }
        found
    }
}

} // verus!
