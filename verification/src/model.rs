//! What the operations of a buffer give, stated over byte sequences and
//! numbers, and what holds between them.
//!
//! Every operation of [`Buffer`](crate::buffer::Buffer) says in its contract
//! that it gives what one of these functions gives. The lemmas at the end
//! state what follows for operations that are used one after another.

use vstd::prelude::*;
use crate::bounds::{access_refusal, address_at, range_refusal, saturated};
use crate::castable::Castable;
use crate::convert::decode_all;
use crate::error::Error;

verus! {

/// Whether `pointer` is the address of one of the `len` bytes that start at
/// `address`.
pub open spec fn points_into(address: usize, len: nat, pointer: usize) -> bool {
    pointer.wrapping_sub(address) < len
}

/// The address just past the last of the `len` bytes that start at
/// `address`.
pub open spec fn end_address(address: usize, len: nat) -> usize {
    address_at(address, saturated(len))
}

/// The address of the byte at `offset` of the `len` bytes that start at
/// `address`: out of bounds unless `offset` is the index of a byte.
pub open spec fn pointer_at(address: usize, len: nat, offset: usize) -> Result<usize, Error> {
    if offset >= len {
        Err(Error::OutOfBounds(saturated(len), offset))
    } else {
        Ok(address_at(address, offset))
    }
}

/// The offset of the byte at `pointer` among the `len` bytes that start at
/// `address`: an invalid pointer unless it is the address of one of them.
pub open spec fn offset_of(address: usize, len: nat, pointer: usize) -> Result<usize, Error> {
    if points_into(address, len, pointer) {
        Ok(pointer.wrapping_sub(address))
    } else {
        Err(Error::InvalidPointer(pointer))
    }
}

/// The `size` bytes at `offset`, or why they are refused.
pub open spec fn bytes_at(bytes: Seq<u8>, offset: usize, size: usize) -> Result<Seq<u8>, Error> {
    match range_refusal(bytes.len(), offset, size as nat) {
        Some(error) => Err(error),
        None => Ok(bytes.subrange(offset as int, offset + size)),
    }
}

/// The value of type `T` at `offset` of `bytes`, which start at `address`, or
/// why it is refused: for its bounds first, then for its alignment.
pub open spec fn typed_at<T: Castable>(bytes: Seq<u8>, address: usize, offset: usize) -> Result<
    T,
    Error,
> {
    match access_refusal(
        bytes.len(),
        address,
        offset,
        T::spec_size(),
        T::spec_align(),
    ) {
        Some(error) => Err(error),
        None => Ok(T::decode(bytes.subrange(offset as int, offset + T::spec_size()))),
    }
}

/// The value of type `T` at `offset` of `bytes`, or why it is refused, where
/// alignment is not asked for.
pub open spec fn typed_at_unaligned<T: Castable>(bytes: Seq<u8>, offset: usize) -> Result<
    T,
    Error,
> {
    match range_refusal(bytes.len(), offset, T::spec_size()) {
        Some(error) => Err(error),
        None => Ok(T::decode(bytes.subrange(offset as int, offset + T::spec_size()))),
    }
}

/// The `count` values of type `T` at `offset` of `bytes`, which start at
/// `address`, or why they are refused: a type of size zero first, then the
/// bounds, then the alignment.
pub open spec fn items_at<T: Castable>(
    bytes: Seq<u8>,
    address: usize,
    offset: usize,
    count: usize,
) -> Result<Seq<T>, Error> {
    if T::spec_size() == 0 {
        Err(Error::ZeroSizedType)
    } else {
        match access_refusal(
            bytes.len(),
            address,
            offset,
            T::spec_size() * count as nat,
            T::spec_align(),
        ) {
            Some(error) => Err(error),
            None => Ok(
                decode_all::<T>(
                    bytes.subrange(offset as int, offset + T::spec_size() * count),
                    count as nat,
                ),
            ),
        }
    }
}

/// The `count` values of type `T` at `offset` of `bytes`, or why they are
/// refused, where alignment is not asked for.
pub open spec fn items_at_unaligned<T: Castable>(bytes: Seq<u8>, offset: usize, count: usize) -> Result<
    Seq<T>,
    Error,
> {
    if T::spec_size() == 0 {
        Err(Error::ZeroSizedType)
    } else {
        match range_refusal(bytes.len(), offset, T::spec_size() * count as nat) {
            Some(error) => Err(error),
            None => Ok(
                decode_all::<T>(
                    bytes.subrange(offset as int, offset + T::spec_size() * count),
                    count as nat,
                ),
            ),
        }
    }
}

/// `bytes` with the `size` bytes at `offset` replaced by `middle`.
pub open spec fn spliced(bytes: Seq<u8>, offset: int, size: int, middle: Seq<u8>) -> Seq<u8> {
    bytes.subrange(0, offset) + middle + bytes.subrange(offset + size, bytes.len() as int)
}

/// What `bytes` become when `data` is written at `offset`, or why the write
/// is refused.
pub open spec fn written(bytes: Seq<u8>, offset: usize, data: Seq<u8>) -> Result<Seq<u8>, Error> {
    match range_refusal(bytes.len(), offset, data.len()) {
        Some(error) => Err(error),
        None => Ok(spliced(bytes, offset as int, data.len() as int, data)),
    }
}

/// What `bytes` become when `data` is written so that it ends where they end,
/// or why the write is refused.
pub open spec fn written_at_end(bytes: Seq<u8>, data: Seq<u8>) -> Result<Seq<u8>, Error> {
    if data.len() > bytes.len() {
        Err(Error::OutOfBounds(saturated(bytes.len()), saturated(data.len())))
    } else {
        written(bytes, saturated((bytes.len() - data.len()) as nat), data)
    }
}

/// Why the window that holds a `T` at `offset` is refused, if it is.
pub open spec fn window_refusal<T: Castable>(len: nat, address: usize, offset: usize) -> Option<
    Error,
> {
    access_refusal(len, address, offset, T::spec_size(), T::spec_align())
}

/// Why the window that holds `count` values of type `T` at `offset` is
/// refused, if it is.
pub open spec fn windows_refusal<T: Castable>(
    len: nat,
    address: usize,
    offset: usize,
    count: usize,
) -> Option<Error> {
    if T::spec_size() == 0 {
        Some(Error::ZeroSizedType)
    } else {
        access_refusal(len, address, offset, T::spec_size() * count as nat, T::spec_align())
    }
}

/// Why the window that holds `count` values of type `T` at `offset` is
/// refused, if it is, where alignment is not asked for.
pub open spec fn windows_refusal_unaligned<T: Castable>(len: nat, offset: usize, count: usize) -> Option<
    Error,
> {
    if T::spec_size() == 0 {
        Some(Error::ZeroSizedType)
    } else {
        range_refusal(len, offset, T::spec_size() * count as nat)
    }
}

/// How a window of `size` bytes at `offset` relates to the buffer it was cut
/// from: it starts out as those bytes, and what is written to it is what the
/// buffer holds there afterwards. The bytes around it stay.
pub open spec fn is_window(
    before: Seq<u8>,
    after: Seq<u8>,
    offset: usize,
    size: nat,
    window: Seq<u8>,
    window_after: Seq<u8>,
) -> bool {
    &&& window == before.subrange(offset as int, offset + size)
    &&& after == spliced(before, offset as int, size as int, window_after)
}

/// What a function that hands out a window may give: where `refusal` names
/// an error, that error, with the buffer left as it was; else a window of
/// `size` bytes at `offset`. The window is given by what it holds when it is
/// handed out and what it holds when it is given back.
pub open spec fn window_outcome(
    refusal: Option<Error>,
    before: Seq<u8>,
    after: Seq<u8>,
    offset: usize,
    size: nat,
    outcome: Result<(Seq<u8>, Seq<u8>), Error>,
) -> bool {
    match outcome {
        Ok((window, window_after)) => refusal is None && is_window(
            before,
            after,
            offset,
            size,
            window,
            window_after,
        ),
        Err(error) => refusal == Some(error) && after == before,
    }
}

/// The refusal of a pointer that is not the address of a byte of the buffer,
/// or else the refusal that `at_offset` gives.
pub open spec fn refusal_at(
    address: usize,
    len: nat,
    pointer: usize,
    at_offset: Option<Error>,
) -> Option<Error> {
    match offset_of(address, len, pointer) {
        Ok(_) => at_offset,
        Err(error) => Some(error),
    }
}

/// A result that holds a vector, as a result that holds what the vector holds.
pub open spec fn viewed<T>(r: Result<Vec<T>, Error>) -> Result<Seq<T>, Error> {
    match r {
        Ok(items) => Ok(items@),
        Err(error) => Err(error),
    }
}

/// A result that holds a slice, as a result that holds what the slice holds.
pub open spec fn viewed_slice<T>(r: Result<&[T], Error>) -> Result<Seq<T>, Error> {
    match r {
        Ok(items) => Ok(items@),
        Err(error) => Err(error),
    }
}

/// Converting the offset of a byte to its address and the address back to
/// an offset gives the offset again.
pub proof fn lemma_offset_round_trip(address: usize, len: nat, offset: usize)
    requires
        offset < len,
    ensures
        pointer_at(address, len, offset) is Ok,
        offset_of(address, len, pointer_at(address, len, offset)->Ok_0) == Ok::<usize, Error>(
            offset,
        ),
{
}

/// Converting the address of a byte to its offset and the offset back to an
/// address gives the address again.
pub proof fn lemma_pointer_round_trip(address: usize, len: nat, pointer: usize)
    requires
        points_into(address, len, pointer),
    ensures
        offset_of(address, len, pointer) is Ok,
        pointer_at(address, len, offset_of(address, len, pointer)->Ok_0) == Ok::<usize, Error>(
            pointer,
        ),
{
}

/// A read fails exactly when it would run past the end, and then it fails
/// with `OutOfBounds`; when it does not fail, it gives the bytes of the range.
/// The one range left out is the empty one at the very end, which is refused
/// because its offset is not the index of a byte.
pub proof fn lemma_read_fails_iff_past_end(bytes: Seq<u8>, offset: usize, size: usize)
    requires
        bytes.len() <= usize::MAX,
        offset != bytes.len() || size != 0,
    ensures
        bytes_at(bytes, offset, size) is Err <==> offset + size > bytes.len(),
        bytes_at(bytes, offset, size) is Err ==> bytes_at(bytes, offset, size)->Err_0
            is OutOfBounds,
        bytes_at(bytes, offset, size) is Ok ==> bytes_at(bytes, offset, size)->Ok_0
            == bytes.subrange(offset as int, offset + size),
{
}

/// A checked typed read fails with `OutOfBounds` when the value would run
/// past the end, whatever the address; it fails with `BadAlignment` when the
/// value lies in bounds at an address that is not aligned for the type; and
/// it gives the value in every other case.
pub proof fn lemma_typed_read_outcomes<T: Castable>(bytes: Seq<u8>, address: usize, offset: usize)
    requires
        bytes.len() <= usize::MAX,
    ensures
        offset + T::spec_size() > bytes.len() ==> typed_at::<T>(bytes, address, offset) is Err
            && typed_at::<T>(bytes, address, offset)->Err_0 is OutOfBounds,
        offset < bytes.len() && offset + T::spec_size() <= bytes.len() && address_at(
            address,
            offset,
        ) % T::spec_align() != 0 ==> typed_at::<T>(bytes, address, offset) is Err
            && typed_at::<T>(bytes, address, offset)->Err_0 is BadAlignment,
        offset < bytes.len() && offset + T::spec_size() <= bytes.len() && address_at(
            address,
            offset,
        ) % T::spec_align() == 0 ==> typed_at::<T>(bytes, address, offset) == Ok::<
            T,
            Error,
        >(T::decode(bytes.subrange(offset as int, offset + T::spec_size()))),
{
}

/// What is written into the window of a `T` is what a typed read at the same
/// offset then finds: if `get_mut_ref` hands out a window at `offset` and the
/// bytes of `value` are put into it, `get_ref` at `offset` gives `value`.
pub proof fn lemma_write_then_read<T: Castable>(
    before: Seq<u8>,
    address: usize,
    offset: usize,
    value: T,
)
    requires
        before.len() <= usize::MAX,
        window_refusal::<T>(before.len(), address, offset) is None,
    ensures
        typed_at::<T>(
            spliced(before, offset as int, T::spec_size() as int, value.encode()),
            address,
            offset,
        ) == Ok::<T, Error>(value),
{
    let after = spliced(before, offset as int, T::spec_size() as int, value.encode());
    value.lemma_encode_len();
    value.lemma_decode_encode();
    assert(after.subrange(offset as int, offset + T::spec_size()) =~= value.encode());
}

/// A value that is appended to a buffer is the value that a typed read finds
/// at the old length, provided that the type has a size and that the place
/// where the buffer ended is aligned for it. `address` is where the buffer
/// lies after the value was appended.
pub proof fn lemma_append_then_read<T: Castable>(before: Seq<u8>, address: usize, value: T)
    requires
        before.len() + T::spec_size() <= usize::MAX,
        T::spec_size() > 0,
        address_at(address, saturated(before.len())) % T::spec_align() == 0,
    ensures
        typed_at::<T>(before + value.encode(), address, saturated(before.len())) == Ok::<T, Error>(
            value,
        ),
{
    let after = before + value.encode();
    value.lemma_encode_len();
    value.lemma_decode_encode();
    assert(after.subrange(before.len() as int, (before.len() + T::spec_size()) as int)
        =~= value.encode());
}

/// Writing at the end leaves the bytes before the written ones as they were,
/// and fails with `OutOfBounds` when there are more bytes to write than the
/// buffer has.
pub proof fn lemma_written_at_end(bytes: Seq<u8>, data: Seq<u8>)
    requires
        bytes.len() <= usize::MAX,
    ensures
        data.len() > bytes.len() ==> written_at_end(bytes, data) is Err && written_at_end(
            bytes,
            data,
        )->Err_0 is OutOfBounds,
        data.len() <= bytes.len() && written_at_end(bytes, data) is Ok ==> written_at_end(
            bytes,
            data,
        )->Ok_0.subrange(0, bytes.len() - data.len()) == bytes.subrange(
            0,
            bytes.len() - data.len(),
        ),
{
    if data.len() <= bytes.len() && written_at_end(bytes, data) is Ok {
        let start = bytes.len() - data.len();
        assert(written_at_end(bytes, data)->Ok_0.subrange(0, start) =~= bytes.subrange(0, start));
    }
}

} // verus!
