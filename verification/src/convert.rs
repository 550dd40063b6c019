//! The raw conversions between typed values and bytes.
//!
//! These are free functions, not methods of a buffer: whatever holds bytes can
//! use them. A value becomes the bytes that represent it; bytes become a value
//! only if there are exactly as many as the type has and they lie at an
//! address that the type accepts.

use vstd::prelude::*;
use crate::bounds::{alignment_refusal, check_alignment, saturated};
use crate::castable::Castable;
use crate::error::Error;

verus! {

/// The representations of `values`, one after another.
pub open spec fn encode_all<T: Castable>(values: Seq<T>) -> Seq<u8>
    decreases values.len(),
{
    if values.len() == 0 {
        Seq::empty()
    } else {
        encode_all(values.drop_last()) + values.last().encode()
    }
}

/// The `index`-th run of `size` bytes of `bytes`.
pub open spec fn chunk(bytes: Seq<u8>, size: nat, index: int) -> Seq<u8> {
    bytes.subrange(index * size, (index + 1) * size)
}

/// The `count` values that the first `count * T::spec_size()` bytes of `bytes`
/// represent, one after another.
pub open spec fn decode_all<T: Castable>(bytes: Seq<u8>, count: nat) -> Seq<T> {
    Seq::new(count, |i: int| T::decode(chunk(bytes, T::spec_size(), i)))
}

/// Why `len` bytes at `address` are refused as a `T`, if they are: because
/// their number is not the size of `T`, or else because `address` is not
/// aligned for `T`.
pub open spec fn cast_refusal<T: Castable>(len: nat, address: usize) -> Option<Error> {
    if len != T::spec_size() {
        Some(Error::SizeMismatch(saturated(len), saturated(T::spec_size())))
    } else {
        alignment_refusal(address, T::spec_align())
    }
}

/// What casting `bytes`, which lie at `address`, to a `T` gives: the value
/// they represent, unless they are refused.
pub open spec fn cast<T: Castable>(bytes: Seq<u8>, address: usize) -> Result<T, Error> {
    match cast_refusal::<T>(bytes.len(), address) {
        Some(error) => Err(error),
        None => Ok(T::decode(bytes)),
    }
}

/// The representations of `n` values take `n` times the size of one.
pub proof fn lemma_encode_all_len<T: Castable>(values: Seq<T>)
    ensures
        encode_all(values).len() == values.len() * T::spec_size(),
    decreases values.len(),
{
    if values.len() > 0 {
        lemma_encode_all_len(values.drop_last());
        values.last().lemma_encode_len();
        assert((values.len() - 1) * T::spec_size() + T::spec_size() == values.len()
            * T::spec_size()) by (nonlinear_arith);
    } else {
        assert(values.len() * T::spec_size() == 0) by (nonlinear_arith)
            requires
                values.len() == 0,
        ;
    }
}

/// In the representation of a run of values, the `index`-th chunk is the
/// representation of the `index`-th value.
pub proof fn lemma_encode_all_chunk<T: Castable>(values: Seq<T>, index: int)
    requires
        0 <= index < values.len(),
    ensures
        chunk(encode_all(values), T::spec_size(), index) == values[index].encode(),
    decreases values.len(),
{
    let size = T::spec_size();
    let front = values.drop_last();
    lemma_encode_all_len(front);
    lemma_encode_all_len(values);
    values.last().lemma_encode_len();
    assert(index * size + size == (index + 1) * size) by (nonlinear_arith);
    if index == values.len() - 1 {
        assert(chunk(encode_all(values), size, index) =~= values.last().encode());
    } else {
        lemma_encode_all_chunk(front, index);
        assert((index + 1) * size <= front.len() * size) by (nonlinear_arith)
            requires
                index + 1 <= front.len(),
        ;
        assert(0 <= index * size) by (nonlinear_arith)
            requires
                0 <= index,
        ;
        assert(chunk(encode_all(values), size, index) =~= chunk(encode_all(front), size, index));
    }
}

/// Reading back a run of values that was written gives the values.
pub proof fn lemma_decode_encode_all<T: Castable>(values: Seq<T>)
    ensures
        decode_all::<T>(encode_all(values), values.len()) == values,
{
    let back = decode_all::<T>(encode_all(values), values.len());
    assert forall|i: int| 0 <= i < values.len() implies back[i] == values[i] by {
        lemma_encode_all_chunk(values, i);
        values[i].lemma_decode_encode();
    }
    assert(back =~= values);
}

/// Writing what a run of bytes was read as gives the bytes: every one of
/// them counts.
pub proof fn lemma_encode_decode_all<T: Castable>(bytes: Seq<u8>, count: nat)
    requires
        bytes.len() == count * T::spec_size(),
    ensures
        encode_all(decode_all::<T>(bytes, count)) == bytes,
    decreases count,
{
    let size = T::spec_size();
    let values = decode_all::<T>(bytes, count);
    if count == 0 {
        assert(count * size == 0) by (nonlinear_arith)
            requires
                count == 0,
        ;
        assert(encode_all(values) =~= bytes);
    } else {
        let front_len = (count - 1) * size;
        assert(front_len + size == count * size && 0 <= front_len) by (nonlinear_arith)
            requires
                front_len == (count - 1) * size,
                count >= 1,
        ;
        let front = bytes.subrange(0, front_len as int);
        assert(front.len() == (count - 1) as nat * size);
        lemma_encode_decode_all::<T>(front, (count - 1) as nat);
        assert(values.drop_last() =~= decode_all::<T>(front, (count - 1) as nat)) by {
            assert forall|i: int| 0 <= i < count - 1 implies chunk(bytes, size, i) == chunk(
                front,
                size,
                i,
            ) by {
                assert(0 <= i * size <= (i + 1) * size <= front_len) by (nonlinear_arith)
                    requires
                        0 <= i < count - 1,
                        front_len == (count - 1) * size,
                ;
                assert(chunk(bytes, size, i) =~= chunk(front, size, i));
            }
        }
        let last = chunk(bytes, size, count - 1);
        assert(last =~= bytes.subrange(front_len as int, bytes.len() as int));
        T::lemma_encode_decode(last);
        assert(values.last() == T::decode(last));
        assert(encode_all(values) =~= bytes);
    }
}

/// Whether `T` has size zero.
pub fn is_zero_sized<T: Castable>() -> (zero: bool)
    ensures
        zero == (T::spec_size() == 0),
{
    match T::size() {
        Some(size) => size == 0,
        None => false,
    }
}

/// How many bytes `count` values of type `T` take, or `None` where no
/// `usize` can hold that number.
pub fn bytes_needed<T: Castable>(count: usize) -> (total: Option<usize>)
    ensures
        match total {
            Some(n) => n == T::spec_size() * count,
            None => T::spec_size() * count > usize::MAX,
        },
{
    if count == 0 {
        assert(T::spec_size() * 0 == 0) by (nonlinear_arith);
        return Some(0);
    }
    match T::size() {
        Some(size) => size.checked_mul(count),
        None => {
            assert(T::spec_size() * count >= T::spec_size()) by (nonlinear_arith)
                requires
                    count >= 1,
            ;
            None
        },
    }
}

/// Appends `other` to `bytes`.
pub fn extend(bytes: &mut Vec<u8>, other: &[u8])
    ensures
        final(bytes)@ == old(bytes)@ + other@,
{
    bytes.extend_from_slice(other);
    assert(bytes@ =~= old(bytes)@ + other@);
}

/// The bytes that represent the items of `items`, one item after another.
pub fn encode_items<T: Castable>(items: &[T]) -> (bytes: Vec<u8>)
    ensures
        bytes@ == encode_all(items@),
{
    let mut bytes: Vec<u8> = Vec::new();
    let mut i: usize = 0;
    while i < items.len()
        invariant
            i <= items@.len(),
            bytes@ == encode_all(items@.subrange(0, i as int)),
        decreases items@.len() - i,
    {
        let item: Vec<u8> = items[i].to_bytes();
        proof {
            let longer = items@.subrange(0, i + 1);
            assert(longer.drop_last() =~= items@.subrange(0, i as int));
        }
        extend(&mut bytes, item.as_slice());
        i += 1;
    }
    assert(items@.subrange(0, i as int) =~= items@);
    bytes
}

/// The `count` values of type `T` that `window` holds.
pub fn decode_items<T: Castable>(window: &[u8], count: usize) -> (items: Vec<T>)
    requires
        window@.len() == T::spec_size() * count,
    ensures
        items@ == decode_all::<T>(window@, count as nat),
{
    let total: usize = window.len();
    let size: usize = match T::size() {
        Some(size) => size,
        None => {
            assert(T::spec_size() * count >= T::spec_size() || count == 0) by (nonlinear_arith);
            assert(T::spec_size() * 0 == 0) by (nonlinear_arith);
            return Vec::new();
        },
    };
    let mut items: Vec<T> = Vec::new();
    let mut i: usize = 0;
    while i < count
        invariant
            i <= count,
            size == T::spec_size(),
            window@.len() == total == size * count,
            items@ == decode_all::<T>(window@, i as nat),
        decreases count - i,
    {
        assert(i * size + size == (i + 1) * size && (i + 1) * size <= size * count && 0 <= i
            * size) by (nonlinear_arith)
            requires
                i < count,
        ;
        let start: usize = i * size;
        let item = T::from_bytes(vstd::slice::slice_subrange(window, start, start + size));
        items.push(item);
        i += 1;
        assert(items@ =~= decode_all::<T>(window@, i as nat));
    }
    items
}

/// The bytes that represent `data`.
///
/// This never fails. A type of size zero gives no bytes.
pub fn ref_to_bytes<T: Castable>(data: &T) -> (r: Result<Vec<u8>, Error>)
    ensures
        r is Ok,
        r->Ok_0@ == data.encode(),
        r->Ok_0@.len() == T::spec_size(),
{
    proof {
        data.lemma_encode_len();
    }
    Ok(data.to_bytes())
}

/// The bytes that represent the items of `data`, one item after another.
///
/// Fails with `ZeroSizedType` if `T` has size zero: the bytes would not show
/// where one item ends and the next begins.
pub fn slice_ref_to_bytes<T: Castable>(data: &[T]) -> (r: Result<Vec<u8>, Error>)
    ensures
        T::spec_size() == 0 ==> r == Err::<Vec<u8>, Error>(Error::ZeroSizedType),
        T::spec_size() != 0 ==> r is Ok && r->Ok_0@ == encode_all(data@),
{
    if is_zero_sized::<T>() {
        return Err(Error::ZeroSizedType);
    }
    Ok(encode_items::<T>(data))
}

/// Checks that `len` bytes at `address` can be taken as a `T`.
pub fn check_cast<T: Castable>(len: usize, address: usize) -> (r: Result<(), Error>)
    ensures
        r == match cast_refusal::<T>(len as nat, address) {
            Some(error) => Err::<(), Error>(error),
            None => Ok(()),
        },
{
    match T::size() {
        Some(size) => {
            if len != size {
                return Err(Error::SizeMismatch(len, size));
            }
        },
        None => {
            return Err(Error::SizeMismatch(len, usize::MAX));
        },
    }
    check_alignment(address, T::align())
}

/// Casts `bytes`, which lie at `address`, to a `T`.
///
/// Fails with `SizeMismatch` unless there are exactly as many bytes as `T`
/// has, then with `BadAlignment` unless `address` is aligned for `T`.
pub fn bytes_to_ref_at<T: Castable>(bytes: &[u8], address: usize) -> (r: Result<T, Error>)
    ensures
        r == cast::<T>(bytes@, address),
{
    check_cast::<T>(bytes.len(), address)?;
    Ok(T::from_bytes(bytes))
}

/// Hands `bytes`, which lie at `address`, out as the bytes of a `T`, to
/// write.
///
/// Fails as `bytes_to_ref_at` does. What comes back are the same bytes: what
/// is written to them is written to `bytes`.
pub fn bytes_to_mut_ref_at<T: Castable>(bytes: &mut [u8], address: usize) -> (r: Result<
    &mut [u8],
    Error,
>)
    ensures
        match r {
            Ok(window) => {
                &&& cast_refusal::<T>(old(bytes)@.len(), address) is None
                &&& window@ == old(bytes)@
                &&& final(bytes)@ == final(window)@
            },
            Err(error) => {
                &&& cast_refusal::<T>(old(bytes)@.len(), address) == Some(error)
                &&& final(bytes)@ == old(bytes)@
            },
        },
{
    check_cast::<T>(bytes.len(), address)?;
    Ok(bytes)
}

/// The address at which `data` lies: for a slice, that of its first item.
///
/// This is `core::ptr::from_ref` as a number. Which address comes back is up
/// to whoever laid the memory out, so nothing is claimed of it.
#[verifier::external_body]
pub(crate) fn address_of<T: ?Sized>(data: &T) -> (address: usize) {
    core::ptr::from_ref(data).cast::<u8>() as usize
}

/// Casts `bytes` to a `T`, at the address where they lie.
///
/// Fails with `SizeMismatch` unless there are exactly as many bytes as `T`
/// has. Otherwise the address decides: the result is the value that the bytes
/// represent, or `BadAlignment` with the alignment of `T` and what the
/// address leaves when divided by it. A type of alignment 1 is never refused
/// for its address.
pub fn bytes_to_ref<T: Castable>(bytes: &[u8]) -> (r: Result<T, Error>)
    ensures
        bytes@.len() != T::spec_size() ==> r == Err::<T, Error>(
            Error::SizeMismatch(saturated(bytes@.len()), saturated(T::spec_size())),
        ),
        bytes@.len() == T::spec_size() ==> match r {
            Ok(value) => value == T::decode(bytes@),
            Err(Error::BadAlignment(align, residue)) => align == T::spec_align() && 0 < residue
                < align,
            Err(_) => false,
        },
        bytes@.len() == T::spec_size() && T::spec_align() == 1 ==> r is Ok,
{
    let address: usize = address_of(bytes);
    let r = bytes_to_ref_at::<T>(bytes, address);
    proof {
        T::lemma_layout();
    }
    r
}

/// Hands `bytes` out as the bytes of a `T`, to write, at the address where
/// they lie.
///
/// Fails as `bytes_to_ref` does: with `SizeMismatch` unless there are exactly
/// as many bytes as `T` has, and otherwise the address decides between the
/// bytes and `BadAlignment`. A type of alignment 1 is never refused for its
/// address. What comes back are the same bytes: what is written to them is
/// written to `bytes`.
pub fn bytes_to_mut_ref<T: Castable>(bytes: &mut [u8]) -> (r: Result<&mut [u8], Error>)
    ensures
        old(bytes)@.len() != T::spec_size() ==> r is Err && r->Err_0 == Error::SizeMismatch(
            saturated(old(bytes)@.len()),
            saturated(T::spec_size()),
        ),
        old(bytes)@.len() == T::spec_size() && T::spec_align() == 1 ==> r is Ok,
        match r {
            Ok(window) => {
                &&& old(bytes)@.len() == T::spec_size()
                &&& window@ == old(bytes)@
                &&& final(bytes)@ == final(window)@
            },
            Err(Error::BadAlignment(align, residue)) => {
                &&& old(bytes)@.len() == T::spec_size()
                &&& align == T::spec_align()
                &&& 0 < residue < align
                &&& final(bytes)@ == old(bytes)@
            },
            Err(_) => {
                &&& old(bytes)@.len() != T::spec_size()
                &&& final(bytes)@ == old(bytes)@
            },
        },
{
    let address: usize = address_of(&*bytes);
    proof {
        T::lemma_layout();
    }
    bytes_to_mut_ref_at::<T>(bytes, address)
}

} // verus!
