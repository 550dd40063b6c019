//! The unowned backend: a view over bytes that somebody else holds.

use vstd::prelude::*;
use crate::bounds::{address_at, check_range, range_refusal, saturated};
use crate::buffer::{same_bytes, Buffer};
use crate::convert::address_of;
use crate::error::Error;
use crate::model::{is_window, spliced};

verus! {

/// A buffer over bytes that it does not own.
///
/// It borrows the bytes for as long as it lives, so they can neither go away
/// nor be touched by anybody else meanwhile, and it cannot change their
/// number. The address is the one its maker gave it.
#[derive(Debug)]
pub struct PtrBuffer<'a> {
    /// The bytes that the buffer looks at.
    pub data: &'a mut [u8],
    /// The address at which the first byte is taken to lie.
    pub address: usize,
}

impl<'a> View for PtrBuffer<'a> {
    type V = Seq<u8>;

    open spec fn view(&self) -> Seq<u8> {
        self.data@
    }
}

impl<'a> PtrBuffer<'a> {
    /// A buffer over `data`, taken to lie at the address `pointer`.
    pub fn new(pointer: usize, data: &'a mut [u8]) -> (buffer: Self)
        ensures
            buffer@ == old(data)@,
            buffer.address == pointer,
            final(data)@ == final(buffer.data)@,
    {
        PtrBuffer { data, address: pointer }
    }

    /// A buffer over `data`, at the address where `data` lies.
    pub fn from_slice(data: &'a mut [u8]) -> (buffer: Self)
        ensures
            buffer@ == old(data)@,
            final(data)@ == final(buffer.data)@,
    {
        let address = address_of(&*data);
        PtrBuffer { data, address }
    }

    /// Takes the first byte to lie at the address `pointer` from now on.
    pub fn set_pointer(&mut self, pointer: usize)
        ensures
            final(self).address == pointer,
            final(self)@ == old(self)@,
            final(final(self).data)@ == final(old(self).data)@,
    {
        self.address = pointer;
    }

    /// Cuts the view down to its first `size` bytes.
    ///
    /// Fails with `OutOfBounds` if `size` is more than the length, and then
    /// leaves the view as it was: a view cannot reach past the bytes that it
    /// has borrowed.
    pub fn set_size(&mut self, size: usize) -> (r: Result<(), Error>)
        ensures
            final(self).address == old(self).address,
            match r {
                Ok(()) => {
                    &&& size <= old(self)@.len()
                    &&& final(self)@ == old(self)@.subrange(0, size as int)
                    &&& final(old(self).data)@ == final(final(self).data)@ + old(self)@.subrange(
                        size as int,
                        old(self)@.len() as int,
                    )
                },
                Err(error) => {
                    &&& size > old(self)@.len()
                    &&& error == Error::OutOfBounds(saturated(old(self)@.len()), size)
                    &&& final(self)@ == old(self)@
                    &&& final(final(self).data)@ == final(old(self).data)@
                },
            },
    {
        let len: usize = self.data.len();
        if size > len {
            return Err(Error::OutOfBounds(len, size));
        }
        let mut whole: &mut [u8] = &mut [];
        core::mem::swap(&mut self.data, &mut whole);
        let (head, _) = whole.split_at_mut(size);
        self.data = head;
        Ok(())
    }

    /// A buffer over the `size` bytes at `offset` of this one, at the address
    /// that the byte at `offset` has here.
    ///
    /// Fails with `OutOfBounds` if `offset` is not the index of a byte or if
    /// the range runs past the end. What is written to the new buffer is
    /// written to this one.
    pub fn sub_buffer(&mut self, offset: usize, size: usize) -> (r: Result<PtrBuffer<'_>, Error>)
        ensures
            final(self).address == old(self).address,
            final(final(self).data)@ == final(old(self).data)@,
            match r {
                Ok(part) => {
                    &&& range_refusal(old(self)@.len(), offset, size as nat) is None
                    &&& part.address == address_at(old(self).address, offset)
                    &&& is_window(
                        old(self)@,
                        final(self)@,
                        offset,
                        size as nat,
                        part@,
                        final(part.data)@,
                    )
                },
                Err(error) => {
                    &&& range_refusal(old(self)@.len(), offset, size as nat) == Some(error)
                    &&& final(self)@ == old(self)@
                },
            },
    {
        check_range(self.data.len(), offset, size)?;
        let address = self.address.wrapping_add(offset);
        let (head, rest) = self.data.split_at_mut(offset);
        let (data, tail) = rest.split_at_mut(size);
        proof {
            let before = old(self)@;
            assert(data@ =~= before.subrange(offset as int, offset + size));
            assert(tail@ =~= before.subrange(offset + size, before.len() as int));
            let after = final(data)@;
            assert(head@ + (after + tail@) =~= spliced(before, offset as int, size as int, after));
        }
        Ok(PtrBuffer { data, address })
    }

    /// Two buffers: over the first `mid` bytes of this one, and over the rest.
    /// They lie side by side, do not overlap, and cover this buffer.
    ///
    /// Fails with `OutOfBounds` if `mid` is more than the length. What is
    /// written to the two buffers is written to this one.
    pub fn split_at(&mut self, mid: usize) -> (r: Result<(PtrBuffer<'_>, PtrBuffer<'_>), Error>)
        ensures
            final(self).address == old(self).address,
            final(final(self).data)@ == final(old(self).data)@,
            match r {
                Ok((left, right)) => {
                    &&& mid <= old(self)@.len()
                    &&& left@ == old(self)@.subrange(0, mid as int)
                    &&& right@ == old(self)@.subrange(mid as int, old(self)@.len() as int)
                    &&& left@ + right@ == old(self)@
                    &&& left.address == old(self).address
                    &&& right.address == address_at(old(self).address, mid)
                    &&& final(self)@ == final(left.data)@ + final(right.data)@
                },
                Err(error) => {
                    &&& mid > old(self)@.len()
                    &&& error == Error::OutOfBounds(saturated(old(self)@.len()), mid)
                    &&& final(self)@ == old(self)@
                },
            },
    {
        let len: usize = self.data.len();
        if mid > len {
            return Err(Error::OutOfBounds(len, mid));
        }
        let address = self.address;
        let (left, right) = self.data.split_at_mut(mid);
        assert(left@ + right@ =~= old(self)@);
        Ok(
            (
                PtrBuffer { data: left, address },
                PtrBuffer { data: right, address: address.wrapping_add(mid) },
            ),
        )
    }
}

impl<'a, T: Buffer> PartialEq<T> for PtrBuffer<'a> {
    /// Two buffers are equal when they hold the same bytes, wherever they lie.
    fn eq(&self, other: &T) -> (same: bool) {
        same_bytes(&*self.data, other.as_slice())
    }
}

impl<'a, T: Buffer> vstd::std_specs::cmp::PartialEqSpecImpl<T> for PtrBuffer<'a> {
    open spec fn obeys_eq_spec() -> bool {
        true
    }

    open spec fn eq_spec(&self, other: &T) -> bool {
        self@ == other@
    }
}

impl<'a> PartialEq<[u8]> for PtrBuffer<'a> {
    /// A buffer is equal to a slice when it holds the bytes of the slice.
    fn eq(&self, other: &[u8]) -> (same: bool) {
        same_bytes(&*self.data, other)
    }
}

impl<'a> vstd::std_specs::cmp::PartialEqSpecImpl<[u8]> for PtrBuffer<'a> {
    open spec fn obeys_eq_spec() -> bool {
        true
    }

    open spec fn eq_spec(&self, other: &[u8]) -> bool {
        self@ == other@
    }
}

impl<'a, const N: usize> PartialEq<[u8; N]> for PtrBuffer<'a> {
    /// A buffer is equal to an array when it holds the bytes of the array.
    fn eq(&self, other: &[u8; N]) -> (same: bool) {
        same_bytes(&*self.data, other.as_slice())
    }
}

impl<'a, const N: usize> vstd::std_specs::cmp::PartialEqSpecImpl<[u8; N]> for PtrBuffer<'a> {
    open spec fn obeys_eq_spec() -> bool {
        true
    }

    open spec fn eq_spec(&self, other: &[u8; N]) -> bool {
        self@ == other@
    }
}

impl<'a> PartialEq<Vec<u8>> for PtrBuffer<'a> {
    /// A buffer is equal to a vector when it holds the bytes of the vector.
    fn eq(&self, other: &Vec<u8>) -> (same: bool) {
        same_bytes(&*self.data, other.as_slice())
    }
}

impl<'a> vstd::std_specs::cmp::PartialEqSpecImpl<Vec<u8>> for PtrBuffer<'a> {
    open spec fn obeys_eq_spec() -> bool {
        true
    }

    open spec fn eq_spec(&self, other: &Vec<u8>) -> bool {
        self@ == other@
    }
}

impl<'a> core::ops::Index<usize> for PtrBuffer<'a> {
    type Output = u8;

    /// The byte at `index`, which has to be the index of a byte.
    fn index(&self, index: usize) -> (byte: &u8)
        ensures
            *byte == self@[index as int],
    {
        let bytes = &*self.data;
        &bytes[index]
    }
}

impl<'a> vstd::std_specs::core::IndexSpecImpl<usize> for PtrBuffer<'a> {
    open spec fn index_req(&self, index: &usize) -> bool {
        *index < self@.len()
    }
}

impl<'a> core::ops::Index<core::ops::Range<usize>> for PtrBuffer<'a> {
    type Output = [u8];

    /// The bytes from `index.start` up to `index.end`, which has to be a
    /// range inside the buffer.
    fn index(&self, index: core::ops::Range<usize>) -> (bytes: &[u8])
        ensures
            bytes@ == self@.subrange(index.start as int, index.end as int),
    {
        vstd::slice::slice_subrange(&*self.data, index.start, index.end)
    }
}

impl<'a> vstd::std_specs::core::IndexSpecImpl<core::ops::Range<usize>> for PtrBuffer<'a> {
    open spec fn index_req(&self, index: &core::ops::Range<usize>) -> bool {
        index.start <= index.end <= self@.len()
    }
}

impl<'a> IntoIterator for PtrBuffer<'a> {
    type Item = u8;

    type IntoIter = std::vec::IntoIter<u8>;

    /// Copies of the bytes, one by one, from the first on.
    fn into_iter(self) -> (iter: std::vec::IntoIter<u8>)
        ensures
            vstd::std_specs::iter::IteratorSpec::remaining(&iter) == self@,
    {
        broadcast use vstd::std_specs::vec::axiom_spec_into_iter;

        vstd::slice::slice_to_vec(&*self.data).into_iter()
    }
}

impl<'a> Eq for PtrBuffer<'a> {

}

impl<'a> Buffer for PtrBuffer<'a> {
    open spec fn address(&self) -> usize {
        self.address
    }

    open spec fn lent(&self) -> &mut [u8] {
        self.data
    }

    fn len(&self) -> (n: usize) {
        self.data.len()
    }

    fn as_ptr(&self) -> (pointer: usize) {
        self.address
    }

    fn as_slice(&self) -> (bytes: &[u8]) {
        &*self.data
    }

    fn as_mut_slice(&mut self) -> (bytes: &mut [u8]) {
        &mut *self.data
    }
}

} // verus!
