//! The owned backend: a buffer that holds its bytes and can grow and shrink.

use vstd::prelude::*;
use crate::buffer::{same_bytes, Buffer};
use crate::castable::Castable;
use crate::convert::{address_of, encode_all, extend, ref_to_bytes, slice_ref_to_bytes};
use crate::error::Error;
use crate::ptr::PtrBuffer;

verus! {

/// A buffer that owns its bytes.
///
/// Besides what every [`Buffer`] can do, it can change its length. An
/// operation that does so may move the bytes to another place: the contract
/// of such an operation says what the bytes are afterwards and leaves the
/// address open. Windows into the buffer borrow it, so none is alive when the
/// bytes move.
#[derive(Debug)]
pub struct VecBuffer {
    data: Vec<u8>,
    address: usize,
}

impl View for VecBuffer {
    type V = Seq<u8>;

    closed spec fn view(&self) -> Seq<u8> {
        self.data@
    }
}

impl VecBuffer {
    /// Looks up where the bytes lie now.
    fn settle(&mut self)
        ensures
            final(self)@ == old(self)@,
    {
        self.address = address_of(self.data.as_slice());
    }

    /// An empty buffer.
    pub fn new() -> (buffer: Self)
        ensures
            buffer@ == Seq::<u8>::empty(),
    {
        let mut buffer = VecBuffer { data: Vec::new(), address: 0 };
        buffer.settle();
        buffer
    }

    /// A buffer that holds a copy of `data`.
    pub fn from_data(data: &[u8]) -> (buffer: Self)
        ensures
            buffer@ == data@,
    {
        let mut buffer = VecBuffer { data: vstd::slice::slice_to_vec(data), address: 0 };
        buffer.settle();
        buffer
    }

    /// A buffer of `size` bytes, all zero.
    pub fn with_initial_size(size: usize) -> (buffer: Self)
        ensures
            buffer@ == Seq::new(size as nat, |i: int| 0u8),
    {
        let mut buffer = VecBuffer::new();
        buffer.resize(size, 0);
        buffer
    }

    /// A view of the same bytes at the same address, as a [`PtrBuffer`].
    /// What is written through the view is written to this buffer.
    pub fn as_ptr_buffer(&mut self) -> (view: PtrBuffer<'_>)
        ensures
            view@ == old(self)@,
            view.address == old(self).address(),
            final(self)@ == final(view.data)@,
            final(self).address() == old(self).address(),
    {
        let address = self.address;
        PtrBuffer { data: self.data.as_mut_slice(), address }
    }

    /// Appends `data`.
    pub fn append(&mut self, data: &[u8])
        ensures
            final(self)@ == old(self)@ + data@,
    {
        extend(&mut self.data, data);
        self.settle();
    }

    /// Appends the bytes that represent `data`. This never fails.
    pub fn append_ref<T: Castable>(&mut self, data: &T) -> (r: Result<(), Error>)
        ensures
            r is Ok,
            final(self)@ == old(self)@ + data.encode(),
    {
        let bytes = ref_to_bytes::<T>(data)?;
        self.append(bytes.as_slice());
        Ok(())
    }

    /// Appends the bytes that represent the items of `data`.
    ///
    /// Fails with `ZeroSizedType` if `T` has size zero, and then leaves the
    /// buffer as it was.
    pub fn append_slice_ref<T: Castable>(&mut self, data: &[T]) -> (r: Result<(), Error>)
        ensures
            T::spec_size() == 0 ==> r == Err::<(), Error>(Error::ZeroSizedType) && final(self)@
                == old(self)@ && final(self).address() == old(self).address(),
            T::spec_size() != 0 ==> r is Ok && final(self)@ == old(self)@ + encode_all(data@),
    {
        let bytes = slice_ref_to_bytes::<T>(data)?;
        self.append(bytes.as_slice());
        Ok(())
    }

    /// Puts `element` at `offset` and moves what was there, and all after it,
    /// one place up. `offset` may be the length, and no more.
    pub fn insert(&mut self, offset: usize, element: u8)
        requires
            offset <= old(self)@.len(),
        ensures
            final(self)@ == old(self)@.insert(offset as int, element),
    {
        self.data.insert(offset, element);
        self.settle();
    }

    /// Takes out the byte at `offset` and moves all after it one place down.
    /// `offset` has to be the index of a byte.
    pub fn remove(&mut self, offset: usize)
        requires
            offset < old(self)@.len(),
        ensures
            final(self)@ == old(self)@.remove(offset as int),
    {
        self.data.remove(offset);
        self.settle();
    }

    /// Appends `v`.
    pub fn push(&mut self, v: u8)
        ensures
            final(self)@ == old(self)@.push(v),
    {
        self.data.push(v);
        self.settle();
    }

    /// Takes the last byte off, if there is one.
    pub fn pop(&mut self) -> (r: Option<u8>)
        ensures
            old(self)@.len() == 0 ==> r is None && final(self)@ == old(self)@,
            old(self)@.len() > 0 ==> r == Some(old(self)@.last()) && final(self)@
                == old(self)@.drop_last(),
    {
        let r = self.data.pop();
        self.settle();
        r
    }

    /// Takes all bytes out.
    pub fn clear(&mut self)
        ensures
            final(self)@ == Seq::<u8>::empty(),
    {
        self.data.clear();
        self.settle();
    }

    /// Cuts the buffer in two at `at`: the bytes before `at` stay, the rest
    /// come back as a buffer of their own. `at` may be the length, and no more.
    pub fn split_off(&mut self, at: usize) -> (tail: Self)
        requires
            at <= old(self)@.len(),
        ensures
            final(self)@ == old(self)@.subrange(0, at as int),
            tail@ == old(self)@.subrange(at as int, old(self)@.len() as int),
    {
        let data = self.data.split_off(at);
        self.settle();
        let mut tail = VecBuffer { data, address: 0 };
        tail.settle();
        tail
    }

    /// Makes the buffer `new_len` bytes long: cuts it there if it is longer,
    /// fills it up with `value` if it is shorter.
    pub fn resize(&mut self, new_len: usize, value: u8)
        ensures
            final(self)@.len() == new_len,
            forall|i: int|
                0 <= i < new_len ==> final(self)@[i] == if i < old(self)@.len() {
                    old(self)@[i]
                } else {
                    value
                },
    {
        self.data.resize(new_len, value);
        self.settle();
        proof {
            let before = old(self)@;
            if new_len > before.len() {
                assert(self@.subrange(0, before.len() as int) == before);
                assert forall|i: int| 0 <= i < before.len() implies self@[i] == before[i] by {
                    assert(self@.subrange(0, before.len() as int)[i] == self@[i]);
                }
            }
        }
    }

    /// Cuts the buffer at `len`, if it is longer.
    pub fn truncate(&mut self, len: usize)
        ensures
            final(self)@ == if len <= old(self)@.len() {
                old(self)@.subrange(0, len as int)
            } else {
                old(self)@
            },
    {
        self.data.truncate(len);
        self.settle();
    }
}

/// `bytes` with every run of equal bytes cut down to one byte.
pub open spec fn deduped(bytes: Seq<u8>) -> Seq<u8>
    decreases bytes.len(),
{
    if bytes.len() <= 1 {
        bytes
    } else {
        let front = deduped(bytes.drop_last());
        if bytes[bytes.len() - 2] == bytes.last() {
            front
        } else {
            front.push(bytes.last())
        }
    }
}

/// Those of `bytes` for which `keep` says true at their index, in order.
pub open spec fn retained(bytes: Seq<u8>, keep: Seq<bool>) -> Seq<u8>
    decreases bytes.len(),
{
    if bytes.len() == 0 || keep.len() != bytes.len() {
        Seq::empty()
    } else {
        let front = retained(bytes.drop_last(), keep.drop_last());
        if keep.last() {
            front.push(bytes.last())
        } else {
            front
        }
    }
}

/// What is left of bytes that are not all gone ends with their last byte.
proof fn lemma_deduped_last(bytes: Seq<u8>)
    requires
        bytes.len() > 0,
    ensures
        deduped(bytes).len() > 0,
        deduped(bytes).last() == bytes.last(),
    decreases bytes.len(),
{
    if bytes.len() > 1 {
        lemma_deduped_last(bytes.drop_last());
    }
}

impl VecBuffer {
    /// Keeps the bytes for which `f` says true, in their order, and takes
    /// the others out. `f` is asked once for every byte, from the first on.
    pub fn retain<F: Fn(&u8) -> bool>(&mut self, f: F)
        requires
            forall|byte: u8| #[trigger] f.requires((&byte,)),
        ensures
            exists|keep: Seq<bool>|
                {
                    &&& keep.len() == old(self)@.len()
                    &&& forall|i: int|
                        0 <= i < keep.len() ==> f.ensures((&#[trigger] old(self)@[i],), keep[i])
                    &&& final(self)@ == retained(old(self)@, keep)
                },
    {
        let mut kept: Vec<u8> = Vec::new();
        let ghost mut keep: Seq<bool> = Seq::empty();
        let n: usize = self.data.len();
        let mut i: usize = 0;
        while i < n
            invariant
                i <= n,
                n == self.data@.len(),
                self.data@ == old(self)@,
                keep.len() == i,
                forall|byte: u8| #[trigger] f.requires((&byte,)),
                forall|j: int| 0 <= j < i ==> f.ensures((&#[trigger] old(self)@[j],), keep[j]),
                kept@ == retained(old(self)@.subrange(0, i as int), keep),
            decreases n - i,
        {
            let byte: u8 = self.data[i];
            let stays: bool = f(&byte);
            proof {
                let longer = old(self)@.subrange(0, i + 1);
                assert(longer.drop_last() =~= old(self)@.subrange(0, i as int));
                assert(keep.push(stays).drop_last() =~= keep);
                keep = keep.push(stays);
            }
            if stays {
                kept.push(byte);
            }
            i += 1;
        }
        assert(old(self)@.subrange(0, n as int) =~= old(self)@);
        self.data = kept;
        self.settle();
    }

    /// Makes the buffer `new_len` bytes long: cuts it there if it is longer,
    /// and if it is shorter, fills it up with what `f` gives, one call for
    /// every byte that is missing.
    pub fn resize_with<F: Fn() -> u8>(&mut self, new_len: usize, f: F)
        requires
            f.requires(()),
        ensures
            final(self)@.len() == new_len,
            forall|i: int|
                0 <= i < new_len && i < old(self)@.len() ==> final(self)@[i] == old(self)@[i],
            forall|i: int|
                old(self)@.len() <= i < new_len ==> f.ensures((), #[trigger] final(self)@[i]),
    {
        if new_len <= self.data.len() {
            self.data.truncate(new_len);
        } else {
            let ghost before = self.data@;
            while self.data.len() < new_len
                invariant
                    before.len() <= self.data@.len() <= new_len,
                    f.requires(()),
                    self.data@.subrange(0, before.len() as int) == before,
                    forall|i: int|
                        before.len() <= i < self.data@.len() ==> f.ensures(
                            (),
                            #[trigger] self.data@[i],
                        ),
                decreases new_len - self.data@.len(),
            {
                let ghost so_far = self.data@;
                let byte: u8 = f();
                self.data.push(byte);
                assert(self.data@.subrange(0, before.len() as int) =~= so_far.subrange(
                    0,
                    before.len() as int,
                ));
            }
            assert forall|i: int| 0 <= i < before.len() implies self.data@[i] == before[i] by {
                assert(self.data@.subrange(0, before.len() as int)[i] == self.data@[i]);
            }
        }
        self.settle();
    }

    /// Cuts every run of equal bytes down to one byte.
    pub fn dedup(&mut self)
        ensures
            final(self)@ == deduped(old(self)@),
    {
        let mut kept: Vec<u8> = Vec::new();
        let n: usize = self.data.len();
        let mut i: usize = 0;
        while i < n
            invariant
                i <= n,
                n == self.data@.len(),
                self.data@ == old(self)@,
                kept@ == deduped(old(self)@.subrange(0, i as int)),
            decreases n - i,
        {
            let byte: u8 = self.data[i];
            let ghost shorter = old(self)@.subrange(0, i as int);
            let ghost longer = old(self)@.subrange(0, i + 1);
            proof {
                assert(longer.drop_last() =~= shorter);
                if i > 0 {
                    lemma_deduped_last(shorter);
                }
            }
            if i == 0 || kept[kept.len() - 1] != byte {
                kept.push(byte);
                assert(kept@ =~= deduped(longer));
            }
            i += 1;
        }
        assert(old(self)@.subrange(0, n as int) =~= old(self)@);
        self.data = kept;
        self.settle();
    }
}

impl Clone for VecBuffer {
    /// A buffer of its own that holds the same bytes.
    fn clone(&self) -> (copy: Self)
        ensures
            copy@ == self@,
    {
        VecBuffer::from_data(self.data.as_slice())
    }
}

impl<T: Buffer> PartialEq<T> for VecBuffer {
    /// Two buffers are equal when they hold the same bytes, wherever they lie.
    fn eq(&self, other: &T) -> (same: bool) {
        same_bytes(self.data.as_slice(), other.as_slice())
    }
}

impl<T: Buffer> vstd::std_specs::cmp::PartialEqSpecImpl<T> for VecBuffer {
    open spec fn obeys_eq_spec() -> bool {
        true
    }

    open spec fn eq_spec(&self, other: &T) -> bool {
        self@ == other@
    }
}

impl PartialEq<[u8]> for VecBuffer {
    /// A buffer is equal to a slice when it holds the bytes of the slice.
    fn eq(&self, other: &[u8]) -> (same: bool) {
        same_bytes(self.data.as_slice(), other)
    }
}

impl vstd::std_specs::cmp::PartialEqSpecImpl<[u8]> for VecBuffer {
    open spec fn obeys_eq_spec() -> bool {
        true
    }

    open spec fn eq_spec(&self, other: &[u8]) -> bool {
        self@ == other@
    }
}

impl<const N: usize> PartialEq<[u8; N]> for VecBuffer {
    /// A buffer is equal to an array when it holds the bytes of the array.
    fn eq(&self, other: &[u8; N]) -> (same: bool) {
        same_bytes(self.data.as_slice(), other.as_slice())
    }
}

impl<const N: usize> vstd::std_specs::cmp::PartialEqSpecImpl<[u8; N]> for VecBuffer {
    open spec fn obeys_eq_spec() -> bool {
        true
    }

    open spec fn eq_spec(&self, other: &[u8; N]) -> bool {
        self@ == other@
    }
}

impl PartialEq<Vec<u8>> for VecBuffer {
    /// A buffer is equal to a vector when it holds the bytes of the vector.
    fn eq(&self, other: &Vec<u8>) -> (same: bool) {
        same_bytes(self.data.as_slice(), other.as_slice())
    }
}

impl vstd::std_specs::cmp::PartialEqSpecImpl<Vec<u8>> for VecBuffer {
    open spec fn obeys_eq_spec() -> bool {
        true
    }

    open spec fn eq_spec(&self, other: &Vec<u8>) -> bool {
        self@ == other@
    }
}

impl core::ops::Index<usize> for VecBuffer {
    type Output = u8;

    /// The byte at `index`, which has to be the index of a byte.
    fn index(&self, index: usize) -> (byte: &u8)
        ensures
            *byte == self@[index as int],
    {
        let bytes = self.data.as_slice();
        &bytes[index]
    }
}

impl vstd::std_specs::core::IndexSpecImpl<usize> for VecBuffer {
    open spec fn index_req(&self, index: &usize) -> bool {
        *index < self@.len()
    }
}

impl core::ops::Index<core::ops::Range<usize>> for VecBuffer {
    type Output = [u8];

    /// The bytes from `index.start` up to `index.end`, which has to be a
    /// range inside the buffer.
    fn index(&self, index: core::ops::Range<usize>) -> (bytes: &[u8])
        ensures
            bytes@ == self@.subrange(index.start as int, index.end as int),
    {
        vstd::slice::slice_subrange(self.data.as_slice(), index.start, index.end)
    }
}

impl vstd::std_specs::core::IndexSpecImpl<core::ops::Range<usize>> for VecBuffer {
    open spec fn index_req(&self, index: &core::ops::Range<usize>) -> bool {
        index.start <= index.end <= self@.len()
    }
}

impl IntoIterator for VecBuffer {
    type Item = u8;

    type IntoIter = std::vec::IntoIter<u8>;

    /// The bytes, one by one, from the first on.
    fn into_iter(self) -> (iter: std::vec::IntoIter<u8>)
        ensures
            vstd::std_specs::iter::IteratorSpec::remaining(&iter) == self@,
    {
        broadcast use vstd::std_specs::vec::axiom_spec_into_iter;

        self.data.into_iter()
    }
}

impl Eq for VecBuffer {

}

impl Buffer for VecBuffer {
    closed spec fn address(&self) -> usize {
        self.address
    }

    closed spec fn lent(&self) -> &mut [u8] {
        arbitrary()
    }

    fn len(&self) -> (n: usize) {
        self.data.len()
    }

    fn as_ptr(&self) -> (pointer: usize) {
        self.address
    }

    fn as_slice(&self) -> (bytes: &[u8]) {
        self.data.as_slice()
    }

    fn as_mut_slice(&mut self) -> (bytes: &mut [u8]) {
        self.data.as_mut_slice()
    }
}

} // verus!
