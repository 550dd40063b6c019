//! Walking over the bytes of a buffer, one by one.

use vstd::prelude::*;

verus! {

/// The bytes of a buffer from some index on, handed out one by one.
pub struct BufferIter<'a> {
    buffer: &'a [u8],
    index: usize,
}

impl<'a> BufferIter<'a> {
    /// The bytes that are still to come, in the order in which they come.
    pub closed spec fn remaining(&self) -> Seq<u8> {
        if self.index <= self.buffer@.len() {
            self.buffer@.subrange(self.index as int, self.buffer@.len() as int)
        } else {
            Seq::empty()
        }
    }

    /// A walk over `buffer` that starts at `index`. From an index past the
    /// end there is nothing to walk over.
    pub fn new(buffer: &'a [u8], index: usize) -> (iter: Self)
        ensures
            iter.remaining() == if index <= buffer@.len() {
                buffer@.subrange(index as int, buffer@.len() as int)
            } else {
                Seq::empty()
            },
    {
        BufferIter { buffer, index }
    }

    /// The next byte, if there is one more.
    pub fn next(&mut self) -> (r: Option<&'a u8>)
        ensures
            match r {
                Some(byte) => {
                    &&& old(self).remaining().len() > 0
                    &&& *byte == old(self).remaining()[0]
                    &&& final(self).remaining() == old(self).remaining().drop_first()
                },
                None => {
                    &&& old(self).remaining().len() == 0
                    &&& final(self).remaining().len() == 0
                },
            },
    {
        if self.index >= self.buffer.len() {
            return None;
        }
        let byte = &self.buffer[self.index];
        self.index += 1;
        assert(self.remaining() =~= old(self).remaining().drop_first());
        Some(byte)
    }
}

/// The bytes of a buffer from some index on, handed out one by one to be
/// written.
pub struct BufferIterMut<'a> {
    /// The bytes that the walk goes over.
    pub buffer: &'a mut [u8],
    /// The index of the byte that comes next.
    pub index: usize,
}

impl<'a> BufferIterMut<'a> {
    /// A walk over `buffer` that starts at `index`. From an index past the
    /// end there is nothing to walk over.
    pub fn new(buffer: &'a mut [u8], index: usize) -> (iter: Self)
        ensures
            iter.buffer@ == old(buffer)@,
            iter.index == index,
            final(buffer)@ == final(iter.buffer)@,
    {
        BufferIterMut { buffer, index }
    }

    /// The next byte, to write, if there is one more. What is written to it
    /// is written to the buffer, and the walk moves on by one.
    pub fn next(&mut self) -> (r: Option<&mut u8>)
        ensures
            match r {
                Some(byte) => {
                    &&& old(self).index < old(self).buffer@.len()
                    &&& *byte == old(self).buffer@[old(self).index as int]
                    &&& final(self).index == old(self).index + 1
                    &&& final(self).buffer@ == old(self).buffer@.update(
                        old(self).index as int,
                        *final(byte),
                    )
                    &&& final(final(self).buffer)@ == final(old(self).buffer)@
                },
                None => {
                    &&& old(self).index >= old(self).buffer@.len()
                    &&& final(self).index == old(self).index
                    &&& final(self).buffer@ == old(self).buffer@
                    &&& final(final(self).buffer)@ == final(old(self).buffer)@
                },
            },
    {
        if self.index >= self.buffer.len() {
            return None;
        }
        let at: usize = self.index;
        self.index += 1;
        Some(&mut self.buffer[at])
    }
}

} // verus!
