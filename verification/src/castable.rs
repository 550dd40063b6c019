//! Which types may be read out of raw bytes, and how.

use vstd::prelude::*;

verus! {

/// A type whose values are exactly the byte strings of one fixed length.
///
/// To implement `Castable` is to state that the type is inhabited, that every
/// byte string of its size is one of its values, that its representation has
/// no padding and a fixed layout. Here that statement is a set of proof
/// obligations: `encode` and `decode` are inverse to each other between the
/// values of the type and the byte strings of length `spec_size()`.
pub trait Castable: Sized {
    /// The number of bytes that a value occupies.
    spec fn spec_size() -> nat;

    /// The alignment that an address must have to hold a value.
    spec fn spec_align() -> usize;

    /// The bytes that represent the value.
    spec fn encode(&self) -> Seq<u8>;

    /// The value that the bytes represent.
    spec fn decode(bytes: Seq<u8>) -> Self;

    /// The alignment is not zero.
    proof fn lemma_layout()
        ensures
            Self::spec_align() > 0,
    ;

    /// A representation has the size of the type.
    proof fn lemma_encode_len(&self)
        ensures
            self.encode().len() == Self::spec_size(),
    ;

    /// Reading back what was written gives the value: no bit of it is lost.
    proof fn lemma_decode_encode(&self)
        ensures
            Self::decode(self.encode()) == *self,
    ;

    /// Every byte string of the right size is a value and is represented by
    /// itself: no bit pattern is invalid and no byte is padding.
    proof fn lemma_encode_decode(bytes: Seq<u8>)
        requires
            bytes.len() == Self::spec_size(),
        ensures
            Self::decode(bytes).encode() == bytes,
    ;

    /// The number of bytes that a value occupies, or `None` where no `usize`
    /// can hold that number. No buffer holds a value of such a type.
    fn size() -> (n: Option<usize>)
        ensures
            match n {
                Some(size) => size == Self::spec_size(),
                None => Self::spec_size() > usize::MAX,
            },
    ;

    /// The alignment that an address must have to hold a value.
    fn align() -> (n: usize)
        ensures
            n == Self::spec_align(),
            n > 0,
    ;

    /// The bytes that represent the value.
    fn to_bytes(&self) -> (bytes: Vec<u8>)
        ensures
            bytes@ == self.encode(),
    ;

    /// The value that the bytes represent.
    fn from_bytes(bytes: &[u8]) -> (value: Self)
        requires
            bytes@.len() == Self::spec_size(),
        ensures
            value == Self::decode(bytes@),
    ;
}

impl Castable for () {
    open spec fn spec_size() -> nat {
        0
    }

    open spec fn spec_align() -> usize {
        1
    }

    open spec fn encode(&self) -> Seq<u8> {
        Seq::empty()
    }

    open spec fn decode(bytes: Seq<u8>) -> Self {
        ()
    }

    proof fn lemma_layout() {
    }

    proof fn lemma_encode_len(&self) {
    }

    proof fn lemma_decode_encode(&self) {
    }

    proof fn lemma_encode_decode(bytes: Seq<u8>) {
        assert(bytes =~= Seq::empty());
    }

    fn size() -> (n: Option<usize>) {
        Some(0)
    }

    fn align() -> (n: usize) {
        1
    }

    fn to_bytes(&self) -> (bytes: Vec<u8>) {
        Vec::new()
    }

    fn from_bytes(bytes: &[u8]) -> (value: Self) {
        ()
    }
}

} // verus!
