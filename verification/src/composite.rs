//! Arrays and tuples of `Castable` types as `Castable` types.
//!
//! An array is its items, one after another, and asks for the alignment of
//! its items. A tuple is a packed record: its fields follow one another
//! without gaps, and it may lie at any address.

use vstd::prelude::*;
use crate::castable::Castable;
use crate::convert::{
    decode_all, decode_items, encode_all, encode_items, extend, lemma_decode_encode_all,
    lemma_encode_all_len, lemma_encode_decode_all,
};

verus! {

/// An array that holds the first `filled` of `items` in its first places.
pub open spec fn array_filled<T, const N: usize>(items: Seq<T>, filled: nat) -> [T; N]
    decreases filled,
{
    if filled == 0 {
        arbitrary()
    } else {
        vstd::array::spec_array_update(
            array_filled::<T, N>(items, (filled - 1) as nat),
            filled - 1,
            items[filled - 1],
        )
    }
}

/// The array that holds `items`, where there are `N` of them.
pub open spec fn array_of<T, const N: usize>(items: Seq<T>) -> [T; N] {
    array_filled::<T, N>(items, N as nat)
}

/// `array_filled` holds the items that it was given.
proof fn lemma_array_filled<T, const N: usize>(items: Seq<T>, filled: nat)
    requires
        filled <= N,
    ensures
        forall|i: int| 0 <= i < filled ==> array_filled::<T, N>(items, filled)@[i] == items[i],
    decreases filled,
{
    broadcast use vstd::array::group_array_axioms;

    if filled > 0 {
        lemma_array_filled::<T, N>(items, (filled - 1) as nat);
    }
}

/// `array_of` holds the items that it was given, and an array is the array
/// of what it holds.
pub proof fn lemma_array_of<T, const N: usize>(items: Seq<T>)
    requires
        items.len() == N,
    ensures
        array_of::<T, N>(items)@ == items,
        forall|array: [T; N]| array@ == items ==> array == array_of::<T, N>(items),
{
    broadcast use vstd::array::group_array_axioms;

    lemma_array_filled::<T, N>(items, N as nat);
    assert(array_of::<T, N>(items)@ =~= items);
    assert forall|array: [T; N]| array@ == items implies array == array_of::<T, N>(items) by {
        assert(array =~= array_of::<T, N>(items));
    }
}

/// The items of `items` as an array, if there are exactly `N` of them.
///
/// This is `TryFrom<Vec<T>>` for `[T; N]`, which gives the whole contents of
/// the vector as an array if its length is that of the array, and the vector
/// back if it is not.
#[verifier::external_body]
fn array_from_vec<T, const N: usize>(items: Vec<T>) -> (array: Option<[T; N]>)
    ensures
        match array {
            Some(array) => items@.len() == N && array@ == items@,
            None => items@.len() != N,
        },
{
    items.try_into().ok()
}

impl<T: Castable, const N: usize> Castable for [T; N] {
    open spec fn spec_size() -> nat {
        N as nat * T::spec_size()
    }

    open spec fn spec_align() -> usize {
        T::spec_align()
    }

    open spec fn encode(&self) -> Seq<u8> {
        encode_all(self@)
    }

    open spec fn decode(bytes: Seq<u8>) -> Self {
        array_of::<T, N>(decode_all::<T>(bytes, N as nat))
    }

    proof fn lemma_layout() {
        T::lemma_layout();
    }

    proof fn lemma_encode_len(&self) {
        broadcast use vstd::array::group_array_axioms;

        lemma_encode_all_len(self@);
    }

    proof fn lemma_decode_encode(&self) {
        broadcast use vstd::array::group_array_axioms;

        lemma_decode_encode_all(self@);
        lemma_array_of::<T, N>(self@);
    }

    proof fn lemma_encode_decode(bytes: Seq<u8>) {
        lemma_encode_decode_all::<T>(bytes, N as nat);
        lemma_array_of::<T, N>(decode_all::<T>(bytes, N as nat));
    }

    fn size() -> (n: Option<usize>) {
        if N == 0 {
            assert(0 * T::spec_size() == 0) by (nonlinear_arith);
            return Some(0);
        }
        match T::size() {
            Some(size) => N.checked_mul(size),
            None => {
                assert(N * T::spec_size() >= T::spec_size()) by (nonlinear_arith)
                    requires
                        N >= 1,
                ;
                None
            },
        }
    }

    fn align() -> (n: usize) {
        T::align()
    }

    fn to_bytes(&self) -> (bytes: Vec<u8>) {
        encode_items::<T>(self.as_slice())
    }

    fn from_bytes(bytes: &[u8]) -> (value: Self) {
        let items: Vec<T> = decode_items::<T>(bytes, N);
        proof {
            lemma_array_of::<T, N>(items@);
        }
        match array_from_vec::<T, N>(items) {
            Some(array) => array,
            None => vstd::pervasive::unreached(),
        }
    }
}

impl<A: Castable, B: Castable> Castable for (A, B) {
    open spec fn spec_size() -> nat {
        A::spec_size() + B::spec_size()
    }

    open spec fn spec_align() -> usize {
        1
    }

    open spec fn encode(&self) -> Seq<u8> {
        self.0.encode() + self.1.encode()
    }

    open spec fn decode(bytes: Seq<u8>) -> Self {
        (
            A::decode(bytes.subrange(0, A::spec_size() as int)),
            B::decode(bytes.subrange(A::spec_size() as int, (A::spec_size() + B::spec_size()) as int)),
        )
    }

    proof fn lemma_layout() {
    }

    proof fn lemma_encode_len(&self) {
        self.0.lemma_encode_len();
        self.1.lemma_encode_len();
    }

    proof fn lemma_decode_encode(&self) {
        let bytes = self.encode();
        self.0.lemma_encode_len();
        self.1.lemma_encode_len();
        self.0.lemma_decode_encode();
        self.1.lemma_decode_encode();
        assert(bytes.subrange(0, A::spec_size() as int) =~= self.0.encode());
        assert(bytes.subrange(A::spec_size() as int, (A::spec_size() + B::spec_size()) as int)
            =~= self.1.encode());
    }

    proof fn lemma_encode_decode(bytes: Seq<u8>) {
        let first = bytes.subrange(0, A::spec_size() as int);
        let second = bytes.subrange(A::spec_size() as int, (A::spec_size() + B::spec_size()) as int);
        A::lemma_encode_decode(first);
        B::lemma_encode_decode(second);
        assert(first + second =~= bytes);
    }

    fn size() -> (n: Option<usize>) {
        match (A::size(), B::size()) {
            (Some(first), Some(second)) => first.checked_add(second),
            _ => None,
        }
    }

    fn align() -> (n: usize) {
        1
    }

    fn to_bytes(&self) -> (bytes: Vec<u8>) {
        let mut bytes: Vec<u8> = self.0.to_bytes();
        let second: Vec<u8> = self.1.to_bytes();
        extend(&mut bytes, second.as_slice());
        bytes
    }

    fn from_bytes(bytes: &[u8]) -> (value: Self) {
        let total: usize = bytes.len();
        match (A::size(), B::size()) {
            (Some(first), Some(second)) => (
                A::from_bytes(vstd::slice::slice_subrange(bytes, 0, first)),
                B::from_bytes(vstd::slice::slice_subrange(bytes, first, first + second)),
            ),
            _ => vstd::pervasive::unreached(),
        }
    }
}

impl<A: Castable, B: Castable, C: Castable> Castable for (A, B, C) {
    open spec fn spec_size() -> nat {
        A::spec_size() + B::spec_size() + C::spec_size()
    }

    open spec fn spec_align() -> usize {
        1
    }

    open spec fn encode(&self) -> Seq<u8> {
        self.0.encode() + self.1.encode() + self.2.encode()
    }

    open spec fn decode(bytes: Seq<u8>) -> Self {
        (
            A::decode(bytes.subrange(0, A::spec_size() as int)),
            B::decode(bytes.subrange(A::spec_size() as int, (A::spec_size() + B::spec_size()) as int)),
            C::decode(
                bytes.subrange(
                    (A::spec_size() + B::spec_size()) as int,
                    (A::spec_size() + B::spec_size() + C::spec_size()) as int,
                ),
            ),
        )
    }

    proof fn lemma_layout() {
    }

    proof fn lemma_encode_len(&self) {
        self.0.lemma_encode_len();
        self.1.lemma_encode_len();
        self.2.lemma_encode_len();
    }

    proof fn lemma_decode_encode(&self) {
        let bytes = self.encode();
        let a = A::spec_size() as int;
        let b = B::spec_size() as int;
        let c = C::spec_size() as int;
        self.0.lemma_encode_len();
        self.1.lemma_encode_len();
        self.2.lemma_encode_len();
        self.0.lemma_decode_encode();
        self.1.lemma_decode_encode();
        self.2.lemma_decode_encode();
        assert(bytes.subrange(0, a) =~= self.0.encode());
        assert(bytes.subrange(a, a + b) =~= self.1.encode());
        assert(bytes.subrange(a + b, a + b + c) =~= self.2.encode());
    }

    proof fn lemma_encode_decode(bytes: Seq<u8>) {
        let a = A::spec_size() as int;
        let b = B::spec_size() as int;
        let c = C::spec_size() as int;
        let first = bytes.subrange(0, a);
        let second = bytes.subrange(a, a + b);
        let third = bytes.subrange(a + b, a + b + c);
        A::lemma_encode_decode(first);
        B::lemma_encode_decode(second);
        C::lemma_encode_decode(third);
        assert(first + second + third =~= bytes);
    }

    fn size() -> (n: Option<usize>) {
        match (A::size(), B::size(), C::size()) {
            (Some(first), Some(second), Some(third)) => match first.checked_add(second) {
                Some(front) => front.checked_add(third),
                None => None,
            },
            _ => None,
        }
    }

    fn align() -> (n: usize) {
        1
    }

    fn to_bytes(&self) -> (bytes: Vec<u8>) {
        let mut bytes: Vec<u8> = self.0.to_bytes();
        let second: Vec<u8> = self.1.to_bytes();
        let third: Vec<u8> = self.2.to_bytes();
        extend(&mut bytes, second.as_slice());
        extend(&mut bytes, third.as_slice());
        bytes
    }

    fn from_bytes(bytes: &[u8]) -> (value: Self) {
        let total: usize = bytes.len();
        match (A::size(), B::size(), C::size()) {
            (Some(first), Some(second), Some(third)) => (
                A::from_bytes(vstd::slice::slice_subrange(bytes, 0, first)),
                B::from_bytes(vstd::slice::slice_subrange(bytes, first, first + second)),
                C::from_bytes(
                    vstd::slice::slice_subrange(bytes, first + second, first + second + third),
                ),
            ),
            _ => vstd::pervasive::unreached(),
        }
    }
}

} // verus!
