//! The integer types as `Castable` types.
//!
//! An unsigned integer is its little-endian byte string. A signed integer is
//! the byte string of the unsigned number that stands for it in two's
//! complement.

use vstd::prelude::*;
use crate::castable::Castable;
use crate::endian::{
    decode_le, encode_le, le_bytes, le_value, lemma_le_bytes_len, lemma_le_bytes_of_value,
    lemma_le_value_bound, lemma_le_value_of_bytes, lemma_pow256_values, pow256,
};

verus! {

/// The number that stands for `value` in two's complement on `width` bytes.
pub open spec fn unsigned_of(value: int, width: nat) -> nat {
    if value < 0 {
        (value + pow256(width)) as nat
    } else {
        value as nat
    }
}

/// The signed number that `value` stands for in two's complement on `width`
/// bytes.
pub open spec fn signed_of(value: nat, width: nat) -> int {
    if 2 * value >= pow256(width) {
        value - pow256(width)
    } else {
        value as int
    }
}

/// An alignment is positive and divides the size, so it cannot exceed a size
/// that is not zero.
proof fn lemma_align_divides_size<T>()
    requires
        vstd::layout::size_of::<T>() > 0,
    ensures
        0 < vstd::layout::align_of::<T>() <= vstd::layout::size_of::<T>(),
{
    broadcast use vstd::layout::group_align_properties;

    let size = vstd::layout::size_of::<T>();
    let align = vstd::layout::align_of::<T>();
    if align > size {
        vstd::arithmetic::div_mod::lemma_small_mod(size, align);
    }
}

/// The number of bytes that `usize` and `isize` take.
pub open spec fn word_size() -> nat {
    vstd::layout::size_of::<usize>()
}

/// The width of `usize` and `isize` in bytes, and what `pow256` is there.
proof fn lemma_word_width()
    ensures
        word_size() == 4 || word_size() == 8,
        vstd::layout::size_of::<isize>() == word_size(),
        pow256(word_size()) == usize::MAX + 1,
        isize::MAX == (usize::MAX - 1) / 2,
        isize::MIN == -isize::MAX - 1,
{
    broadcast use vstd::layout::layout_of_primitives;

    lemma_pow256_values();
}

impl Castable for u8 {
    open spec fn spec_size() -> nat {
        1
    }

    open spec fn spec_align() -> usize {
        core::mem::align_of::<u8>()
    }

    open spec fn encode(&self) -> Seq<u8> {
        le_bytes(*self as nat, 1)
    }

    open spec fn decode(bytes: Seq<u8>) -> Self {
        (le_value(bytes) % pow256(1)) as u8
    }

    proof fn lemma_layout() {
        broadcast use vstd::layout::layout_of_primitives;

        lemma_align_divides_size::<Self>();
    }

    proof fn lemma_encode_len(&self) {
        lemma_le_bytes_len(*self as nat, 1);
    }

    proof fn lemma_decode_encode(&self) {
        lemma_pow256_values();
        lemma_le_value_of_bytes(*self as nat, 1);
    }

    proof fn lemma_encode_decode(bytes: Seq<u8>) {
        lemma_pow256_values();
        lemma_le_value_bound(bytes);
        lemma_le_bytes_of_value(bytes);
        vstd::arithmetic::div_mod::lemma_small_mod(le_value(bytes), pow256(1));
    }

    fn size() -> (n: Option<usize>) {
        broadcast use vstd::layout::layout_of_primitives;

        Some(core::mem::size_of::<u8>())
    }

    fn align() -> (n: usize) {
        broadcast use vstd::layout::group_align_properties;

        core::mem::align_of::<u8>()
    }

    fn to_bytes(&self) -> (bytes: Vec<u8>) {
        broadcast use vstd::layout::layout_of_primitives;

        encode_le(*self as u128, core::mem::size_of::<u8>())
    }

    fn from_bytes(bytes: &[u8]) -> (value: Self) {
        proof {
            lemma_pow256_values();
            lemma_le_value_bound(bytes@);
        }
        decode_le(bytes) as u8
    }
}

impl Castable for u16 {
    open spec fn spec_size() -> nat {
        2
    }

    open spec fn spec_align() -> usize {
        core::mem::align_of::<u16>()
    }

    open spec fn encode(&self) -> Seq<u8> {
        le_bytes(*self as nat, 2)
    }

    open spec fn decode(bytes: Seq<u8>) -> Self {
        (le_value(bytes) % pow256(2)) as u16
    }

    proof fn lemma_layout() {
        broadcast use vstd::layout::layout_of_primitives;

        lemma_align_divides_size::<Self>();
    }

    proof fn lemma_encode_len(&self) {
        lemma_le_bytes_len(*self as nat, 2);
    }

    proof fn lemma_decode_encode(&self) {
        lemma_pow256_values();
        lemma_le_value_of_bytes(*self as nat, 2);
    }

    proof fn lemma_encode_decode(bytes: Seq<u8>) {
        lemma_pow256_values();
        lemma_le_value_bound(bytes);
        lemma_le_bytes_of_value(bytes);
        vstd::arithmetic::div_mod::lemma_small_mod(le_value(bytes), pow256(2));
    }

    fn size() -> (n: Option<usize>) {
        broadcast use vstd::layout::layout_of_primitives;

        Some(core::mem::size_of::<u16>())
    }

    fn align() -> (n: usize) {
        broadcast use vstd::layout::group_align_properties;

        core::mem::align_of::<u16>()
    }

    fn to_bytes(&self) -> (bytes: Vec<u8>) {
        broadcast use vstd::layout::layout_of_primitives;

        encode_le(*self as u128, core::mem::size_of::<u16>())
    }

    fn from_bytes(bytes: &[u8]) -> (value: Self) {
        proof {
            lemma_pow256_values();
            lemma_le_value_bound(bytes@);
        }
        decode_le(bytes) as u16
    }
}

impl Castable for u32 {
    open spec fn spec_size() -> nat {
        4
    }

    open spec fn spec_align() -> usize {
        core::mem::align_of::<u32>()
    }

    open spec fn encode(&self) -> Seq<u8> {
        le_bytes(*self as nat, 4)
    }

    open spec fn decode(bytes: Seq<u8>) -> Self {
        (le_value(bytes) % pow256(4)) as u32
    }

    proof fn lemma_layout() {
        broadcast use vstd::layout::layout_of_primitives;

        lemma_align_divides_size::<Self>();
    }

    proof fn lemma_encode_len(&self) {
        lemma_le_bytes_len(*self as nat, 4);
    }

    proof fn lemma_decode_encode(&self) {
        lemma_pow256_values();
        lemma_le_value_of_bytes(*self as nat, 4);
    }

    proof fn lemma_encode_decode(bytes: Seq<u8>) {
        lemma_pow256_values();
        lemma_le_value_bound(bytes);
        lemma_le_bytes_of_value(bytes);
        vstd::arithmetic::div_mod::lemma_small_mod(le_value(bytes), pow256(4));
    }

    fn size() -> (n: Option<usize>) {
        broadcast use vstd::layout::layout_of_primitives;

        Some(core::mem::size_of::<u32>())
    }

    fn align() -> (n: usize) {
        broadcast use vstd::layout::group_align_properties;

        core::mem::align_of::<u32>()
    }

    fn to_bytes(&self) -> (bytes: Vec<u8>) {
        broadcast use vstd::layout::layout_of_primitives;

        encode_le(*self as u128, core::mem::size_of::<u32>())
    }

    fn from_bytes(bytes: &[u8]) -> (value: Self) {
        proof {
            lemma_pow256_values();
            lemma_le_value_bound(bytes@);
        }
        decode_le(bytes) as u32
    }
}

impl Castable for u64 {
    open spec fn spec_size() -> nat {
        8
    }

    open spec fn spec_align() -> usize {
        core::mem::align_of::<u64>()
    }

    open spec fn encode(&self) -> Seq<u8> {
        le_bytes(*self as nat, 8)
    }

    open spec fn decode(bytes: Seq<u8>) -> Self {
        (le_value(bytes) % pow256(8)) as u64
    }

    proof fn lemma_layout() {
        broadcast use vstd::layout::layout_of_primitives;

        lemma_align_divides_size::<Self>();
    }

    proof fn lemma_encode_len(&self) {
        lemma_le_bytes_len(*self as nat, 8);
    }

    proof fn lemma_decode_encode(&self) {
        lemma_pow256_values();
        lemma_le_value_of_bytes(*self as nat, 8);
    }

    proof fn lemma_encode_decode(bytes: Seq<u8>) {
        lemma_pow256_values();
        lemma_le_value_bound(bytes);
        lemma_le_bytes_of_value(bytes);
        vstd::arithmetic::div_mod::lemma_small_mod(le_value(bytes), pow256(8));
    }

    fn size() -> (n: Option<usize>) {
        broadcast use vstd::layout::layout_of_primitives;

        Some(core::mem::size_of::<u64>())
    }

    fn align() -> (n: usize) {
        broadcast use vstd::layout::group_align_properties;

        core::mem::align_of::<u64>()
    }

    fn to_bytes(&self) -> (bytes: Vec<u8>) {
        broadcast use vstd::layout::layout_of_primitives;

        encode_le(*self as u128, core::mem::size_of::<u64>())
    }

    fn from_bytes(bytes: &[u8]) -> (value: Self) {
        proof {
            lemma_pow256_values();
            lemma_le_value_bound(bytes@);
        }
        decode_le(bytes) as u64
    }
}

impl Castable for u128 {
    open spec fn spec_size() -> nat {
        16
    }

    open spec fn spec_align() -> usize {
        core::mem::align_of::<u128>()
    }

    open spec fn encode(&self) -> Seq<u8> {
        le_bytes(*self as nat, 16)
    }

    open spec fn decode(bytes: Seq<u8>) -> Self {
        (le_value(bytes) % pow256(16)) as u128
    }

    proof fn lemma_layout() {
        broadcast use vstd::layout::layout_of_primitives;

        lemma_align_divides_size::<Self>();
    }

    proof fn lemma_encode_len(&self) {
        lemma_le_bytes_len(*self as nat, 16);
    }

    proof fn lemma_decode_encode(&self) {
        lemma_pow256_values();
        lemma_le_value_of_bytes(*self as nat, 16);
    }

    proof fn lemma_encode_decode(bytes: Seq<u8>) {
        lemma_pow256_values();
        lemma_le_value_bound(bytes);
        lemma_le_bytes_of_value(bytes);
        vstd::arithmetic::div_mod::lemma_small_mod(le_value(bytes), pow256(16));
    }

    fn size() -> (n: Option<usize>) {
        broadcast use vstd::layout::layout_of_primitives;

        Some(core::mem::size_of::<u128>())
    }

    fn align() -> (n: usize) {
        broadcast use vstd::layout::group_align_properties;

        core::mem::align_of::<u128>()
    }

    fn to_bytes(&self) -> (bytes: Vec<u8>) {
        broadcast use vstd::layout::layout_of_primitives;

        encode_le(*self as u128, core::mem::size_of::<u128>())
    }

    fn from_bytes(bytes: &[u8]) -> (value: Self) {
        proof {
            lemma_pow256_values();
            lemma_le_value_bound(bytes@);
        }
        decode_le(bytes) as u128
    }
}

impl Castable for usize {
    open spec fn spec_size() -> nat {
        word_size()
    }

    open spec fn spec_align() -> usize {
        core::mem::align_of::<usize>()
    }

    open spec fn encode(&self) -> Seq<u8> {
        le_bytes(*self as nat, word_size())
    }

    open spec fn decode(bytes: Seq<u8>) -> Self {
        (le_value(bytes) % pow256(word_size())) as usize
    }

    proof fn lemma_layout() {
        broadcast use vstd::layout::layout_of_primitives;

        lemma_word_width();
        lemma_align_divides_size::<Self>();
    }

    proof fn lemma_encode_len(&self) {
        lemma_le_bytes_len(*self as nat, word_size());
    }

    proof fn lemma_decode_encode(&self) {
        lemma_pow256_values();
        lemma_word_width();
        lemma_le_value_of_bytes(*self as nat, word_size());
    }

    proof fn lemma_encode_decode(bytes: Seq<u8>) {
        lemma_pow256_values();
        lemma_word_width();
        lemma_le_value_bound(bytes);
        lemma_le_bytes_of_value(bytes);
        vstd::arithmetic::div_mod::lemma_small_mod(le_value(bytes), pow256(word_size()));
    }

    fn size() -> (n: Option<usize>) {
        broadcast use vstd::layout::layout_of_primitives;

        Some(core::mem::size_of::<usize>())
    }

    fn align() -> (n: usize) {
        broadcast use vstd::layout::group_align_properties;

        core::mem::align_of::<usize>()
    }

    fn to_bytes(&self) -> (bytes: Vec<u8>) {
        broadcast use vstd::layout::layout_of_primitives;

        encode_le(*self as u128, core::mem::size_of::<usize>())
    }

    fn from_bytes(bytes: &[u8]) -> (value: Self) {
        proof {
            lemma_pow256_values();
            lemma_word_width();
            lemma_le_value_bound(bytes@);
        }
        decode_le(bytes) as usize
    }
}

impl Castable for i8 {
    open spec fn spec_size() -> nat {
        1
    }

    open spec fn spec_align() -> usize {
        core::mem::align_of::<i8>()
    }

    open spec fn encode(&self) -> Seq<u8> {
        le_bytes(unsigned_of(*self as int, 1), 1)
    }

    open spec fn decode(bytes: Seq<u8>) -> Self {
        signed_of(le_value(bytes) % pow256(1), 1) as i8
    }

    proof fn lemma_layout() {
        broadcast use vstd::layout::layout_of_primitives;

        lemma_align_divides_size::<Self>();
    }

    proof fn lemma_encode_len(&self) {
        lemma_le_bytes_len(unsigned_of(*self as int, 1), 1);
    }

    proof fn lemma_decode_encode(&self) {
        lemma_pow256_values();
        lemma_le_value_of_bytes(unsigned_of(*self as int, 1), 1);
    }

    proof fn lemma_encode_decode(bytes: Seq<u8>) {
        lemma_pow256_values();
        lemma_le_value_bound(bytes);
        lemma_le_bytes_of_value(bytes);
        vstd::arithmetic::div_mod::lemma_small_mod(le_value(bytes), pow256(1));
    }

    fn size() -> (n: Option<usize>) {
        broadcast use vstd::layout::layout_of_primitives;

        Some(core::mem::size_of::<i8>())
    }

    fn align() -> (n: usize) {
        broadcast use vstd::layout::group_align_properties;

        core::mem::align_of::<i8>()
    }

    fn to_bytes(&self) -> (bytes: Vec<u8>) {
        broadcast use vstd::layout::layout_of_primitives;

        proof {
            lemma_pow256_values();
        }
        let wide: i128 = *self as i128;
        let raw: u128 = if wide < 0 {
            (wide + 0x1_00) as u128
        } else {
            wide as u128
        };
        encode_le(raw, core::mem::size_of::<i8>())
    }

    fn from_bytes(bytes: &[u8]) -> (value: Self) {
        proof {
            lemma_pow256_values();
            lemma_le_value_bound(bytes@);
        }
        let raw: u128 = decode_le(bytes);
        if raw >= 0x80 {
            (raw as i128 - 0x1_00) as i8
        } else {
            raw as i8
        }
    }
}

impl Castable for i16 {
    open spec fn spec_size() -> nat {
        2
    }

    open spec fn spec_align() -> usize {
        core::mem::align_of::<i16>()
    }

    open spec fn encode(&self) -> Seq<u8> {
        le_bytes(unsigned_of(*self as int, 2), 2)
    }

    open spec fn decode(bytes: Seq<u8>) -> Self {
        signed_of(le_value(bytes) % pow256(2), 2) as i16
    }

    proof fn lemma_layout() {
        broadcast use vstd::layout::layout_of_primitives;

        lemma_align_divides_size::<Self>();
    }

    proof fn lemma_encode_len(&self) {
        lemma_le_bytes_len(unsigned_of(*self as int, 2), 2);
    }

    proof fn lemma_decode_encode(&self) {
        lemma_pow256_values();
        lemma_le_value_of_bytes(unsigned_of(*self as int, 2), 2);
    }

    proof fn lemma_encode_decode(bytes: Seq<u8>) {
        lemma_pow256_values();
        lemma_le_value_bound(bytes);
        lemma_le_bytes_of_value(bytes);
        vstd::arithmetic::div_mod::lemma_small_mod(le_value(bytes), pow256(2));
    }

    fn size() -> (n: Option<usize>) {
        broadcast use vstd::layout::layout_of_primitives;

        Some(core::mem::size_of::<i16>())
    }

    fn align() -> (n: usize) {
        broadcast use vstd::layout::group_align_properties;

        core::mem::align_of::<i16>()
    }

    fn to_bytes(&self) -> (bytes: Vec<u8>) {
        broadcast use vstd::layout::layout_of_primitives;

        proof {
            lemma_pow256_values();
        }
        let wide: i128 = *self as i128;
        let raw: u128 = if wide < 0 {
            (wide + 0x1_00_00) as u128
        } else {
            wide as u128
        };
        encode_le(raw, core::mem::size_of::<i16>())
    }

    fn from_bytes(bytes: &[u8]) -> (value: Self) {
        proof {
            lemma_pow256_values();
            lemma_le_value_bound(bytes@);
        }
        let raw: u128 = decode_le(bytes);
        if raw >= 0x80_00 {
            (raw as i128 - 0x1_00_00) as i16
        } else {
            raw as i16
        }
    }
}

impl Castable for i32 {
    open spec fn spec_size() -> nat {
        4
    }

    open spec fn spec_align() -> usize {
        core::mem::align_of::<i32>()
    }

    open spec fn encode(&self) -> Seq<u8> {
        le_bytes(unsigned_of(*self as int, 4), 4)
    }

    open spec fn decode(bytes: Seq<u8>) -> Self {
        signed_of(le_value(bytes) % pow256(4), 4) as i32
    }

    proof fn lemma_layout() {
        broadcast use vstd::layout::layout_of_primitives;

        lemma_align_divides_size::<Self>();
    }

    proof fn lemma_encode_len(&self) {
        lemma_le_bytes_len(unsigned_of(*self as int, 4), 4);
    }

    proof fn lemma_decode_encode(&self) {
        lemma_pow256_values();
        lemma_le_value_of_bytes(unsigned_of(*self as int, 4), 4);
    }

    proof fn lemma_encode_decode(bytes: Seq<u8>) {
        lemma_pow256_values();
        lemma_le_value_bound(bytes);
        lemma_le_bytes_of_value(bytes);
        vstd::arithmetic::div_mod::lemma_small_mod(le_value(bytes), pow256(4));
    }

    fn size() -> (n: Option<usize>) {
        broadcast use vstd::layout::layout_of_primitives;

        Some(core::mem::size_of::<i32>())
    }

    fn align() -> (n: usize) {
        broadcast use vstd::layout::group_align_properties;

        core::mem::align_of::<i32>()
    }

    fn to_bytes(&self) -> (bytes: Vec<u8>) {
        broadcast use vstd::layout::layout_of_primitives;

        proof {
            lemma_pow256_values();
        }
        let wide: i128 = *self as i128;
        let raw: u128 = if wide < 0 {
            (wide + 0x1_00_00_00_00) as u128
        } else {
            wide as u128
        };
        encode_le(raw, core::mem::size_of::<i32>())
    }

    fn from_bytes(bytes: &[u8]) -> (value: Self) {
        proof {
            lemma_pow256_values();
            lemma_le_value_bound(bytes@);
        }
        let raw: u128 = decode_le(bytes);
        if raw >= 0x80_00_00_00 {
            (raw as i128 - 0x1_00_00_00_00) as i32
        } else {
            raw as i32
        }
    }
}

impl Castable for i64 {
    open spec fn spec_size() -> nat {
        8
    }

    open spec fn spec_align() -> usize {
        core::mem::align_of::<i64>()
    }

    open spec fn encode(&self) -> Seq<u8> {
        le_bytes(unsigned_of(*self as int, 8), 8)
    }

    open spec fn decode(bytes: Seq<u8>) -> Self {
        signed_of(le_value(bytes) % pow256(8), 8) as i64
    }

    proof fn lemma_layout() {
        broadcast use vstd::layout::layout_of_primitives;

        lemma_align_divides_size::<Self>();
    }

    proof fn lemma_encode_len(&self) {
        lemma_le_bytes_len(unsigned_of(*self as int, 8), 8);
    }

    proof fn lemma_decode_encode(&self) {
        lemma_pow256_values();
        lemma_le_value_of_bytes(unsigned_of(*self as int, 8), 8);
    }

    proof fn lemma_encode_decode(bytes: Seq<u8>) {
        lemma_pow256_values();
        lemma_le_value_bound(bytes);
        lemma_le_bytes_of_value(bytes);
        vstd::arithmetic::div_mod::lemma_small_mod(le_value(bytes), pow256(8));
    }

    fn size() -> (n: Option<usize>) {
        broadcast use vstd::layout::layout_of_primitives;

        Some(core::mem::size_of::<i64>())
    }

    fn align() -> (n: usize) {
        broadcast use vstd::layout::group_align_properties;

        core::mem::align_of::<i64>()
    }

    fn to_bytes(&self) -> (bytes: Vec<u8>) {
        broadcast use vstd::layout::layout_of_primitives;

        proof {
            lemma_pow256_values();
        }
        let wide: i128 = *self as i128;
        let raw: u128 = if wide < 0 {
            (wide + 0x1_00_00_00_00_00_00_00_00) as u128
        } else {
            wide as u128
        };
        encode_le(raw, core::mem::size_of::<i64>())
    }

    fn from_bytes(bytes: &[u8]) -> (value: Self) {
        proof {
            lemma_pow256_values();
            lemma_le_value_bound(bytes@);
        }
        let raw: u128 = decode_le(bytes);
        if raw >= 0x80_00_00_00_00_00_00_00 {
            (raw as i128 - 0x1_00_00_00_00_00_00_00_00) as i64
        } else {
            raw as i64
        }
    }
}

impl Castable for i128 {
    open spec fn spec_size() -> nat {
        16
    }

    open spec fn spec_align() -> usize {
        core::mem::align_of::<i128>()
    }

    open spec fn encode(&self) -> Seq<u8> {
        le_bytes(unsigned_of(*self as int, 16), 16)
    }

    open spec fn decode(bytes: Seq<u8>) -> Self {
        signed_of(le_value(bytes) % pow256(16), 16) as i128
    }

    proof fn lemma_layout() {
        broadcast use vstd::layout::layout_of_primitives;

        lemma_align_divides_size::<Self>();
    }

    proof fn lemma_encode_len(&self) {
        lemma_le_bytes_len(unsigned_of(*self as int, 16), 16);
    }

    proof fn lemma_decode_encode(&self) {
        lemma_pow256_values();
        lemma_le_value_of_bytes(unsigned_of(*self as int, 16), 16);
    }

    proof fn lemma_encode_decode(bytes: Seq<u8>) {
        lemma_pow256_values();
        lemma_le_value_bound(bytes);
        lemma_le_bytes_of_value(bytes);
        vstd::arithmetic::div_mod::lemma_small_mod(le_value(bytes), pow256(16));
    }

    fn size() -> (n: Option<usize>) {
        broadcast use vstd::layout::layout_of_primitives;

        Some(core::mem::size_of::<i128>())
    }

    fn align() -> (n: usize) {
        broadcast use vstd::layout::group_align_properties;

        core::mem::align_of::<i128>()
    }

    fn to_bytes(&self) -> (bytes: Vec<u8>) {
        broadcast use vstd::layout::layout_of_primitives;

        proof {
            lemma_pow256_values();
        }
        let raw: u128 = if *self < 0 {
            (*self - i128::MIN) as u128 + 0x8000_0000_0000_0000_0000_0000_0000_0000
        } else {
            *self as u128
        };
        encode_le(raw, core::mem::size_of::<i128>())
    }

    fn from_bytes(bytes: &[u8]) -> (value: Self) {
        proof {
            lemma_pow256_values();
            lemma_le_value_bound(bytes@);
        }
        let raw: u128 = decode_le(bytes);
        if raw >= 0x8000_0000_0000_0000_0000_0000_0000_0000 {
            (raw - 0x8000_0000_0000_0000_0000_0000_0000_0000) as i128 + i128::MIN
        } else {
            raw as i128
        }
    }
}

impl Castable for isize {
    open spec fn spec_size() -> nat {
        word_size()
    }

    open spec fn spec_align() -> usize {
        core::mem::align_of::<isize>()
    }

    open spec fn encode(&self) -> Seq<u8> {
        le_bytes(unsigned_of(*self as int, word_size()), word_size())
    }

    open spec fn decode(bytes: Seq<u8>) -> Self {
        signed_of(le_value(bytes) % pow256(word_size()), word_size()) as isize
    }

    proof fn lemma_layout() {
        broadcast use vstd::layout::layout_of_primitives;

        lemma_word_width();
        lemma_align_divides_size::<Self>();
    }

    proof fn lemma_encode_len(&self) {
        lemma_le_bytes_len(unsigned_of(*self as int, word_size()), word_size());
    }

    proof fn lemma_decode_encode(&self) {
        lemma_pow256_values();
        lemma_word_width();
        lemma_le_value_of_bytes(unsigned_of(*self as int, word_size()), word_size());
    }

    proof fn lemma_encode_decode(bytes: Seq<u8>) {
        lemma_pow256_values();
        lemma_word_width();
        lemma_le_value_bound(bytes);
        lemma_le_bytes_of_value(bytes);
        vstd::arithmetic::div_mod::lemma_small_mod(le_value(bytes), pow256(word_size()));
    }

    fn size() -> (n: Option<usize>) {
        broadcast use vstd::layout::layout_of_primitives;

        Some(core::mem::size_of::<isize>())
    }

    fn align() -> (n: usize) {
        broadcast use vstd::layout::group_align_properties;

        core::mem::align_of::<isize>()
    }

    fn to_bytes(&self) -> (bytes: Vec<u8>) {
        broadcast use vstd::layout::layout_of_primitives;

        proof {
            lemma_pow256_values();
            lemma_word_width();
        }
        let wide: i128 = *self as i128;
        let raw: u128 = if wide < 0 {
            (wide + usize::MAX as i128 + 1) as u128
        } else {
            wide as u128
        };
        encode_le(raw, core::mem::size_of::<isize>())
    }

    fn from_bytes(bytes: &[u8]) -> (value: Self) {
        proof {
            lemma_pow256_values();
            lemma_word_width();
            lemma_le_value_bound(bytes@);
        }
        let raw: u128 = decode_le(bytes);
        if raw > isize::MAX as u128 {
            (raw as i128 - usize::MAX as i128 - 1) as isize
        } else {
            raw as isize
        }
    }
}

} // verus!
