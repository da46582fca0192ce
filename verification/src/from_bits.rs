//! The bit-conversion capability: the contract a logical value type
//! implements to become packable into a bit range.
//!
//! A type says how many bits it occupies, which bit patterns denote one of
//! its values, and how to convert in both directions.  Conversion from a
//! value to bits is lossless: reading back the bits of any value yields that
//! value again.

use vstd::prelude::*;

use crate::pack::low_mask;

verus! {

/// A logical value type that can be packed into, and unpacked from, a bit
/// range of `spec_width()` bits.
pub trait FromBits: Sized {
    /// The error this type reports for a bit pattern that denotes none of its
    /// values.
    type Error;

    /// Number of low-order bits a value of this type occupies.
    spec fn spec_width() -> u32;

    /// Which bit patterns denote a value of this type.
    spec fn valid_bits(bits: u64) -> bool;

    /// The value a valid pattern denotes.
    spec fn from_bits_spec(bits: u64) -> Self;

    /// The pattern a value denotes.
    spec fn into_bits_spec(&self) -> u64;

    /// The width is between 1 and 64 bits.
    proof fn lemma_width()
        ensures
            1 <= Self::spec_width() <= 64,
    ;

    /// Conversion to bits is lossless: the bits of any value fit in the
    /// type's width, are valid, and denote that same value.
    proof fn lemma_round_trip(v: Self)
        ensures
            v.into_bits_spec() <= low_mask(Self::spec_width()),
            Self::valid_bits(v.into_bits_spec()),
            Self::from_bits_spec(v.into_bits_spec()) == v,
    ;

    /// Number of bits a value of this type occupies.
    fn width() -> (w: u32)
        ensures
            w == Self::spec_width(),
    ;

    /// Attempts to interpret `bits` as a value of this type.
    fn try_from_bits(bits: u64) -> (r: Result<Self, Self::Error>)
        ensures
            r is Ok <==> Self::valid_bits(bits),
            r matches Ok(v) ==> v == Self::from_bits_spec(bits),
    ;

    /// The lossless projection of this value into its bit representation.
    fn into_bits(self) -> (bits: u64)
        ensures
            bits == self.into_bits_spec(),
    ;
}

impl FromBits for bool {
    type Error = &'static str;

    open spec fn spec_width() -> u32 {
        1
    }

    open spec fn valid_bits(bits: u64) -> bool {
        bits <= 1
    }

    open spec fn from_bits_spec(bits: u64) -> Self {
        bits == 1
    }

    open spec fn into_bits_spec(&self) -> u64 {
        if *self {
            1
        } else {
            0
        }
    }

    proof fn lemma_width() {
    }

    proof fn lemma_round_trip(v: Self) {
        assert(((1u64 << 1u64) - 1) as u64 == 1) by (bit_vector);
    }

    fn width() -> u32 {
        1
    }

    fn try_from_bits(bits: u64) -> Result<Self, Self::Error> {
        if bits == 0 {
            Ok(false)
        } else if bits == 1 {
            Ok(true)
        } else {
            Err("expected a one-bit pattern")
        }
    }

    fn into_bits(self) -> u64 {
        if self {
            1
        } else {
            0
        }
    }
}

impl FromBits for u8 {
    type Error = &'static str;

    open spec fn spec_width() -> u32 {
        8
    }

    open spec fn valid_bits(bits: u64) -> bool {
        bits <= 0xff
    }

    open spec fn from_bits_spec(bits: u64) -> Self {
        bits as u8
    }

    open spec fn into_bits_spec(&self) -> u64 {
        *self as u64
    }

    proof fn lemma_width() {
    }

    proof fn lemma_round_trip(v: Self) {
        assert(((1u64 << 8u64) - 1) as u64 == 0xff) by (bit_vector);
    }

    fn width() -> u32 {
        8
    }

    fn try_from_bits(bits: u64) -> Result<Self, Self::Error> {
        if bits <= 0xff {
            Ok(bits as u8)
        } else {
            Err("expected an eight-bit pattern")
        }
    }

    fn into_bits(self) -> u64 {
        self as u64
    }
}

impl FromBits for u16 {
    type Error = &'static str;

    open spec fn spec_width() -> u32 {
        16
    }

    open spec fn valid_bits(bits: u64) -> bool {
        bits <= 0xffff
    }

    open spec fn from_bits_spec(bits: u64) -> Self {
        bits as u16
    }

    open spec fn into_bits_spec(&self) -> u64 {
        *self as u64
    }

    proof fn lemma_width() {
    }

    proof fn lemma_round_trip(v: Self) {
        assert(((1u64 << 16u64) - 1) as u64 == 0xffff) by (bit_vector);
    }

    fn width() -> u32 {
        16
    }

    fn try_from_bits(bits: u64) -> Result<Self, Self::Error> {
        if bits <= 0xffff {
            Ok(bits as u16)
        } else {
            Err("expected a sixteen-bit pattern")
        }
    }

    fn into_bits(self) -> u64 {
        self as u64
    }
}

impl FromBits for u32 {
    type Error = &'static str;

    open spec fn spec_width() -> u32 {
        32
    }

    open spec fn valid_bits(bits: u64) -> bool {
        bits <= 0xffff_ffff
    }

    open spec fn from_bits_spec(bits: u64) -> Self {
        bits as u32
    }

    open spec fn into_bits_spec(&self) -> u64 {
        *self as u64
    }

    proof fn lemma_width() {
    }

    proof fn lemma_round_trip(v: Self) {
        assert(((1u64 << 32u64) - 1) as u64 == 0xffff_ffff) by (bit_vector);
    }

    fn width() -> u32 {
        32
    }

    fn try_from_bits(bits: u64) -> Result<Self, Self::Error> {
        if bits <= 0xffff_ffff {
            Ok(bits as u32)
        } else {
            Err("expected a thirty-two-bit pattern")
        }
    }

    fn into_bits(self) -> u64 {
        self as u64
    }
}

impl FromBits for i8 {
    type Error = &'static str;

    open spec fn spec_width() -> u32 {
        8
    }

    open spec fn valid_bits(bits: u64) -> bool {
        bits <= 0xff
    }

    open spec fn from_bits_spec(bits: u64) -> Self {
        bits as u8 as i8
    }

    open spec fn into_bits_spec(&self) -> u64 {
        *self as u8 as u64
    }

    proof fn lemma_width() {
    }

    proof fn lemma_round_trip(v: Self) {
        assert(((1u64 << 8u64) - 1) as u64 == 0xff) by (bit_vector);
        assert((v as u8 as u64) <= 0xff);
        assert(((v as u8 as u64) as u8 as i8) == v) by (bit_vector);
    }

    fn width() -> u32 {
        8
    }

    fn try_from_bits(bits: u64) -> Result<Self, Self::Error> {
        if bits <= 0xff {
            Ok(bits as u8 as i8)
        } else {
            Err("expected an eight-bit pattern")
        }
    }

    fn into_bits(self) -> u64 {
        self as u8 as u64
    }
}

impl FromBits for i16 {
    type Error = &'static str;

    open spec fn spec_width() -> u32 {
        16
    }

    open spec fn valid_bits(bits: u64) -> bool {
        bits <= 0xffff
    }

    open spec fn from_bits_spec(bits: u64) -> Self {
        bits as u16 as i16
    }

    open spec fn into_bits_spec(&self) -> u64 {
        *self as u16 as u64
    }

    proof fn lemma_width() {
    }

    proof fn lemma_round_trip(v: Self) {
        assert(((1u64 << 16u64) - 1) as u64 == 0xffff) by (bit_vector);
        assert((v as u16 as u64) <= 0xffff);
        assert(((v as u16 as u64) as u16 as i16) == v) by (bit_vector);
    }

    fn width() -> u32 {
        16
    }

    fn try_from_bits(bits: u64) -> Result<Self, Self::Error> {
        if bits <= 0xffff {
            Ok(bits as u16 as i16)
        } else {
            Err("expected a sixteen-bit pattern")
        }
    }

    fn into_bits(self) -> u64 {
        self as u16 as u64
    }
}

impl FromBits for i32 {
    type Error = &'static str;

    open spec fn spec_width() -> u32 {
        32
    }

    open spec fn valid_bits(bits: u64) -> bool {
        bits <= 0xffff_ffff
    }

    open spec fn from_bits_spec(bits: u64) -> Self {
        bits as u32 as i32
    }

    open spec fn into_bits_spec(&self) -> u64 {
        *self as u32 as u64
    }

    proof fn lemma_width() {
    }

    proof fn lemma_round_trip(v: Self) {
        assert(((1u64 << 32u64) - 1) as u64 == 0xffff_ffff) by (bit_vector);
        assert((v as u32 as u64) <= 0xffff_ffff);
        assert(((v as u32 as u64) as u32 as i32) == v) by (bit_vector);
    }

    fn width() -> u32 {
        32
    }

    fn try_from_bits(bits: u64) -> Result<Self, Self::Error> {
        if bits <= 0xffff_ffff {
            Ok(bits as u32 as i32)
        } else {
            Err("expected a thirty-two-bit pattern")
        }
    }

    fn into_bits(self) -> u64 {
        self as u32 as u64
    }
}

impl FromBits for i64 {
    type Error = &'static str;

    open spec fn spec_width() -> u32 {
        64
    }

    open spec fn valid_bits(bits: u64) -> bool {
        true
    }

    open spec fn from_bits_spec(bits: u64) -> Self {
        bits as i64
    }

    open spec fn into_bits_spec(&self) -> u64 {
        *self as u64
    }

    proof fn lemma_width() {
    }

    proof fn lemma_round_trip(v: Self) {
        assert(((v as u64) as i64) == v) by (bit_vector);
    }

    fn width() -> u32 {
        64
    }

    fn try_from_bits(bits: u64) -> Result<Self, Self::Error> {
        Ok(bits as i64)
    }

    fn into_bits(self) -> u64 {
        self as u64
    }
}

impl FromBits for u64 {
    type Error = &'static str;

    open spec fn spec_width() -> u32 {
        64
    }

    open spec fn valid_bits(bits: u64) -> bool {
        true
    }

    open spec fn from_bits_spec(bits: u64) -> Self {
        bits
    }

    open spec fn into_bits_spec(&self) -> u64 {
        *self
    }

    proof fn lemma_width() {
    }

    proof fn lemma_round_trip(v: Self) {
    }

    fn width() -> u32 {
        64
    }

    fn try_from_bits(bits: u64) -> Result<Self, Self::Error> {
        Ok(bits)
    }

    fn into_bits(self) -> u64 {
        self
    }
}

} // verus!
