//! Field descriptors and the pack/unpack primitives.
//!
//! A [`Pack`] describes one bit range of a raw word: its `offset` (index of
//! the lowest bit, 0 = least significant), its `width` in bits, and the
//! `total` number of bits of the word it belongs to.  The raw word is carried
//! as a `u64`; a narrower bitfield keeps its high bits zero.

use vstd::prelude::*;

use crate::from_bits::FromBits;
use core::marker::PhantomData;
use vstd::pervasive::unreached;

verus! {

/// The `width` lowest bits, set: `2^width - 1`.
pub open spec fn low_mask(width: u32) -> u64 {
    if width >= 64 {
        0xffff_ffff_ffff_ffffu64
    } else {
        ((1u64 << (width as u64)) - 1) as u64
    }
}

/// The mask covering bits `[offset, offset + width)`.
pub open spec fn field_mask(offset: u32, width: u32) -> u64 {
    low_mask(width) << (offset as u64)
}

/// The result of writing `bits` into the range `[offset, offset + width)` of
/// `raw`: the range is fully cleared, then the low `width` bits of `bits` are
/// written there; bits outside the range are untouched.
pub open spec fn pack_bits(offset: u32, width: u32, bits: u64, raw: u64) -> u64 {
    (raw & !field_mask(offset, width)) | ((bits << (offset as u64)) & field_mask(offset, width))
}

/// The contents of the range `[offset, offset + width)` of `raw`, shifted
/// down to the low `width` bits.
pub open spec fn extract_bits(offset: u32, width: u32, raw: u64) -> u64 {
    (raw & field_mask(offset, width)) >> (offset as u64)
}

/// Bit `i` of `x`.
pub open spec fn bit_of(x: u64, i: u32) -> bool {
    (x >> (i as u64)) & 1 == 1
}

/// Extraction inverts packing, up to masking: the bits read back from a
/// freshly packed range are exactly the low `width` bits of what was written.
pub proof fn lemma_extract_pack(offset: u32, width: u32, bits: u64, raw: u64)
    requires
        1 <= width,
        offset + width <= 64,
    ensures
        extract_bits(offset, width, pack_bits(offset, width, bits, raw)) == bits & low_mask(
            width,
        ),
{
    assert(extract_bits(offset, width, pack_bits(offset, width, bits, raw)) == bits & low_mask(
        width,
    )) by (bit_vector)
        requires
            1 <= width,
            offset + width <= 64,
    ;
}

/// What extraction returns always fits in the field's width.
pub proof fn lemma_extract_bound(offset: u32, width: u32, raw: u64)
    requires
        1 <= width,
        offset + width <= 64,
    ensures
        extract_bits(offset, width, raw) <= low_mask(width),
{
    assert(extract_bits(offset, width, raw) <= low_mask(width)) by (bit_vector)
        requires
            1 <= width,
            offset + width <= 64,
    ;
}

/// A value that already fits in `width` bits is unchanged by masking.
pub proof fn lemma_mask_noop(width: u32, bits: u64)
    requires
        bits <= low_mask(width),
    ensures
        bits & low_mask(width) == bits,
{
    assert(bits <= low_mask(width) ==> bits & low_mask(width) == bits) by (bit_vector);
}

/// Packing touches no bit outside the field's range.
pub proof fn lemma_pack_outside(offset: u32, width: u32, bits: u64, raw: u64)
    requires
        1 <= width,
        offset + width <= 64,
    ensures
        pack_bits(offset, width, bits, raw) & !field_mask(offset, width) == raw & !field_mask(
            offset,
            width,
        ),
        forall|i: u32|
            i < 64 && (i < offset || offset + width <= i) ==> #[trigger] bit_of(
                pack_bits(offset, width, bits, raw),
                i,
            ) == bit_of(raw, i),
{
    assert(pack_bits(offset, width, bits, raw) & !field_mask(offset, width) == raw & !field_mask(
        offset,
        width,
    )) by (bit_vector)
        requires
            1 <= width,
            offset + width <= 64,
    ;
    assert(forall|i: u32|
        i < 64 && (i < offset || offset + width <= i) ==> #[trigger] bit_of(
            pack_bits(offset, width, bits, raw),
            i,
        ) == bit_of(raw, i)) by (bit_vector)
        requires
            1 <= width,
            offset + width <= 64,
    ;
}

/// Packing a field leaves every disjoint field's contents unchanged.
pub proof fn lemma_pack_disjoint(
    offset1: u32,
    width1: u32,
    offset2: u32,
    width2: u32,
    bits: u64,
    raw: u64,
)
    requires
        1 <= width1,
        offset1 + width1 <= 64,
        1 <= width2,
        offset2 + width2 <= 64,
        offset1 + width1 <= offset2 || offset2 + width2 <= offset1,
    ensures
        extract_bits(offset2, width2, pack_bits(offset1, width1, bits, raw)) == extract_bits(
            offset2,
            width2,
            raw,
        ),
{
    assert(extract_bits(offset2, width2, pack_bits(offset1, width1, bits, raw)) == extract_bits(
        offset2,
        width2,
        raw,
    )) by (bit_vector)
        requires
            1 <= width1,
            offset1 + width1 <= 64,
            1 <= width2,
            offset2 + width2 <= 64,
            offset1 + width1 <= offset2 || offset2 + width2 <= offset1,
    ;
}

/// Packing the same value into the same field twice is the same as packing it
/// once.
pub proof fn lemma_pack_idempotent(offset: u32, width: u32, bits: u64, raw: u64)
    requires
        1 <= width,
        offset + width <= 64,
    ensures
        pack_bits(offset, width, bits, pack_bits(offset, width, bits, raw)) == pack_bits(
            offset,
            width,
            bits,
            raw,
        ),
{
    assert(pack_bits(offset, width, bits, pack_bits(offset, width, bits, raw)) == pack_bits(
        offset,
        width,
        bits,
        raw,
    )) by (bit_vector)
        requires
            1 <= width,
            offset + width <= 64,
    ;
}

/// A field of an all-zero word holds zero: fields never written read as
/// zero, since packing other fields leaves this one untouched.
pub proof fn lemma_extract_zero(offset: u32, width: u32)
    requires
        1 <= width,
        offset + width <= 64,
    ensures
        extract_bits(offset, width, 0) == 0,
{
    assert(extract_bits(offset, width, 0) == 0) by (bit_vector)
        requires
            1 <= width,
            offset + width <= 64,
    ;
}

/// Packing into a field of a `total`-bit word keeps the word within `total`
/// bits.
pub proof fn lemma_pack_in_total(offset: u32, width: u32, total: u32, bits: u64, raw: u64)
    requires
        1 <= width,
        offset + width <= total,
        total <= 64,
        raw <= low_mask(total),
    ensures
        pack_bits(offset, width, bits, raw) <= low_mask(total),
{
    assert(pack_bits(offset, width, bits, raw) <= low_mask(total)) by (bit_vector)
        requires
            1 <= width,
            offset + width <= total,
            total <= 64,
            raw <= low_mask(total),
    ;
}

/// A field descriptor: one bit range of a `total`-bit word, carrying the
/// logical value type `V` it packs and a marker `O` for the bitfield type it
/// belongs to, so that a descriptor of one bitfield type cannot be used
/// against another.
pub struct Pack<V, O> {
    offset: u32,
    width: u32,
    total: u32,
    _marker: PhantomData<(V, O)>,
}

impl<V, O> Pack<V, O> {
    /// Index of the field's lowest bit (0 = least significant).
    pub closed spec fn spec_offset(&self) -> u32 {
        self.offset
    }

    /// Number of bits of the field.
    pub closed spec fn spec_width(&self) -> u32 {
        self.width
    }

    /// Total number of bits of the word this field belongs to.
    pub closed spec fn spec_total(&self) -> u32 {
        self.total
    }

    /// Every constructed descriptor satisfies this: a nonempty range that
    /// lies within its word.
    pub open spec fn wf(&self) -> bool {
        1 <= self.spec_width() && self.spec_offset() + self.spec_width() <= self.spec_total()
            && self.spec_total() <= 64
    }

    /// The mask covering this field's range.
    pub open spec fn spec_mask(&self) -> u64 {
        field_mask(self.spec_offset(), self.spec_width())
    }

    pub fn offset(&self) -> (o: u32)
        ensures
            o == self.spec_offset(),
    {
        self.offset
    }

    /// The field's width in bits.
    pub fn bits(&self) -> (w: u32)
        ensures
            w == self.spec_width(),
    {
        self.width
    }

    pub fn total(&self) -> (t: u32)
        ensures
            t == self.spec_total(),
    {
        self.total
    }

    /// Index of the field's highest bit.
    pub fn most_significant_index(&self) -> (i: u32)
        requires
            self.wf(),
        ensures
            i == self.spec_offset() + self.spec_width() - 1,
    {
        self.offset + self.width - 1
    }

    /// Two (type-erased) descriptors are equal when their offsets and widths
    /// are.
    pub fn eq_range<V2>(&self, other: &Pack<V2, O>) -> (r: bool)
        ensures
            r == (self.spec_offset() == other.spec_offset() && self.spec_width()
                == other.spec_width()),
    {
        self.offset == other.offset && self.width == other.width
    }

    /// A descriptor at `offset = self.offset + self.width`, with the given
    /// explicit width: the next untyped field above this one.
    pub fn next(&self, width: u32) -> (r: Pack<u64, O>)
        requires
            self.wf(),
            1 <= width,
            self.spec_offset() + self.spec_width() + width <= self.spec_total(),
        ensures
            r.spec_offset() == self.spec_offset() + self.spec_width(),
            r.spec_width() == width,
            r.spec_total() == self.spec_total(),
            r.wf(),
    {
        Pack { offset: self.offset + self.width, width, total: self.total, _marker: PhantomData }
    }

    /// A descriptor at `offset = self.offset + self.width`, with the width of
    /// the logical type `V2`: the next typed field above this one.
    pub fn next_typed<V2: FromBits>(&self) -> (r: Pack<V2, O>)
        requires
            self.wf(),
            self.spec_offset() + self.spec_width() + V2::spec_width() <= self.spec_total(),
        ensures
            r.spec_offset() == self.spec_offset() + self.spec_width(),
            r.spec_width() == V2::spec_width(),
            r.spec_total() == self.spec_total(),
            r.wf(),
    {
        proof {
            V2::lemma_width();
        }
        let width = V2::width();
        Pack { offset: self.offset + self.width, width, total: self.total, _marker: PhantomData }
    }

    /// A descriptor claiming every unused bit above this one, up to the top
    /// of the word.
    pub fn remaining(&self) -> (r: Pack<u64, O>)
        requires
            self.wf(),
            self.spec_offset() + self.spec_width() < self.spec_total(),
        ensures
            r.spec_offset() == self.spec_offset() + self.spec_width(),
            r.spec_width() == self.spec_total() - (self.spec_offset() + self.spec_width()),
            r.spec_total() == self.spec_total(),
            r.wf(),
    {
        let offset = self.offset + self.width;
        Pack { offset, width: self.total - offset, total: self.total, _marker: PhantomData }
    }

    /// This descriptor with its logical type erased, for storage in a field
    /// registry; offset and width are retained.
    pub fn typed(&self) -> (r: Pack<u64, O>)
        ensures
            r.spec_offset() == self.spec_offset(),
            r.spec_width() == self.spec_width(),
            r.spec_total() == self.spec_total(),
    {
        Pack { offset: self.offset, width: self.width, total: self.total, _marker: PhantomData }
    }

    /// The mask covering this field's range.
    pub fn mask(&self) -> (m: u64)
        requires
            self.wf(),
        ensures
            m == self.spec_mask(),
    {
        let low: u64 = if self.width >= 64 {
            0xffff_ffff_ffff_ffffu64
        } else {
            proof {
                let w = self.width as u64;
                assert(w < 64 ==> 1u64 << w >= 1) by (bit_vector);
            }
            (1u64 << (self.width as u64)) - 1
        };
        low << (self.offset as u64)
    }

    /// The contents of this field's range in `raw`, shifted down to the low
    /// `width` bits, without conversion.
    pub fn unpack_bits(&self, raw: u64) -> (r: u64)
        requires
            self.wf(),
        ensures
            r == extract_bits(self.spec_offset(), self.spec_width(), raw),
            r <= low_mask(self.spec_width()),
    {
        proof {
            lemma_extract_bound(self.offset, self.width, raw);
        }
        (raw & self.mask()) >> (self.offset as u64)
    }
}

impl<O> Pack<u64, O> {
    /// A descriptor at offset 0 of a `total`-bit word, with the given
    /// explicit width: the first untyped field.
    pub fn least_significant(total: u32, width: u32) -> (r: Pack<u64, O>)
        requires
            1 <= width,
            width <= total,
            total <= 64,
        ensures
            r.spec_offset() == 0,
            r.spec_width() == width,
            r.spec_total() == total,
            r.wf(),
    {
        Pack { offset: 0, width, total, _marker: PhantomData }
    }
}

impl<V: FromBits, O> Pack<V, O> {
    /// A descriptor at offset 0 of a `total`-bit word, with the width of the
    /// logical type `V`: the first typed field.
    pub fn first(total: u32) -> (r: Pack<V, O>)
        requires
            V::spec_width() <= total,
            total <= 64,
        ensures
            r.spec_offset() == 0,
            r.spec_width() == V::spec_width(),
            r.spec_total() == total,
            r.wf(),
    {
        proof {
            V::lemma_width();
        }
        Pack { offset: 0, width: V::width(), total, _marker: PhantomData }
    }

    /// Writes the bit representation of `value` into this field's range of
    /// `raw`, returning the new word: the range is fully cleared first, and
    /// bits outside it are untouched.
    pub fn pack(&self, value: V, raw: u64) -> (r: u64)
        requires
            self.wf(),
        ensures
            r == pack_bits(self.spec_offset(), self.spec_width(), value.into_bits_spec(), raw),
    {
        let bits = value.into_bits();
        let mask = self.mask();
        (raw & !mask) | ((bits << (self.offset as u64)) & mask)
    }

    /// Same effect as [`Pack::pack`], in place.
    pub fn pack_into(&self, value: V, raw: &mut u64)
        requires
            self.wf(),
        ensures
            *final(raw) == pack_bits(
                self.spec_offset(),
                self.spec_width(),
                value.into_bits_spec(),
                *old(raw),
            ),
    {
        *raw = self.pack(value, *raw);
    }

    /// Extracts this field's range of `raw` and attempts to convert it into
    /// a `V`, propagating `V`'s own conversion error.
    pub fn try_unpack(&self, raw: u64) -> (r: Result<V, V::Error>)
        requires
            self.wf(),
        ensures
            r is Ok <==> V::valid_bits(extract_bits(self.spec_offset(), self.spec_width(), raw)),
            r matches Ok(v) ==> v == V::from_bits_spec(
                extract_bits(self.spec_offset(), self.spec_width(), raw),
            ),
    {
        V::try_from_bits(self.unpack_bits(raw))
    }

    /// Extracts this field's range of `raw` and converts it into a `V`.  The
    /// caller asserts that the range holds a valid bit pattern for a `V`.
    pub fn unpack(&self, raw: u64) -> (r: V)
        requires
            self.wf(),
            V::valid_bits(extract_bits(self.spec_offset(), self.spec_width(), raw)),
        ensures
            r == V::from_bits_spec(extract_bits(self.spec_offset(), self.spec_width(), raw)),
    {
        match V::try_from_bits(self.unpack_bits(raw)) {
            Ok(v) => v,
            Err(_) => unreached(),
        }
    }
}

/// Law: a value packed into a typed field is read back unchanged — whatever
/// the word previously held — and every bit outside the field's range keeps
/// its prior value.
pub proof fn lemma_pack_round_trip<V: FromBits, O>(f: Pack<V, O>, v: V, raw: u64)
    requires
        f.wf(),
        f.spec_width() == V::spec_width(),
    ensures
        V::valid_bits(
            extract_bits(
                f.spec_offset(),
                f.spec_width(),
                pack_bits(f.spec_offset(), f.spec_width(), v.into_bits_spec(), raw),
            ),
        ),
        V::from_bits_spec(
            extract_bits(
                f.spec_offset(),
                f.spec_width(),
                pack_bits(f.spec_offset(), f.spec_width(), v.into_bits_spec(), raw),
            ),
        ) == v,
        pack_bits(f.spec_offset(), f.spec_width(), v.into_bits_spec(), raw) & !f.spec_mask() == raw
            & !f.spec_mask(),
{
    V::lemma_round_trip(v);
    lemma_extract_pack(f.spec_offset(), f.spec_width(), v.into_bits_spec(), raw);
    lemma_mask_noop(f.spec_width(), v.into_bits_spec());
    lemma_pack_outside(f.spec_offset(), f.spec_width(), v.into_bits_spec(), raw);
}

} // verus!
