//! The bitfield value: the newtype wrapping the raw integer, and the layout
//! contract a bitfield type implements to describe its fields.
//!
//! A bitfield type is a marker type implementing [`Layout`]: it says how wide
//! its word is, lists its field registry, and says how each field's contents
//! are rendered.  [`Bitfield<O>`] then wraps one raw word of that type and
//! exposes the typed accessors.

use vstd::prelude::*;

use crate::from_bits::FromBits;
use crate::pack::{extract_bits, low_mask, pack_bits, lemma_pack_in_total, Pack};
use crate::registry::{
    assert_all_valid, fields_disjoint, is_reserved_name, registry_valid,
};
use core::marker::PhantomData;

verus! {

/// The plain shape of one registry entry: the field's name, offset and
/// width.
pub type FieldShape = (Seq<char>, u32, u32);

/// The shape of a registry: its entries' names, offsets and widths, in
/// declaration order.
pub open spec fn shape<O>(fields: Seq<(&'static str, Pack<u64, O>)>) -> Seq<FieldShape> {
    fields.map(|i: int, e: (&'static str, Pack<u64, O>)| (e.0@, e.1.spec_offset(), e.1.spec_width()))
}

/// A reserved field, by naming convention: a leading `_`.
pub open spec fn reserved_shape(name: Seq<char>) -> bool {
    name.len() > 0 && name[0] == '_'
}

/// A well-formed shape for a `total`-bit word: every range is nonempty and
/// lies within the word, each field sits strictly above the previous one —
/// which makes all ranges pairwise disjoint — and names stay short enough
/// for the diagnostic rendering's column arithmetic.
pub open spec fn shape_wf(sh: Seq<FieldShape>, total: u32) -> bool {
    &&& total <= 64
    &&& forall|i: int|
        0 <= i < sh.len() ==> 1 <= (#[trigger] sh[i]).2 && sh[i].1 + sh[i].2 <= total
    &&& forall|i: int, j: int|
        0 <= i < j < sh.len() ==> (#[trigger] sh[i]).1 + sh[i].2 <= (#[trigger] sh[j]).1
    &&& forall|i: int| 0 <= i < sh.len() ==> (#[trigger] sh[i]).0.len() <= 1024
}

/// The layout of one bitfield type: its word width, its field registry, and
/// how each field's contents are rendered.  Implemented by the zero-size
/// marker type that names the bitfield type; descriptors and values carry
/// the marker, so fields of one bitfield type cannot be used with another.
pub trait Layout: Sized {
    /// The bitfield type's name, as shown in its renderings.
    spec fn spec_name() -> Seq<char>;

    /// Total number of bits of the word.
    spec fn spec_total() -> u32;

    /// The shape of the field registry, in declaration order.
    spec fn spec_shape() -> Seq<FieldShape>;

    /// Whether `bits` is a valid pattern for the logical type of field `i`.
    /// Untyped fields accept every pattern.
    spec fn spec_field_valid(i: int, bits: u64) -> bool;

    /// The rendering of field `i` holding `bits`, as its logical type shows
    /// itself: an integer in decimal, a flag as `true`/`false`, an enum by
    /// its variant's name.
    spec fn spec_value_text(i: int, bits: u64) -> Seq<char>;

    /// The word is 1 to 64 bits wide and the registry is a well-formed,
    /// nonempty chain of fields within it.
    proof fn lemma_layout()
        ensures
            1 <= Self::spec_total() <= 64,
            shape_wf(Self::spec_shape(), Self::spec_total()),
            Self::spec_shape().len() >= 1,
    ;

    /// The bitfield type's name.
    fn name() -> (r: &'static str)
        ensures
            r@ == Self::spec_name(),
    ;

    /// Total number of bits of the word.
    fn total() -> (t: u32)
        ensures
            t == Self::spec_total(),
    ;

    /// The field registry: one `(name, type-erased descriptor)` pair per
    /// declared field, in declaration order.
    fn fields() -> (v: Vec<(&'static str, Pack<u64, Self>)>)
        ensures
            shape(v@) == Self::spec_shape(),
            forall|i: int|
                0 <= i < v@.len() ==> (#[trigger] v@[i]).1.spec_total() == Self::spec_total(),
    ;

    /// Renders the contents of field `i`.
    fn value_text(i: usize, bits: u64) -> (s: String)
        requires
            0 <= i < Self::spec_shape().len(),
            bits <= low_mask(Self::spec_shape()[i as int].2),
            Self::spec_field_valid(i as int, bits),
        ensures
            s@ == Self::spec_value_text(i as int, bits),
    ;
}

/// A well-formed shape carries over to the registry built from it: this is
/// what the validator checks, proved once for every layout.
pub proof fn lemma_shape_registry_valid<O>(
    fields: Seq<(&'static str, Pack<u64, O>)>,
    total: u32,
)
    requires
        shape_wf(shape(fields), total),
        forall|i: int| 0 <= i < fields.len() ==> (#[trigger] fields[i]).1.spec_total() == total,
    ensures
        registry_valid(fields, total),
{
    let sh = shape(fields);
    assert forall|i: int| 0 <= i < fields.len() implies (#[trigger] fields[i].1).wf()
        && fields[i].1.spec_total() == total by {
        assert(sh[i] == (fields[i].0@, fields[i].1.spec_offset(), fields[i].1.spec_width()));
    }
    assert forall|i: int, j: int| 0 <= i < j < fields.len() implies fields_disjoint(
        #[trigger] fields[i].1,
        #[trigger] fields[j].1,
    ) by {
        assert(sh[i] == (fields[i].0@, fields[i].1.spec_offset(), fields[i].1.spec_width()));
        assert(sh[j] == (fields[j].0@, fields[j].1.spec_offset(), fields[j].1.spec_width()));
    }
    assert forall|i: int, j: int|
        0 <= i < j < fields.len() && !is_reserved_name(#[trigger] fields[i].0)
            && !is_reserved_name(#[trigger] fields[j].0) implies fields[i].1.spec_offset()
        < fields[j].1.spec_offset() by {
        assert(sh[i] == (fields[i].0@, fields[i].1.spec_offset(), fields[i].1.spec_width()));
        assert(sh[j] == (fields[j].0@, fields[j].1.spec_offset(), fields[j].1.spec_width()));
    }
}

/// A bitfield value: one raw word of the bitfield type `O`.  The word is
/// always a complete bit pattern; fields never written hold zero.
#[derive(Debug)]
pub struct Bitfield<O> {
    raw: u64,
    _owner: PhantomData<O>,
}

impl<O: Layout> Bitfield<O> {
    /// The raw word.
    pub closed spec fn spec_raw(&self) -> u64 {
        self.raw
    }

    /// The raw word fits in the bitfield type's width.
    pub open spec fn wf(&self) -> bool {
        self.spec_raw() <= low_mask(O::spec_total())
    }

    /// A new value with all bits zero.
    pub fn new() -> (r: Self)
        ensures
            r.spec_raw() == 0,
            r.wf(),
    {
        Bitfield { raw: 0, _owner: PhantomData }
    }

    /// Wraps a raw word verbatim.  No validation happens here: a bitfield
    /// value may hold bit patterns that some field's logical type rejects;
    /// validity is enforced only on read.
    pub fn from_bits(bits: u64) -> (r: Self)
        requires
            bits <= low_mask(O::spec_total()),
        ensures
            r.spec_raw() == bits,
            r.wf(),
    {
        Bitfield { raw: bits, _owner: PhantomData }
    }

    /// The raw word back.
    pub fn bits(&self) -> (r: u64)
        ensures
            r == self.spec_raw(),
    {
        self.raw
    }

    /// A new value with the bit representation of `value` packed into the
    /// range of `field`; `self` is unchanged (builder style).
    pub fn with<V: FromBits>(self, field: Pack<V, O>, value: V) -> (r: Self)
        requires
            self.wf(),
            field.wf(),
            field.spec_total() == O::spec_total(),
        ensures
            r.spec_raw() == pack_bits(
                field.spec_offset(),
                field.spec_width(),
                value.into_bits_spec(),
                self.spec_raw(),
            ),
            r.wf(),
    {
        proof {
            lemma_pack_in_total(
                field.spec_offset(),
                field.spec_width(),
                O::spec_total(),
                value.into_bits_spec(),
                self.raw,
            );
        }
        Bitfield { raw: field.pack(value, self.raw), _owner: PhantomData }
    }

    /// Packs the bit representation of `value` into the range of `field`,
    /// mutating `self` in place.
    pub fn set<V: FromBits>(&mut self, field: Pack<V, O>, value: V)
        requires
            old(self).wf(),
            field.wf(),
            field.spec_total() == O::spec_total(),
        ensures
            final(self).spec_raw() == pack_bits(
                field.spec_offset(),
                field.spec_width(),
                value.into_bits_spec(),
                old(self).spec_raw(),
            ),
            final(self).wf(),
    {
        proof {
            lemma_pack_in_total(
                field.spec_offset(),
                field.spec_width(),
                O::spec_total(),
                value.into_bits_spec(),
                self.raw,
            );
        }
        field.pack_into(value, &mut self.raw);
    }

    /// Unpacks the range of `field` and converts it into a `V`.  The caller
    /// asserts that the range holds a valid bit pattern for a `V`.
    pub fn get<V: FromBits>(&self, field: Pack<V, O>) -> (r: V)
        requires
            field.wf(),
            V::valid_bits(extract_bits(field.spec_offset(), field.spec_width(), self.spec_raw())),
        ensures
            r == V::from_bits_spec(
                extract_bits(field.spec_offset(), field.spec_width(), self.spec_raw()),
            ),
    {
        field.unpack(self.raw)
    }

    /// Unpacks the range of `field` and attempts to convert it into a `V`,
    /// propagating `V`'s own conversion error.
    pub fn try_get<V: FromBits>(&self, field: Pack<V, O>) -> (r: Result<V, V::Error>)
        requires
            field.wf(),
        ensures
            r is Ok <==> V::valid_bits(
                extract_bits(field.spec_offset(), field.spec_width(), self.spec_raw()),
            ),
            r matches Ok(v) ==> v == V::from_bits_spec(
                extract_bits(field.spec_offset(), field.spec_width(), self.spec_raw()),
            ),
    {
        field.try_unpack(self.raw)
    }

    /// Asserts that this bitfield type's registry is valid.  Every layout
    /// proves its registry valid, so this always returns normally; it is
    /// kept as the runtime self-check the registry validator offers.
    pub fn assert_valid() {
        proof {
            O::lemma_layout();
        }
        let fields = O::fields();
        proof {
            lemma_shape_registry_valid(fields@, O::spec_total());
        }
        assert_all_valid(&fields, O::total());
    }
}

} // verus!
