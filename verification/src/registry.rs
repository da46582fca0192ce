//! The field registry and its validator.
//!
//! A registry is the ordered catalogue of one bitfield type's fields: a
//! sequence of `(name, descriptor)` pairs, one per declared field, in
//! declaration order (low to high offset).  Descriptors are stored with
//! their logical type erased, keeping only offset, width and total.
//!
//! A field whose name starts with `_` is reserved: it occupies its bit range
//! (and takes part in overlap checking) but is excluded from the per-field
//! rows of the diagnostic rendering.

use vstd::prelude::*;

use crate::pack::{extract_bits, pack_bits, Pack};
use vstd::pervasive::unreached;

verus! {

/// A reserved field, by naming convention: a leading `_`.
pub open spec fn is_reserved_name(name: &str) -> bool {
    name@.len() > 0 && name@[0] == '_'
}

/// Whether a field name marks a reserved field.
pub fn is_reserved(name: &str) -> (r: bool)
    ensures
        r == is_reserved_name(name),
{
    if name.unicode_len() == 0 {
        false
    } else {
        name.get_char(0) == '_'
    }
}

/// The bit ranges of two fields do not overlap.
pub open spec fn fields_disjoint<O>(f1: Pack<u64, O>, f2: Pack<u64, O>) -> bool {
    f1.spec_offset() + f1.spec_width() <= f2.spec_offset() || f2.spec_offset() + f2.spec_width()
        <= f1.spec_offset()
}

/// A well-formed registry for a `total`-bit word: every field's range is
/// nonempty and lies within `[0, total)`, no two fields overlap, and the
/// non-reserved fields appear in strictly ascending offset order.
pub open spec fn registry_valid<O>(
    fields: Seq<(&'static str, Pack<u64, O>)>,
    total: u32,
) -> bool {
    &&& forall|i: int|
        0 <= i < fields.len() ==> (#[trigger] fields[i].1).wf() && fields[i].1.spec_total()
            == total
    &&& forall|i: int, j: int|
        0 <= i < j < fields.len() ==> fields_disjoint(
            #[trigger] fields[i].1,
            #[trigger] fields[j].1,
        )
    &&& forall|i: int, j: int|
        0 <= i < j < fields.len() && !is_reserved_name(#[trigger] fields[i].0)
            && !is_reserved_name(#[trigger] fields[j].0) ==> fields[i].1.spec_offset()
            < fields[j].1.spec_offset()
}

/// Why a registry is not valid, naming the offending field(s).
pub enum ValidationError {
    /// The field's bit range is empty, exceeds the word, or belongs to a
    /// word of another width.
    OutOfRange { index: usize, name: &'static str },
    /// The two fields' bit ranges overlap.
    Overlap { first: usize, second: usize, first_name: &'static str, second_name: &'static str },
    /// The second (non-reserved) field does not sit above the first.
    OutOfOrder { first: usize, second: usize, first_name: &'static str, second_name: &'static str },
}

/// Walks a registry and reports the first violation found, or `Ok` exactly
/// when the registry is valid for a `total`-bit word.
pub fn check_valid<O>(fields: &Vec<(&'static str, Pack<u64, O>)>, total: u32) -> (r: Result<
    (),
    ValidationError,
>)
    ensures
        r is Ok <==> registry_valid(fields@, total),
        r matches Err(ValidationError::OutOfRange { index, name }) ==> 0 <= index < fields@.len()
            && name == fields@[index as int].0 && !(fields@[index as int].1.wf()
            && fields@[index as int].1.spec_total() == total),
        r matches Err(ValidationError::Overlap { first, second, first_name, second_name }) ==> 0
            <= first < second < fields@.len() && first_name == fields@[first as int].0
            && second_name == fields@[second as int].0 && !fields_disjoint(
            fields@[first as int].1,
            fields@[second as int].1,
        ),
        r matches Err(ValidationError::OutOfOrder { first, second, first_name, second_name }) ==> 0
            <= first < second < fields@.len() && first_name == fields@[first as int].0
            && second_name == fields@[second as int].0 && !is_reserved_name(
            fields@[first as int].0,
        ) && !is_reserved_name(fields@[second as int].0) && fields@[first as int].1.spec_offset()
            >= fields@[second as int].1.spec_offset(),
{
    let n = fields.len();
    let mut i: usize = 0;
    while i < n
        invariant
            n == fields@.len(),
            i <= n,
            forall|k: int|
                0 <= k < i ==> (#[trigger] fields@[k].1).wf() && fields@[k].1.spec_total() == total,
        decreases n - i,
    {
        let f = &fields[i].1;
        let in_range = f.bits() >= 1 && (f.offset() as u64) + (f.bits() as u64) <= (
        f.total() as u64) && f.total() == total && f.total() <= 64;
        if !in_range {
            return Err(ValidationError::OutOfRange { index: i, name: fields[i].0 });
        }
        i = i + 1;
    }
    let mut i: usize = 0;
    while i < n
        invariant
            n == fields@.len(),
            i <= n,
            forall|k: int|
                0 <= k < n ==> (#[trigger] fields@[k].1).wf() && fields@[k].1.spec_total() == total,
            forall|k: int, l: int|
                0 <= k < l < fields@.len() && k < i ==> fields_disjoint(
                    #[trigger] fields@[k].1,
                    #[trigger] fields@[l].1,
                ),
        decreases n - i,
    {
        let mut j: usize = i + 1;
        while j < n
            invariant
                n == fields@.len(),
                i < n,
                i < j,
                forall|k: int|
                    0 <= k < n ==> (#[trigger] fields@[k].1).wf() && fields@[k].1.spec_total()
                        == total,
                forall|l: int|
                    i < l < j ==> fields_disjoint(fields@[i as int].1, #[trigger] fields@[l].1),
            decreases n - j,
        {
            let fi = &fields[i].1;
            let fj = &fields[j].1;
            let disjoint = (fi.offset() as u64) + (fi.bits() as u64) <= fj.offset() as u64 || (
            fj.offset() as u64) + (fj.bits() as u64) <= fi.offset() as u64;
            if !disjoint {
                return Err(
                    ValidationError::Overlap {
                        first: i,
                        second: j,
                        first_name: fields[i].0,
                        second_name: fields[j].0,
                    },
                );
            }
            j = j + 1;
        }
        i = i + 1;
    }
    let mut i: usize = 0;
    let mut last_seen: Option<usize> = None;
    while i < n
        invariant
            n == fields@.len(),
            i <= n,
            last_seen matches Some(p) ==> p < i && !is_reserved_name(fields@[p as int].0),
            last_seen is None ==> forall|k: int|
                0 <= k < i ==> is_reserved_name(#[trigger] fields@[k].0),
            last_seen matches Some(p) ==> forall|k: int|
                0 <= k < i && !is_reserved_name(#[trigger] fields@[k].0) ==> k <= p as int,
            last_seen matches Some(p) ==> forall|k: int|
                0 <= k < p as int && !is_reserved_name(#[trigger] fields@[k].0)
                    ==> fields@[k].1.spec_offset() < fields@[p as int].1.spec_offset(),
            forall|k: int, l: int|
                0 <= k < l < i && !is_reserved_name(#[trigger] fields@[k].0) && !is_reserved_name(
                    #[trigger] fields@[l].0,
                ) ==> fields@[k].1.spec_offset() < fields@[l].1.spec_offset(),
        decreases n - i,
    {
        if !is_reserved(fields[i].0) {
            if let Some(p) = last_seen {
                if fields[p].1.offset() >= fields[i].1.offset() {
                    return Err(
                        ValidationError::OutOfOrder {
                            first: p,
                            second: i,
                            first_name: fields[p].0,
                            second_name: fields[i].0,
                        },
                    );
                }
            }
            last_seen = Some(i);
        }
        i = i + 1;
    }
    Ok(())
}

/// Asserts that a registry is valid; intended to run once, under a test
/// harness.  The caller asserts validity, so this never fails on a registry
/// that a correctly chained bitfield type produces.
pub fn assert_all_valid<O>(fields: &Vec<(&'static str, Pack<u64, O>)>, total: u32)
    requires
        registry_valid(fields@, total),
{
    match check_valid(fields, total) {
        Ok(()) => (),
        Err(_) => unreached(),
    }
}

/// Law: in a valid registry, the bit ranges of any two distinct fields are
/// disjoint.
pub proof fn lemma_valid_registry_disjoint<O>(
    fields: Seq<(&'static str, Pack<u64, O>)>,
    total: u32,
    i: int,
    j: int,
)
    requires
        registry_valid(fields, total),
        0 <= i < fields.len(),
        0 <= j < fields.len(),
        i != j,
    ensures
        fields_disjoint(fields[i].1, fields[j].1),
{
}

/// Law: in a valid registry, writing one field never disturbs the contents
/// of another.
pub proof fn lemma_pack_other_field_unchanged<O>(
    fields: Seq<(&'static str, Pack<u64, O>)>,
    total: u32,
    i: int,
    j: int,
    bits: u64,
    raw: u64,
)
    requires
        registry_valid(fields, total),
        0 <= i < fields.len(),
        0 <= j < fields.len(),
        i != j,
    ensures
        extract_bits(
            fields[j].1.spec_offset(),
            fields[j].1.spec_width(),
            pack_bits(fields[i].1.spec_offset(), fields[i].1.spec_width(), bits, raw),
        ) == extract_bits(fields[j].1.spec_offset(), fields[j].1.spec_width(), raw),
{
    crate::pack::lemma_pack_disjoint(
        fields[i].1.spec_offset(),
        fields[i].1.spec_width(),
        fields[j].1.spec_offset(),
        fields[j].1.spec_width(),
        bits,
        raw,
    );
}

} // verus!
