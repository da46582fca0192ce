//! The diagnostic formatter: the binary dump, the bit-range ruler diagram,
//! the per-field annotation rows, and the plain textual renderings of raw
//! words and field contents.
//!
//! Everything here is a pure function of a bitfield value and its type's
//! field registry.

use vstd::prelude::*;
use vstd::string::*;

use crate::pack::{extract_bits, Pack};
use crate::registry::is_reserved;
use crate::value::{reserved_shape, shape, shape_wf, Bitfield, FieldShape, Layout};

verus! {

/// `n` blanks.
pub open spec fn spaces(n: nat) -> Seq<char> {
    Seq::new(n, |i: int| ' ')
}

/// `n` horizontal-line characters.
pub open spec fn dashes(n: nat) -> Seq<char> {
    Seq::new(n, |i: int| '─')
}

/// Bit `i` of `raw`, as a binary digit.
pub open spec fn bit_char(raw: u64, i: u32) -> char {
    if crate::pack::bit_of(raw, i) {
        '1'
    } else {
        '0'
    }
}

/// The low `width` bits of `raw` in binary, zero-padded to exactly `width`
/// digits, most significant first.
pub open spec fn binary_text(raw: u64, width: u32) -> Seq<char> {
    Seq::new(width as nat, |j: int| bit_char(raw, (width - 1 - j) as u32))
}

/// A decimal digit.
pub open spec fn dec_digit_char(d: u64) -> char {
    if d == 0 {
        '0'
    } else if d == 1 {
        '1'
    } else if d == 2 {
        '2'
    } else if d == 3 {
        '3'
    } else if d == 4 {
        '4'
    } else if d == 5 {
        '5'
    } else if d == 6 {
        '6'
    } else if d == 7 {
        '7'
    } else if d == 8 {
        '8'
    } else {
        '9'
    }
}

/// `n` in decimal, without leading zeros (`0` for zero).
pub open spec fn dec_text(n: u64) -> Seq<char>
    decreases n,
{
    if n < 10 {
        seq![dec_digit_char(n)]
    } else {
        dec_text(n / 10) + seq![dec_digit_char(n % 10)]
    }
}

/// `n` in binary, without leading zeros (`0` for zero).
pub open spec fn bin_text(n: u64) -> Seq<char>
    decreases n,
{
    if n < 2 {
        seq![dec_digit_char(n)]
    } else {
        bin_text(n / 2) + seq![dec_digit_char(n % 2)]
    }
}

/// A hexadecimal digit, in the requested case.
pub open spec fn hex_digit_char(d: u64, upper: bool) -> char {
    if d < 10 {
        dec_digit_char(d)
    } else if d == 10 {
        if upper {
            'A'
        } else {
            'a'
        }
    } else if d == 11 {
        if upper {
            'B'
        } else {
            'b'
        }
    } else if d == 12 {
        if upper {
            'C'
        } else {
            'c'
        }
    } else if d == 13 {
        if upper {
            'D'
        } else {
            'd'
        }
    } else if d == 14 {
        if upper {
            'E'
        } else {
            'e'
        }
    } else {
        if upper {
            'F'
        } else {
            'f'
        }
    }
}

/// `n` in hexadecimal, without leading zeros (`0` for zero).
pub open spec fn hex_text(n: u64, upper: bool) -> Seq<char>
    decreases n,
{
    if n < 16 {
        seq![hex_digit_char(n, upper)]
    } else {
        hex_text(n / 16, upper) + seq![hex_digit_char(n % 16, upper)]
    }
}

/// Appends `n` blanks.
fn append_spaces(s: &mut String, n: u32)
    ensures
        final(s)@ == old(s)@ + spaces(n as nat),
{
    let mut i: u32 = 0;
    while i < n
        invariant
            i <= n,
            s@ == old(s)@ + spaces(i as nat),
        decreases n - i,
    {
        proof {
            reveal_strlit(" ");
        }
        s.append(" ");
        proof {
            assert(s@ =~= old(s)@ + spaces((i + 1) as nat));
        }
        i = i + 1;
    }
    proof {
        assert(s@ =~= old(s)@ + spaces(n as nat));
    }
}

/// Appends `n` horizontal-line characters.
fn append_dashes(s: &mut String, n: usize)
    ensures
        final(s)@ == old(s)@ + dashes(n as nat),
{
    let mut i: usize = 0;
    while i < n
        invariant
            i <= n,
            s@ == old(s)@ + dashes(i as nat),
        decreases n - i,
    {
        proof {
            reveal_strlit("─");
        }
        s.append("─");
        proof {
            assert(s@ =~= old(s)@ + dashes((i + 1) as nat));
        }
        i = i + 1;
    }
    proof {
        assert(s@ =~= old(s)@ + dashes(n as nat));
    }
}

/// Appends the low `width` bits of `raw` in binary, zero-padded to exactly
/// `width` digits, most significant first.
fn append_binary(s: &mut String, raw: u64, width: u32)
    requires
        width <= 64,
    ensures
        final(s)@ == old(s)@ + binary_text(raw, width),
{
    let mut j: u32 = 0;
    while j < width
        invariant
            j <= width,
            width <= 64,
            s@ == old(s)@ + binary_text(raw, width).subrange(0, j as int),
        decreases width - j,
    {
        let i = width - 1 - j;
        let one = ((raw >> (i as u64)) & 1) == 1;
        proof {
            reveal_strlit("1");
            reveal_strlit("0");
        }
        if one {
            s.append("1");
        } else {
            s.append("0");
        }
        proof {
            assert(s@ =~= old(s)@ + binary_text(raw, width).subrange(0, (j + 1) as int));
        }
        j = j + 1;
    }
    proof {
        assert(binary_text(raw, width).subrange(0, width as int) =~= binary_text(raw, width));
    }
}

/// A one-character string for a decimal digit.
fn dec_digit_str(d: u64) -> (r: &'static str)
    requires
        d < 10,
    ensures
        r@ == seq![dec_digit_char(d)],
{
    if d == 0 {
        proof {
            reveal_strlit("0");
            assert("0"@ =~= seq![dec_digit_char(d)]);
        }
        "0"
    } else if d == 1 {
        proof {
            reveal_strlit("1");
            assert("1"@ =~= seq![dec_digit_char(d)]);
        }
        "1"
    } else if d == 2 {
        proof {
            reveal_strlit("2");
            assert("2"@ =~= seq![dec_digit_char(d)]);
        }
        "2"
    } else if d == 3 {
        proof {
            reveal_strlit("3");
            assert("3"@ =~= seq![dec_digit_char(d)]);
        }
        "3"
    } else if d == 4 {
        proof {
            reveal_strlit("4");
            assert("4"@ =~= seq![dec_digit_char(d)]);
        }
        "4"
    } else if d == 5 {
        proof {
            reveal_strlit("5");
            assert("5"@ =~= seq![dec_digit_char(d)]);
        }
        "5"
    } else if d == 6 {
        proof {
            reveal_strlit("6");
            assert("6"@ =~= seq![dec_digit_char(d)]);
        }
        "6"
    } else if d == 7 {
        proof {
            reveal_strlit("7");
            assert("7"@ =~= seq![dec_digit_char(d)]);
        }
        "7"
    } else if d == 8 {
        proof {
            reveal_strlit("8");
            assert("8"@ =~= seq![dec_digit_char(d)]);
        }
        "8"
    } else {
        proof {
            reveal_strlit("9");
            assert("9"@ =~= seq![dec_digit_char(d)]);
        }
        "9"
    }
}

/// A one-character string for a hexadecimal digit above nine.
fn hex_letter_str(d: u64, upper: bool) -> (r: &'static str)
    requires
        10 <= d < 16,
    ensures
        r@ == seq![hex_digit_char(d, upper)],
{
    if upper {
        if d == 10 {
            proof {
                reveal_strlit("A");
                assert("A"@ =~= seq![hex_digit_char(d, upper)]);
            }
            "A"
        } else if d == 11 {
            proof {
                reveal_strlit("B");
                assert("B"@ =~= seq![hex_digit_char(d, upper)]);
            }
            "B"
        } else if d == 12 {
            proof {
                reveal_strlit("C");
                assert("C"@ =~= seq![hex_digit_char(d, upper)]);
            }
            "C"
        } else if d == 13 {
            proof {
                reveal_strlit("D");
                assert("D"@ =~= seq![hex_digit_char(d, upper)]);
            }
            "D"
        } else if d == 14 {
            proof {
                reveal_strlit("E");
                assert("E"@ =~= seq![hex_digit_char(d, upper)]);
            }
            "E"
        } else {
            proof {
                reveal_strlit("F");
                assert("F"@ =~= seq![hex_digit_char(d, upper)]);
            }
            "F"
        }
    } else {
        if d == 10 {
            proof {
                reveal_strlit("a");
                assert("a"@ =~= seq![hex_digit_char(d, upper)]);
            }
            "a"
        } else if d == 11 {
            proof {
                reveal_strlit("b");
                assert("b"@ =~= seq![hex_digit_char(d, upper)]);
            }
            "b"
        } else if d == 12 {
            proof {
                reveal_strlit("c");
                assert("c"@ =~= seq![hex_digit_char(d, upper)]);
            }
            "c"
        } else if d == 13 {
            proof {
                reveal_strlit("d");
                assert("d"@ =~= seq![hex_digit_char(d, upper)]);
            }
            "d"
        } else if d == 14 {
            proof {
                reveal_strlit("e");
                assert("e"@ =~= seq![hex_digit_char(d, upper)]);
            }
            "e"
        } else {
            proof {
                reveal_strlit("f");
                assert("f"@ =~= seq![hex_digit_char(d, upper)]);
            }
            "f"
        }
    }
}

/// Appends `n` in decimal, without leading zeros.
pub fn append_dec(s: &mut String, n: u64)
    ensures
        final(s)@ == old(s)@ + dec_text(n),
    decreases n,
{
    if n < 10 {
        s.append(dec_digit_str(n));
    } else {
        append_dec(s, n / 10);
        s.append(dec_digit_str(n % 10));
        proof {
            assert(s@ =~= old(s)@ + dec_text(n));
        }
    }
}

/// Appends `n` in binary, without leading zeros.
pub fn append_bin(s: &mut String, n: u64)
    ensures
        final(s)@ == old(s)@ + bin_text(n),
    decreases n,
{
    if n < 2 {
        s.append(dec_digit_str(n));
    } else {
        append_bin(s, n / 2);
        s.append(dec_digit_str(n % 2));
        proof {
            assert(s@ =~= old(s)@ + bin_text(n));
        }
    }
}

/// Appends `n` in hexadecimal, without leading zeros.
pub fn append_hex(s: &mut String, n: u64, upper: bool)
    ensures
        final(s)@ == old(s)@ + hex_text(n, upper),
    decreases n,
{
    if n < 16 {
        if n < 10 {
            s.append(dec_digit_str(n));
        } else {
            s.append(hex_letter_str(n, upper));
        }
    } else {
        append_hex(s, n / 16, upper);
        let d = n % 16;
        if d < 10 {
            s.append(dec_digit_str(d));
        } else {
            s.append(hex_letter_str(d, upper));
        }
        proof {
            assert(s@ =~= old(s)@ + hex_text(n, upper));
        }
    }
}

/// The ruler connector glyph for a `width`-bit field: a vertical bar for a
/// single bit, a corner pair for two bits, and a corner, a run of
/// horizontal lines and a closing corner for anything wider.
pub open spec fn connector(w: u32) -> Seq<char> {
    if w == 1 {
        seq!['│']
    } else if w == 2 {
        seq!['└', '┤']
    } else {
        seq!['└', '┬'] + dashes((w - 3) as nat) + seq!['┘']
    }
}

/// What the ruler shows over a field: reserved fields show only blanks (the
/// field is visually hidden but column alignment is kept), others their
/// connector.
pub open spec fn ruler_glyph(name: Seq<char>, w: u32) -> Seq<char> {
    if reserved_shape(name) {
        spaces(w as nat)
    } else {
        connector(w)
    }
}

/// The ruler row over the fields `0 ..= i`, walked from the highest offset
/// down, with the cursor at bit position `cur_pos`: blank padding up to each
/// field's highest bit, then its glyph.
pub open spec fn ruler_from(sh: Seq<FieldShape>, i: int, cur_pos: int) -> Seq<char>
    decreases i + 1,
{
    if i < 0 {
        Seq::empty()
    } else {
        spaces((cur_pos - (sh[i].1 + sh[i].2)) as nat) + ruler_glyph(sh[i].0, sh[i].2)
            + ruler_from(sh, i - 1, sh[i].1 as int)
    }
}

/// The full ruler row for a registry over a `total`-bit word.
pub open spec fn ruler_text(sh: Seq<FieldShape>, total: u32) -> Seq<char> {
    ruler_from(sh, sh.len() as int - 1, total as int)
}

/// The length of the longest non-reserved field name among the fields
/// `0 .. i`; annotation rows pad names to this width.
pub open spec fn max_name_len(sh: Seq<FieldShape>, i: int) -> nat
    decreases i,
{
    if i <= 0 {
        0
    } else {
        let prev = max_name_len(sh, i - 1);
        if !reserved_shape(sh[i - 1].0) && sh[i - 1].0.len() > prev {
            sh[i - 1].0.len()
        } else {
            prev
        }
    }
}

pub proof fn lemma_max_name_len_ge(sh: Seq<FieldShape>, i: int, t: int)
    requires
        0 <= t < i,
        !reserved_shape(sh[t].0),
    ensures
        max_name_len(sh, i) >= sh[t].0.len(),
    decreases i,
{
    if t < i - 1 {
        lemma_max_name_len_ge(sh, i - 1, t);
    }
}

pub proof fn lemma_max_name_len_bound(sh: Seq<FieldShape>, i: int, bound: nat)
    requires
        i <= sh.len(),
        forall|k: int| 0 <= k < sh.len() ==> (#[trigger] sh[k]).0.len() <= bound,
    ensures
        max_name_len(sh, i) <= bound,
    decreases i,
{
    if i > 0 {
        lemma_max_name_len_bound(sh, i - 1, bound);
    }
}

/// The column at which annotation dashes start: one past the lowest field's
/// offset if that field is annotated, else column zero.
pub open spec fn spec_rem(sh: Seq<FieldShape>) -> u32 {
    if sh.len() > 0 && !reserved_shape(sh[0].0) {
        (sh[0].1 + 1) as u32
    } else {
        0
    }
}

/// The length of the longest non-reserved field name of a registry.
pub fn registry_max_name_len<O: Layout>(fields: &Vec<(&'static str, Pack<u64, O>)>) -> (m: usize)
    requires
        shape(fields@) == O::spec_shape(),
    ensures
        m == max_name_len(O::spec_shape(), fields@.len() as int),
{
    let ghost sh = O::spec_shape();
    let mut m: usize = 0;
    let mut i: usize = 0;
    while i < fields.len()
        invariant
            shape(fields@) == sh,
            i <= fields@.len(),
            m == max_name_len(sh, i as int),
        decreases fields@.len() - i,
    {
        proof {
            assert(sh[i as int] == (
                fields@[i as int].0@,
                fields@[i as int].1.spec_offset(),
                fields@[i as int].1.spec_width(),
            ));
        }
        if !is_reserved(fields[i].0) {
            let l = fields[i].0.unicode_len();
            if l > m {
                m = l;
            }
        }
        i = i + 1;
    }
    m
}

/// The dash-start column of a registry.
pub fn registry_rem<O: Layout>(fields: &Vec<(&'static str, Pack<u64, O>)>) -> (r: u32)
    requires
        shape(fields@) == O::spec_shape(),
        shape_wf(O::spec_shape(), O::spec_total()),
    ensures
        r == spec_rem(O::spec_shape()),
{
    proof {
        if fields@.len() > 0 {
            assert(O::spec_shape()[0] == (
                fields@[0].0@,
                fields@[0].1.spec_offset(),
                fields@[0].1.spec_width(),
            ));
        }
    }
    if fields.len() > 0 && !is_reserved(fields[0].0) {
        fields[0].1.offset() + 1
    } else {
        0
    }
}

/// Appends the ruler row for a registry over a `total`-bit word.
pub fn append_ruler<O: Layout>(
    s: &mut String,
    fields: &Vec<(&'static str, Pack<u64, O>)>,
    total: u32,
)
    requires
        shape(fields@) == O::spec_shape(),
        shape_wf(O::spec_shape(), O::spec_total()),
        total == O::spec_total(),
    ensures
        final(s)@ == old(s)@ + ruler_text(O::spec_shape(), total),
{
    let ghost sh = O::spec_shape();
    let n = fields.len();
    let mut i: usize = n;
    let mut cur_pos: u32 = total;
    while i > 0
        invariant
            shape(fields@) == sh,
            sh == O::spec_shape(),
            shape_wf(sh, O::spec_total()),
            total == O::spec_total(),
            n == fields@.len(),
            i <= n,
            cur_pos == (if i == n {
                total as int
            } else {
                sh[i as int].1 as int
            }),
            old(s)@ + ruler_text(sh, total) == s@ + ruler_from(sh, i as int - 1, cur_pos as int),
        decreases i,
    {
        let idx = i - 1;
        proof {
            assert(sh[idx as int] == (
                fields@[idx as int].0@,
                fields@[idx as int].1.spec_offset(),
                fields@[idx as int].1.spec_width(),
            ));
            if idx + 1 < n {
                assert(sh[idx as int].1 + sh[idx as int].2 <= sh[idx as int + 1].1);
            }
        }
        let off = fields[idx].1.offset();
        let w = fields[idx].1.bits();
        let pad = cur_pos - (off + w);
        let ghost s_before = s@;
        append_spaces(s, pad);
        if is_reserved(fields[idx].0) {
            append_spaces(s, w);
        } else {
            if w == 1 {
                proof {
                    reveal_strlit("│");
                }
                s.append("│");
                proof {
                    assert("│"@ =~= seq!['│']);
                }
            } else if w == 2 {
                proof {
                    reveal_strlit("└┤");
                }
                s.append("└┤");
                proof {
                    assert("└┤"@ =~= seq!['└', '┤']);
                }
            } else {
                proof {
                    reveal_strlit("└┬");
                    reveal_strlit("┘");
                }
                s.append("└┬");
                append_dashes(s, (w - 3) as usize);
                s.append("┘");
                proof {
                    assert("└┬"@ =~= seq!['└', '┬']);
                    assert("┘"@ =~= seq!['┘']);
                }
            }
        }
        proof {
            assert(s@ =~= s_before + spaces(pad as nat) + ruler_glyph(sh[idx as int].0, w));
            assert(ruler_from(sh, idx as int, cur_pos as int) == spaces(
                (cur_pos - (sh[idx as int].1 + sh[idx as int].2)) as nat,
            ) + ruler_glyph(sh[idx as int].0, sh[idx as int].2) + ruler_from(
                sh,
                idx as int - 1,
                sh[idx as int].1 as int,
            ));
            assert(old(s)@ + ruler_text(sh, total) =~= s@ + ruler_from(
                sh,
                idx as int - 1,
                off as int,
            ));
        }
        cur_pos = off;
        i = idx;
    }
    proof {
        assert(s@ =~= old(s)@ + ruler_text(sh, total));
    }
}

/// The contents of field `t` of a bitfield of type `O` holding `raw`.
pub open spec fn field_bits<O: Layout>(t: int, raw: u64) -> u64 {
    extract_bits(O::spec_shape()[t].1, O::spec_shape()[t].2, raw)
}

/// What an annotation row shows while passing over a field above its
/// target: blanks for a reserved field, a vertical bar (with its own
/// padding) for the connector drawn down from the ruler.
pub open spec fn passthrough_glyph(name: Seq<char>, w: u32) -> Seq<char> {
    if reserved_shape(name) {
        spaces(w as nat)
    } else if w == 1 {
        seq!['│']
    } else {
        seq![' ', '│'] + spaces((w - 2) as nat)
    }
}

/// An annotation row's walk from the highest field down to its target `t`:
/// padding and pass-through glyphs over the fields above, then the corner
/// drawn down from the target's connector.
pub open spec fn ann_walk(sh: Seq<FieldShape>, i: int, cur_pos: int, t: int) -> Seq<char>
    decreases i + 1,
{
    if i < 0 {
        Seq::empty()
    } else {
        let pad = spaces((cur_pos - (sh[i].1 + sh[i].2)) as nat);
        if i == t {
            pad + (if sh[i].2 == 1 {
                seq!['└']
            } else {
                seq![' ', '└']
            })
        } else {
            pad + passthrough_glyph(sh[i].0, sh[i].2) + ann_walk(sh, i - 1, sh[i].1 as int, t)
        }
    }
}

/// The textual tail of an annotation row: `nd` dashes, then
/// `<name>: <value> (<bits in binary>)` and a newline.
pub open spec fn row_line_text(
    name: Seq<char>,
    value: Seq<char>,
    bits: u64,
    w: u32,
    nd: nat,
) -> Seq<char> {
    dashes(nd) + seq![' '] + name + seq![':', ' '] + value + seq![' ', '('] + binary_text(bits, w)
        + seq![')', '\n']
}

/// How many dashes an annotation row draws: from the dash-start column out
/// to the target's corner column, extended so that names line up.
pub open spec fn spec_dash_count(sh: Seq<FieldShape>, t: int) -> nat {
    let off = sh[t].1;
    let w = sh[t].2;
    let cur = off + w - (if w == 1 {
        1int
    } else {
        2int
    });
    let len = cur + (max_name_len(sh, sh.len() as int) - sh[t].0.len());
    let start = spec_rem(sh) as int;
    if len - start > 0 {
        (len - start) as nat
    } else {
        0
    }
}

/// The part of an annotation row after the walk's corner.
pub open spec fn row_suffix_text<O: Layout>(t: int, raw: u64) -> Seq<char> {
    let sh = O::spec_shape();
    row_line_text(
        sh[t].0,
        O::spec_value_text(t, field_bits::<O>(t, raw)),
        field_bits::<O>(t, raw),
        sh[t].2,
        spec_dash_count(sh, t),
    )
}

/// The full annotation row of field `t`: the walk down from the ruler, then
/// its suffix.
pub open spec fn row_text<O: Layout>(t: int, raw: u64) -> Seq<char> {
    ann_walk(O::spec_shape(), O::spec_shape().len() - 1, O::spec_total() as int, t)
        + row_suffix_text::<O>(t, raw)
}

/// The annotation rows of all non-reserved fields from `t` on, one per
/// field, in declaration order.
pub open spec fn rows_text<O: Layout>(t: int, raw: u64) -> Seq<char>
    decreases O::spec_shape().len() - t,
{
    if t >= O::spec_shape().len() {
        Seq::empty()
    } else if reserved_shape(O::spec_shape()[t].0) {
        rows_text::<O>(t + 1, raw)
    } else {
        row_text::<O>(t, raw) + rows_text::<O>(t + 1, raw)
    }
}

/// The full multi-line rendering of a bitfield value: the binary row, the
/// ruler row, then one annotation row per non-reserved field.
pub open spec fn display_text<O: Layout>(raw: u64) -> Seq<char> {
    binary_text(raw, O::spec_total()) + seq!['\n'] + ruler_text(O::spec_shape(), O::spec_total())
        + seq!['\n'] + rows_text::<O>(0, raw)
}

/// The entries of the structured one-line view: `name: value`, separated by
/// commas, one per declared field, reserved ones included.
pub open spec fn debug_entries_text<O: Layout>(t: int, raw: u64) -> Seq<char>
    decreases O::spec_shape().len() - t,
{
    if t >= O::spec_shape().len() {
        Seq::empty()
    } else {
        let entry = O::spec_shape()[t].0 + seq![':', ' '] + O::spec_value_text(
            t,
            field_bits::<O>(t, raw),
        );
        if t == O::spec_shape().len() - 1 {
            entry
        } else {
            entry + seq![',', ' '] + debug_entries_text::<O>(t + 1, raw)
        }
    }
}

/// The structured one-line view: `Name { field: value, … }` over every
/// declared field.
pub open spec fn debug_text<O: Layout>(raw: u64) -> Seq<char> {
    O::spec_name() + seq![' ', '{', ' '] + debug_entries_text::<O>(0, raw) + seq![' ', '}']
}

/// Appends the annotation row of the non-reserved field `t`.
fn append_row<O: Layout>(
    s: &mut String,
    fields: &Vec<(&'static str, Pack<u64, O>)>,
    t: usize,
    raw: u64,
    max_len: usize,
    rem: u32,
)
    requires
        shape(fields@) == O::spec_shape(),
        shape_wf(O::spec_shape(), O::spec_total()),
        forall|k: int|
            0 <= k < fields@.len() ==> (#[trigger] fields@[k]).1.spec_total() == O::spec_total(),
        t < fields@.len(),
        !reserved_shape(O::spec_shape()[t as int].0),
        O::spec_field_valid(t as int, field_bits::<O>(t as int, raw)),
        max_len == max_name_len(O::spec_shape(), fields@.len() as int),
        rem == spec_rem(O::spec_shape()),
    ensures
        final(s)@ == old(s)@ + row_text::<O>(t as int, raw),
{
    let ghost sh = O::spec_shape();
    let n = fields.len();
    let total = O::total();
    let mut i: usize = n;
    let mut cur_pos: u32 = total;
    while i - 1 > t
        invariant
            shape(fields@) == sh,
            sh == O::spec_shape(),
            shape_wf(sh, O::spec_total()),
            total == O::spec_total(),
            n == fields@.len(),
            t < i <= n,
            cur_pos == (if i == n {
                total as int
            } else {
                sh[i as int].1 as int
            }),
            old(s)@ + ann_walk(sh, n as int - 1, total as int, t as int) == s@ + ann_walk(
                sh,
                i as int - 1,
                cur_pos as int,
                t as int,
            ),
        decreases i,
    {
        let idx = i - 1;
        proof {
            assert(sh[idx as int] == (
                fields@[idx as int].0@,
                fields@[idx as int].1.spec_offset(),
                fields@[idx as int].1.spec_width(),
            ));
            if idx + 1 < n {
                assert(sh[idx as int].1 + sh[idx as int].2 <= sh[idx as int + 1].1);
            }
        }
        let off = fields[idx].1.offset();
        let w = fields[idx].1.bits();
        let pad = cur_pos - (off + w);
        let ghost s_before = s@;
        append_spaces(s, pad);
        if is_reserved(fields[idx].0) {
            append_spaces(s, w);
        } else if w == 1 {
            proof {
                reveal_strlit("│");
            }
            s.append("│");
            proof {
                assert("│"@ =~= seq!['│']);
            }
        } else {
            proof {
                reveal_strlit(" │");
            }
            s.append(" │");
            append_spaces(s, w - 2);
            proof {
                assert(" │"@ =~= seq![' ', '│']);
            }
        }
        proof {
            assert(s@ =~= s_before + spaces(pad as nat) + passthrough_glyph(sh[idx as int].0, w));
            assert(old(s)@ + ann_walk(sh, n as int - 1, total as int, t as int) =~= s@ + ann_walk(
                sh,
                idx as int - 1,
                off as int,
                t as int,
            ));
        }
        cur_pos = off;
        i = idx;
    }
    proof {
        if t + 1 < n {
            assert(sh[t as int].1 + sh[t as int].2 <= sh[t as int + 1].1);
        }
    }
    append_row_suffix(s, fields, t, raw, cur_pos, max_len, rem);
    proof {
        assert(s@ =~= old(s)@ + row_text::<O>(t as int, raw));
    }
}

/// Appends the textual tail of an annotation row: the dashes out to the
/// name column, then `<name>: <value> (<bits in binary>)` and a newline.
fn append_row_line(s: &mut String, name: &str, value: &String, bits: u64, w: u32, nd: usize)
    requires
        w <= 64,
    ensures
        final(s)@ == old(s)@ + row_line_text(name@, value@, bits, w, nd as nat),
{
    append_dashes(s, nd);
    proof {
        reveal_strlit(" ");
        reveal_strlit(": ");
        reveal_strlit(" (");
        reveal_strlit(")");
        reveal_strlit("\n");
    }
    s.append(" ");
    s.append(name);
    s.append(": ");
    s.append(value.as_str());
    s.append(" (");
    append_binary(s, bits, w);
    s.append(")");
    s.append("\n");
    proof {
        assert(" "@ =~= seq![' ']);
        assert(": "@ =~= seq![':', ' ']);
        assert(" ("@ =~= seq![' ', '(']);
        assert(")"@ =~= seq![')']);
        assert("\n"@ =~= seq!['\n']);
        assert(s@ =~= old(s)@ + row_line_text(name@, value@, bits, w, nd as nat));
    }
}

/// Appends an annotation row's corner and suffix, the cursor having walked
/// down to `cur_pos`, just above the target field `t`.
fn append_row_suffix<O: Layout>(
    s: &mut String,
    fields: &Vec<(&'static str, Pack<u64, O>)>,
    t: usize,
    raw: u64,
    cur_pos: u32,
    max_len: usize,
    rem: u32,
)
    requires
        shape(fields@) == O::spec_shape(),
        shape_wf(O::spec_shape(), O::spec_total()),
        forall|k: int|
            0 <= k < fields@.len() ==> (#[trigger] fields@[k]).1.spec_total() == O::spec_total(),
        t < fields@.len(),
        !reserved_shape(O::spec_shape()[t as int].0),
        O::spec_field_valid(t as int, field_bits::<O>(t as int, raw)),
        max_len == max_name_len(O::spec_shape(), fields@.len() as int),
        rem == spec_rem(O::spec_shape()),
        O::spec_shape()[t as int].1 + O::spec_shape()[t as int].2 <= cur_pos <= 64,
    ensures
        final(s)@ == old(s)@ + ann_walk(
            O::spec_shape(),
            t as int,
            cur_pos as int,
            t as int,
        ) + row_suffix_text::<O>(t as int, raw),
{
    let ghost sh = O::spec_shape();
    let n = fields.len();
    proof {
        assert(sh[t as int] == (
            fields@[t as int].0@,
            fields@[t as int].1.spec_offset(),
            fields@[t as int].1.spec_width(),
        ));
    }
    let off = fields[t].1.offset();
    let w = fields[t].1.bits();
    let pad = cur_pos - (off + w);
    append_spaces(s, pad);
    let cur_after: u32;
    if w == 1 {
        proof {
            reveal_strlit("└");
        }
        s.append("└");
        cur_after = off + w - 1;
        proof {
            assert("└"@ =~= seq!['└']);
        }
    } else {
        proof {
            reveal_strlit(" └");
        }
        s.append(" └");
        cur_after = off + w - 2;
        proof {
            assert(" └"@ =~= seq![' ', '└']);
        }
    }
    proof {
        assert(s@ =~= old(s)@ + ann_walk(sh, t as int, cur_pos as int, t as int));
        lemma_max_name_len_ge(sh, n as int, t as int);
        lemma_max_name_len_bound(sh, n as int, 1024);
    }
    let name_len = fields[t].0.unicode_len();
    let len = cur_after as usize + (max_len - name_len);
    let nd = if len > rem as usize {
        len - rem as usize
    } else {
        0
    };
    let ghost s_mid = s@;
    let bits_t = fields[t].1.unpack_bits(raw);
    let value = O::value_text(t, bits_t);
    append_row_line(s, fields[t].0, &value, bits_t, w, nd);
    proof {
        let d = spaces(pad as nat);
        let corner = if w == 1 {
            seq!['└']
        } else {
            seq![' ', '└']
        };
        assert(s_mid =~= old(s)@ + (d + corner));
        assert(ann_walk(sh, t as int, cur_pos as int, t as int) == d + corner);
        assert(nd as nat == spec_dash_count(sh, t as int));
        assert(row_suffix_text::<O>(t as int, raw) == row_line_text(
            sh[t as int].0,
            value@,
            bits_t,
            w,
            nd as nat,
        ));
        assert(s@ == s_mid + row_line_text(sh[t as int].0, value@, bits_t, w, nd as nat));
        assert(s@ =~= old(s)@ + ann_walk(sh, t as int, cur_pos as int, t as int)
            + row_suffix_text::<O>(t as int, raw));
    }
}

impl<O: Layout> Bitfield<O> {
    /// The multi-line diagnostic rendering: the raw word in binary, a ruler
    /// diagram marking each field's bit range, and one annotation row per
    /// non-reserved field showing its name, value and raw bits.  The caller
    /// asserts that every non-reserved field holds a valid bit pattern for
    /// its logical type.
    pub fn display_string(&self) -> (s: String)
        requires
            forall|t: int|
                0 <= t < O::spec_shape().len() && !reserved_shape(O::spec_shape()[t].0)
                    ==> O::spec_field_valid(t, field_bits::<O>(t, self.spec_raw())),
        ensures
            s@ == display_text::<O>(self.spec_raw()),
    {
        proof {
            O::lemma_layout();
        }
        let fields = O::fields();
        let total = O::total();
        let raw = self.bits();
        let mut s = String::new();
        append_binary(&mut s, raw, total);
        proof {
            reveal_strlit("\n");
        }
        s.append("\n");
        append_ruler(&mut s, &fields, total);
        s.append("\n");
        proof {
            assert("\n"@ =~= seq!['\n']);
        }
        let max_len = registry_max_name_len::<O>(&fields);
        let rem = registry_rem::<O>(&fields);
        let ghost sh = O::spec_shape();
        let mut t: usize = 0;
        proof {
            assert(s@ =~= binary_text(raw, total) + seq!['\n'] + ruler_text(sh, total)
                + seq!['\n']);
        }
        while t < fields.len()
            invariant
                shape(fields@) == sh,
                sh == O::spec_shape(),
                shape_wf(sh, O::spec_total()),
                total == O::spec_total(),
                raw == self.spec_raw(),
                forall|k: int|
                    0 <= k < fields@.len() ==> (#[trigger] fields@[k]).1.spec_total()
                        == O::spec_total(),
                forall|k: int|
                    0 <= k < sh.len() && !reserved_shape(sh[k].0) ==> O::spec_field_valid(
                        k,
                        field_bits::<O>(k, raw),
                    ),
                t <= fields@.len(),
                max_len == max_name_len(sh, fields@.len() as int),
                rem == spec_rem(sh),
                s@ + rows_text::<O>(t as int, raw) == display_text::<O>(raw),
            decreases fields@.len() - t,
        {
            proof {
                assert(sh[t as int] == (
                    fields@[t as int].0@,
                    fields@[t as int].1.spec_offset(),
                    fields@[t as int].1.spec_width(),
                ));
            }
            if !is_reserved(fields[t].0) {
                append_row::<O>(&mut s, &fields, t, raw, max_len, rem);
            }
            proof {
                assert(s@ + rows_text::<O>(t as int + 1, raw) =~= display_text::<O>(raw));
            }
            t = t + 1;
        }
        proof {
            assert(s@ =~= display_text::<O>(self.spec_raw()));
        }
        s
    }

    /// The structured one-line view `Name { field: value, … }`, with one
    /// entry per declared field, reserved ones included.  The caller asserts
    /// that every field holds a valid bit pattern for its logical type.
    pub fn debug_string(&self) -> (s: String)
        requires
            forall|t: int|
                0 <= t < O::spec_shape().len() ==> O::spec_field_valid(
                    t,
                    field_bits::<O>(t, self.spec_raw()),
                ),
        ensures
            s@ == debug_text::<O>(self.spec_raw()),
    {
        proof {
            O::lemma_layout();
        }
        let fields = O::fields();
        let raw = self.bits();
        let mut s = String::new();
        s.append(O::name());
        proof {
            reveal_strlit(" { ");
            reveal_strlit(": ");
            reveal_strlit(", ");
            reveal_strlit(" }");
        }
        s.append(" { ");
        let ghost sh = O::spec_shape();
        proof {
            assert(" { "@ =~= seq![' ', '{', ' ']);
            assert(s@ =~= O::spec_name() + seq![' ', '{', ' ']);
        }
        let n = fields.len();
        let mut t: usize = 0;
        while t < n
            invariant
                shape(fields@) == sh,
                sh == O::spec_shape(),
                shape_wf(sh, O::spec_total()),
                raw == self.spec_raw(),
                n == fields@.len(),
                forall|k: int|
                    0 <= k < fields@.len() ==> (#[trigger] fields@[k]).1.spec_total()
                        == O::spec_total(),
                forall|k: int|
                    0 <= k < sh.len() ==> O::spec_field_valid(k, field_bits::<O>(k, raw)),
                t <= n,
                s@ + debug_entries_text::<O>(t as int, raw) + seq![' ', '}'] == debug_text::<O>(
                    raw,
                ),
            decreases n - t,
        {
            proof {
                reveal_strlit(": ");
                reveal_strlit(", ");
                assert(sh[t as int] == (
                    fields@[t as int].0@,
                    fields@[t as int].1.spec_offset(),
                    fields@[t as int].1.spec_width(),
                ));
            }
            s.append(fields[t].0);
            s.append(": ");
            let bits_t = fields[t].1.unpack_bits(raw);
            let value = O::value_text(t, bits_t);
            s.append(value.as_str());
            if t + 1 < n {
                s.append(", ");
            }
            proof {
                assert(": "@ =~= seq![':', ' ']);
                assert(", "@ =~= seq![',', ' ']);
                assert(s@ + debug_entries_text::<O>(t as int + 1, raw) + seq![' ', '}']
                    =~= debug_text::<O>(raw));
            }
            t = t + 1;
        }
        s.append(" }");
        proof {
            assert(" }"@ =~= seq![' ', '}']);
            assert(s@ =~= debug_text::<O>(self.spec_raw()));
        }
        s
    }

    /// The raw word in binary, wrapped in the type's name: `Name(1011)`.
    pub fn binary_string(&self) -> (s: String)
        ensures
            s@ == O::spec_name() + seq!['('] + bin_text(self.spec_raw()) + seq![')'],
    {
        let mut s = String::new();
        s.append(O::name());
        proof {
            reveal_strlit("(");
            reveal_strlit(")");
        }
        s.append("(");
        append_bin(&mut s, self.bits());
        s.append(")");
        proof {
            assert("("@ =~= seq!['(']);
            assert(")"@ =~= seq![')']);
            assert(s@ =~= O::spec_name() + seq!['('] + bin_text(self.spec_raw()) + seq![')']);
        }
        s
    }

    /// The raw word in lower-case hexadecimal, wrapped in the type's name.
    pub fn lower_hex_string(&self) -> (s: String)
        ensures
            s@ == O::spec_name() + seq!['('] + hex_text(self.spec_raw(), false) + seq![')'],
    {
        let mut s = String::new();
        s.append(O::name());
        proof {
            reveal_strlit("(");
            reveal_strlit(")");
        }
        s.append("(");
        append_hex(&mut s, self.bits(), false);
        s.append(")");
        proof {
            assert("("@ =~= seq!['(']);
            assert(")"@ =~= seq![')']);
            assert(s@ =~= O::spec_name() + seq!['('] + hex_text(self.spec_raw(), false)
                + seq![')']);
        }
        s
    }

    /// The raw word in upper-case hexadecimal, wrapped in the type's name.
    pub fn upper_hex_string(&self) -> (s: String)
        ensures
            s@ == O::spec_name() + seq!['('] + hex_text(self.spec_raw(), true) + seq![')'],
    {
        let mut s = String::new();
        s.append(O::name());
        proof {
            reveal_strlit("(");
            reveal_strlit(")");
        }
        s.append("(");
        append_hex(&mut s, self.bits(), true);
        s.append(")");
        proof {
            assert("("@ =~= seq!['(']);
            assert(")"@ =~= seq![')']);
            assert(s@ =~= O::spec_name() + seq!['('] + hex_text(self.spec_raw(), true)
                + seq![')']);
        }
        s
    }
}

} // verus!
