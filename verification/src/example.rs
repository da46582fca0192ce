//! Example bitfield types, written out the way a bitfield declaration
//! expands: a zero-size marker type per bitfield, one descriptor function
//! per field (chained so each field starts right above the previous one),
//! and a [`Layout`] impl giving the type's name, width, registry and field
//! renderings.

use vstd::prelude::*;

use crate::from_bits::FromBits;
use crate::pack::Pack;
use crate::render::dec_text;
use crate::value::{shape, Bitfield, FieldShape, Layout};

verus! {

/// The rendering of a flag, as `bool` shows itself.
pub open spec fn bool_text(bits: u64) -> Seq<char> {
    if bits == 1 {
        "true"@
    } else {
        "false"@
    }
}

/// Appends `true` or `false` for a one-bit pattern.
fn append_bool(s: &mut String, bits: u64)
    ensures
        final(s)@ == old(s)@ + bool_text(bits),
{
    proof {
        reveal_strlit("true");
        reveal_strlit("false");
    }
    if bits == 1 {
        s.append("true");
    } else {
        s.append("false");
    }
}

/// A 16-bit bitfield with two untyped fields around a reserved gap:
/// `HELLO` in bits `[0, 6)`, `_RESERVED` in `[6, 10)`, `WORLD` in
/// `[10, 13)`.
#[derive(Debug, Clone, Copy)]
pub struct MyBitfield;

impl MyBitfield {
    /// The `HELLO` field: bits `[0, 6)`.
    pub fn hello() -> (r: Pack<u64, MyBitfield>)
        ensures
            r.spec_offset() == 0,
            r.spec_width() == 6,
            r.spec_total() == 16,
            r.wf(),
    {
        Pack::least_significant(16, 6)
    }

    /// The `_RESERVED` field: bits `[6, 10)`.
    pub fn reserved() -> (r: Pack<u64, MyBitfield>)
        ensures
            r.spec_offset() == 6,
            r.spec_width() == 4,
            r.spec_total() == 16,
            r.wf(),
    {
        Self::hello().next(4)
    }

    /// The `WORLD` field: bits `[10, 13)`.
    pub fn world() -> (r: Pack<u64, MyBitfield>)
        ensures
            r.spec_offset() == 10,
            r.spec_width() == 3,
            r.spec_total() == 16,
            r.wf(),
    {
        Self::reserved().next(3)
    }

    /// A new value with all bits zero.
    pub fn new() -> (r: Bitfield<MyBitfield>)
        ensures
            r.spec_raw() == 0,
            r.wf(),
    {
        Bitfield::new()
    }

    /// Wraps a raw 16-bit word verbatim.
    pub fn from_bits(bits: u16) -> (r: Bitfield<MyBitfield>)
        ensures
            r.spec_raw() == bits,
            r.wf(),
    {
        proof {
            assert((bits as u64) <= ((1u64 << 16u64) - 1) as u64) by (bit_vector);
        }
        Bitfield::from_bits(bits as u64)
    }
}

impl Layout for MyBitfield {
    open spec fn spec_name() -> Seq<char> {
        "MyBitfield"@
    }

    open spec fn spec_total() -> u32 {
        16
    }

    open spec fn spec_shape() -> Seq<FieldShape> {
        seq![("HELLO"@, 0u32, 6u32), ("_RESERVED"@, 6u32, 4u32), ("WORLD"@, 10u32, 3u32)]
    }

    open spec fn spec_field_valid(i: int, bits: u64) -> bool {
        true
    }

    open spec fn spec_value_text(i: int, bits: u64) -> Seq<char> {
        dec_text(bits)
    }

    proof fn lemma_layout() {
        reveal_strlit("HELLO");
        reveal_strlit("_RESERVED");
        reveal_strlit("WORLD");
    }

    fn name() -> &'static str {
        "MyBitfield"
    }

    fn total() -> u32 {
        16
    }

    fn fields() -> (v: Vec<(&'static str, Pack<u64, MyBitfield>)>) {
        let mut v: Vec<(&'static str, Pack<u64, MyBitfield>)> = Vec::new();
        v.push(("HELLO", Self::hello()));
        v.push(("_RESERVED", Self::reserved()));
        v.push(("WORLD", Self::world()));
        proof {
            assert(shape(v@) =~~= Self::spec_shape());
        }
        v
    }

    fn value_text(i: usize, bits: u64) -> (s: String) {
        let mut s = String::new();
        crate::render::append_dec(&mut s, bits);
        s
    }
}

/// A two-bit enum with three valid patterns; the pattern `0b11` denotes no
/// value.
#[derive(Debug, PartialEq, Eq)]
pub enum MyEnum {
    Foo,
    Bar,
    Baz,
}

impl FromBits for MyEnum {
    type Error = &'static str;

    open spec fn spec_width() -> u32 {
        2
    }

    open spec fn valid_bits(bits: u64) -> bool {
        bits <= 2
    }

    open spec fn from_bits_spec(bits: u64) -> Self {
        if bits == 0 {
            MyEnum::Foo
        } else if bits == 1 {
            MyEnum::Bar
        } else {
            MyEnum::Baz
        }
    }

    open spec fn into_bits_spec(&self) -> u64 {
        match *self {
            MyEnum::Foo => 0,
            MyEnum::Bar => 1,
            MyEnum::Baz => 2,
        }
    }

    proof fn lemma_width() {
    }

    proof fn lemma_round_trip(v: Self) {
        assert(((1u64 << 2u64) - 1) as u64 == 3) by (bit_vector);
    }

    fn width() -> u32 {
        2
    }

    fn try_from_bits(bits: u64) -> Result<Self, Self::Error> {
        if bits == 0 {
            Ok(MyEnum::Foo)
        } else if bits == 1 {
            Ok(MyEnum::Bar)
        } else if bits == 2 {
            Ok(MyEnum::Baz)
        } else {
            Err("expected one of 0b00, 0b01, or 0b10")
        }
    }

    fn into_bits(self) -> u64 {
        match self {
            MyEnum::Foo => 0,
            MyEnum::Bar => 1,
            MyEnum::Baz => 2,
        }
    }
}

/// The rendering of a [`MyEnum`] pattern, by variant name.
pub open spec fn my_enum_text(bits: u64) -> Seq<char> {
    if bits == 0 {
        "Foo"@
    } else if bits == 1 {
        "Bar"@
    } else {
        "Baz"@
    }
}

/// A 32-bit bitfield mixing typed and untyped fields: `ENUM_VALUE` (a
/// [`MyEnum`], bits `[0, 2)`), `SOME_BITS` (`[2, 8)`), the flags `FLAG_1`
/// and `FLAG_2` (bits 8 and 9), and `A_BYTE` (a `u8`, `[10, 18)`).
#[derive(Debug, Clone, Copy)]
pub struct TypedBitfield;

impl TypedBitfield {
    /// The `ENUM_VALUE` field: bits `[0, 2)`.
    pub fn enum_value() -> (r: Pack<MyEnum, TypedBitfield>)
        ensures
            r.spec_offset() == 0,
            r.spec_width() == 2,
            r.spec_total() == 32,
            r.wf(),
    {
        Pack::first(32)
    }

    /// The `SOME_BITS` field: bits `[2, 8)`.
    pub fn some_bits() -> (r: Pack<u64, TypedBitfield>)
        ensures
            r.spec_offset() == 2,
            r.spec_width() == 6,
            r.spec_total() == 32,
            r.wf(),
    {
        Self::enum_value().next(6)
    }

    /// The `FLAG_1` field: bit 8.
    pub fn flag_1() -> (r: Pack<bool, TypedBitfield>)
        ensures
            r.spec_offset() == 8,
            r.spec_width() == 1,
            r.spec_total() == 32,
            r.wf(),
    {
        Self::some_bits().next_typed()
    }

    /// The `FLAG_2` field: bit 9.
    pub fn flag_2() -> (r: Pack<bool, TypedBitfield>)
        ensures
            r.spec_offset() == 9,
            r.spec_width() == 1,
            r.spec_total() == 32,
            r.wf(),
    {
        Self::flag_1().next_typed()
    }

    /// The `A_BYTE` field: bits `[10, 18)`.
    pub fn a_byte() -> (r: Pack<u8, TypedBitfield>)
        ensures
            r.spec_offset() == 10,
            r.spec_width() == 8,
            r.spec_total() == 32,
            r.wf(),
    {
        Self::flag_2().next_typed()
    }

    /// A new value with all bits zero.
    pub fn new() -> (r: Bitfield<TypedBitfield>)
        ensures
            r.spec_raw() == 0,
            r.wf(),
    {
        Bitfield::new()
    }

    /// Wraps a raw 32-bit word verbatim.
    pub fn from_bits(bits: u32) -> (r: Bitfield<TypedBitfield>)
        ensures
            r.spec_raw() == bits,
            r.wf(),
    {
        proof {
            assert((bits as u64) <= ((1u64 << 32u64) - 1) as u64) by (bit_vector);
        }
        Bitfield::from_bits(bits as u64)
    }
}

impl Layout for TypedBitfield {
    open spec fn spec_name() -> Seq<char> {
        "TypedBitfield"@
    }

    open spec fn spec_total() -> u32 {
        32
    }

    open spec fn spec_shape() -> Seq<FieldShape> {
        seq![
            ("ENUM_VALUE"@, 0u32, 2u32),
            ("SOME_BITS"@, 2u32, 6u32),
            ("FLAG_1"@, 8u32, 1u32),
            ("FLAG_2"@, 9u32, 1u32),
            ("A_BYTE"@, 10u32, 8u32),
        ]
    }

    open spec fn spec_field_valid(i: int, bits: u64) -> bool {
        if i == 0 {
            MyEnum::valid_bits(bits)
        } else if i == 2 || i == 3 {
            bits <= 1
        } else {
            true
        }
    }

    open spec fn spec_value_text(i: int, bits: u64) -> Seq<char> {
        if i == 0 {
            my_enum_text(bits)
        } else if i == 2 || i == 3 {
            bool_text(bits)
        } else {
            dec_text(bits)
        }
    }

    proof fn lemma_layout() {
        reveal_strlit("ENUM_VALUE");
        reveal_strlit("SOME_BITS");
        reveal_strlit("FLAG_1");
        reveal_strlit("FLAG_2");
        reveal_strlit("A_BYTE");
    }

    fn name() -> &'static str {
        "TypedBitfield"
    }

    fn total() -> u32 {
        32
    }

    fn fields() -> (v: Vec<(&'static str, Pack<u64, TypedBitfield>)>) {
        let mut v: Vec<(&'static str, Pack<u64, TypedBitfield>)> = Vec::new();
        v.push(("ENUM_VALUE", Self::enum_value().typed()));
        v.push(("SOME_BITS", Self::some_bits()));
        v.push(("FLAG_1", Self::flag_1().typed()));
        v.push(("FLAG_2", Self::flag_2().typed()));
        v.push(("A_BYTE", Self::a_byte().typed()));
        proof {
            assert(shape(v@) =~~= Self::spec_shape());
        }
        v
    }

    fn value_text(i: usize, bits: u64) -> (s: String) {
        let mut s = String::new();
        if i == 0 {
            proof {
                reveal_strlit("Foo");
                reveal_strlit("Bar");
                reveal_strlit("Baz");
            }
            if bits == 0 {
                s.append("Foo");
            } else if bits == 1 {
                s.append("Bar");
            } else {
                s.append("Baz");
            }
        } else if i == 2 || i == 3 {
            append_bool(&mut s, bits);
        } else {
            crate::render::append_dec(&mut s, bits);
        }
        s
    }
}

/// A two-bit enum covering all four patterns.
#[derive(Debug, PartialEq, Eq)]
pub enum TestEnum {
    Foo,
    Bar,
    Baz,
    Qux,
}

impl FromBits for TestEnum {
    type Error = &'static str;

    open spec fn spec_width() -> u32 {
        2
    }

    open spec fn valid_bits(bits: u64) -> bool {
        bits <= 3
    }

    open spec fn from_bits_spec(bits: u64) -> Self {
        if bits == 0 {
            TestEnum::Foo
        } else if bits == 1 {
            TestEnum::Bar
        } else if bits == 2 {
            TestEnum::Baz
        } else {
            TestEnum::Qux
        }
    }

    open spec fn into_bits_spec(&self) -> u64 {
        match *self {
            TestEnum::Foo => 0,
            TestEnum::Bar => 1,
            TestEnum::Baz => 2,
            TestEnum::Qux => 3,
        }
    }

    proof fn lemma_width() {
    }

    proof fn lemma_round_trip(v: Self) {
        assert(((1u64 << 2u64) - 1) as u64 == 3) by (bit_vector);
    }

    fn width() -> u32 {
        2
    }

    fn try_from_bits(bits: u64) -> Result<Self, Self::Error> {
        if bits == 0 {
            Ok(TestEnum::Foo)
        } else if bits == 1 {
            Ok(TestEnum::Bar)
        } else if bits == 2 {
            Ok(TestEnum::Baz)
        } else if bits == 3 {
            Ok(TestEnum::Qux)
        } else {
            Err("expected a two-bit pattern")
        }
    }

    fn into_bits(self) -> u64 {
        match self {
            TestEnum::Foo => 0,
            TestEnum::Bar => 1,
            TestEnum::Baz => 2,
            TestEnum::Qux => 3,
        }
    }
}

/// The rendering of a [`TestEnum`] pattern, by variant name.
pub open spec fn test_enum_text(bits: u64) -> Seq<char> {
    if bits == 0 {
        "Foo"@
    } else if bits == 1 {
        "Bar"@
    } else if bits == 2 {
        "Baz"@
    } else {
        "Qux"@
    }
}

/// A 32-bit bitfield exercising every field kind: `HELLO` (`[0, 4)`),
/// `_RESERVED_1` (`[4, 7)`), `WORLD` (a flag, bit 7), `HAVE` (a
/// [`TestEnum`], `[8, 10)`), `LOTS` (`[10, 15)`), `OF` (bit 15), `FUN`
/// (`[16, 22)`).
#[derive(Debug, Clone, Copy)]
pub struct TestBitfield;

impl TestBitfield {
    /// The `HELLO` field: bits `[0, 4)`.
    pub fn hello() -> (r: Pack<u64, TestBitfield>)
        ensures
            r.spec_offset() == 0,
            r.spec_width() == 4,
            r.spec_total() == 32,
            r.wf(),
    {
        Pack::least_significant(32, 4)
    }

    /// The `_RESERVED_1` field: bits `[4, 7)`.
    pub fn reserved_1() -> (r: Pack<u64, TestBitfield>)
        ensures
            r.spec_offset() == 4,
            r.spec_width() == 3,
            r.spec_total() == 32,
            r.wf(),
    {
        Self::hello().next(3)
    }

    /// The `WORLD` field: bit 7.
    pub fn world() -> (r: Pack<bool, TestBitfield>)
        ensures
            r.spec_offset() == 7,
            r.spec_width() == 1,
            r.spec_total() == 32,
            r.wf(),
    {
        Self::reserved_1().next_typed()
    }

    /// The `HAVE` field: bits `[8, 10)`.
    pub fn have() -> (r: Pack<TestEnum, TestBitfield>)
        ensures
            r.spec_offset() == 8,
            r.spec_width() == 2,
            r.spec_total() == 32,
            r.wf(),
    {
        Self::world().next_typed()
    }

    /// The `LOTS` field: bits `[10, 15)`.
    pub fn lots() -> (r: Pack<u64, TestBitfield>)
        ensures
            r.spec_offset() == 10,
            r.spec_width() == 5,
            r.spec_total() == 32,
            r.wf(),
    {
        Self::have().next(5)
    }

    /// The `OF` field: bit 15.
    pub fn of() -> (r: Pack<u64, TestBitfield>)
        ensures
            r.spec_offset() == 15,
            r.spec_width() == 1,
            r.spec_total() == 32,
            r.wf(),
    {
        Self::lots().next(1)
    }

    /// The `FUN` field: bits `[16, 22)`.
    pub fn fun() -> (r: Pack<u64, TestBitfield>)
        ensures
            r.spec_offset() == 16,
            r.spec_width() == 6,
            r.spec_total() == 32,
            r.wf(),
    {
        Self::of().next(6)
    }

    /// A new value with all bits zero.
    pub fn new() -> (r: Bitfield<TestBitfield>)
        ensures
            r.spec_raw() == 0,
            r.wf(),
    {
        Bitfield::new()
    }

    /// Wraps a raw 32-bit word verbatim.
    pub fn from_bits(bits: u32) -> (r: Bitfield<TestBitfield>)
        ensures
            r.spec_raw() == bits,
            r.wf(),
    {
        proof {
            assert((bits as u64) <= ((1u64 << 32u64) - 1) as u64) by (bit_vector);
        }
        Bitfield::from_bits(bits as u64)
    }

    /// Asserts that this bitfield type's registry is valid; intended for a
    /// test harness.
    pub fn assert_valid() {
        Bitfield::<TestBitfield>::assert_valid();
    }
}

impl Layout for TestBitfield {
    open spec fn spec_name() -> Seq<char> {
        "TestBitfield"@
    }

    open spec fn spec_total() -> u32 {
        32
    }

    open spec fn spec_shape() -> Seq<FieldShape> {
        seq![
            ("HELLO"@, 0u32, 4u32),
            ("_RESERVED_1"@, 4u32, 3u32),
            ("WORLD"@, 7u32, 1u32),
            ("HAVE"@, 8u32, 2u32),
            ("LOTS"@, 10u32, 5u32),
            ("OF"@, 15u32, 1u32),
            ("FUN"@, 16u32, 6u32),
        ]
    }

    open spec fn spec_field_valid(i: int, bits: u64) -> bool {
        if i == 2 {
            bits <= 1
        } else if i == 3 {
            TestEnum::valid_bits(bits)
        } else {
            true
        }
    }

    open spec fn spec_value_text(i: int, bits: u64) -> Seq<char> {
        if i == 2 {
            bool_text(bits)
        } else if i == 3 {
            test_enum_text(bits)
        } else {
            dec_text(bits)
        }
    }

    proof fn lemma_layout() {
        reveal_strlit("HELLO");
        reveal_strlit("_RESERVED_1");
        reveal_strlit("WORLD");
        reveal_strlit("HAVE");
        reveal_strlit("LOTS");
        reveal_strlit("OF");
        reveal_strlit("FUN");
    }

    fn name() -> &'static str {
        "TestBitfield"
    }

    fn total() -> u32 {
        32
    }

    fn fields() -> (v: Vec<(&'static str, Pack<u64, TestBitfield>)>) {
        let mut v: Vec<(&'static str, Pack<u64, TestBitfield>)> = Vec::new();
        v.push(("HELLO", Self::hello()));
        v.push(("_RESERVED_1", Self::reserved_1()));
        v.push(("WORLD", Self::world().typed()));
        v.push(("HAVE", Self::have().typed()));
        v.push(("LOTS", Self::lots()));
        v.push(("OF", Self::of()));
        v.push(("FUN", Self::fun()));
        proof {
            assert(shape(v@) =~~= Self::spec_shape());
        }
        v
    }

    fn value_text(i: usize, bits: u64) -> (s: String) {
        let mut s = String::new();
        if i == 2 {
            append_bool(&mut s, bits);
        } else if i == 3 {
            proof {
                reveal_strlit("Foo");
                reveal_strlit("Bar");
                reveal_strlit("Baz");
                reveal_strlit("Qux");
            }
            if bits == 0 {
                s.append("Foo");
            } else if bits == 1 {
                s.append("Bar");
            } else if bits == 2 {
                s.append("Baz");
            } else {
                s.append("Qux");
            }
        } else {
            crate::render::append_dec(&mut s, bits);
        }
        s
    }
}

} // verus!
