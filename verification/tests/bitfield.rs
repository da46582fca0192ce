use mycelium_bitfield::example::{MyBitfield, MyEnum, TestBitfield, TestEnum, TypedBitfield};
use mycelium_bitfield::from_bits::FromBits;
use mycelium_bitfield::pack::Pack;
use mycelium_bitfield::registry::{check_valid, ValidationError};
use mycelium_bitfield::value::{Bitfield, Layout};

#[derive(Debug)]
#[allow(dead_code)]
struct TestDebug {
    value: usize,
    bits: Bitfield<TestBitfield>,
}

#[test]
fn test_bitfield_format() {
    let test_bitfield = TestBitfield::new()
        .with(TestBitfield::hello(), 0b1001)
        .with(TestBitfield::world(), true)
        .with(TestBitfield::have(), TestEnum::Bar)
        .with(TestBitfield::lots(), 0b11010)
        .with(TestBitfield::of(), 0)
        .with(TestBitfield::fun(), 9);
    println!("{}", test_bitfield.display_string());

    let test_debug = TestDebug {
        value: 42,
        bits: test_bitfield,
    };

    println!("test_debug(alt): {:#?}", test_debug);

    println!("test_debug: {:?}", test_debug)
}

#[test]
fn macro_bitfield_valid() {
    TestBitfield::assert_valid();
}

#[test]
fn hello_world_unpack() {
    let bitfield = MyBitfield::from_bits(0b10100_0011_0101);
    assert_eq!(bitfield.get(MyBitfield::hello()), 0b11_0101);
    assert_eq!(bitfield.get(MyBitfield::world()), 0b0101);
}

#[test]
fn enum_get_and_try_get() {
    let invalid = TypedBitfield::from_bits(0b11);
    assert!(invalid.try_get(TypedBitfield::enum_value()).is_err());
    let valid = TypedBitfield::from_bits(0b10);
    assert_eq!(valid.get(TypedBitfield::enum_value()), MyEnum::Baz);
}

#[test]
fn with_and_set_agree() {
    let built = MyBitfield::new()
        .with(MyBitfield::hello(), 0b110101)
        .with(MyBitfield::world(), 0b101);
    let mut set_built = MyBitfield::new();
    set_built.set(MyBitfield::hello(), 0b110101);
    set_built.set(MyBitfield::world(), 0b101);
    assert_eq!(built.bits(), set_built.bits());
}

#[test]
fn validator_rejects_shared_bit() {
    // Two fields sharing bit 3: [0, 6) and [0, 4).
    let a: Pack<u64, MyBitfield> = Pack::least_significant(16, 6);
    let b: Pack<u64, MyBitfield> = Pack::least_significant(16, 4);
    let registry = vec![("A", a), ("B", b)];
    assert!(matches!(
        check_valid(&registry, 16),
        Err(ValidationError::Overlap { .. })
    ));

    // A correct registry passes.
    assert!(check_valid(&<MyBitfield as Layout>::fields(), 16).is_ok());
    Bitfield::<MyBitfield>::assert_valid();
}

#[test]
fn validator_rejects_out_of_range() {
    // A descriptor for a 16-bit word offered as part of an 8-bit registry.
    let a: Pack<u64, MyBitfield> = Pack::least_significant(16, 6);
    let registry = vec![("A", a)];
    assert!(matches!(
        check_valid(&registry, 8),
        Err(ValidationError::OutOfRange { .. })
    ));
}

#[test]
fn validator_rejects_out_of_order() {
    let a: Pack<u64, MyBitfield> = Pack::least_significant(16, 4);
    let b = a.next(4);
    let registry = vec![("B", b), ("A", a)];
    assert!(matches!(
        check_valid(&registry, 16),
        Err(ValidationError::OutOfOrder { .. })
    ));
}

#[test]
fn pack_round_trip_keeps_other_bits() {
    let start = MyBitfield::from_bits(0b1111_1111_1111_1111);
    let packed = start.with(MyBitfield::hello(), 0b10);
    assert_eq!(packed.try_get(MyBitfield::hello()), Ok(0b10));
    assert_eq!(packed.bits(), 0b1111_1111_1100_0010);
}

#[test]
fn pack_masks_wide_values() {
    // Only the low 3 bits of the value land in the 3-bit WORLD field.
    let v = MyBitfield::new().with(MyBitfield::world(), 0b11111010);
    assert_eq!(v.get(MyBitfield::world()), 0b010);
    assert_eq!(v.bits(), 0b010 << 10);
}

#[test]
fn identical_pack_idempotent() {
    let once = MyBitfield::new().with(MyBitfield::hello(), 0b10110);
    let twice = MyBitfield::new()
        .with(MyBitfield::hello(), 0b10110)
        .with(MyBitfield::hello(), 0b10110);
    assert_eq!(once.bits(), twice.bits());
}

#[test]
fn descriptor_geometry() {
    let hello = MyBitfield::hello();
    assert_eq!(hello.offset(), 0);
    assert_eq!(hello.bits(), 6);
    assert_eq!(hello.total(), 16);
    assert_eq!(hello.most_significant_index(), 5);
    let world = MyBitfield::world();
    assert_eq!(world.offset(), 10);
    let rest = world.remaining();
    assert_eq!(rest.offset(), 13);
    assert_eq!(rest.bits(), 3);
    assert!(rest.eq_range(&rest.typed()));
    assert!(!rest.eq_range(&world));
}

#[test]
fn full_width_and_top_bit_fields() {
    let f: Pack<u64, MyBitfield> = Pack::least_significant(64, 64);
    let packed = f.pack(u64::MAX, 0);
    assert_eq!(packed, u64::MAX);
    assert_eq!(f.unpack_bits(packed), u64::MAX);

    let top = Pack::<u64, MyBitfield>::least_significant(64, 1)
        .next(62)
        .remaining();
    assert_eq!(top.offset(), 63);
    assert_eq!(top.bits(), 1);
    assert_eq!(top.unpack_bits(1u64 << 63), 1);
}

#[test]
fn validator_accepts_empty_registry() {
    let registry: Vec<(&'static str, Pack<u64, MyBitfield>)> = Vec::new();
    assert!(check_valid(&registry, 16).is_ok());
}

#[test]
fn unpack_bits_shows_raw_pattern() {
    let v = TypedBitfield::from_bits(0b0011_0101_1001_1110);
    assert_eq!(TypedBitfield::some_bits().unpack_bits(v.bits()), 0b100111);
    assert_eq!(TypedBitfield::a_byte().typed().unpack_bits(v.bits()), 13);
}

#[test]
fn typed_bitfield_display() {
    let my_bitfield = TypedBitfield::from_bits(0b0011_0101_1001_1110);
    let formatted = my_bitfield.display_string();
    let expected = r#"
00000000000000000011010110011110
              └┬─────┘││└┬───┘└┤
               │      ││ │     └ ENUM_VALUE: Baz (10)
               │      ││ └────── SOME_BITS: 39 (100111)
               │      │└─────────── FLAG_1: true (1)
               │      └──────────── FLAG_2: false (0)
               └─────────────────── A_BYTE: 13 (00001101)
"#
    .trim_start();
    assert_eq!(formatted, expected);
}

#[test]
fn my_bitfield_display_hides_reserved() {
    let v = MyBitfield::from_bits(0b10100_0011_0101);
    let expected = r#"
0001010000110101
   └┬┘    └┬───┘
    │      └─── HELLO: 53 (110101)
    └────────── WORLD: 5 (101)
"#
    .trim_start();
    assert_eq!(v.display_string(), expected);
}

#[test]
fn test_bitfield_display_exact() {
    let v = TestBitfield::new()
        .with(TestBitfield::hello(), 0b1001)
        .with(TestBitfield::world(), true)
        .with(TestBitfield::have(), TestEnum::Bar)
        .with(TestBitfield::lots(), 0b11010)
        .with(TestBitfield::of(), 0)
        .with(TestBitfield::fun(), 9);
    let expected = r#"
00000000000010010110100110001001
          └┬───┘│└┬──┘└┤│   └┬─┘
           │    │ │    ││    └─ HELLO: 9 (1001)
           │    │ │    │└────── WORLD: true (1)
           │    │ │    └──────── HAVE: Bar (01)
           │    │ └───────────── LOTS: 26 (11010)
           │    └───────────────── OF: 0 (0)
           └───────────────────── FUN: 9 (001001)
"#
    .trim_start();
    assert_eq!(v.display_string(), expected);
    assert_eq!(
        v.debug_string(),
        "TestBitfield { HELLO: 9, _RESERVED_1: 0, WORLD: true, HAVE: Bar, LOTS: 26, OF: 0, FUN: 9 }"
    );
}

#[test]
fn typed_bitfield_debug_view() {
    let v = TypedBitfield::from_bits(0b0011_0101_1001_1110);
    assert_eq!(
        v.debug_string(),
        "TypedBitfield { ENUM_VALUE: Baz, SOME_BITS: 39, FLAG_1: true, FLAG_2: false, A_BYTE: 13 }"
    );
}

#[test]
fn raw_renderings() {
    let v = TypedBitfield::from_bits(0x359E);
    assert_eq!(v.binary_string(), "TypedBitfield(11010110011110)");
    assert_eq!(v.lower_hex_string(), "TypedBitfield(359e)");
    assert_eq!(v.upper_hex_string(), "TypedBitfield(359E)");
    let zero = TypedBitfield::new();
    assert_eq!(zero.binary_string(), "TypedBitfield(0)");
}

#[test]
fn signed_values_round_trip() {
    assert_eq!(<i8 as FromBits>::into_bits(-1), 0xff);
    assert_eq!(<i8 as FromBits>::try_from_bits(0xff), Ok(-1i8));
    assert_eq!(<i16 as FromBits>::into_bits(-2), 0xfffe);
    assert_eq!(<i32 as FromBits>::try_from_bits(0xffff_ffff), Ok(-1i32));
    let field: Pack<i8, TestBitfield> = Pack::first(32);
    let v = TestBitfield::new().with(field, -5);
    assert_eq!(v.bits(), 0xfb);
    assert_eq!(v.get(Pack::<i8, TestBitfield>::first(32)), -5);
}

#[test]
fn from_bits_capability_errors() {
    assert!(<u8 as FromBits>::try_from_bits(256).is_err());
    assert!(<bool as FromBits>::try_from_bits(2).is_err());
    assert!(<TestEnum as FromBits>::try_from_bits(4).is_err());
    assert!(<MyEnum as FromBits>::try_from_bits(3).is_err());
    assert_eq!(<u8 as FromBits>::try_from_bits(255), Ok(255u8));
    assert_eq!(<bool as FromBits>::try_from_bits(1), Ok(true));
    assert_eq!(<bool as FromBits>::into_bits(true), 1);
    assert_eq!(<TestEnum as FromBits>::try_from_bits(3), Ok(TestEnum::Qux));
}
