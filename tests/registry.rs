use codegen_meta::base_types::{Bool, Float, Int};
use codegen_meta::cdsl::{is_power_of_two, next_power_of_two};
use codegen_meta::cdsl_types::{
    decode_vector, vector_of, LaneType, LaneTypeTag, ValueType, VectorType,
};
use codegen_meta::error::{Error, ErrorInner};

fn all_scalars() -> Vec<ValueType> {
    let mut v = Vec::new();
    let mut it = ValueType::all_special_types();
    while let Some(t) = it.next() {
        v.push(t);
    }
    let mut it = ValueType::all_lane_types();
    while let Some(t) = it.next() {
        v.push(t);
    }
    v
}

fn lane(tag: LaneTypeTag) -> ValueType {
    ValueType::Lane(LaneType::_new(tag))
}

#[test]
fn registry_numbers_are_distinct() {
    let numbers: Vec<u8> = all_scalars().iter().map(|t| t.number()).collect();
    assert_eq!(
        numbers,
        vec![1, 2, 0x70, 0x71, 0x72, 0x73, 0x74, 0x75, 0x76, 0x77, 0x78, 0x79, 0x7a]
    );
    for i in 0..numbers.len() {
        for j in 0..numbers.len() {
            if i != j {
                assert_ne!(numbers[i], numbers[j]);
            }
        }
    }
}

#[test]
fn registry_names_in_order() {
    let names: Vec<String> = all_scalars().iter().map(|t| t.name()).collect();
    assert_eq!(
        names,
        vec![
            "iflags", "fflags", "b1", "b8", "b16", "b32", "b64", "i8", "i16", "i32", "i64",
            "f32", "f64"
        ]
    );
}

#[test]
fn boolean_family_doc_example() {
    let ty = lane(LaneTypeTag::_BoolType(Bool::B8));
    assert_eq!(ty.doc(), "A boolean type with 8 bits.");
    let ty = lane(LaneTypeTag::_IntType(Int::I64));
    assert_eq!(ty.doc(), "An integer type with 64 bits.");
}

#[test]
fn float_and_special_docs() {
    let ty = lane(LaneTypeTag::_FloatType(Float::F32));
    assert!(ty.doc().starts_with("A 32-bit floating point type"));
    let specials = all_scalars();
    assert!(specials[0].doc().contains(":type:`intcc`"));
    assert!(specials[1].doc().contains(":type:`floatcc`"));
}

#[test]
fn membytes_of_scalars() {
    assert_eq!(lane(LaneTypeTag::_BoolType(Bool::B1)).membytes(), 0);
    assert_eq!(lane(LaneTypeTag::_BoolType(Bool::B8)).membytes(), 1);
    assert_eq!(lane(LaneTypeTag::_IntType(Int::I32)).membytes(), 4);
    assert_eq!(lane(LaneTypeTag::_FloatType(Float::F64)).membytes(), 8);
    assert_eq!(all_scalars()[0].membytes(), 0);
}

#[test]
fn rust_names() {
    assert_eq!(
        lane(LaneTypeTag::_BoolType(Bool::B8))._rust_name(),
        "ir::types::BOOLTYPE"
    );
    assert_eq!(all_scalars()[1]._rust_name(), "ir::types::FFLAGS");
    let v = vector_of(&lane(LaneTypeTag::_IntType(Int::I32)), 128).unwrap();
    assert_eq!(ValueType::_Vector(v)._rust_name(), "ir::types::I32X4");
}

#[test]
fn vector_of_fills_budget() {
    let v = vector_of(&lane(LaneTypeTag::_IntType(Int::I32)), 128).unwrap();
    assert_eq!(v._lane_count(), 4);
    assert_eq!(v._lane_bits(), 32);
    assert_eq!(v.name(), "i32x4");
    assert_eq!(v.doc(), "A SIMD vector with 4 lanes containing a `i32` each.");
    assert_eq!(v.membytes(), 16);
    assert_eq!(v.number(), 0x80 | 0x07 | (2 << 4));
}

#[test]
fn vector_of_not_applicable() {
    // Narrower than a byte.
    assert!(vector_of(&lane(LaneTypeTag::_BoolType(Bool::B1)), 128).is_none());
    // A single lane is no vector.
    assert!(vector_of(&lane(LaneTypeTag::_IntType(Int::I64)), 64).is_none());
    // Special types cannot form vectors.
    assert!(vector_of(&all_scalars()[0], 128).is_none());
    // The budget does not divide into lanes.
    assert!(vector_of(&lane(LaneTypeTag::_IntType(Int::I32)), 96).is_none());
    // Three lanes is no power of two.
    assert!(vector_of(&lane(LaneTypeTag::_IntType(Int::I16)), 48).is_none());
    // More than 256 lanes.
    assert!(vector_of(&lane(LaneTypeTag::_IntType(Int::I8)), 4096).is_none());
}

#[test]
fn vector_number_round_trip() {
    let v = vector_of(&lane(LaneTypeTag::_IntType(Int::I32)), 128).unwrap();
    assert_eq!(decode_vector(v.number()), (0x07, 2));
    let widest = vector_of(&lane(LaneTypeTag::_BoolType(Bool::B8)), 2048).unwrap();
    assert_eq!(widest._lane_count(), 256);
    assert_eq!(widest.number(), 0x81);
    assert_eq!(decode_vector(widest.number()), (0x01, 8));
    let b = LaneType::_new(LaneTypeTag::_FloatType(Float::F64));
    let v = VectorType::_new(b, 2);
    assert_eq!(v.number(), 0x80 | 0x0a | 0x10);
    assert_eq!(decode_vector(v.number()), (0x0a, 1));
    assert_eq!(b._by(8)._lane_count(), 8);
}

#[test]
fn lane_type_widths() {
    let a = LaneType::_new(LaneTypeTag::_IntType(Int::I32));
    let b = LaneType::_new(LaneTypeTag::_IntType(Int::I16));
    assert_eq!(a._width(), 32);
    assert_eq!(a._lane_count(), 1);
    assert!(a._wider_or_equal(&b));
    assert!(!b._wider_or_equal(&a));
}

#[test]
fn powers_of_two() {
    assert!(!is_power_of_two(0));
    assert!(is_power_of_two(1));
    assert!(is_power_of_two(64));
    assert!(is_power_of_two(128));
    assert!(!is_power_of_two(6));
    assert!(!is_power_of_two(255));
    assert_eq!(next_power_of_two(0), 1);
    assert_eq!(next_power_of_two(1), 2);
    assert_eq!(next_power_of_two(2), 4);
    assert_eq!(next_power_of_two(5), 8);
    assert_eq!(next_power_of_two(64), 128);
    assert_eq!(next_power_of_two(127), 128);
}

#[test]
fn error_kinds() {
    let e = Error::with_msg("bad input");
    match e.inner() {
        ErrorInner::Msg(s) => assert_eq!(s, "bad input"),
        ErrorInner::IoError(_) => panic!("expected a message"),
    }
    let io = std::io::Error::new(std::io::ErrorKind::NotFound, "missing");
    let e = Error::from(io);
    match e.inner() {
        ErrorInner::IoError(err) => assert_eq!(err.kind(), std::io::ErrorKind::NotFound),
        ErrorInner::Msg(_) => panic!("expected an io error"),
    }
}
