use codegen_meta::base_types::{
    Bool, BoolIterator, Flag, FlagIterator, Float, FloatIterator, Int, IntIterator,
};

#[test]
fn bool_iter_works() {
    let mut bool_iter = BoolIterator::new();
    assert_eq!(bool_iter.next(), Some(Bool::B1));
    assert_eq!(bool_iter.next(), Some(Bool::B8));
    assert_eq!(bool_iter.next(), Some(Bool::B16));
    assert_eq!(bool_iter.next(), Some(Bool::B32));
    assert_eq!(bool_iter.next(), Some(Bool::B64));
    assert_eq!(bool_iter.next(), None);
}

#[test]
fn int_iter_works() {
    let mut int_iter = IntIterator::new();
    assert_eq!(int_iter.next(), Some(Int::I8));
    assert_eq!(int_iter.next(), Some(Int::I16));
    assert_eq!(int_iter.next(), Some(Int::I32));
    assert_eq!(int_iter.next(), Some(Int::I64));
    assert_eq!(int_iter.next(), None);
}

#[test]
fn float_iter_works() {
    let mut float_iter = FloatIterator::new();
    assert_eq!(float_iter.next(), Some(Float::F32));
    assert_eq!(float_iter.next(), Some(Float::F64));
    assert_eq!(float_iter.next(), None);
}

#[test]
fn flag_iter_works() {
    let mut flag_iter = FlagIterator::new();
    assert_eq!(flag_iter.next(), Some(Flag::IFlags));
    assert_eq!(flag_iter.next(), Some(Flag::FFlags));
    assert_eq!(flag_iter.next(), None);
}

#[test]
fn exhausted_iterator_stays_exhausted() {
    let mut it = FlagIterator::new();
    assert!(it.next().is_some());
    assert!(it.next().is_some());
    assert_eq!(it.next(), None);
    assert_eq!(it.next(), None);
}

#[test]
fn family_numbers_follow_enumeration_order() {
    assert_eq!(Bool::B1.number(), 0x70);
    assert_eq!(Bool::B64.number(), 0x74);
    assert_eq!(Int::I8.number(), 0x75);
    assert_eq!(Int::I64.number(), 0x78);
    assert_eq!(Float::F32.number(), 0x79);
    assert_eq!(Float::F64.number(), 0x7a);
    assert_eq!(Flag::IFlags.number(), 1);
    assert_eq!(Flag::FFlags.number(), 2);
}

#[test]
fn family_names_and_widths() {
    assert_eq!(Bool::B1.name(), "b1");
    assert_eq!(Bool::B16.bits(), 16);
    assert_eq!(Int::I32.name(), "i32");
    assert_eq!(Int::I16.bits(), 16);
    assert_eq!(Float::F64.name(), "f64");
    assert_eq!(Float::F32.bits(), 32);
    assert_eq!(Flag::IFlags.name(), "iflags");
    assert_eq!(Flag::FFlags.name(), "fflags");
}
