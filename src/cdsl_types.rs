//! The value-type hierarchy: lane types, special types, vector types and
//! bit vectors, with their names, documentation, numbers and sizes, and the
//! fixed enumeration order of the scalar types.
//!
//! The registry's canonical order is: the special types first, then the lane
//! types (booleans, integers, floating point, each narrowest first).
use vstd::prelude::*;
use crate::base_types::{
    Bool,
    BoolIterator,
    Float,
    FloatIterator,
    Flag,
    FlagIterator,
    Int,
    IntIterator,
    LANE_BASE,
    bools,
    flags,
    floats,
    ints,
    yields,
};
use crate::cdsl::{pow2, lemma_pow2_byte};
use crate::text::{decimal, ascii_upper, push_decimal, push_upper};

verus! {

/// Prefix of the Rust path of a type constant.
pub const RUST_NAME_PREFIX: &'static str = "ir::types::";

/// A lane count that a vector can have: 2 to 256, a power of two.
pub open spec fn is_lane_count(n: nat) -> bool {
    exists|k: nat| 1 <= k <= 8 && pow2(k) == n
}

/// The number of a vector type: a marker bit, the low four bits of its lane
/// type's number, and the binary logarithm of its lane count above them.
pub open spec fn vector_number(lane: u8, log2_lanes: u8) -> u8 {
    0x80u8 | (lane & 0x0Fu8) | (log2_lanes << 4u8)
}

/// The low four bits of the lane number and the logarithm of the lane count
/// that a vector number holds.
pub open spec fn decode_vector_number(v: u8) -> (u8, u8) {
    let high = (v >> 4u8) & 7u8;
    (v & 0x0Fu8, if high == 0 { 8u8 } else { high })
}

/// Decoding a vector number gives back the low four bits of its lane number
/// and its lane count's logarithm.
pub proof fn lemma_vector_number_round_trip(lane: u8, log2_lanes: u8)
    requires
        1 <= log2_lanes <= 8,
    ensures
        decode_vector_number(vector_number(lane, log2_lanes)) == (lane & 0x0Fu8, log2_lanes),
{
    assert(vector_number(lane, log2_lanes) & 0x0Fu8 == lane & 0x0Fu8) by (bit_vector);
    assert((vector_number(lane, log2_lanes) >> 4u8) & 7u8 == if log2_lanes == 8 {
        0u8
    } else {
        log2_lanes
    }) by (bit_vector)
        requires
            1 <= log2_lanes <= 8,
    ;
}

/// Splits a vector number into the low four bits of its lane type's number
/// and the binary logarithm of its lane count.
pub fn decode_vector(v: u8) -> (r: (u8, u8))
    ensures
        r == decode_vector_number(v),
{
    let high = (v >> 4u8) & 7u8;
    (v & 0x0Fu8, if high == 0 {
        8u8
    } else {
        high
    })
}

/// The kinds of elements in a lane.
#[derive(Debug, Clone, Copy, PartialEq, Eq, Structural)]
pub enum LaneTypeTag {
    _BoolType(Bool),
    _IntType(Int),
    _FloatType(Float),
}

impl LaneTypeTag {
    pub open spec fn spec_name(self) -> Seq<char> {
        match self {
            LaneTypeTag::_BoolType(b) => b.spec_name(),
            LaneTypeTag::_IntType(i) => i.spec_name(),
            LaneTypeTag::_FloatType(f) => f.spec_name(),
        }
    }

    /// `LANE_BASE` plus the position among all lane types.
    pub open spec fn spec_number(self) -> int {
        match self {
            LaneTypeTag::_BoolType(b) => LANE_BASE + b.ordinal(),
            LaneTypeTag::_IntType(i) => LANE_BASE + bools().len() + i.ordinal(),
            LaneTypeTag::_FloatType(f) => LANE_BASE + bools().len() + ints().len() + f.ordinal(),
        }
    }

    pub open spec fn spec_bits(self) -> nat {
        match self {
            LaneTypeTag::_BoolType(b) => b.spec_bits(),
            LaneTypeTag::_IntType(i) => i.spec_bits(),
            LaneTypeTag::_FloatType(f) => f.spec_bits(),
        }
    }

    pub fn name(&self) -> (r: &'static str)
        ensures
            r@ == self.spec_name(),
    {
        match self {
            LaneTypeTag::_BoolType(b) => b.name(),
            LaneTypeTag::_IntType(i) => i.name(),
            LaneTypeTag::_FloatType(f) => f.name(),
        }
    }

    pub fn number(&self) -> (r: u8)
        ensures
            r == self.spec_number(),
    {
        match self {
            LaneTypeTag::_BoolType(b) => b.number(),
            LaneTypeTag::_IntType(i) => i.number(),
            LaneTypeTag::_FloatType(f) => f.number(),
        }
    }

    pub fn bits(&self) -> (r: u64)
        ensures
            r == self.spec_bits(),
    {
        match self {
            LaneTypeTag::_BoolType(b) => b.bits(),
            LaneTypeTag::_IntType(i) => i.bits(),
            LaneTypeTag::_FloatType(f) => f.bits(),
        }
    }
}

/// A concrete scalar type that can appear as a vector lane too.
#[derive(Debug, Clone, Copy, PartialEq, Eq, Structural)]
pub struct LaneType {
    pub tag: LaneTypeTag,
}

/// Documentation of the 32-bit floating-point type.
pub open spec fn f32_doc() -> Seq<char> {
    "A 32-bit floating point type represented in the IEEE 754-2008 *binary32* interchange format. This corresponds to the :c:type:`float` type in most C implementations."@
}

/// Documentation of the 64-bit floating-point type.
pub open spec fn f64_doc() -> Seq<char> {
    "A 64-bit floating point type represented in the IEEE 754-2008 *binary64* interchange format. This corresponds to the :c:type:`double` type in most C implementations."@
}

impl LaneType {
    pub open spec fn spec_name(self) -> Seq<char> {
        self.tag.spec_name()
    }

    pub open spec fn spec_number(self) -> int {
        self.tag.spec_number()
    }

    pub open spec fn spec_bits(self) -> nat {
        self.tag.spec_bits()
    }

    pub open spec fn spec_membytes(self) -> nat {
        self.spec_bits() / 8
    }

    pub open spec fn spec_doc(self) -> Seq<char> {
        match self.tag {
            LaneTypeTag::_BoolType(_) => "A boolean type with "@ + decimal(self.spec_bits())
                + " bits."@,
            LaneTypeTag::_IntType(_) => "An integer type with "@ + decimal(self.spec_bits())
                + " bits."@,
            LaneTypeTag::_FloatType(Float::F32) => f32_doc(),
            LaneTypeTag::_FloatType(Float::F64) => f64_doc(),
        }
    }

    pub open spec fn spec_rust_name(self) -> Seq<char> {
        RUST_NAME_PREFIX@ + ascii_upper(
            match self.tag {
                LaneTypeTag::_BoolType(_) => "BoolType"@,
                LaneTypeTag::_IntType(_) => "IntType"@,
                LaneTypeTag::_FloatType(_) => "FloatType"@,
            },
        )
    }

    /// Create a lane of the type with the given tag.
    pub fn _new(tag: LaneTypeTag) -> (r: LaneType)
        ensures
            r.tag == tag,
    {
        LaneType { tag }
    }

    /// Get the name of this type.
    pub fn name(&self) -> (r: &'static str)
        ensures
            r@ == self.spec_name(),
    {
        self.tag.name()
    }

    /// Return a string containing the documentation comment for this type.
    pub fn doc(&self) -> (r: String)
        ensures
            r@ == self.spec_doc(),
    {
        match self.tag {
            LaneTypeTag::_BoolType(_) => {
                let mut s = String::from_str("A boolean type with ");
                push_decimal(&mut s, self._lane_bits());
                s.append(" bits.");
                s
            },
            LaneTypeTag::_IntType(_) => {
                let mut s = String::from_str("An integer type with ");
                push_decimal(&mut s, self._lane_bits());
                s.append(" bits.");
                s
            },
            LaneTypeTag::_FloatType(Float::F32) => String::from_str(
                "A 32-bit floating point type represented in the IEEE 754-2008 *binary32* interchange format. This corresponds to the :c:type:`float` type in most C implementations.",
            ),
            LaneTypeTag::_FloatType(Float::F64) => String::from_str(
                "A 64-bit floating point type represented in the IEEE 754-2008 *binary64* interchange format. This corresponds to the :c:type:`double` type in most C implementations.",
            ),
        }
    }

    pub fn number(&self) -> (r: u8)
        ensures
            r == self.spec_number(),
    {
        self.tag.number()
    }

    /// Number of bytes that a value of this type occupies in memory: zero for
    /// a type narrower than a byte.
    pub fn membytes(&self) -> (r: u64)
        ensures
            r == self.spec_membytes(),
    {
        self._lane_bits() / 8
    }

    /// Get a vector type with this type as the lane type.
    ///
    /// For example, `i32._by(4)` returns the `i32x4` type.
    pub fn _by(&self, lanes: u64) -> (r: VectorType)
        requires
            is_lane_count(lanes as nat),
        ensures
            r.base() == *self,
            r.lanes() == lanes,
    {
        VectorType::_new(*self, lanes)
    }

    /// Return the number of lanes.
    pub fn _lane_count(&self) -> (r: u64)
        ensures
            r == 1,
    {
        1
    }

    /// Return the number of bits in a lane.
    pub fn _lane_bits(&self) -> (r: u64)
        ensures
            r == self.spec_bits(),
    {
        self.tag.bits()
    }

    /// Return the total number of bits of an instance of this type.
    pub fn _width(&self) -> (r: u64)
        ensures
            r == self.spec_bits(),
    {
        self._lane_count() * self._lane_bits()
    }

    /// Return true iff:
    ///     1. self and other have equal number of lanes
    ///     2. each lane in self has at least as many bits as a lane in other
    pub fn _wider_or_equal(&self, rhs: &LaneType) -> (r: bool)
        ensures
            r == (self.spec_bits() >= rhs.spec_bits()),
    {
        (self._lane_count() == rhs._lane_count()) && (self._lane_bits() >= rhs._lane_bits())
    }

    /// Get the Rust path of the constant for this kind of type.
    pub fn _rust_name(&self) -> (r: String)
        ensures
            r@ == self.spec_rust_name(),
    {
        let kind: &'static str = match self.tag {
            LaneTypeTag::_BoolType(_) => "BoolType",
            LaneTypeTag::_IntType(_) => "IntType",
            LaneTypeTag::_FloatType(_) => "FloatType",
        };
        let mut s = String::from_str(RUST_NAME_PREFIX);
        push_upper(&mut s, kind);
        s
    }
}

/// Binary logarithm of a lane count, or `None` if `lanes` is no lane count.
fn lane_count_log2(lanes: u64) -> (r: Option<u8>)
    ensures
        r matches Some(k) ==> 1 <= k <= 8 && pow2(k as nat) == lanes,
        r is None ==> !is_lane_count(lanes as nat),
{
    let mut k: u8 = 1;
    let mut p: u64 = 2;
    proof {
        lemma_pow2_byte(1);
    }
    while k <= 8
        invariant
            1 <= k <= 9,
            p == pow2(k as nat),
            p <= 512,
            forall|j: nat| 1 <= j < k ==> pow2(j) != lanes,
        decreases 9 - k,
    {
        if p == lanes {
            return Some(k);
        }
        proof {
            lemma_pow2_byte(k as nat);
            lemma_pow2_byte((k + 1) as nat);
        }
        k = k + 1;
        p = p * 2;
    }
    None
}

/// A concrete SIMD vector type.
///
/// A vector type has a lane type, and a number of lanes that is a power of
/// two from 2 to 256.
pub struct VectorType {
    base: LaneType,
    log2_lanes: u8,
}

impl VectorType {
    #[verifier::type_invariant]
    spec fn inv(self) -> bool {
        1 <= self.log2_lanes <= 8
    }

    /// The lane type.
    pub closed spec fn base(self) -> LaneType {
        self.base
    }

    /// Binary logarithm of the lane count.
    pub closed spec fn log2_lanes(self) -> u8 {
        self.log2_lanes
    }

    pub open spec fn lanes(self) -> nat {
        pow2(self.log2_lanes() as nat)
    }

    pub open spec fn spec_name(self) -> Seq<char> {
        vector_name(self.base(), self.log2_lanes() as nat)
    }

    pub open spec fn spec_doc(self) -> Seq<char> {
        vector_doc(self.base(), self.log2_lanes() as nat)
    }

    pub open spec fn spec_number(self) -> int {
        vector_type_number(self.base(), self.log2_lanes() as nat)
    }

    pub open spec fn spec_membytes(self) -> nat {
        self.lanes() * self.base().spec_membytes()
    }

    /// Initialize a new vector type with `lanes` lanes of type `base`.
    pub fn _new(base: LaneType, lanes: u64) -> (r: VectorType)
        requires
            is_lane_count(lanes as nat),
        ensures
            r.base() == base,
            r.lanes() == lanes,
    {
        let k = lane_count_log2(lanes);
        match k {
            Some(k) => VectorType { base, log2_lanes: k },
            None => {
                proof {
                    assert(false);
                }
                VectorType { base, log2_lanes: 1 }
            },
        }
    }

    /// Return the number of lanes.
    pub fn _lane_count(&self) -> (r: u64)
        ensures
            r == self.lanes(),
    {
        proof {
            use_type_invariant(self);
        }
        let mut i: u8 = 0;
        let mut n: u64 = 1;
        while i < self.log2_lanes
            invariant
                i <= self.log2_lanes <= 8,
                n == pow2(i as nat),
                n <= 256,
            decreases self.log2_lanes - i,
        {
            proof {
                lemma_pow2_byte(i as nat);
                lemma_pow2_byte((i + 1) as nat);
            }
            n = n * 2;
            i = i + 1;
        }
        n
    }

    /// Return the number of bits in a lane.
    pub fn _lane_bits(&self) -> (r: u64)
        ensures
            r == self.base().spec_bits(),
    {
        self.base._lane_bits()
    }

    /// Name of the type, such as `i32x4`.
    pub fn name(&self) -> (r: String)
        ensures
            r@ == self.spec_name(),
    {
        let mut s = String::from_str(self.base.name());
        s.append("x");
        push_decimal(&mut s, self._lane_count());
        s
    }

    pub fn doc(&self) -> (r: String)
        ensures
            r@ == self.spec_doc(),
    {
        let mut s = String::from_str("A SIMD vector with ");
        push_decimal(&mut s, self._lane_count());
        s.append(" lanes containing a `");
        s.append(self.base.name());
        s.append("` each.");
        s
    }

    pub fn number(&self) -> (r: u8)
        ensures
            r == self.spec_number(),
    {
        proof {
            use_type_invariant(self);
        }
        let lane = self.base.number();
        0x80u8 | (lane & 0x0Fu8) | (self.log2_lanes << 4u8)
    }

    pub fn membytes(&self) -> (r: u64)
        ensures
            r == self.spec_membytes(),
    {
        proof {
            use_type_invariant(self);
            lemma_pow2_byte(self.log2_lanes as nat);
        }
        let n = self._lane_count();
        let mb = self.base.membytes();
        assert(n * mb <= 256 * 8) by (nonlinear_arith)
            requires
                n <= 256,
                mb <= 8,
        ;
        n * mb
    }
}

/// A flat bitvector type. Used for semantics description only.
pub struct _BVType;

impl _BVType {
    pub fn _new() -> Self {
        Self {  }
    }
}

/// The kinds of special types.
#[derive(Debug, Clone, Copy, PartialEq, Eq, Structural)]
pub enum SpecialTypeTag {
    Flag(Flag),
}

impl SpecialTypeTag {
    pub open spec fn spec_name(self) -> Seq<char> {
        match self {
            SpecialTypeTag::Flag(f) => f.spec_name(),
        }
    }

    pub open spec fn spec_number(self) -> int {
        match self {
            SpecialTypeTag::Flag(f) => f.spec_number() as int,
        }
    }

    pub fn name(&self) -> (r: &'static str)
        ensures
            r@ == self.spec_name(),
    {
        match self {
            SpecialTypeTag::Flag(f) => f.name(),
        }
    }

    pub fn number(&self) -> (r: u8)
        ensures
            r == self.spec_number(),
    {
        match self {
            SpecialTypeTag::Flag(f) => f.number(),
        }
    }
}

/// Documentation of the integer-comparison flags type.
pub open spec fn iflags_doc() -> Seq<char> {
    "CPU flags representing the result of an integer comparison. These flags can be tested with an :type:`intcc` condition code.
            "@
}

/// Documentation of the floating-point-comparison flags type.
pub open spec fn fflags_doc() -> Seq<char> {
    "CPU flags representing the result of a floating point comparison. These flags can be tested with a :type:`floatcc` condition code.
            "@
}

/// A concrete scalar type that is neither a vector nor a lane type.
///
/// Special types cannot be used to form vectors.
#[derive(Debug, Clone, Copy, PartialEq, Eq, Structural)]
pub struct SpecialType {
    pub tag: SpecialTypeTag,
}

impl SpecialType {
    pub open spec fn spec_name(self) -> Seq<char> {
        self.tag.spec_name()
    }

    pub open spec fn spec_number(self) -> int {
        self.tag.spec_number()
    }

    pub open spec fn spec_doc(self) -> Seq<char> {
        match self.tag {
            SpecialTypeTag::Flag(Flag::IFlags) => iflags_doc(),
            SpecialTypeTag::Flag(Flag::FFlags) => fflags_doc(),
        }
    }

    pub open spec fn spec_rust_name(self) -> Seq<char> {
        RUST_NAME_PREFIX@ + ascii_upper(self.spec_name())
    }

    pub fn _rust_name(&self) -> (r: String)
        ensures
            r@ == self.spec_rust_name(),
    {
        let mut s = String::from_str(RUST_NAME_PREFIX);
        push_upper(&mut s, self.name());
        s
    }

    pub fn name(&self) -> (r: &'static str)
        ensures
            r@ == self.spec_name(),
    {
        self.tag.name()
    }

    pub fn doc(&self) -> (r: String)
        ensures
            r@ == self.spec_doc(),
    {
        match self.tag {
            SpecialTypeTag::Flag(Flag::IFlags) => String::from_str(
                "CPU flags representing the result of an integer comparison. These flags can be tested with an :type:`intcc` condition code.
            ",
            ),
            SpecialTypeTag::Flag(Flag::FFlags) => String::from_str(
                "CPU flags representing the result of a floating point comparison. These flags can be tested with a :type:`floatcc` condition code.
            ",
            ),
        }
    }

    pub fn number(&self) -> (r: u8)
        ensures
            r == self.spec_number(),
    {
        self.tag.number()
    }
}

/// A concrete SSA value type.
///
/// All SSA values have a type that is described by an instance of `ValueType`
/// or one of its variants.
pub enum ValueType {
    _BV(_BVType),
    Lane(LaneType),
    Special(SpecialType),
    _Vector(VectorType),
}

/// The lane type of a boolean.
pub open spec fn bool_lane(b: Bool) -> ValueType {
    ValueType::Lane(LaneType { tag: LaneTypeTag::_BoolType(b) })
}

/// The lane type of an integer.
pub open spec fn int_lane(i: Int) -> ValueType {
    ValueType::Lane(LaneType { tag: LaneTypeTag::_IntType(i) })
}

/// The lane type of a floating-point number.
pub open spec fn float_lane(f: Float) -> ValueType {
    ValueType::Lane(LaneType { tag: LaneTypeTag::_FloatType(f) })
}

/// The special type of a flags kind.
pub open spec fn flag_special(f: Flag) -> ValueType {
    ValueType::Special(SpecialType { tag: SpecialTypeTag::Flag(f) })
}

/// All lane types: booleans, then integers, then floating point, each family
/// narrowest first.
pub open spec fn lane_types() -> Seq<ValueType> {
    bools().map_values(|b: Bool| bool_lane(b)) + ints().map_values(|i: Int| int_lane(i))
        + floats().map_values(|f: Float| float_lane(f))
}

/// All special types: the integer flags, then the floating-point flags.
pub open spec fn special_types() -> Seq<ValueType> {
    flags().map_values(|f: Flag| flag_special(f))
}

/// The scalar types in the registry's canonical order: special types first,
/// then lane types.
pub open spec fn registry() -> Seq<ValueType> {
    special_types() + lane_types()
}

/// The binary logarithm of a lane count.
pub open spec fn lane_log2(n: nat) -> nat {
    choose|k: nat| 1 <= k <= 8 && pow2(k) == n
}

/// The lane type and the binary logarithm of the lane count of the vector
/// that fills `bits` bits with lanes of `ty`, if there is one: `ty` is a lane
/// type whose size in bytes is non-zero and divides the budget, and the
/// quotient is a lane count.
pub open spec fn vector_shape(ty: ValueType, bits: nat) -> Option<(LaneType, nat)> {
    match ty {
        ValueType::Lane(l) => {
            let mb = l.spec_membytes();
            if mb > 0 && (bits / 8) % mb == 0 && is_lane_count((bits / 8) / mb) {
                Some((l, lane_log2((bits / 8) / mb)))
            } else {
                None
            }
        },
        _ => None,
    }
}

/// Name of the vector of `pow2(log2_lanes)` lanes of `base`, such as `i32x4`.
pub open spec fn vector_name(base: LaneType, log2_lanes: nat) -> Seq<char> {
    base.spec_name() + "x"@ + decimal(pow2(log2_lanes))
}

/// Documentation of the vector of `pow2(log2_lanes)` lanes of `base`.
pub open spec fn vector_doc(base: LaneType, log2_lanes: nat) -> Seq<char> {
    "A SIMD vector with "@ + decimal(pow2(log2_lanes)) + " lanes containing a `"@
        + base.spec_name() + "` each."@
}

/// Number of the vector of `pow2(log2_lanes)` lanes of `base`.
pub open spec fn vector_type_number(base: LaneType, log2_lanes: nat) -> int {
    vector_number(base.spec_number() as u8, log2_lanes as u8) as int
}

/// Two powers of two up to 256 are equal only for equal exponents.
proof fn lemma_pow2_injective(a: nat, b: nat)
    requires
        a <= 8,
        b <= 8,
        pow2(a) == pow2(b),
    ensures
        a == b,
{
    lemma_pow2_byte(a);
    lemma_pow2_byte(b);
}

impl ValueType {
    /// Every type but a bit vector has a name, documentation and a number.
    pub open spec fn is_numbered(self) -> bool {
        !(self is _BV)
    }

    pub open spec fn spec_name(self) -> Seq<char> {
        match self {
            ValueType::Lane(l) => l.spec_name(),
            ValueType::Special(s) => s.spec_name(),
            ValueType::_Vector(v) => v.spec_name(),
            ValueType::_BV(_) => seq![],
        }
    }

    pub open spec fn spec_doc(self) -> Seq<char> {
        match self {
            ValueType::Lane(l) => l.spec_doc(),
            ValueType::Special(s) => s.spec_doc(),
            ValueType::_Vector(v) => v.spec_doc(),
            ValueType::_BV(_) => seq![],
        }
    }

    pub open spec fn spec_number(self) -> int {
        match self {
            ValueType::Lane(l) => l.spec_number(),
            ValueType::Special(s) => s.spec_number(),
            ValueType::_Vector(v) => v.spec_number(),
            ValueType::_BV(_) => 0,
        }
    }

    pub open spec fn spec_membytes(self) -> nat {
        match self {
            ValueType::Lane(l) => l.spec_membytes(),
            ValueType::_Vector(v) => v.spec_membytes(),
            _ => 0,
        }
    }

    pub open spec fn spec_rust_name(self) -> Seq<char> {
        match self {
            ValueType::Lane(l) => l.spec_rust_name(),
            ValueType::Special(s) => s.spec_rust_name(),
            ValueType::_Vector(v) => RUST_NAME_PREFIX@ + ascii_upper(v.spec_name()),
            ValueType::_BV(_) => seq![],
        }
    }

    /// Iterate through all of the special types (neither lanes nor vectors).
    pub fn all_special_types() -> (r: SpecialTypeIterator)
        ensures
            r.remaining() == special_types(),
    {
        SpecialTypeIterator::new()
    }

    /// Iterate through all of the lane types.
    pub fn all_lane_types() -> (r: LaneTypeIterator)
        ensures
            r.remaining() == lane_types(),
    {
        LaneTypeIterator::new()
    }

    /// Get the name of this type.
    pub fn name(&self) -> (r: String)
        requires
            self.is_numbered(),
        ensures
            r@ == self.spec_name(),
    {
        match self {
            ValueType::Lane(l) => String::from_str(l.name()),
            ValueType::Special(s) => String::from_str(s.name()),
            ValueType::_Vector(v) => v.name(),
            ValueType::_BV(_) => String::new(),
        }
    }

    /// Return a string containing the documentation comment for this type.
    pub fn doc(&self) -> (r: String)
        requires
            self.is_numbered(),
        ensures
            r@ == self.spec_doc(),
    {
        match self {
            ValueType::Lane(l) => l.doc(),
            ValueType::Special(s) => s.doc(),
            ValueType::_Vector(v) => v.doc(),
            ValueType::_BV(_) => String::new(),
        }
    }

    /// Find the unique number associated with this type.
    pub fn number(&self) -> (r: u8)
        requires
            self.is_numbered(),
        ensures
            r == self.spec_number(),
    {
        match self {
            ValueType::Lane(l) => l.number(),
            ValueType::Special(s) => s.number(),
            ValueType::_Vector(v) => v.number(),
            ValueType::_BV(_) => 0,
        }
    }

    /// Find the number of bytes that this type occupies in memory: zero for
    /// a special type, which cannot be stored.
    pub fn membytes(&self) -> (r: u64)
        requires
            self.is_numbered(),
        ensures
            r == self.spec_membytes(),
    {
        match self {
            ValueType::Lane(l) => l.membytes(),
            ValueType::_Vector(v) => v.membytes(),
            _ => 0,
        }
    }

    /// Get the Rust path of the constant for this type.
    pub fn _rust_name(&self) -> (r: String)
        requires
            self.is_numbered(),
        ensures
            r@ == self.spec_rust_name(),
    {
        match self {
            ValueType::Lane(l) => l._rust_name(),
            ValueType::Special(s) => s._rust_name(),
            ValueType::_Vector(v) => {
                let mut s = String::from_str(RUST_NAME_PREFIX);
                let name = v.name();
                push_upper(&mut s, name.as_str());
                s
            },
            ValueType::_BV(_) => String::new(),
        }
    }
}

/// The vector of lanes of `ty` that fills `bits` bits, if there is one: it
/// exists where `ty` is a lane type of non-zero size in bytes that divides
/// `bits / 8`, and the quotient is a power of two from 2 to 256.
pub fn vector_of(ty: &ValueType, bits: u64) -> (r: Option<VectorType>)
    ensures
        r is Some <==> vector_shape(*ty, bits as nat) is Some,
        r matches Some(v) ==> (v.base(), v.log2_lanes() as nat) == vector_shape(
            *ty,
            bits as nat,
        )->Some_0,
{
    match ty {
        ValueType::Lane(l) => {
            let mb = l.membytes();
            let size = bits / 8;
            if mb == 0 || size % mb != 0 {
                return None;
            }
            match lane_count_log2(size / mb) {
                Some(k) => {
                    proof {
                        let n = (size / mb) as nat;
                        lemma_pow2_injective(k as nat, lane_log2(n));
                    }
                    Some(VectorType { base: *l, log2_lanes: k })
                },
                None => None,
            }
        },
        _ => None,
    }
}

/// Iterator through all the lane types, in their enumeration order.
pub struct LaneTypeIterator {
    bool_iter: BoolIterator,
    int_iter: IntIterator,
    float_iter: FloatIterator,
}

impl LaneTypeIterator {
    /// The lane types still to come.
    pub closed spec fn remaining(&self) -> Seq<ValueType> {
        self.bool_iter.remaining().map_values(|b: Bool| bool_lane(b))
            + self.int_iter.remaining().map_values(|i: Int| int_lane(i))
            + self.float_iter.remaining().map_values(|f: Float| float_lane(f))
    }

    fn new() -> (r: Self)
        ensures
            r.remaining() == lane_types(),
    {
        Self {
            bool_iter: BoolIterator::new(),
            int_iter: IntIterator::new(),
            float_iter: FloatIterator::new(),
        }
    }

    pub fn next(&mut self) -> (r: Option<ValueType>)
        ensures
            yields(old(self).remaining(), final(self).remaining(), r),
    {
        let ghost bs = self.bool_iter.remaining().map_values(|b: Bool| bool_lane(b));
        let ghost is = self.int_iter.remaining().map_values(|i: Int| int_lane(i));
        let ghost fs = self.float_iter.remaining().map_values(|f: Float| float_lane(f));
        if let Some(b) = self.bool_iter.next() {
            let next = LaneType { tag: LaneTypeTag::_BoolType(b) };
            assert(self.remaining() =~= old(self).remaining().drop_first());
            Some(ValueType::Lane(next))
        } else if let Some(i) = self.int_iter.next() {
            let next = LaneType { tag: LaneTypeTag::_IntType(i) };
            assert(bs.len() == 0);
            assert(old(self).remaining() =~= is + fs);
            assert(self.remaining() =~= old(self).remaining().drop_first());
            Some(ValueType::Lane(next))
        } else if let Some(f) = self.float_iter.next() {
            let next = LaneType { tag: LaneTypeTag::_FloatType(f) };
            assert(old(self).remaining() =~= fs);
            assert(self.remaining() =~= old(self).remaining().drop_first());
            Some(ValueType::Lane(next))
        } else {
            assert(old(self).remaining() =~= seq![]);
            assert(self.remaining() =~= old(self).remaining());
            None
        }
    }
}

/// Iterator through all the special types, in their enumeration order.
pub struct SpecialTypeIterator {
    flag_iter: FlagIterator,
}

impl SpecialTypeIterator {
    /// The special types still to come.
    pub closed spec fn remaining(&self) -> Seq<ValueType> {
        self.flag_iter.remaining().map_values(|f: Flag| flag_special(f))
    }

    fn new() -> (r: Self)
        ensures
            r.remaining() == special_types(),
    {
        Self { flag_iter: FlagIterator::new() }
    }

    pub fn next(&mut self) -> (r: Option<ValueType>)
        ensures
            yields(old(self).remaining(), final(self).remaining(), r),
    {
        if let Some(f) = self.flag_iter.next() {
            let next = SpecialType { tag: SpecialTypeTag::Flag(f) };
            assert(self.remaining() =~= old(self).remaining().drop_first());
            Some(ValueType::Special(next))
        } else {
            assert(self.remaining() =~= old(self).remaining());
            None
        }
    }
}

/// The number of the type at each position of the registry: 1 and 2 for the
/// special types, then `LANE_BASE` onwards for the lane types.
proof fn lemma_registry_number(i: int)
    requires
        0 <= i < registry().len(),
    ensures
        registry().len() == 13,
        registry()[i].spec_number() == if i < 2 {
            i + 1
        } else {
            LANE_BASE + i - 2
        },
{
    assert(registry() =~= seq![
        flag_special(Flag::IFlags),
        flag_special(Flag::FFlags),
        bool_lane(Bool::B1),
        bool_lane(Bool::B8),
        bool_lane(Bool::B16),
        bool_lane(Bool::B32),
        bool_lane(Bool::B64),
        int_lane(Int::I8),
        int_lane(Int::I16),
        int_lane(Int::I32),
        int_lane(Int::I64),
        float_lane(Float::F32),
        float_lane(Float::F64),
    ]);
}

/// Numbering uniqueness: the special types and the lane types all have
/// different numbers.
pub proof fn lemma_registry_numbers_distinct(i: int, j: int)
    requires
        0 <= i < registry().len(),
        0 <= j < registry().len(),
        i != j,
    ensures
        registry()[i].spec_number() != registry()[j].spec_number(),
{
    lemma_registry_number(i);
    lemma_registry_number(j);
}

} // verus!
