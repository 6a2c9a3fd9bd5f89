//! The scalar type families: booleans, integers, floating-point numbers and
//! CPU flags, each with its fixed enumeration order and its type number.
//!
//! Numbering scheme for value types:
//!
//! - 0: void
//! - 0x01-0x6f: special types
//! - 0x70-0x7f: lane types
//! - 0x80-0xff: vector types
use vstd::prelude::*;

verus! {

/// Number of the first lane type; the others follow in enumeration order.
pub const LANE_BASE: u8 = 0x70;

/// What an iterator's `next` does to the items it has yet to yield: it hands
/// out the first one and drops it, or returns `None` once none is left.
pub open spec fn yields<T>(before: Seq<T>, after: Seq<T>, r: Option<T>) -> bool {
    if before.len() == 0 {
        r is None && after == before
    } else {
        r == Some(before[0]) && after == before.drop_first()
    }
}

/// A boolean type, by its width in bits.
#[derive(Debug, Clone, Copy, PartialEq, Eq, Structural)]
pub enum Bool {
    /// 1-bit bool.
    B1,
    /// 8-bit bool.
    B8,
    /// 16-bit bool.
    B16,
    /// 32-bit bool.
    B32,
    /// 64-bit bool.
    B64,
}

/// The boolean types, narrowest first.
pub open spec fn bools() -> Seq<Bool> {
    seq![Bool::B1, Bool::B8, Bool::B16, Bool::B32, Bool::B64]
}

impl Bool {
    /// Position in `bools()`.
    pub open spec fn ordinal(self) -> nat {
        match self {
            Bool::B1 => 0,
            Bool::B8 => 1,
            Bool::B16 => 2,
            Bool::B32 => 3,
            Bool::B64 => 4,
        }
    }

    pub open spec fn spec_bits(self) -> nat {
        match self {
            Bool::B1 => 1,
            Bool::B8 => 8,
            Bool::B16 => 16,
            Bool::B32 => 32,
            Bool::B64 => 64,
        }
    }

    pub open spec fn spec_name(self) -> Seq<char> {
        match self {
            Bool::B1 => "b1"@,
            Bool::B8 => "b8"@,
            Bool::B16 => "b16"@,
            Bool::B32 => "b32"@,
            Bool::B64 => "b64"@,
        }
    }

    /// Get the number of a boolean variant.
    pub fn number(&self) -> (r: u8)
        ensures
            r == LANE_BASE + self.ordinal(),
    {
        let offset: u8 = match self {
            Bool::B1 => 0,
            Bool::B8 => 1,
            Bool::B16 => 2,
            Bool::B32 => 3,
            Bool::B64 => 4,
        };
        LANE_BASE + offset
    }

    /// Width in bits.
    pub fn bits(&self) -> (r: u64)
        ensures
            r == self.spec_bits(),
    {
        match self {
            Bool::B1 => 1,
            Bool::B8 => 8,
            Bool::B16 => 16,
            Bool::B32 => 32,
            Bool::B64 => 64,
        }
    }

    /// Name of the type, such as `b8`.
    pub fn name(&self) -> (r: &'static str)
        ensures
            r@ == self.spec_name(),
    {
        match self {
            Bool::B1 => "b1",
            Bool::B8 => "b8",
            Bool::B16 => "b16",
            Bool::B32 => "b32",
            Bool::B64 => "b64",
        }
    }
}

/// Iterator through the variants of the Bool enum.
pub struct BoolIterator {
    index: usize,
}

impl BoolIterator {
    /// The variants still to come.
    pub closed spec fn remaining(&self) -> Seq<Bool> {
        if self.index < 5 {
            bools().skip(self.index as int)
        } else {
            seq![]
        }
    }

    pub fn new() -> (r: Self)
        ensures
            r.remaining() == bools(),
    {
        let r = Self { index: 0 };
        assert(bools().skip(0) =~= bools());
        r
    }

    pub fn next(&mut self) -> (r: Option<Bool>)
        ensures
            yields(old(self).remaining(), final(self).remaining(), r),
    {
        let res = match self.index {
            0 => Some(Bool::B1),
            1 => Some(Bool::B8),
            2 => Some(Bool::B16),
            3 => Some(Bool::B32),
            4 => Some(Bool::B64),
            _ => None,
        };
        if self.index < 5 {
            self.index = self.index + 1;
        }
        assert(old(self).index < 5 ==> self.remaining() =~= old(self).remaining().drop_first());
        res
    }
}

/// An integer type, by its width in bits.
#[derive(Debug, Clone, Copy, PartialEq, Eq, Structural)]
pub enum Int {
    /// 8-bit int.
    I8,
    /// 16-bit int.
    I16,
    /// 32-bit int.
    I32,
    /// 64-bit int.
    I64,
}

/// The integer types, narrowest first.
pub open spec fn ints() -> Seq<Int> {
    seq![Int::I8, Int::I16, Int::I32, Int::I64]
}

impl Int {
    /// Position in `ints()`.
    pub open spec fn ordinal(self) -> nat {
        match self {
            Int::I8 => 0,
            Int::I16 => 1,
            Int::I32 => 2,
            Int::I64 => 3,
        }
    }

    pub open spec fn spec_bits(self) -> nat {
        match self {
            Int::I8 => 8,
            Int::I16 => 16,
            Int::I32 => 32,
            Int::I64 => 64,
        }
    }

    pub open spec fn spec_name(self) -> Seq<char> {
        match self {
            Int::I8 => "i8"@,
            Int::I16 => "i16"@,
            Int::I32 => "i32"@,
            Int::I64 => "i64"@,
        }
    }

    /// Get the number of an integer variant: the integers follow the booleans.
    pub fn number(&self) -> (r: u8)
        ensures
            r == LANE_BASE + bools().len() + self.ordinal(),
    {
        let offset: u8 = match self {
            Int::I8 => 0,
            Int::I16 => 1,
            Int::I32 => 2,
            Int::I64 => 3,
        };
        LANE_BASE + 5 + offset
    }

    /// Width in bits.
    pub fn bits(&self) -> (r: u64)
        ensures
            r == self.spec_bits(),
    {
        match self {
            Int::I8 => 8,
            Int::I16 => 16,
            Int::I32 => 32,
            Int::I64 => 64,
        }
    }

    /// Name of the type, such as `i32`.
    pub fn name(&self) -> (r: &'static str)
        ensures
            r@ == self.spec_name(),
    {
        match self {
            Int::I8 => "i8",
            Int::I16 => "i16",
            Int::I32 => "i32",
            Int::I64 => "i64",
        }
    }
}

/// Iterator through the variants of the Int enum.
pub struct IntIterator {
    index: usize,
}

impl IntIterator {
    /// The variants still to come.
    pub closed spec fn remaining(&self) -> Seq<Int> {
        if self.index < 4 {
            ints().skip(self.index as int)
        } else {
            seq![]
        }
    }

    pub fn new() -> (r: Self)
        ensures
            r.remaining() == ints(),
    {
        let r = Self { index: 0 };
        assert(ints().skip(0) =~= ints());
        r
    }

    pub fn next(&mut self) -> (r: Option<Int>)
        ensures
            yields(old(self).remaining(), final(self).remaining(), r),
    {
        let res = match self.index {
            0 => Some(Int::I8),
            1 => Some(Int::I16),
            2 => Some(Int::I32),
            3 => Some(Int::I64),
            _ => None,
        };
        if self.index < 4 {
            self.index = self.index + 1;
        }
        assert(old(self).index < 4 ==> self.remaining() =~= old(self).remaining().drop_first());
        res
    }
}

/// A floating-point type, by its width in bits.
#[derive(Debug, Clone, Copy, PartialEq, Eq, Structural)]
pub enum Float {
    F32,
    F64,
}

/// The floating-point types, narrowest first.
pub open spec fn floats() -> Seq<Float> {
    seq![Float::F32, Float::F64]
}

impl Float {
    /// Position in `floats()`.
    pub open spec fn ordinal(self) -> nat {
        match self {
            Float::F32 => 0,
            Float::F64 => 1,
        }
    }

    pub open spec fn spec_bits(self) -> nat {
        match self {
            Float::F32 => 32,
            Float::F64 => 64,
        }
    }

    pub open spec fn spec_name(self) -> Seq<char> {
        match self {
            Float::F32 => "f32"@,
            Float::F64 => "f64"@,
        }
    }

    /// Get the number of a floating-point variant: these follow the booleans
    /// and the integers.
    pub fn number(&self) -> (r: u8)
        ensures
            r == LANE_BASE + bools().len() + ints().len() + self.ordinal(),
    {
        let offset: u8 = match self {
            Float::F32 => 0,
            Float::F64 => 1,
        };
        LANE_BASE + 9 + offset
    }

    /// Width in bits.
    pub fn bits(&self) -> (r: u64)
        ensures
            r == self.spec_bits(),
    {
        match self {
            Float::F32 => 32,
            Float::F64 => 64,
        }
    }

    /// Name of the type, such as `f64`.
    pub fn name(&self) -> (r: &'static str)
        ensures
            r@ == self.spec_name(),
    {
        match self {
            Float::F32 => "f32",
            Float::F64 => "f64",
        }
    }
}

/// Iterator through the variants of the Float enum.
pub struct FloatIterator {
    index: usize,
}

impl FloatIterator {
    /// The variants still to come.
    pub closed spec fn remaining(&self) -> Seq<Float> {
        if self.index < 2 {
            floats().skip(self.index as int)
        } else {
            seq![]
        }
    }

    pub fn new() -> (r: Self)
        ensures
            r.remaining() == floats(),
    {
        let r = Self { index: 0 };
        assert(floats().skip(0) =~= floats());
        r
    }

    pub fn next(&mut self) -> (r: Option<Float>)
        ensures
            yields(old(self).remaining(), final(self).remaining(), r),
    {
        let res = match self.index {
            0 => Some(Float::F32),
            1 => Some(Float::F64),
            _ => None,
        };
        if self.index < 2 {
            self.index = self.index + 1;
        }
        assert(old(self).index < 2 ==> self.remaining() =~= old(self).remaining().drop_first());
        res
    }
}

/// A CPU flags type.
#[derive(Debug, Clone, Copy, PartialEq, Eq, Structural)]
pub enum Flag {
    /// CPU flags from an integer comparison.
    IFlags,
    /// CPU flags from a floating point comparison.
    FFlags,
}

/// The flags types, in enumeration order.
pub open spec fn flags() -> Seq<Flag> {
    seq![Flag::IFlags, Flag::FFlags]
}

impl Flag {
    pub open spec fn spec_name(self) -> Seq<char> {
        match self {
            Flag::IFlags => "iflags"@,
            Flag::FFlags => "fflags"@,
        }
    }

    pub open spec fn spec_number(self) -> nat {
        match self {
            Flag::IFlags => 1,
            Flag::FFlags => 2,
        }
    }

    /// Get the name of a flag variant.
    pub fn name(&self) -> (r: &'static str)
        ensures
            r@ == self.spec_name(),
    {
        match self {
            Flag::IFlags => "iflags",
            Flag::FFlags => "fflags",
        }
    }

    /// Get the number of a flag variant.
    pub fn number(&self) -> (r: u8)
        ensures
            r == self.spec_number(),
    {
        match self {
            Flag::IFlags => 1,
            Flag::FFlags => 2,
        }
    }
}

/// Iterator through the variants of the Flag enum.
pub struct FlagIterator {
    index: usize,
}

impl FlagIterator {
    /// The variants still to come.
    pub closed spec fn remaining(&self) -> Seq<Flag> {
        if self.index < 2 {
            flags().skip(self.index as int)
        } else {
            seq![]
        }
    }

    pub fn new() -> (r: Self)
        ensures
            r.remaining() == flags(),
    {
        let r = Self { index: 0 };
        assert(flags().skip(0) =~= flags());
        r
    }

    pub fn next(&mut self) -> (r: Option<Flag>)
        ensures
            yields(old(self).remaining(), final(self).remaining(), r),
    {
        let res = match self.index {
            0 => Some(Flag::IFlags),
            1 => Some(Flag::FFlags),
            _ => None,
        };
        if self.index < 2 {
            self.index = self.index + 1;
        }
        assert(old(self).index < 2 ==> self.remaining() =~= old(self).remaining().drop_first());
        res
    }
}

} // verus!
