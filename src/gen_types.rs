//! Generate sources with type info.
//!
//! This generates the text of a `types.rs` file, which provides constant
//! definitions for the most commonly used types: all of the scalar types, and
//! vectors of the common SIMD sizes.
use vstd::prelude::*;
use crate::cdsl_types::{
    LaneType,
    ValueType,
    lane_types,
    special_types,
    vector_doc,
    vector_name,
    vector_of,
    vector_shape,
    vector_type_number,
};
use crate::error::Error;
use crate::srcgen::{Formatter, doc_comment_lines, line_text};
use crate::text::{ascii_upper, hex_literal, push_hex_literal, push_upper};

verus! {

/// All of `ss`, one after the other.
pub open spec fn flatten(ss: Seq<Seq<Seq<char>>>) -> Seq<Seq<char>>
    decreases ss.len(),
{
    if ss.len() == 0 {
        seq![]
    } else {
        flatten(ss.drop_last()) + ss.last()
    }
}

/// The declaration of the constant for a type.
pub open spec fn decl_text(name: Seq<char>, number: int) -> Seq<char> {
    "pub const "@ + ascii_upper(name) + ": Type = Type("@ + hex_literal(number as nat) + ");\n"@
}

/// The lines that a type with this name, documentation and number takes: its
/// documentation comment, then its declaration followed by a blank line.
pub open spec fn block(level: nat, name: Seq<char>, doc: Seq<char>, number: int) -> Seq<
    Seq<char>,
> {
    doc_comment_lines(level, doc) + seq![line_text(level, decl_text(name, number))]
}

/// The lines of a scalar type.
pub open spec fn type_block(level: nat, ty: ValueType) -> Seq<Seq<char>> {
    block(level, ty.spec_name(), ty.spec_doc(), ty.spec_number())
}

/// The lines of the vector of lanes of `ty` that fills `bits` bits, or none.
pub open spec fn vector_block(level: nat, ty: ValueType, bits: nat) -> Seq<Seq<char>> {
    match vector_shape(ty, bits) {
        Some((base, k)) => block(
            level,
            vector_name(base, k),
            vector_doc(base, k),
            vector_type_number(base, k),
        ),
        None => seq![],
    }
}

/// The lines of the vectors that fill `bits` bits, in lane type order.
pub open spec fn vectors_text(level: nat, bits: nat) -> Seq<Seq<char>> {
    flatten(lane_types().map_values(|ty: ValueType| vector_block(level, ty, bits)))
}

/// The lines of the scalar types `tys`, in order.
pub open spec fn types_text(level: nat, tys: Seq<ValueType>) -> Seq<Seq<char>> {
    flatten(tys.map_values(|ty: ValueType| type_block(level, ty)))
}

/// The lines of the generated file: the special types, the lane types, and
/// the vectors of 64, 128, 256 and 512 bits.
pub open spec fn types_file() -> Seq<Seq<char>> {
    types_text(0, special_types()) + types_text(0, lane_types()) + vectors_text(0, 64)
        + vectors_text(0, 128) + vectors_text(0, 256) + vectors_text(0, 512)
}

/// Emit a constant definition of a single value type.
fn emit_type(ty: &ValueType, fmt: &mut Formatter) -> (r: Result<(), Error>)
    requires
        ty.is_numbered(),
    ensures
        r is Ok,
        final(fmt).level() == old(fmt).level(),
        final(fmt).text_lines() == old(fmt).text_lines() + block(
            old(fmt).level(),
            ty.spec_name(),
            ty.spec_doc(),
            ty.spec_number(),
        ),
{
    let mut name = String::new();
    let ty_name = ty.name();
    push_upper(&mut name, ty_name.as_str());
    let doc = ty.doc();
    fmt.doc_comment(doc.as_str());
    let mut decl = String::from_str("pub const ");
    decl.append(name.as_str());
    decl.append(": Type = Type(");
    push_hex_literal(&mut decl, ty.number() as u64);
    decl.append(");\n");
    fmt.line(decl.as_str());
    assert(fmt.text_lines() =~= old(fmt).text_lines() + block(
        old(fmt).level(),
        ty.spec_name(),
        ty.spec_doc(),
        ty.spec_number(),
    ));
    Ok(())
}

/// Emit definition for all vector types with `bits` total size.
fn emit_vectors(bits: u64, fmt: &mut Formatter) -> (r: Result<(), Error>)
    ensures
        r is Ok,
        final(fmt).level() == old(fmt).level(),
        final(fmt).text_lines() == old(fmt).text_lines() + vectors_text(
            old(fmt).level(),
            bits as nat,
        ),
{
    let ghost level = fmt.level();
    let ghost all = lane_types().map_values(|ty: ValueType| vector_block(level, ty, bits as nat));
    let mut it = ValueType::all_lane_types();
    let ghost mut done: int = 0;
    loop
        invariant
            0 <= done <= lane_types().len(),
            it.remaining() == lane_types().skip(done),
            fmt.level() == level,
            all == lane_types().map_values(|ty: ValueType| vector_block(level, ty, bits as nat)),
            fmt.text_lines() == old(fmt).text_lines() + flatten(all.subrange(0, done)),
        ensures
            fmt.level() == level,
            fmt.text_lines() == old(fmt).text_lines() + flatten(all),
        decreases lane_types().len() - done,
    {
        let ghost before = it.remaining();
        match it.next() {
            Some(ty) => {
                assert(ty == lane_types()[done]);
                assert(all.subrange(0, done + 1).drop_last() =~= all.subrange(0, done));
                let ghost prev = fmt.text_lines();
                match vector_of(&ty, bits) {
                    Some(v) => {
                        let vt = ValueType::_Vector(v);
                        emit_type(&vt, fmt)?;
                    },
                    None => {},
                }
                assert(fmt.text_lines() =~= prev + vector_block(level, ty, bits as nat));
                proof {
                    done = done + 1;
                }
                assert(it.remaining() =~= lane_types().skip(done));
                assert(fmt.text_lines() =~= old(fmt).text_lines() + flatten(all.subrange(0, done)));
            },
            None => {
                assert(all.subrange(0, done) =~= all);
                break;
            },
        }
    }
    Ok(())
}

/// Emit types using the given formatter object.
fn emit_types(fmt: &mut Formatter) -> (r: Result<(), Error>)
    ensures
        r is Ok,
        final(fmt).level() == old(fmt).level(),
        final(fmt).text_lines() == old(fmt).text_lines() + types_text(
            old(fmt).level(),
            special_types(),
        ) + types_text(old(fmt).level(), lane_types()) + vectors_text(old(fmt).level(), 64)
            + vectors_text(old(fmt).level(), 128) + vectors_text(old(fmt).level(), 256)
            + vectors_text(old(fmt).level(), 512),
{
    let ghost level = fmt.level();
    // Emit all of the special types, such as types for CPU flags.
    let ghost specials = special_types().map_values(|ty: ValueType| type_block(level, ty));
    let mut it = ValueType::all_special_types();
    let ghost mut done: int = 0;
    loop
        invariant
            0 <= done <= special_types().len(),
            it.remaining() == special_types().skip(done),
            fmt.level() == level,
            specials == special_types().map_values(|ty: ValueType| type_block(level, ty)),
            fmt.text_lines() == old(fmt).text_lines() + flatten(specials.subrange(0, done)),
        ensures
            fmt.level() == level,
            fmt.text_lines() == old(fmt).text_lines() + flatten(specials),
        decreases special_types().len() - done,
    {
        match it.next() {
            Some(ty) => {
                assert(ty == special_types()[done]);
                assert(specials.subrange(0, done + 1).drop_last() =~= specials.subrange(0, done));
                let ghost prev = fmt.text_lines();
                emit_type(&ty, fmt)?;
                proof {
                    done = done + 1;
                }
                assert(it.remaining() =~= special_types().skip(done));
                assert(fmt.text_lines() =~= old(fmt).text_lines() + flatten(
                    specials.subrange(0, done),
                ));
            },
            None => {
                assert(specials.subrange(0, done) =~= specials);
                break;
            },
        }
    }
    let ghost after_specials = fmt.text_lines();

    // Emit all of the lane types, such integers, floats, and booleans.
    let ghost lanes = lane_types().map_values(|ty: ValueType| type_block(level, ty));
    let mut it = ValueType::all_lane_types();
    let ghost mut done: int = 0;
    loop
        invariant
            0 <= done <= lane_types().len(),
            it.remaining() == lane_types().skip(done),
            fmt.level() == level,
            lanes == lane_types().map_values(|ty: ValueType| type_block(level, ty)),
            fmt.text_lines() == after_specials + flatten(lanes.subrange(0, done)),
        ensures
            fmt.level() == level,
            fmt.text_lines() == after_specials + flatten(lanes),
        decreases lane_types().len() - done,
    {
        match it.next() {
            Some(ty) => {
                assert(ty == lane_types()[done]);
                assert(lanes.subrange(0, done + 1).drop_last() =~= lanes.subrange(0, done));
                emit_type(&ty, fmt)?;
                proof {
                    done = done + 1;
                }
                assert(it.remaining() =~= lane_types().skip(done));
                assert(fmt.text_lines() =~= after_specials + flatten(lanes.subrange(0, done)));
            },
            None => {
                assert(lanes.subrange(0, done) =~= lanes);
                break;
            },
        }
    }

    // Emit vector definitions for common SIMD sizes.
    emit_vectors(64, fmt)?;
    emit_vectors(128, fmt)?;
    emit_vectors(256, fmt)?;
    emit_vectors(512, fmt)?;
    assert(fmt.text_lines() =~= old(fmt).text_lines() + types_text(level, special_types())
        + types_text(level, lane_types()) + vectors_text(level, 64) + vectors_text(level, 128)
        + vectors_text(level, 256) + vectors_text(level, 512));
    Ok(())
}

/// Generate the types file: a formatter holding its lines, which the caller
/// writes out.
pub fn generate() -> (r: Formatter)
    ensures
        r.level() == 0,
        r.text_lines() == types_file(),
{
    let mut fmt = Formatter::new();
    let _ = emit_types(&mut fmt);
    assert(fmt.text_lines() =~= types_file());
    fmt
}

/// Determinism: two generation runs produce the same file, byte for byte.
pub proof fn lemma_generation_deterministic(a: Formatter, b: Formatter)
    requires
        a.text_lines() == types_file(),
        b.text_lines() == types_file(),
    ensures
        a.text() == b.text(),
{
}

} // verus!
