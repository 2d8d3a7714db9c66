//! The type tag registry: the closed set of marshalable kinds and their
//! stable wire codes.
//!
//! Codes are partitioned by numeric range — scalars occupy 1 through 12,
//! arrays 21 through 28 and the string kind 31 — so a decoder can classify
//! a tag without a lookup table.

use vstd::prelude::*;

verus! {

/// One marshalable kind: a scalar, a vector of one primitive integer
/// width, or a string.
///
/// The two float kinds travel as their IEEE 754 little-endian bit
/// patterns; everywhere in this library a 32-bit float is carried as the
/// `u32` holding its bits and a 64-bit float as the corresponding `u64`.
#[derive(Clone, Copy, PartialEq, Eq, Structural, Debug)]
pub enum Tag {
    U8,
    I8,
    U16,
    I16,
    U32,
    I32,
    U64,
    I64,
    F32,
    F64,
    Bool,
    Char,
    U8Array,
    I8Array,
    U16Array,
    I16Array,
    U32Array,
    I32Array,
    U64Array,
    I64Array,
    String,
}

/// The stable wire code of a kind. Codes are never reused.
pub open spec fn spec_tag_code(t: Tag) -> u32 {
    match t {
        Tag::U8 => 1,
        Tag::I8 => 2,
        Tag::U16 => 3,
        Tag::I16 => 4,
        Tag::U32 => 5,
        Tag::I32 => 6,
        Tag::U64 => 7,
        Tag::I64 => 8,
        Tag::F32 => 9,
        Tag::F64 => 10,
        Tag::Bool => 11,
        Tag::Char => 12,
        Tag::U8Array => 21,
        Tag::I8Array => 22,
        Tag::U16Array => 23,
        Tag::I16Array => 24,
        Tag::U32Array => 25,
        Tag::I32Array => 26,
        Tag::U64Array => 27,
        Tag::I64Array => 28,
        Tag::String => 31,
    }
}

/// The kind a wire code stands for, or `None` for a code outside the
/// registry.
pub open spec fn spec_tag_from_code(c: u32) -> Option<Tag> {
    match c {
        1u32 => Some(Tag::U8),
        2u32 => Some(Tag::I8),
        3u32 => Some(Tag::U16),
        4u32 => Some(Tag::I16),
        5u32 => Some(Tag::U32),
        6u32 => Some(Tag::I32),
        7u32 => Some(Tag::U64),
        8u32 => Some(Tag::I64),
        9u32 => Some(Tag::F32),
        10u32 => Some(Tag::F64),
        11u32 => Some(Tag::Bool),
        12u32 => Some(Tag::Char),
        21u32 => Some(Tag::U8Array),
        22u32 => Some(Tag::I8Array),
        23u32 => Some(Tag::U16Array),
        24u32 => Some(Tag::I16Array),
        25u32 => Some(Tag::U32Array),
        26u32 => Some(Tag::I32Array),
        27u32 => Some(Tag::U64Array),
        28u32 => Some(Tag::I64Array),
        31u32 => Some(Tag::String),
        _ => None,
    }
}

/// True of the twelve scalar kinds.
pub open spec fn spec_is_scalar(t: Tag) -> bool {
    match t {
        Tag::U8 | Tag::I8 | Tag::U16 | Tag::I16 | Tag::U32 | Tag::I32 | Tag::U64 | Tag::I64
            | Tag::F32 | Tag::F64 | Tag::Bool | Tag::Char => true,
        _ => false,
    }
}

/// True of the eight array kinds.
pub open spec fn spec_is_array(t: Tag) -> bool {
    match t {
        Tag::U8Array | Tag::I8Array | Tag::U16Array | Tag::I16Array | Tag::U32Array
            | Tag::I32Array | Tag::U64Array | Tag::I64Array => true,
        _ => false,
    }
}

/// Byte width of one element of the kind: the scalar's own width, an
/// array's element width, and one byte for a string's UTF-8 units.
pub open spec fn spec_elem_width(t: Tag) -> nat {
    match t {
        Tag::U8 | Tag::I8 | Tag::Bool => 1,
        Tag::U16 | Tag::I16 => 2,
        Tag::U32 | Tag::I32 | Tag::F32 | Tag::Char => 4,
        Tag::U64 | Tag::I64 | Tag::F64 => 8,
        Tag::U8Array | Tag::I8Array => 1,
        Tag::U16Array | Tag::I16Array => 2,
        Tag::U32Array | Tag::I32Array => 4,
        Tag::U64Array | Tag::I64Array => 8,
        Tag::String => 1,
    }
}

/// The wire code of a kind.
pub fn tag_code(t: Tag) -> (c: u32)
    ensures
        c == spec_tag_code(t),
{
    match t {
        Tag::U8 => 1,
        Tag::I8 => 2,
        Tag::U16 => 3,
        Tag::I16 => 4,
        Tag::U32 => 5,
        Tag::I32 => 6,
        Tag::U64 => 7,
        Tag::I64 => 8,
        Tag::F32 => 9,
        Tag::F64 => 10,
        Tag::Bool => 11,
        Tag::Char => 12,
        Tag::U8Array => 21,
        Tag::I8Array => 22,
        Tag::U16Array => 23,
        Tag::I16Array => 24,
        Tag::U32Array => 25,
        Tag::I32Array => 26,
        Tag::U64Array => 27,
        Tag::I64Array => 28,
        Tag::String => 31,
    }
}

/// Recovers the kind a wire code stands for.
pub fn tag_from_code(c: u32) -> (t: Option<Tag>)
    ensures
        t == spec_tag_from_code(c),
{
    match c {
        1u32 => Some(Tag::U8),
        2u32 => Some(Tag::I8),
        3u32 => Some(Tag::U16),
        4u32 => Some(Tag::I16),
        5u32 => Some(Tag::U32),
        6u32 => Some(Tag::I32),
        7u32 => Some(Tag::U64),
        8u32 => Some(Tag::I64),
        9u32 => Some(Tag::F32),
        10u32 => Some(Tag::F64),
        11u32 => Some(Tag::Bool),
        12u32 => Some(Tag::Char),
        21u32 => Some(Tag::U8Array),
        22u32 => Some(Tag::I8Array),
        23u32 => Some(Tag::U16Array),
        24u32 => Some(Tag::I16Array),
        25u32 => Some(Tag::U32Array),
        26u32 => Some(Tag::I32Array),
        27u32 => Some(Tag::U64Array),
        28u32 => Some(Tag::I64Array),
        31u32 => Some(Tag::String),
        _ => None,
    }
}

/// Byte width of one element of the kind.
pub fn elem_width(t: Tag) -> (w: usize)
    ensures
        w == spec_elem_width(t),
        1 <= w <= 8,
{
    match t {
        Tag::U8 | Tag::I8 | Tag::Bool => 1,
        Tag::U16 | Tag::I16 => 2,
        Tag::U32 | Tag::I32 | Tag::F32 | Tag::Char => 4,
        Tag::U64 | Tag::I64 | Tag::F64 => 8,
        Tag::U8Array | Tag::I8Array => 1,
        Tag::U16Array | Tag::I16Array => 2,
        Tag::U32Array | Tag::I32Array => 4,
        Tag::U64Array | Tag::I64Array => 8,
        Tag::String => 1,
    }
}

/// Whether the kind is one of the twelve scalars.
pub fn is_scalar_tag(t: Tag) -> (b: bool)
    ensures
        b == spec_is_scalar(t),
{
    match t {
        Tag::U8 | Tag::I8 | Tag::U16 | Tag::I16 | Tag::U32 | Tag::I32 | Tag::U64 | Tag::I64
            | Tag::F32 | Tag::F64 | Tag::Bool | Tag::Char => true,
        _ => false,
    }
}

/// The registry is a bijection between kinds and their codes: every kind's
/// code maps back to that kind, and every recognised code maps to a kind
/// carrying exactly that code.
pub proof fn lemma_tag_code_bijective()
    ensures
        forall|t: Tag| spec_tag_from_code(#[trigger] spec_tag_code(t)) == Some(t),
        forall|c: u32|
            (#[trigger] spec_tag_from_code(c)) is Some ==> spec_tag_code(
                spec_tag_from_code(c)->Some_0,
            ) == c,
{
}

/// Codes partition the registry by range: scalars are exactly the codes 1
/// through 12, arrays exactly 21 through 28, and the string kind is 31, so
/// a decoder can classify a tag by range alone.
pub proof fn lemma_tag_code_ranges()
    ensures
        forall|t: Tag| spec_is_scalar(t) <==> 1 <= #[trigger] spec_tag_code(t) <= 12,
        forall|t: Tag| spec_is_array(t) <==> 21 <= #[trigger] spec_tag_code(t) <= 28,
        forall|t: Tag| t == Tag::String <==> #[trigger] spec_tag_code(t) == 31,
{
}

} // verus!
