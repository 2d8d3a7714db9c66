//! Typed values crossing the host–guest boundary, and their wire
//! encodings.
//!
//! A [`Param`] is one argument of a call or one decoded return value: a
//! scalar, a vector of one primitive integer width, or a string. Floats
//! are carried as their IEEE 754 bit patterns (`F32` holds the `u32`
//! bits, `F64` the `u64` bits), which the wire format transports verbatim.
//!
//! Every value encodes to little-endian bytes ([`spec_param_bytes`]) and
//! an element count ([`spec_param_count`]): the pair a pointer table
//! entry advertises to the guest.

use vstd::prelude::*;
use vstd::bytes::*;
use vstd::utf8::*;
use crate::tag::{Tag, spec_elem_width};
use crate::bits::{
    spec_i8_bits, spec_i16_bits, spec_i32_bits, spec_i64_bits, spec_u16s_bytes, spec_u32s_bytes,
    spec_u64s_bytes, lemma_u16s_bytes_len, lemma_u32s_bytes_len, lemma_u64s_bytes_len, i8_bits,
    i16_bits, i32_bits, i64_bits, push_u16s_bytes, push_u32s_bytes, push_u64s_bytes,
};

verus! {

/// One typed value passed to or received from a guest function.
#[derive(Debug, PartialEq)]
pub enum Param {
    I8(i8),
    U8(u8),
    I16(i16),
    U16(u16),
    I32(i32),
    U32(u32),
    I64(i64),
    U64(u64),
    /// A 32-bit float, as its IEEE 754 bit pattern.
    F32(u32),
    /// A 64-bit float, as its IEEE 754 bit pattern.
    F64(u64),
    Bool(bool),
    Char(char),
    VecI8(Vec<i8>),
    VecU8(Vec<u8>),
    VecI16(Vec<i16>),
    VecU16(Vec<u16>),
    VecI32(Vec<i32>),
    VecU32(Vec<u32>),
    VecI64(Vec<i64>),
    VecU64(Vec<u64>),
    String(String),
}

/// The mathematical model of a [`Param`]: vectors as sequences and
/// strings as character sequences.
pub enum ParamModel {
    I8(i8),
    U8(u8),
    I16(i16),
    U16(u16),
    I32(i32),
    U32(u32),
    I64(i64),
    U64(u64),
    F32(u32),
    F64(u64),
    Bool(bool),
    Char(char),
    VecI8(Seq<i8>),
    VecU8(Seq<u8>),
    VecI16(Seq<i16>),
    VecU16(Seq<u16>),
    VecI32(Seq<i32>),
    VecU32(Seq<u32>),
    VecI64(Seq<i64>),
    VecU64(Seq<u64>),
    String(Seq<char>),
}

impl View for Param {
    type V = ParamModel;

    open spec fn view(&self) -> ParamModel {
        match self {
            Param::I8(v) => ParamModel::I8(*v),
            Param::U8(v) => ParamModel::U8(*v),
            Param::I16(v) => ParamModel::I16(*v),
            Param::U16(v) => ParamModel::U16(*v),
            Param::I32(v) => ParamModel::I32(*v),
            Param::U32(v) => ParamModel::U32(*v),
            Param::I64(v) => ParamModel::I64(*v),
            Param::U64(v) => ParamModel::U64(*v),
            Param::F32(v) => ParamModel::F32(*v),
            Param::F64(v) => ParamModel::F64(*v),
            Param::Bool(v) => ParamModel::Bool(*v),
            Param::Char(v) => ParamModel::Char(*v),
            Param::VecI8(v) => ParamModel::VecI8(v@),
            Param::VecU8(v) => ParamModel::VecU8(v@),
            Param::VecI16(v) => ParamModel::VecI16(v@),
            Param::VecU16(v) => ParamModel::VecU16(v@),
            Param::VecI32(v) => ParamModel::VecI32(v@),
            Param::VecU32(v) => ParamModel::VecU32(v@),
            Param::VecI64(v) => ParamModel::VecI64(v@),
            Param::VecU64(v) => ParamModel::VecU64(v@),
            Param::String(v) => ParamModel::String(v@),
        }
    }
}

/// The kind of a value.
pub open spec fn spec_param_tag(p: ParamModel) -> Tag {
    match p {
        ParamModel::I8(_) => Tag::I8,
        ParamModel::U8(_) => Tag::U8,
        ParamModel::I16(_) => Tag::I16,
        ParamModel::U16(_) => Tag::U16,
        ParamModel::I32(_) => Tag::I32,
        ParamModel::U32(_) => Tag::U32,
        ParamModel::I64(_) => Tag::I64,
        ParamModel::U64(_) => Tag::U64,
        ParamModel::F32(_) => Tag::F32,
        ParamModel::F64(_) => Tag::F64,
        ParamModel::Bool(_) => Tag::Bool,
        ParamModel::Char(_) => Tag::Char,
        ParamModel::VecI8(_) => Tag::I8Array,
        ParamModel::VecU8(_) => Tag::U8Array,
        ParamModel::VecI16(_) => Tag::I16Array,
        ParamModel::VecU16(_) => Tag::U16Array,
        ParamModel::VecI32(_) => Tag::I32Array,
        ParamModel::VecU32(_) => Tag::U32Array,
        ParamModel::VecI64(_) => Tag::I64Array,
        ParamModel::VecU64(_) => Tag::U64Array,
        ParamModel::String(_) => Tag::String,
    }
}

/// The little-endian wire bytes of a value: scalars as their fixed-width
/// encoding, vectors as their elements' encodings laid end to end,
/// booleans as one byte (1 for true, 0 for false), characters as the
/// 32-bit scalar value, strings as UTF-8.
pub open spec fn spec_param_bytes(p: ParamModel) -> Seq<u8> {
    match p {
        ParamModel::I8(v) => seq![spec_i8_bits(v)],
        ParamModel::U8(v) => seq![v],
        ParamModel::I16(v) => spec_u16_to_le_bytes(spec_i16_bits(v)),
        ParamModel::U16(v) => spec_u16_to_le_bytes(v),
        ParamModel::I32(v) => spec_u32_to_le_bytes(spec_i32_bits(v)),
        ParamModel::U32(v) => spec_u32_to_le_bytes(v),
        ParamModel::I64(v) => spec_u64_to_le_bytes(spec_i64_bits(v)),
        ParamModel::U64(v) => spec_u64_to_le_bytes(v),
        ParamModel::F32(v) => spec_u32_to_le_bytes(v),
        ParamModel::F64(v) => spec_u64_to_le_bytes(v),
        ParamModel::Bool(v) => seq![if v { 1u8 } else { 0u8 }],
        ParamModel::Char(v) => spec_u32_to_le_bytes(v as u32),
        ParamModel::VecI8(v) => v.map_values(|x: i8| spec_i8_bits(x)),
        ParamModel::VecU8(v) => v,
        ParamModel::VecI16(v) => spec_u16s_bytes(v.map_values(|x: i16| spec_i16_bits(x))),
        ParamModel::VecU16(v) => spec_u16s_bytes(v),
        ParamModel::VecI32(v) => spec_u32s_bytes(v.map_values(|x: i32| spec_i32_bits(x))),
        ParamModel::VecU32(v) => spec_u32s_bytes(v),
        ParamModel::VecI64(v) => spec_u64s_bytes(v.map_values(|x: i64| spec_i64_bits(x))),
        ParamModel::VecU64(v) => spec_u64s_bytes(v),
        ParamModel::String(v) => encode_utf8(v),
    }
}

/// The element count a pointer table entry advertises: 1 for a scalar,
/// the vector's length for an array, the byte length for a string.
pub open spec fn spec_param_count(p: ParamModel) -> nat {
    match p {
        ParamModel::VecI8(v) => v.len(),
        ParamModel::VecU8(v) => v.len(),
        ParamModel::VecI16(v) => v.len(),
        ParamModel::VecU16(v) => v.len(),
        ParamModel::VecI32(v) => v.len(),
        ParamModel::VecU32(v) => v.len(),
        ParamModel::VecI64(v) => v.len(),
        ParamModel::VecU64(v) => v.len(),
        ParamModel::String(v) => encode_utf8(v).len(),
        _ => 1,
    }
}

/// The wire bytes of a value are exactly element count times element
/// width of its kind.
pub proof fn lemma_param_bytes_len(p: ParamModel)
    ensures
        spec_param_bytes(p).len() == spec_param_count(p) * spec_elem_width(spec_param_tag(p)),
{
    lemma_auto_spec_u16_to_from_le_bytes();
    lemma_auto_spec_u32_to_from_le_bytes();
    lemma_auto_spec_u64_to_from_le_bytes();
    match p {
        ParamModel::VecI16(v) => lemma_u16s_bytes_len(v.map_values(|x: i16| spec_i16_bits(x))),
        ParamModel::VecU16(v) => lemma_u16s_bytes_len(v),
        ParamModel::VecI32(v) => lemma_u32s_bytes_len(v.map_values(|x: i32| spec_i32_bits(x))),
        ParamModel::VecU32(v) => lemma_u32s_bytes_len(v),
        ParamModel::VecI64(v) => lemma_u64s_bytes_len(v.map_values(|x: i64| spec_i64_bits(x))),
        ParamModel::VecU64(v) => lemma_u64s_bytes_len(v),
        _ => {},
    }
}

impl Param {
    /// The kind of this value.
    pub fn tag(&self) -> (t: Tag)
        ensures
            t == spec_param_tag(self@),
    {
        match self {
            Param::I8(_) => Tag::I8,
            Param::U8(_) => Tag::U8,
            Param::I16(_) => Tag::I16,
            Param::U16(_) => Tag::U16,
            Param::I32(_) => Tag::I32,
            Param::U32(_) => Tag::U32,
            Param::I64(_) => Tag::I64,
            Param::U64(_) => Tag::U64,
            Param::F32(_) => Tag::F32,
            Param::F64(_) => Tag::F64,
            Param::Bool(_) => Tag::Bool,
            Param::Char(_) => Tag::Char,
            Param::VecI8(_) => Tag::I8Array,
            Param::VecU8(_) => Tag::U8Array,
            Param::VecI16(_) => Tag::I16Array,
            Param::VecU16(_) => Tag::U16Array,
            Param::VecI32(_) => Tag::I32Array,
            Param::VecU32(_) => Tag::U32Array,
            Param::VecI64(_) => Tag::I64Array,
            Param::VecU64(_) => Tag::U64Array,
            Param::String(_) => Tag::String,
        }
    }

    /// Settles this value for the wire: its little-endian byte encoding
    /// together with the element count that the pointer table entry will
    /// advertise.
    pub fn settle(&self) -> (r: (Vec<u8>, u32))
        requires
            spec_param_count(self@) <= u32::MAX,
        ensures
            r.0@ == spec_param_bytes(self@),
            r.1 == spec_param_count(self@),
    {
        match self {
            Param::I8(v) => {
                let mut out: Vec<u8> = Vec::new();
                out.push(i8_bits(*v));
                proof {
                    assert(out@ =~= spec_param_bytes(self@));
                }
                (out, 1)
            },
            Param::U8(v) => {
                let mut out: Vec<u8> = Vec::new();
                out.push(*v);
                proof {
                    assert(out@ =~= spec_param_bytes(self@));
                }
                (out, 1)
            },
            Param::I16(v) => (u16_to_le_bytes(i16_bits(*v)), 1),
            Param::U16(v) => (u16_to_le_bytes(*v), 1),
            Param::I32(v) => (u32_to_le_bytes(i32_bits(*v)), 1),
            Param::U32(v) => (u32_to_le_bytes(*v), 1),
            Param::I64(v) => (u64_to_le_bytes(i64_bits(*v)), 1),
            Param::U64(v) => (u64_to_le_bytes(*v), 1),
            Param::F32(v) => (u32_to_le_bytes(*v), 1),
            Param::F64(v) => (u64_to_le_bytes(*v), 1),
            Param::Bool(v) => {
                let mut out: Vec<u8> = Vec::new();
                out.push(if *v { 1 } else { 0 });
                proof {
                    assert(out@ =~= spec_param_bytes(self@));
                }
                (out, 1)
            },
            Param::Char(v) => (u32_to_le_bytes(*v as u32), 1),
            Param::VecI8(v) => {
                let mut out: Vec<u8> = Vec::new();
                let mut k: usize = 0;
                proof {
                    assert(out@ =~= v@.subrange(0, 0).map_values(|x: i8| spec_i8_bits(x)));
                }
                while k < v.len()
                    invariant
                        k <= v@.len(),
                        out@ == v@.subrange(0, k as int).map_values(|x: i8| spec_i8_bits(x)),
                    decreases v@.len() - k,
                {
                    out.push(i8_bits(v[k]));
                    proof {
                        assert(v@.subrange(0, k + 1).map_values(|x: i8| spec_i8_bits(x)) =~= v@
                            .subrange(0, k as int)
                            .map_values(|x: i8| spec_i8_bits(x))
                            .push(spec_i8_bits(v@[k as int])));
                    }
                    k = k + 1;
                }
                let n = v.len() as u32;
                proof {
                    assert(v@.subrange(0, v@.len() as int) =~= v@);
                }
                (out, n)
            },
            Param::VecU8(v) => {
                let out = vstd::slice::slice_to_vec(v.as_slice());
                let n = v.len() as u32;
                (out, n)
            },
            Param::VecI16(v) => {
                let mut ws: Vec<u16> = Vec::new();
                let mut k: usize = 0;
                proof {
                    assert(ws@ =~= v@.subrange(0, 0).map_values(|x: i16| spec_i16_bits(x)));
                }
                while k < v.len()
                    invariant
                        k <= v@.len(),
                        ws@ == v@.subrange(0, k as int).map_values(|x: i16| spec_i16_bits(x)),
                    decreases v@.len() - k,
                {
                    ws.push(i16_bits(v[k]));
                    proof {
                        assert(v@.subrange(0, k + 1).map_values(|x: i16| spec_i16_bits(x)) =~= v@
                            .subrange(0, k as int)
                            .map_values(|x: i16| spec_i16_bits(x))
                            .push(spec_i16_bits(v@[k as int])));
                    }
                    k = k + 1;
                }
                proof {
                    assert(v@.subrange(0, v@.len() as int) =~= v@);
                }
                let mut out: Vec<u8> = Vec::new();
                push_u16s_bytes(&mut out, &ws);
                let n = v.len() as u32;
                (out, n)
            },
            Param::VecU16(v) => {
                let mut out: Vec<u8> = Vec::new();
                push_u16s_bytes(&mut out, v);
                let n = v.len() as u32;
                (out, n)
            },
            Param::VecI32(v) => {
                let mut ws: Vec<u32> = Vec::new();
                let mut k: usize = 0;
                proof {
                    assert(ws@ =~= v@.subrange(0, 0).map_values(|x: i32| spec_i32_bits(x)));
                }
                while k < v.len()
                    invariant
                        k <= v@.len(),
                        ws@ == v@.subrange(0, k as int).map_values(|x: i32| spec_i32_bits(x)),
                    decreases v@.len() - k,
                {
                    ws.push(i32_bits(v[k]));
                    proof {
                        assert(v@.subrange(0, k + 1).map_values(|x: i32| spec_i32_bits(x)) =~= v@
                            .subrange(0, k as int)
                            .map_values(|x: i32| spec_i32_bits(x))
                            .push(spec_i32_bits(v@[k as int])));
                    }
                    k = k + 1;
                }
                proof {
                    assert(v@.subrange(0, v@.len() as int) =~= v@);
                }
                let mut out: Vec<u8> = Vec::new();
                push_u32s_bytes(&mut out, &ws);
                let n = v.len() as u32;
                (out, n)
            },
            Param::VecU32(v) => {
                let mut out: Vec<u8> = Vec::new();
                push_u32s_bytes(&mut out, v);
                let n = v.len() as u32;
                (out, n)
            },
            Param::VecI64(v) => {
                let mut ws: Vec<u64> = Vec::new();
                let mut k: usize = 0;
                proof {
                    assert(ws@ =~= v@.subrange(0, 0).map_values(|x: i64| spec_i64_bits(x)));
                }
                while k < v.len()
                    invariant
                        k <= v@.len(),
                        ws@ == v@.subrange(0, k as int).map_values(|x: i64| spec_i64_bits(x)),
                    decreases v@.len() - k,
                {
                    ws.push(i64_bits(v[k]));
                    proof {
                        assert(v@.subrange(0, k + 1).map_values(|x: i64| spec_i64_bits(x)) =~= v@
                            .subrange(0, k as int)
                            .map_values(|x: i64| spec_i64_bits(x))
                            .push(spec_i64_bits(v@[k as int])));
                    }
                    k = k + 1;
                }
                proof {
                    assert(v@.subrange(0, v@.len() as int) =~= v@);
                }
                let mut out: Vec<u8> = Vec::new();
                push_u64s_bytes(&mut out, &ws);
                let n = v.len() as u32;
                (out, n)
            },
            Param::VecU64(v) => {
                let mut out: Vec<u8> = Vec::new();
                push_u64s_bytes(&mut out, v);
                let n = v.len() as u32;
                (out, n)
            },
            Param::String(v) => {
                let out = v.as_str().as_bytes_vec();
                let n = out.len() as u32;
                (out, n)
            },
        }
    }
}

} // verus!
