//! Decoding wire payloads back into typed values.
//!
//! [`decode_value`] is the inverse of [`Param::settle`]: given a kind and
//! the bytes a pointer or result triple referenced, it reconstructs the
//! typed value, or reports exactly why the payload does not fit the kind.
//! [`lemma_decode_param_bytes`] is the protocol's round-trip law: every
//! value decodes back from its own encoding.

use vstd::prelude::*;
use vstd::bytes::{
    spec_u16_from_le_bytes, spec_u32_from_le_bytes, spec_u64_from_le_bytes, u16_from_le_bytes,
    u32_from_le_bytes, u64_from_le_bytes, lemma_auto_spec_u16_to_from_le_bytes,
    lemma_auto_spec_u32_to_from_le_bytes, lemma_auto_spec_u64_to_from_le_bytes,
};
use vstd::utf8::{
    valid_utf8, decode_utf8, is_scalar, char_is_scalar, char_u32_cast, encode_utf8_valid_utf8,
    encode_utf8_decode_utf8,
};
use crate::tag::{Tag, spec_tag_from_code, tag_from_code};
use crate::bits::{
    spec_i8_bits, spec_i16_bits, spec_i32_bits, spec_i64_bits, spec_i8_of_bits, spec_i16_of_bits,
    spec_i32_of_bits, spec_i64_of_bits, spec_u16s_of_bytes, spec_u32s_of_bytes,
    spec_u64s_of_bytes, i8_of_bits, i16_of_bits, i32_of_bits, i64_of_bits, u16s_from_bytes,
    u32s_from_bytes, u64s_from_bytes, lemma_u16s_bytes_len, lemma_u32s_bytes_len,
    lemma_u64s_bytes_len, lemma_u16s_roundtrip, lemma_u32s_roundtrip, lemma_u64s_roundtrip,
};
use crate::param::{Param, ParamModel, spec_param_tag, spec_param_bytes};

verus! {

/// Why a wire payload was rejected.
#[derive(Clone, Copy, Debug, PartialEq, Eq, Structural)]
pub enum DecodeError {
    /// The type tag is outside the registry.
    UnknownTag,
    /// The byte length does not fit the tag: a scalar payload of the
    /// wrong size, or an array payload that is not a whole number of
    /// elements.
    WrongLength,
    /// A string payload is not valid UTF-8.
    InvalidUtf8,
    /// A character payload is not a Unicode scalar value.
    InvalidChar,
    /// A pointer and length reach outside linear memory.
    OutOfBounds,
}

/// What a payload of kind `t` and bytes `b` decodes to.
pub open spec fn spec_decode(t: Tag, b: Seq<u8>) -> Result<ParamModel, DecodeError> {
    match t {
        Tag::U8 => if b.len() == 1 {
            Ok(ParamModel::U8(b[0]))
        } else {
            Err(DecodeError::WrongLength)
        },
        Tag::I8 => if b.len() == 1 {
            Ok(ParamModel::I8(spec_i8_of_bits(b[0])))
        } else {
            Err(DecodeError::WrongLength)
        },
        Tag::U16 => if b.len() == 2 {
            Ok(ParamModel::U16(spec_u16_from_le_bytes(b)))
        } else {
            Err(DecodeError::WrongLength)
        },
        Tag::I16 => if b.len() == 2 {
            Ok(ParamModel::I16(spec_i16_of_bits(spec_u16_from_le_bytes(b))))
        } else {
            Err(DecodeError::WrongLength)
        },
        Tag::U32 => if b.len() == 4 {
            Ok(ParamModel::U32(spec_u32_from_le_bytes(b)))
        } else {
            Err(DecodeError::WrongLength)
        },
        Tag::I32 => if b.len() == 4 {
            Ok(ParamModel::I32(spec_i32_of_bits(spec_u32_from_le_bytes(b))))
        } else {
            Err(DecodeError::WrongLength)
        },
        Tag::U64 => if b.len() == 8 {
            Ok(ParamModel::U64(spec_u64_from_le_bytes(b)))
        } else {
            Err(DecodeError::WrongLength)
        },
        Tag::I64 => if b.len() == 8 {
            Ok(ParamModel::I64(spec_i64_of_bits(spec_u64_from_le_bytes(b))))
        } else {
            Err(DecodeError::WrongLength)
        },
        Tag::F32 => if b.len() == 4 {
            Ok(ParamModel::F32(spec_u32_from_le_bytes(b)))
        } else {
            Err(DecodeError::WrongLength)
        },
        Tag::F64 => if b.len() == 8 {
            Ok(ParamModel::F64(spec_u64_from_le_bytes(b)))
        } else {
            Err(DecodeError::WrongLength)
        },
        Tag::Bool => if b.len() == 1 {
            Ok(ParamModel::Bool(b[0] == 1))
        } else {
            Err(DecodeError::WrongLength)
        },
        Tag::Char => if b.len() == 4 {
            if is_scalar(spec_u32_from_le_bytes(b)) {
                Ok(ParamModel::Char(spec_u32_from_le_bytes(b) as char))
            } else {
                Err(DecodeError::InvalidChar)
            }
        } else {
            Err(DecodeError::WrongLength)
        },
        Tag::U8Array => Ok(ParamModel::VecU8(b)),
        Tag::I8Array => Ok(ParamModel::VecI8(b.map_values(|x: u8| spec_i8_of_bits(x)))),
        Tag::U16Array => if b.len() % 2 == 0 {
            Ok(ParamModel::VecU16(spec_u16s_of_bytes(b)))
        } else {
            Err(DecodeError::WrongLength)
        },
        Tag::I16Array => if b.len() % 2 == 0 {
            Ok(
                ParamModel::VecI16(
                    spec_u16s_of_bytes(b).map_values(|x: u16| spec_i16_of_bits(x)),
                ),
            )
        } else {
            Err(DecodeError::WrongLength)
        },
        Tag::U32Array => if b.len() % 4 == 0 {
            Ok(ParamModel::VecU32(spec_u32s_of_bytes(b)))
        } else {
            Err(DecodeError::WrongLength)
        },
        Tag::I32Array => if b.len() % 4 == 0 {
            Ok(
                ParamModel::VecI32(
                    spec_u32s_of_bytes(b).map_values(|x: u32| spec_i32_of_bits(x)),
                ),
            )
        } else {
            Err(DecodeError::WrongLength)
        },
        Tag::U64Array => if b.len() % 8 == 0 {
            Ok(ParamModel::VecU64(spec_u64s_of_bytes(b)))
        } else {
            Err(DecodeError::WrongLength)
        },
        Tag::I64Array => if b.len() % 8 == 0 {
            Ok(
                ParamModel::VecI64(
                    spec_u64s_of_bytes(b).map_values(|x: u64| spec_i64_of_bits(x)),
                ),
            )
        } else {
            Err(DecodeError::WrongLength)
        },
        Tag::String => if valid_utf8(b) {
            Ok(ParamModel::String(decode_utf8(b)))
        } else {
            Err(DecodeError::InvalidUtf8)
        },
    }
}

/// What a payload carrying a raw wire code decodes to.
pub open spec fn spec_decode_by_code(code: u32, b: Seq<u8>) -> Result<ParamModel, DecodeError> {
    match spec_tag_from_code(code) {
        Some(t) => spec_decode(t, b),
        None => Err(DecodeError::UnknownTag),
    }
}

/// The executable result agrees with the specified one: same success or
/// failure, the same value up to the view, the same error.
pub open spec fn decode_matches(
    r: Result<Param, DecodeError>,
    s: Result<ParamModel, DecodeError>,
) -> bool {
    match r {
        Ok(p) => s == Ok::<ParamModel, DecodeError>(p@),
        Err(e) => s == Err::<ParamModel, DecodeError>(e),
    }
}

/// Relies on `String::from_utf8`: it succeeds exactly on valid UTF-8 and
/// returns the string those bytes encode.
#[verifier::external_body]
pub(crate) fn string_from_utf8(bytes: Vec<u8>) -> (r: Option<String>)
    ensures
        r is Some <==> valid_utf8(bytes@),
        r is Some ==> r->Some_0@ == decode_utf8(bytes@),
{
    String::from_utf8(bytes).ok()
}

/// Relies on `char::from_u32`: it succeeds exactly on Unicode scalar
/// values and returns the character with that value.
#[verifier::external_body]
fn char_from_u32(v: u32) -> (r: Option<char>)
    ensures
        r is Some <==> is_scalar(v),
        r is Some ==> r->Some_0 as u32 == v,
{
    char::from_u32(v)
}

/// The signed bytes read back from unsigned ones, bit pattern by bit
/// pattern.
fn i8s_of_bytes(v: &Vec<u8>) -> (r: Vec<i8>)
    ensures
        r@ == v@.map_values(|x: u8| spec_i8_of_bits(x)),
{
    let mut r: Vec<i8> = Vec::new();
    let mut k: usize = 0;
    proof {
        assert(r@ =~= v@.subrange(0, 0).map_values(|x: u8| spec_i8_of_bits(x)));
    }
    while k < v.len()
        invariant
            k <= v@.len(),
            r@ == v@.subrange(0, k as int).map_values(|x: u8| spec_i8_of_bits(x)),
        decreases v@.len() - k,
    {
        r.push(i8_of_bits(v[k]));
        proof {
            assert(v@.subrange(0, k + 1).map_values(|x: u8| spec_i8_of_bits(x)) =~= v@.subrange(
                0,
                k as int,
            ).map_values(|x: u8| spec_i8_of_bits(x)).push(spec_i8_of_bits(v@[k as int])));
        }
        k = k + 1;
    }
    proof {
        assert(v@.subrange(0, v@.len() as int) =~= v@);
    }
    r
}

/// The signed 16-bit values whose bit patterns are the given words.
fn i16s_of_words(v: &Vec<u16>) -> (r: Vec<i16>)
    ensures
        r@ == v@.map_values(|x: u16| spec_i16_of_bits(x)),
{
    let mut r: Vec<i16> = Vec::new();
    let mut k: usize = 0;
    proof {
        assert(r@ =~= v@.subrange(0, 0).map_values(|x: u16| spec_i16_of_bits(x)));
    }
    while k < v.len()
        invariant
            k <= v@.len(),
            r@ == v@.subrange(0, k as int).map_values(|x: u16| spec_i16_of_bits(x)),
        decreases v@.len() - k,
    {
        r.push(i16_of_bits(v[k]));
        proof {
            assert(v@.subrange(0, k + 1).map_values(|x: u16| spec_i16_of_bits(x)) =~= v@.subrange(
                0,
                k as int,
            ).map_values(|x: u16| spec_i16_of_bits(x)).push(spec_i16_of_bits(v@[k as int])));
        }
        k = k + 1;
    }
    proof {
        assert(v@.subrange(0, v@.len() as int) =~= v@);
    }
    r
}

/// The signed 32-bit values whose bit patterns are the given words.
fn i32s_of_words(v: &Vec<u32>) -> (r: Vec<i32>)
    ensures
        r@ == v@.map_values(|x: u32| spec_i32_of_bits(x)),
{
    let mut r: Vec<i32> = Vec::new();
    let mut k: usize = 0;
    proof {
        assert(r@ =~= v@.subrange(0, 0).map_values(|x: u32| spec_i32_of_bits(x)));
    }
    while k < v.len()
        invariant
            k <= v@.len(),
            r@ == v@.subrange(0, k as int).map_values(|x: u32| spec_i32_of_bits(x)),
        decreases v@.len() - k,
    {
        r.push(i32_of_bits(v[k]));
        proof {
            assert(v@.subrange(0, k + 1).map_values(|x: u32| spec_i32_of_bits(x)) =~= v@.subrange(
                0,
                k as int,
            ).map_values(|x: u32| spec_i32_of_bits(x)).push(spec_i32_of_bits(v@[k as int])));
        }
        k = k + 1;
    }
    proof {
        assert(v@.subrange(0, v@.len() as int) =~= v@);
    }
    r
}

/// The signed 64-bit values whose bit patterns are the given words.
fn i64s_of_words(v: &Vec<u64>) -> (r: Vec<i64>)
    ensures
        r@ == v@.map_values(|x: u64| spec_i64_of_bits(x)),
{
    let mut r: Vec<i64> = Vec::new();
    let mut k: usize = 0;
    proof {
        assert(r@ =~= v@.subrange(0, 0).map_values(|x: u64| spec_i64_of_bits(x)));
    }
    while k < v.len()
        invariant
            k <= v@.len(),
            r@ == v@.subrange(0, k as int).map_values(|x: u64| spec_i64_of_bits(x)),
        decreases v@.len() - k,
    {
        r.push(i64_of_bits(v[k]));
        proof {
            assert(v@.subrange(0, k + 1).map_values(|x: u64| spec_i64_of_bits(x)) =~= v@.subrange(
                0,
                k as int,
            ).map_values(|x: u64| spec_i64_of_bits(x)).push(spec_i64_of_bits(v@[k as int])));
        }
        k = k + 1;
    }
    proof {
        assert(v@.subrange(0, v@.len() as int) =~= v@);
    }
    r
}

/// Reconstructs the typed value of kind `t` from its wire bytes, or says
/// why the payload does not fit the kind.
pub fn decode_value(t: Tag, bytes: Vec<u8>) -> (r: Result<Param, DecodeError>)
    ensures
        decode_matches(r, spec_decode(t, bytes@)),
{
    match t {
        Tag::U8 => {
            if bytes.len() == 1 {
                Ok(Param::U8(bytes[0]))
            } else {
                Err(DecodeError::WrongLength)
            }
        },
        Tag::I8 => {
            if bytes.len() == 1 {
                Ok(Param::I8(i8_of_bits(bytes[0])))
            } else {
                Err(DecodeError::WrongLength)
            }
        },
        Tag::U16 => {
            if bytes.len() == 2 {
                Ok(Param::U16(u16_from_le_bytes(bytes.as_slice())))
            } else {
                Err(DecodeError::WrongLength)
            }
        },
        Tag::I16 => {
            if bytes.len() == 2 {
                Ok(Param::I16(i16_of_bits(u16_from_le_bytes(bytes.as_slice()))))
            } else {
                Err(DecodeError::WrongLength)
            }
        },
        Tag::U32 => {
            if bytes.len() == 4 {
                Ok(Param::U32(u32_from_le_bytes(bytes.as_slice())))
            } else {
                Err(DecodeError::WrongLength)
            }
        },
        Tag::I32 => {
            if bytes.len() == 4 {
                Ok(Param::I32(i32_of_bits(u32_from_le_bytes(bytes.as_slice()))))
            } else {
                Err(DecodeError::WrongLength)
            }
        },
        Tag::U64 => {
            if bytes.len() == 8 {
                Ok(Param::U64(u64_from_le_bytes(bytes.as_slice())))
            } else {
                Err(DecodeError::WrongLength)
            }
        },
        Tag::I64 => {
            if bytes.len() == 8 {
                Ok(Param::I64(i64_of_bits(u64_from_le_bytes(bytes.as_slice()))))
            } else {
                Err(DecodeError::WrongLength)
            }
        },
        Tag::F32 => {
            if bytes.len() == 4 {
                Ok(Param::F32(u32_from_le_bytes(bytes.as_slice())))
            } else {
                Err(DecodeError::WrongLength)
            }
        },
        Tag::F64 => {
            if bytes.len() == 8 {
                Ok(Param::F64(u64_from_le_bytes(bytes.as_slice())))
            } else {
                Err(DecodeError::WrongLength)
            }
        },
        Tag::Bool => {
            if bytes.len() == 1 {
                Ok(Param::Bool(bytes[0] == 1))
            } else {
                Err(DecodeError::WrongLength)
            }
        },
        Tag::Char => {
            if bytes.len() == 4 {
                let u = u32_from_le_bytes(bytes.as_slice());
                match char_from_u32(u) {
                    Some(c) => {
                        proof {
                            char_u32_cast(c, u);
                        }
                        Ok(Param::Char(c))
                    },
                    None => Err(DecodeError::InvalidChar),
                }
            } else {
                Err(DecodeError::WrongLength)
            }
        },
        Tag::U8Array => Ok(Param::VecU8(bytes)),
        Tag::I8Array => Ok(Param::VecI8(i8s_of_bytes(&bytes))),
        Tag::U16Array => {
            if bytes.len() % 2 == 0 {
                Ok(Param::VecU16(u16s_from_bytes(bytes.as_slice())))
            } else {
                Err(DecodeError::WrongLength)
            }
        },
        Tag::I16Array => {
            if bytes.len() % 2 == 0 {
                let ws = u16s_from_bytes(bytes.as_slice());
                Ok(Param::VecI16(i16s_of_words(&ws)))
            } else {
                Err(DecodeError::WrongLength)
            }
        },
        Tag::U32Array => {
            if bytes.len() % 4 == 0 {
                Ok(Param::VecU32(u32s_from_bytes(bytes.as_slice())))
            } else {
                Err(DecodeError::WrongLength)
            }
        },
        Tag::I32Array => {
            if bytes.len() % 4 == 0 {
                let ws = u32s_from_bytes(bytes.as_slice());
                Ok(Param::VecI32(i32s_of_words(&ws)))
            } else {
                Err(DecodeError::WrongLength)
            }
        },
        Tag::U64Array => {
            if bytes.len() % 8 == 0 {
                Ok(Param::VecU64(u64s_from_bytes(bytes.as_slice())))
            } else {
                Err(DecodeError::WrongLength)
            }
        },
        Tag::I64Array => {
            if bytes.len() % 8 == 0 {
                let ws = u64s_from_bytes(bytes.as_slice());
                Ok(Param::VecI64(i64s_of_words(&ws)))
            } else {
                Err(DecodeError::WrongLength)
            }
        },
        Tag::String => {
            match string_from_utf8(bytes) {
                Some(s) => Ok(Param::String(s)),
                None => Err(DecodeError::InvalidUtf8),
            }
        },
    }
}

/// Reconstructs a typed value from a raw wire code and its payload.
pub fn decode_by_code(code: u32, bytes: Vec<u8>) -> (r: Result<Param, DecodeError>)
    ensures
        decode_matches(r, spec_decode_by_code(code, bytes@)),
{
    match tag_from_code(code) {
        Some(t) => decode_value(t, bytes),
        None => Err(DecodeError::UnknownTag),
    }
}

/// The round-trip law of the wire codec: every value decodes back from
/// its own encoding under its own tag — scalars bit for bit, arrays
/// element-wise with length and order kept, strings by exact UTF-8
/// content.
pub proof fn lemma_decode_param_bytes(p: ParamModel)
    ensures
        spec_decode(spec_param_tag(p), spec_param_bytes(p)) == Ok::<ParamModel, DecodeError>(p),
{
    lemma_auto_spec_u16_to_from_le_bytes();
    lemma_auto_spec_u32_to_from_le_bytes();
    lemma_auto_spec_u64_to_from_le_bytes();
    match p {
        ParamModel::Char(c) => {
            char_is_scalar(c);
            char_u32_cast(c, c as u32);
        },
        ParamModel::VecI8(v) => {
            let m = v.map_values(|x: i8| spec_i8_bits(x));
            assert(m.map_values(|x: u8| spec_i8_of_bits(x)) =~= v);
        },
        ParamModel::VecU16(v) => {
            lemma_u16s_bytes_len(v);
            lemma_u16s_roundtrip(v);
        },
        ParamModel::VecI16(v) => {
            let m = v.map_values(|x: i16| spec_i16_bits(x));
            lemma_u16s_bytes_len(m);
            lemma_u16s_roundtrip(m);
            assert(m.map_values(|x: u16| spec_i16_of_bits(x)) =~= v);
        },
        ParamModel::VecU32(v) => {
            lemma_u32s_bytes_len(v);
            lemma_u32s_roundtrip(v);
        },
        ParamModel::VecI32(v) => {
            let m = v.map_values(|x: i32| spec_i32_bits(x));
            lemma_u32s_bytes_len(m);
            lemma_u32s_roundtrip(m);
            assert(m.map_values(|x: u32| spec_i32_of_bits(x)) =~= v);
        },
        ParamModel::VecU64(v) => {
            lemma_u64s_bytes_len(v);
            lemma_u64s_roundtrip(v);
        },
        ParamModel::VecI64(v) => {
            let m = v.map_values(|x: i64| spec_i64_bits(x));
            lemma_u64s_bytes_len(m);
            lemma_u64s_roundtrip(m);
            assert(m.map_values(|x: u64| spec_i64_of_bits(x)) =~= v);
        },
        ParamModel::String(s) => {
            encode_utf8_valid_utf8(s);
            encode_utf8_decode_utf8(s);
        },
        _ => {},
    }
}

} // verus!
