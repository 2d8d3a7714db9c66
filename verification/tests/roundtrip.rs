use wasmedge_bindgen::tag::Tag;
use wasmedge_bindgen::param::Param;
use wasmedge_bindgen::decode::{decode_value, decode_by_code, DecodeError};

fn settle_and_decode(p: Param) -> Param {
    let t = p.tag();
    let (bytes, _count) = p.settle();
    decode_value(t, bytes).expect("a settled value must decode back")
}

#[test]
fn scalar_u8_round_trip() {
    assert_eq!(settle_and_decode(Param::U8(0)), Param::U8(0));
    assert_eq!(settle_and_decode(Param::U8(255)), Param::U8(255));
}

#[test]
fn scalar_i8_round_trip() {
    assert_eq!(settle_and_decode(Param::I8(-128)), Param::I8(-128));
    assert_eq!(settle_and_decode(Param::I8(127)), Param::I8(127));
    assert_eq!(settle_and_decode(Param::I8(-1)), Param::I8(-1));
}

#[test]
fn scalar_u16_round_trip() {
    assert_eq!(settle_and_decode(Param::U16(0xBEEF)), Param::U16(0xBEEF));
}

#[test]
fn scalar_i16_round_trip() {
    assert_eq!(settle_and_decode(Param::I16(-32768)), Param::I16(-32768));
    assert_eq!(settle_and_decode(Param::I16(1234)), Param::I16(1234));
}

#[test]
fn scalar_u32_round_trip() {
    assert_eq!(settle_and_decode(Param::U32(0xDEAD_BEEF)), Param::U32(0xDEAD_BEEF));
}

#[test]
fn scalar_i32_round_trip() {
    assert_eq!(settle_and_decode(Param::I32(i32::MIN)), Param::I32(i32::MIN));
    assert_eq!(settle_and_decode(Param::I32(123)), Param::I32(123));
}

#[test]
fn scalar_u64_round_trip() {
    assert_eq!(
        settle_and_decode(Param::U64(0x0123_4567_89AB_CDEF)),
        Param::U64(0x0123_4567_89AB_CDEF)
    );
}

#[test]
fn scalar_i64_round_trip() {
    assert_eq!(settle_and_decode(Param::I64(i64::MIN)), Param::I64(i64::MIN));
    assert_eq!(settle_and_decode(Param::I64(-42)), Param::I64(-42));
}

#[test]
fn scalar_f32_round_trip_bit_for_bit() {
    let x = 1.25f32;
    let decoded = settle_and_decode(Param::F32(x.to_bits()));
    match decoded {
        Param::F32(bits) => {
            assert_eq!(bits, x.to_bits());
            assert_eq!(f32::from_bits(bits), x);
        }
        other => panic!("decoded to the wrong kind: {:?}", other),
    }
    let neg = (-0.0f32).to_bits();
    assert_eq!(settle_and_decode(Param::F32(neg)), Param::F32(neg));
}

#[test]
fn scalar_f64_round_trip_bit_for_bit() {
    let x = -2.5e300f64;
    let decoded = settle_and_decode(Param::F64(x.to_bits()));
    match decoded {
        Param::F64(bits) => {
            assert_eq!(bits, x.to_bits());
            assert_eq!(f64::from_bits(bits), x);
        }
        other => panic!("decoded to the wrong kind: {:?}", other),
    }
}

#[test]
fn scalar_bool_round_trip() {
    assert_eq!(settle_and_decode(Param::Bool(true)), Param::Bool(true));
    assert_eq!(settle_and_decode(Param::Bool(false)), Param::Bool(false));
}

#[test]
fn scalar_char_round_trip() {
    assert_eq!(settle_and_decode(Param::Char('A')), Param::Char('A'));
    assert_eq!(settle_and_decode(Param::Char('✓')), Param::Char('✓'));
    assert_eq!(settle_and_decode(Param::Char('\u{10FFFF}')), Param::Char('\u{10FFFF}'));
}

#[test]
fn array_u8_round_trip() {
    let v = vec![0u8, 1, 127, 255];
    assert_eq!(settle_and_decode(Param::VecU8(v.clone())), Param::VecU8(v));
}

#[test]
fn array_i8_round_trip() {
    let v = vec![-128i8, -1, 0, 1, 127];
    assert_eq!(settle_and_decode(Param::VecI8(v.clone())), Param::VecI8(v));
}

#[test]
fn array_u16_round_trip() {
    let v = vec![0u16, 513, 0xFFFF];
    assert_eq!(settle_and_decode(Param::VecU16(v.clone())), Param::VecU16(v));
}

#[test]
fn array_i16_round_trip() {
    let v = vec![-32768i16, -2, 0, 7, 32767];
    assert_eq!(settle_and_decode(Param::VecI16(v.clone())), Param::VecI16(v));
}

#[test]
fn array_u32_round_trip() {
    let v = vec![0u32, 1, 0xDEAD_BEEF, u32::MAX];
    assert_eq!(settle_and_decode(Param::VecU32(v.clone())), Param::VecU32(v));
}

#[test]
fn array_i32_round_trip() {
    let v = vec![i32::MIN, -1, 0, 1, i32::MAX];
    assert_eq!(settle_and_decode(Param::VecI32(v.clone())), Param::VecI32(v));
}

#[test]
fn array_u64_round_trip() {
    let v = vec![0u64, u64::MAX, 0x0123_4567_89AB_CDEF];
    assert_eq!(settle_and_decode(Param::VecU64(v.clone())), Param::VecU64(v));
}

#[test]
fn array_i64_round_trip() {
    let v = vec![i64::MIN, -1, 0, i64::MAX];
    assert_eq!(settle_and_decode(Param::VecI64(v.clone())), Param::VecI64(v));
}

#[test]
fn empty_array_round_trip() {
    let v: Vec<u32> = Vec::new();
    assert_eq!(settle_and_decode(Param::VecU32(v.clone())), Param::VecU32(v));
}

#[test]
fn array_order_is_kept() {
    let v = vec![3u16, 1, 2];
    match settle_and_decode(Param::VecU16(v)) {
        Param::VecU16(w) => assert_eq!(w, vec![3u16, 1, 2]),
        other => panic!("decoded to the wrong kind: {:?}", other),
    }
}

#[test]
fn string_round_trip() {
    let s = "Rust:Hello--> wörld ✓".to_string();
    assert_eq!(settle_and_decode(Param::String(s.clone())), Param::String(s));
}

#[test]
fn empty_string_round_trip() {
    assert_eq!(settle_and_decode(Param::String(String::new())), Param::String(String::new()));
}

#[test]
fn settle_element_counts() {
    assert_eq!(Param::U16(9).settle().1, 1);
    assert_eq!(Param::F64(0).settle().1, 1);
    assert_eq!(Param::VecU16(vec![1, 2, 3]).settle().1, 3);
    assert_eq!(Param::VecU64(vec![1, 2]).settle().1, 2);
    // A string's count is its byte length, not its character count.
    assert_eq!(Param::String("é".to_string()).settle().1, 2);
}

#[test]
fn settle_byte_encodings_are_little_endian() {
    assert_eq!(Param::U16(0x0201).settle().0, vec![0x01, 0x02]);
    assert_eq!(Param::U32(0x0403_0201).settle().0, vec![0x01, 0x02, 0x03, 0x04]);
    assert_eq!(Param::I16(-2).settle().0, vec![0xFE, 0xFF]);
    assert_eq!(Param::Bool(true).settle().0, vec![1]);
    assert_eq!(Param::Char('A').settle().0, vec![0x41, 0, 0, 0]);
    assert_eq!(Param::VecU16(vec![0x0201, 0x0403]).settle().0, vec![0x01, 0x02, 0x03, 0x04]);
    assert_eq!(Param::String("ab".to_string()).settle().0, vec![b'a', b'b']);
}

#[test]
fn scalar_wrong_length_is_rejected() {
    assert_eq!(decode_value(Tag::U32, vec![1, 2, 3]), Err(DecodeError::WrongLength));
    assert_eq!(decode_value(Tag::U16, vec![]), Err(DecodeError::WrongLength));
    assert_eq!(decode_value(Tag::Bool, vec![1, 0]), Err(DecodeError::WrongLength));
}

#[test]
fn array_partial_element_is_rejected() {
    assert_eq!(decode_value(Tag::U16Array, vec![1, 2, 3]), Err(DecodeError::WrongLength));
    assert_eq!(decode_value(Tag::U64Array, vec![0; 9]), Err(DecodeError::WrongLength));
}

#[test]
fn invalid_utf8_string_is_rejected() {
    assert_eq!(decode_value(Tag::String, vec![0xFF, 0xFE]), Err(DecodeError::InvalidUtf8));
}

#[test]
fn surrogate_char_is_rejected() {
    let bytes = 0xD800u32.to_le_bytes().to_vec();
    assert_eq!(decode_value(Tag::Char, bytes), Err(DecodeError::InvalidChar));
    let too_big = 0x110000u32.to_le_bytes().to_vec();
    assert_eq!(decode_value(Tag::Char, too_big), Err(DecodeError::InvalidChar));
}

#[test]
fn unknown_tag_is_rejected() {
    assert_eq!(decode_by_code(0, vec![1]), Err(DecodeError::UnknownTag));
    assert_eq!(decode_by_code(13, vec![1]), Err(DecodeError::UnknownTag));
    assert_eq!(decode_by_code(29, vec![1]), Err(DecodeError::UnknownTag));
    assert_eq!(decode_by_code(32, vec![1]), Err(DecodeError::UnknownTag));
}

#[test]
fn decode_by_code_uses_the_registry() {
    assert_eq!(decode_by_code(1, vec![7]), Ok(Param::U8(7)));
    assert_eq!(decode_by_code(31, vec![b'h', b'i']), Ok(Param::String("hi".to_string())));
}
