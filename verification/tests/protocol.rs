use wasmedge_bindgen::tag::{Tag, tag_code, tag_from_code};
use wasmedge_bindgen::param::Param;
use wasmedge_bindgen::decode::DecodeError;
use wasmedge_bindgen::layout::{Header, PtrEntry, Triple, header_bytes, parse_header, pointer_table_bytes, triples_bytes};
use wasmedge_bindgen::memory::GuestMemory;
use wasmedge_bindgen::runtime::{stage_call, return_result, return_error, DeliverySlot};
use wasmedge_bindgen::shim::{
    check_params_count, shim_read_args, shim_reject_arity, shim_write_success, shim_write_error,
    decode_foreign_result,
};

/// Drives one complete call against an in-memory guest: stages the
/// arguments, runs the guest-side prologue, applies `f` to the decoded
/// arguments, encodes the result, and decodes it back on the host side
/// through the delivery slot.
fn run_call(
    params: Vec<Param>,
    decls: Vec<Tag>,
    f: impl Fn(Vec<Param>) -> Result<Vec<Param>, String>,
) -> Result<Vec<Param>, String> {
    let mut mem = GuestMemory::new();
    let (entries, table) = stage_call(&mut mem, &params);
    assert_eq!(entries.len(), params.len());

    // The generated export runs: validate, decode, invoke, encode.
    let args = shim_read_args(&mem, &decls, table).expect("staged arguments must decode");
    let header_addr = match f(args) {
        Ok(values) => shim_write_success(&mut mem, &values),
        Err(msg) => shim_write_error(&mut mem, msg.as_str()),
    };

    // The host side: read the header, fire the matching import, and
    // hand the outcome to the waiting caller through the slot.
    let hb = mem.read_bytes(header_addr, 9).expect("the header must be in memory");
    let hdr = parse_header(hb.as_slice()).expect("nine bytes parse as a header");
    let mut slot = DeliverySlot::new();
    if hdr.flag == 0 {
        let values = return_result(&mem, hdr.addr, hdr.count).expect("triples must decode");
        slot.send(Ok(values));
    } else {
        let msg = return_error(&mem, hdr.addr, hdr.count).expect("the message must be in memory");
        slot.send(Err(msg));
    }
    slot.take()
}

#[test]
fn say_string_end_to_end() {
    let got = run_call(
        vec![Param::String("world".to_string())],
        vec![Tag::String],
        |args| {
            assert_eq!(args.len(), 1);
            match &args[0] {
                Param::String(s) => Ok(vec![Param::String(format!("Rust:Hello--> {}", s))]),
                other => panic!("say_string got the wrong kind: {:?}", other),
            }
        },
    );
    assert_eq!(got, Ok(vec![Param::String("Rust:Hello--> world".to_string())]));
}

#[test]
fn say_number_end_to_end() {
    let got = run_call(vec![Param::I32(123)], vec![Tag::I32], |args| {
        assert_eq!(args.len(), 1);
        Ok(args)
    });
    assert_eq!(got, Ok(vec![Param::I32(123)]));
}

#[test]
fn every_kind_survives_a_full_call() {
    let params = vec![
        Param::U8(7),
        Param::I8(-7),
        Param::U16(513),
        Param::I16(-513),
        Param::U32(70000),
        Param::I32(-70000),
        Param::U64(1 << 40),
        Param::I64(-(1 << 40)),
        Param::F32(3.5f32.to_bits()),
        Param::F64((-1.0e10f64).to_bits()),
        Param::Bool(true),
        Param::Char('Ω'),
        Param::VecU8(vec![1, 2, 3]),
        Param::VecI8(vec![-1, 2, -3]),
        Param::VecU16(vec![10, 20]),
        Param::VecI16(vec![-10, 20]),
        Param::VecU32(vec![100, 200]),
        Param::VecI32(vec![-100, 200]),
        Param::VecU64(vec![1000]),
        Param::VecI64(vec![-1000]),
        Param::String("echo".to_string()),
    ];
    let decls: Vec<Tag> = params.iter().map(|p| p.tag()).collect();
    let expected: Vec<Param> = params.iter().map(clone_param).collect();
    let got = run_call(params, decls, Ok).expect("the echo call succeeds");
    assert_eq!(got, expected);
}

fn clone_param(p: &Param) -> Param {
    match p {
        Param::U8(v) => Param::U8(*v),
        Param::I8(v) => Param::I8(*v),
        Param::U16(v) => Param::U16(*v),
        Param::I16(v) => Param::I16(*v),
        Param::U32(v) => Param::U32(*v),
        Param::I32(v) => Param::I32(*v),
        Param::U64(v) => Param::U64(*v),
        Param::I64(v) => Param::I64(*v),
        Param::F32(v) => Param::F32(*v),
        Param::F64(v) => Param::F64(*v),
        Param::Bool(v) => Param::Bool(*v),
        Param::Char(v) => Param::Char(*v),
        Param::VecU8(v) => Param::VecU8(v.clone()),
        Param::VecI8(v) => Param::VecI8(v.clone()),
        Param::VecU16(v) => Param::VecU16(v.clone()),
        Param::VecI16(v) => Param::VecI16(v.clone()),
        Param::VecU32(v) => Param::VecU32(v.clone()),
        Param::VecI32(v) => Param::VecI32(v.clone()),
        Param::VecU64(v) => Param::VecU64(v.clone()),
        Param::VecI64(v) => Param::VecI64(v.clone()),
        Param::String(v) => Param::String(v.clone()),
    }
}

#[test]
fn params_count_mismatch_message() {
    let msg = check_params_count(2, 3).expect("a mismatch must be rejected");
    assert_eq!(msg, "Invalid params count, expect 2, got 3");
    let msg = check_params_count(0, 17).expect("a mismatch must be rejected");
    assert_eq!(msg, "Invalid params count, expect 0, got 17");
    let msg = check_params_count(12, -4).expect("a negative count never matches");
    assert_eq!(msg, "Invalid params count, expect 12, got -4");
    let msg = check_params_count(1000, 999).expect("a mismatch must be rejected");
    assert_eq!(msg, "Invalid params count, expect 1000, got 999");
    assert!(check_params_count(3, 3).is_none());
    assert!(check_params_count(0, 0).is_none());
}

#[test]
fn reject_arity_writes_error_header() {
    let mut mem = GuestMemory::new();
    let h = shim_reject_arity(&mut mem, 1, 2).expect("a mismatched count is rejected");
    let hb = mem.read_bytes(h, 9).unwrap();
    let hdr = parse_header(hb.as_slice()).unwrap();
    assert_eq!(hdr.flag, 1);
    let decoded = return_error(&mem, hdr.addr, hdr.count).unwrap();
    assert_eq!(decoded, "Invalid params count, expect 1, got 2");
    assert!(shim_reject_arity(&mut mem, 3, 3).is_none());
}

#[test]
fn mismatch_yields_error_header() {
    // A generated export whose declared arity is 1, invoked with 2.
    let mut mem = GuestMemory::new();
    let msg = check_params_count(1, 2).expect("the count is wrong");
    let h = shim_write_error(&mut mem, msg.as_str());
    let hb = mem.read_bytes(h, 9).unwrap();
    let hdr = parse_header(hb.as_slice()).unwrap();
    assert_eq!(hdr.flag, 1);
    let decoded = return_error(&mem, hdr.addr, hdr.count).unwrap();
    assert_eq!(decoded, "Invalid params count, expect 1, got 2");
}

#[test]
fn fallible_success_pair_yields_two_triples() {
    // A fallible guest function returning Ok((u16, String)).
    let mut mem = GuestMemory::new();
    let values = vec![Param::U16(7), Param::String("ok".to_string())];
    let h = shim_write_success(&mut mem, &values);
    let hb = mem.read_bytes(h, 9).unwrap();
    let hdr = parse_header(hb.as_slice()).unwrap();
    assert_eq!(hdr.flag, 0);
    assert_eq!(hdr.count, 2);
    let decoded = return_result(&mem, hdr.addr, hdr.count).unwrap();
    assert_eq!(decoded, vec![Param::U16(7), Param::String("ok".to_string())]);
}

#[test]
fn fallible_failure_yields_exact_message() {
    // A fallible guest function returning Err(message).
    let mut mem = GuestMemory::new();
    let h = shim_write_error(&mut mem, "division by zero");
    let hb = mem.read_bytes(h, 9).unwrap();
    let hdr = parse_header(hb.as_slice()).unwrap();
    assert_eq!(hdr.flag, 1);
    let decoded = return_error(&mem, hdr.addr, hdr.count).unwrap();
    assert_eq!(decoded, "division by zero");
}

#[test]
fn invalid_utf8_error_uses_replacement_characters() {
    let mut mem = GuestMemory::new();
    let raw = vec![0xFFu8, 0xFE, b'a'];
    let addr = {
        // Stage the raw bytes as a u8 array to get them into memory.
        let (entries, _t) = stage_call(&mut mem, &vec![Param::VecU8(raw)]);
        entries[0].addr
    };
    let decoded = return_error(&mem, addr, 3).unwrap();
    assert_eq!(decoded, "\u{FFFD}\u{FFFD}a");
}

#[test]
fn two_sequential_calls_each_get_their_own_result() {
    let first = run_call(vec![Param::I32(1)], vec![Tag::I32], Ok);
    let second = run_call(vec![Param::I32(2)], vec![Tag::I32], Ok);
    assert_eq!(first, Ok(vec![Param::I32(1)]));
    assert_eq!(second, Ok(vec![Param::I32(2)]));

    // The same slot serves both calls; each take empties it.
    let mut slot = DeliverySlot::new();
    slot.send(Ok(vec![Param::U8(1)]));
    assert_eq!(slot.take(), Ok(vec![Param::U8(1)]));
    assert!(!slot.is_full());
    slot.send(Err("second".to_string()));
    assert_eq!(slot.take(), Err("second".to_string()));
    assert!(!slot.is_full());
}

#[test]
fn foreign_shim_decodes_success_header() {
    // The host's answer to a foreign call: a header referencing raw
    // UTF-8 bytes.
    let mut mem = GuestMemory::new();
    let (entries, _t) = stage_call(&mut mem, &vec![Param::String("A book".to_string())]);
    let hdr = Header { flag: 0, addr: entries[0].addr, count: 6 };
    let hb = header_bytes(hdr);
    let h = {
        let (e2, _t2) = stage_call(&mut mem, &vec![Param::VecU8(hb)]);
        e2[0].addr
    };
    assert_eq!(decode_foreign_result(&mem, h), Ok("A book".to_string()));
}

#[test]
fn foreign_shim_answers_empty_string_on_error_flag() {
    let mut mem = GuestMemory::new();
    let hdr = Header { flag: 1, addr: 0, count: 0 };
    let hb = header_bytes(hdr);
    let h = {
        let (e, _t) = stage_call(&mut mem, &vec![Param::VecU8(hb)]);
        e[0].addr
    };
    assert_eq!(decode_foreign_result(&mem, h), Ok(String::new()));
}

#[test]
fn out_of_bounds_result_table_is_rejected() {
    let mem = GuestMemory::new();
    assert_eq!(return_result(&mem, 100, 1), Err(DecodeError::OutOfBounds));
    assert_eq!(return_error(&mem, 100, 1), None);
}

#[test]
fn header_wire_format_is_byte_exact() {
    let hdr = Header { flag: 1, addr: 0x0403_0201, count: 0x0807_0605 };
    let hb = header_bytes(hdr);
    assert_eq!(hb, vec![1, 0x01, 0x02, 0x03, 0x04, 0x05, 0x06, 0x07, 0x08]);
    assert_eq!(parse_header(hb.as_slice()), Some(hdr));
    assert_eq!(parse_header(&hb[0..8]), None);
}

#[test]
fn pointer_table_wire_format_is_byte_exact() {
    let es = vec![
        PtrEntry { addr: 0x0403_0201, count: 2 },
        PtrEntry { addr: 5, count: 0x0807_0605 },
    ];
    let tb = pointer_table_bytes(&es);
    assert_eq!(
        tb,
        vec![
            0x01, 0x02, 0x03, 0x04, 2, 0, 0, 0, //
            5, 0, 0, 0, 0x05, 0x06, 0x07, 0x08,
        ]
    );
}

#[test]
fn triple_table_wire_format_is_byte_exact() {
    let ts = vec![Triple { addr: 9, tag: 31, len: 2 }];
    let tb = triples_bytes(&ts);
    assert_eq!(tb, vec![9, 0, 0, 0, 31, 0, 0, 0, 2, 0, 0, 0]);
}

#[test]
fn tag_codes_are_stable() {
    assert_eq!(tag_code(Tag::U8), 1);
    assert_eq!(tag_code(Tag::I8), 2);
    assert_eq!(tag_code(Tag::U16), 3);
    assert_eq!(tag_code(Tag::I16), 4);
    assert_eq!(tag_code(Tag::U32), 5);
    assert_eq!(tag_code(Tag::I32), 6);
    assert_eq!(tag_code(Tag::U64), 7);
    assert_eq!(tag_code(Tag::I64), 8);
    assert_eq!(tag_code(Tag::F32), 9);
    assert_eq!(tag_code(Tag::F64), 10);
    assert_eq!(tag_code(Tag::Bool), 11);
    assert_eq!(tag_code(Tag::Char), 12);
    assert_eq!(tag_code(Tag::U8Array), 21);
    assert_eq!(tag_code(Tag::I8Array), 22);
    assert_eq!(tag_code(Tag::U16Array), 23);
    assert_eq!(tag_code(Tag::I16Array), 24);
    assert_eq!(tag_code(Tag::U32Array), 25);
    assert_eq!(tag_code(Tag::I32Array), 26);
    assert_eq!(tag_code(Tag::U64Array), 27);
    assert_eq!(tag_code(Tag::I64Array), 28);
    assert_eq!(tag_code(Tag::String), 31);
    for code in 0..64u32 {
        match tag_from_code(code) {
            Some(t) => assert_eq!(tag_code(t), code),
            None => assert!(!(1..=12).contains(&code) && !(21..=28).contains(&code) && code != 31),
        }
    }
}
