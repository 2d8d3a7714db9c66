use wasmedge_bindgen::tag::Tag;
use wasmedge_bindgen::signature::{FnSig, RetDecl, RetSlot, SizeRule, parse_params, parse_returns};
use wasmedge_bindgen::memory::GuestMemory;

#[test]
fn parse_params_keeps_order() {
    // say(s: String), lowest_common_multiple(a: i32, b: i32)
    let sig = FnSig {
        params: vec![Tag::I32, Tag::String, Tag::U8Array],
        ret: RetDecl { is_fallible: false, types: vec![] },
    };
    assert_eq!(parse_params(&sig), vec![Tag::I32, Tag::String, Tag::U8Array]);
}

#[test]
fn parse_returns_unit_emits_no_slots() {
    let sig = FnSig { params: vec![], ret: RetDecl { is_fallible: false, types: vec![] } };
    let (slots, fallible) = parse_returns(&sig);
    assert!(slots.is_empty());
    assert!(!fallible);
}

#[test]
fn parse_returns_single_scalar() {
    let sig = FnSig { params: vec![Tag::I32], ret: RetDecl { is_fallible: false, types: vec![Tag::I32] } };
    let (slots, fallible) = parse_returns(&sig);
    assert_eq!(slots, vec![RetSlot { tag: 6, size: SizeRule::Fixed(4) }]);
    assert!(!fallible);
}

#[test]
fn parse_returns_fallible_pair() {
    // Result<(u16, String), String>
    let sig = FnSig {
        params: vec![Tag::String],
        ret: RetDecl { is_fallible: true, types: vec![Tag::U16, Tag::String] },
    };
    let (slots, fallible) = parse_returns(&sig);
    assert!(fallible);
    assert_eq!(
        slots,
        vec![
            RetSlot { tag: 3, size: SizeRule::Fixed(2) },
            RetSlot { tag: 31, size: SizeRule::PerElement(1) },
        ]
    );
}

#[test]
fn parse_returns_triple_is_arity_agnostic() {
    let sig = FnSig {
        params: vec![],
        ret: RetDecl { is_fallible: false, types: vec![Tag::U8, Tag::U32Array, Tag::F64] },
    };
    let (slots, _) = parse_returns(&sig);
    assert_eq!(
        slots,
        vec![
            RetSlot { tag: 1, size: SizeRule::Fixed(1) },
            RetSlot { tag: 25, size: SizeRule::PerElement(4) },
            RetSlot { tag: 10, size: SizeRule::Fixed(8) },
        ]
    );
}

#[test]
fn allocator_hands_out_disjoint_blocks() {
    let mut mem = GuestMemory::new();
    let a = mem.allocate(16);
    let b = mem.allocate(8);
    assert_eq!(a, 0);
    assert_eq!(b, 16);
    assert_eq!(mem.size(), 24);
    mem.deallocate(a, 16);
    assert_eq!(mem.size(), 24);
    let c = mem.allocate(4);
    assert_eq!(c, 24);
}

#[test]
fn memory_reads_back_what_was_written() {
    let mut mem = GuestMemory::new();
    let addr = mem.allocate(4);
    mem.write_bytes(addr, &vec![9, 8, 7, 6]);
    assert_eq!(mem.read_bytes(addr, 4), Some(vec![9, 8, 7, 6]));
    assert_eq!(mem.read_bytes(addr, 5), None);
    assert_eq!(mem.read_bytes(2, 2), Some(vec![7, 6]));
}
