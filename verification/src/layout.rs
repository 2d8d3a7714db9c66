//! The three fixed wire layouts, all little-endian.
//!
//! A pointer table entry is 8 bytes: the guest address of one staged
//! argument and its element count. A result triple is 12 bytes: the
//! address, type tag and byte length of one return value. A result
//! header is 9 bytes: a status flag (0 success, 1 error), then an
//! address and a count — of the triple table on success, of the raw
//! error-message bytes on error.

use vstd::prelude::*;
use vstd::bytes::{
    spec_u32_to_le_bytes, spec_u32_from_le_bytes, u32_to_le_bytes, u32_from_le_bytes,
    lemma_auto_spec_u32_to_from_le_bytes,
};

verus! {

/// One pointer table entry: where one staged argument lies and how many
/// elements it holds.
#[derive(Clone, Copy, Debug, PartialEq, Eq, Structural)]
pub struct PtrEntry {
    pub addr: u32,
    pub count: u32,
}

/// One result triple: where one return value's payload lies, its type
/// tag, and its byte length.
#[derive(Clone, Copy, Debug, PartialEq, Eq, Structural)]
pub struct Triple {
    pub addr: u32,
    pub tag: u32,
    pub len: u32,
}

/// The nine-byte result header: status flag, then the address and count
/// of the triple table (success) or of the error-message bytes (error).
#[derive(Clone, Copy, Debug, PartialEq, Eq, Structural)]
pub struct Header {
    pub flag: u8,
    pub addr: u32,
    pub count: u32,
}

/// Status flag of a success header.
pub const FLAG_SUCCESS: u8 = 0;

/// Status flag of an error header.
pub const FLAG_ERROR: u8 = 1;

/// The eight wire bytes of one pointer table entry.
pub open spec fn spec_entry_bytes(e: PtrEntry) -> Seq<u8> {
    spec_u32_to_le_bytes(e.addr) + spec_u32_to_le_bytes(e.count)
}

/// The wire bytes of a pointer table: entries laid end to end in
/// argument order.
pub open spec fn spec_table_bytes(es: Seq<PtrEntry>) -> Seq<u8>
    decreases es.len(),
{
    if es.len() == 0 {
        Seq::<u8>::empty()
    } else {
        spec_table_bytes(es.drop_last()) + spec_entry_bytes(es.last())
    }
}

/// The entry encoded by eight bytes.
pub open spec fn spec_parse_entry(b: Seq<u8>) -> PtrEntry {
    PtrEntry {
        addr: spec_u32_from_le_bytes(b.subrange(0, 4)),
        count: spec_u32_from_le_bytes(b.subrange(4, 8)),
    }
}

pub proof fn lemma_entry_bytes_len(e: PtrEntry)
    ensures
        spec_entry_bytes(e).len() == 8,
{
    lemma_auto_spec_u32_to_from_le_bytes();
}

pub proof fn lemma_table_bytes_len(es: Seq<PtrEntry>)
    ensures
        spec_table_bytes(es).len() == 8 * es.len(),
    decreases es.len(),
{
    if es.len() > 0 {
        lemma_entry_bytes_len(es.last());
        lemma_table_bytes_len(es.drop_last());
    }
}

/// An entry parses back from its own bytes.
pub proof fn lemma_entry_roundtrip(e: PtrEntry)
    ensures
        spec_parse_entry(spec_entry_bytes(e)) == e,
{
    lemma_auto_spec_u32_to_from_le_bytes();
    assert(spec_entry_bytes(e).subrange(0, 4) =~= spec_u32_to_le_bytes(e.addr));
    assert(spec_entry_bytes(e).subrange(4, 8) =~= spec_u32_to_le_bytes(e.count));
}

/// The entries read back from a byte sequence, eight bytes each.
pub open spec fn spec_entries_of_bytes(b: Seq<u8>) -> Seq<PtrEntry>
    decreases b.len(),
{
    if b.len() < 8 {
        Seq::<PtrEntry>::empty()
    } else {
        spec_entries_of_bytes(b.subrange(0, b.len() - 8)).push(
            spec_parse_entry(b.subrange(b.len() - 8, b.len() as int)),
        )
    }
}

/// A pointer table parses back from its own bytes.
pub proof fn lemma_entries_roundtrip(es: Seq<PtrEntry>)
    ensures
        spec_entries_of_bytes(spec_table_bytes(es)) == es,
    decreases es.len(),
{
    lemma_table_bytes_len(es);
    if es.len() == 0 {
        assert(spec_entries_of_bytes(spec_table_bytes(es)) =~= es);
    } else {
        let pre = spec_table_bytes(es.drop_last());
        let b = spec_table_bytes(es);
        lemma_table_bytes_len(es.drop_last());
        lemma_entry_bytes_len(es.last());
        assert(b.subrange(0, b.len() - 8) =~= pre);
        assert(b.subrange(b.len() - 8, b.len() as int) =~= spec_entry_bytes(es.last()));
        lemma_entries_roundtrip(es.drop_last());
        lemma_entry_roundtrip(es.last());
        assert(spec_entries_of_bytes(b) =~= es);
    }
}

/// Reads pointer table entries back from a byte slice whose length is a
/// multiple of eight.
pub fn entries_from_bytes(b: &[u8]) -> (r: Vec<PtrEntry>)
    requires
        b@.len() % 8 == 0,
    ensures
        r@ == spec_entries_of_bytes(b@),
        8 * r@.len() == b@.len(),
{
    let mut r: Vec<PtrEntry> = Vec::new();
    let mut k: usize = 0;
    proof {
        assert(b@.subrange(0, 0) =~= Seq::<u8>::empty());
    }
    while k < b.len()
        invariant
            k <= b@.len(),
            k % 8 == 0,
            b@.len() % 8 == 0,
            r@ == spec_entries_of_bytes(b@.subrange(0, k as int)),
            8 * r@.len() == k,
        decreases b@.len() - k,
    {
        let chunk = vstd::slice::slice_subrange(b, k, k + 8);
        let addr = u32_from_le_bytes(vstd::slice::slice_subrange(chunk, 0, 4));
        let count = u32_from_le_bytes(vstd::slice::slice_subrange(chunk, 4, 8));
        r.push(PtrEntry { addr, count });
        proof {
            let cur = b@.subrange(0, k + 8);
            assert(cur.subrange(0, k as int) =~= b@.subrange(0, k as int));
            assert(cur.subrange(k as int, k + 8) =~= b@.subrange(k as int, k + 8));
            assert(chunk@.subrange(0, 4) =~= cur.subrange(k as int, k + 8).subrange(0, 4));
            assert(chunk@.subrange(4, 8) =~= cur.subrange(k as int, k + 8).subrange(4, 8));
        }
        k = k + 8;
    }
    proof {
        assert(b@.subrange(0, b@.len() as int) =~= b@);
    }
    r
}

/// The twelve wire bytes of one result triple.
pub open spec fn spec_triple_bytes(t: Triple) -> Seq<u8> {
    spec_u32_to_le_bytes(t.addr) + spec_u32_to_le_bytes(t.tag) + spec_u32_to_le_bytes(t.len)
}

/// The wire bytes of a triple table: triples laid end to end in
/// declaration order.
pub open spec fn spec_triples_bytes(ts: Seq<Triple>) -> Seq<u8>
    decreases ts.len(),
{
    if ts.len() == 0 {
        Seq::<u8>::empty()
    } else {
        spec_triples_bytes(ts.drop_last()) + spec_triple_bytes(ts.last())
    }
}

/// The triple encoded by twelve bytes.
pub open spec fn spec_parse_triple(b: Seq<u8>) -> Triple {
    Triple {
        addr: spec_u32_from_le_bytes(b.subrange(0, 4)),
        tag: spec_u32_from_le_bytes(b.subrange(4, 8)),
        len: spec_u32_from_le_bytes(b.subrange(8, 12)),
    }
}

/// The triples read back from a byte sequence, twelve bytes each.
pub open spec fn spec_triples_of_bytes(b: Seq<u8>) -> Seq<Triple>
    decreases b.len(),
{
    if b.len() < 12 {
        Seq::<Triple>::empty()
    } else {
        spec_triples_of_bytes(b.subrange(0, b.len() - 12)).push(
            spec_parse_triple(b.subrange(b.len() - 12, b.len() as int)),
        )
    }
}

pub proof fn lemma_triple_bytes_len(t: Triple)
    ensures
        spec_triple_bytes(t).len() == 12,
{
    lemma_auto_spec_u32_to_from_le_bytes();
}

pub proof fn lemma_triples_bytes_len(ts: Seq<Triple>)
    ensures
        spec_triples_bytes(ts).len() == 12 * ts.len(),
    decreases ts.len(),
{
    if ts.len() > 0 {
        lemma_triple_bytes_len(ts.last());
        lemma_triples_bytes_len(ts.drop_last());
    }
}

/// A triple parses back from its own bytes.
pub proof fn lemma_triple_roundtrip(t: Triple)
    ensures
        spec_parse_triple(spec_triple_bytes(t)) == t,
{
    lemma_auto_spec_u32_to_from_le_bytes();
    assert(spec_triple_bytes(t).subrange(0, 4) =~= spec_u32_to_le_bytes(t.addr));
    assert(spec_triple_bytes(t).subrange(4, 8) =~= spec_u32_to_le_bytes(t.tag));
    assert(spec_triple_bytes(t).subrange(8, 12) =~= spec_u32_to_le_bytes(t.len));
}

/// A triple table parses back from its own bytes.
pub proof fn lemma_triples_roundtrip(ts: Seq<Triple>)
    ensures
        spec_triples_of_bytes(spec_triples_bytes(ts)) == ts,
    decreases ts.len(),
{
    lemma_triples_bytes_len(ts);
    if ts.len() == 0 {
        assert(spec_triples_of_bytes(spec_triples_bytes(ts)) =~= ts);
    } else {
        let pre = spec_triples_bytes(ts.drop_last());
        let b = spec_triples_bytes(ts);
        lemma_triples_bytes_len(ts.drop_last());
        lemma_triple_bytes_len(ts.last());
        assert(b.subrange(0, b.len() - 12) =~= pre);
        assert(b.subrange(b.len() - 12, b.len() as int) =~= spec_triple_bytes(ts.last()));
        lemma_triples_roundtrip(ts.drop_last());
        lemma_triple_roundtrip(ts.last());
        assert(spec_triples_of_bytes(b) =~= ts);
    }
}

/// The nine wire bytes of a result header.
pub open spec fn spec_header_bytes(h: Header) -> Seq<u8> {
    seq![h.flag] + spec_u32_to_le_bytes(h.addr) + spec_u32_to_le_bytes(h.count)
}

/// The header encoded by nine bytes.
pub open spec fn spec_parse_header(b: Seq<u8>) -> Header {
    Header {
        flag: b[0],
        addr: spec_u32_from_le_bytes(b.subrange(1, 5)),
        count: spec_u32_from_le_bytes(b.subrange(5, 9)),
    }
}

pub proof fn lemma_header_bytes_len(h: Header)
    ensures
        spec_header_bytes(h).len() == 9,
{
    lemma_auto_spec_u32_to_from_le_bytes();
}

/// A header parses back from its own bytes.
pub proof fn lemma_header_roundtrip(h: Header)
    ensures
        spec_parse_header(spec_header_bytes(h)) == h,
{
    lemma_auto_spec_u32_to_from_le_bytes();
    assert(spec_header_bytes(h)[0] == h.flag);
    assert(spec_header_bytes(h).subrange(1, 5) =~= spec_u32_to_le_bytes(h.addr));
    assert(spec_header_bytes(h).subrange(5, 9) =~= spec_u32_to_le_bytes(h.count));
}

/// Appends the eight wire bytes of one pointer table entry to `out`.
pub fn push_entry_bytes(out: &mut Vec<u8>, e: PtrEntry)
    ensures
        final(out)@ == old(out)@ + spec_entry_bytes(e),
{
    let a = u32_to_le_bytes(e.addr);
    let c = u32_to_le_bytes(e.count);
    proof {
        lemma_auto_spec_u32_to_from_le_bytes();
    }
    out.push(a[0]);
    out.push(a[1]);
    out.push(a[2]);
    out.push(a[3]);
    out.push(c[0]);
    out.push(c[1]);
    out.push(c[2]);
    out.push(c[3]);
    proof {
        assert(a@ =~= seq![a@[0], a@[1], a@[2], a@[3]]);
        assert(c@ =~= seq![c@[0], c@[1], c@[2], c@[3]]);
        assert(out@ =~= old(out)@ + spec_entry_bytes(e));
    }
}

/// The wire bytes of a whole pointer table.
pub fn pointer_table_bytes(es: &Vec<PtrEntry>) -> (r: Vec<u8>)
    ensures
        r@ == spec_table_bytes(es@),
{
    let mut r: Vec<u8> = Vec::new();
    let mut k: usize = 0;
    proof {
        assert(es@.subrange(0, 0) =~= Seq::<PtrEntry>::empty());
    }
    while k < es.len()
        invariant
            k <= es@.len(),
            r@ == spec_table_bytes(es@.subrange(0, k as int)),
        decreases es@.len() - k,
    {
        push_entry_bytes(&mut r, es[k]);
        proof {
            assert(es@.subrange(0, k + 1).drop_last() =~= es@.subrange(0, k as int));
        }
        k = k + 1;
    }
    proof {
        assert(es@.subrange(0, es@.len() as int) =~= es@);
    }
    r
}

/// Reads one pointer table entry from eight bytes.
pub fn parse_entry(b: &[u8]) -> (e: PtrEntry)
    requires
        b@.len() == 8,
    ensures
        e == spec_parse_entry(b@),
{
    let addr = u32_from_le_bytes(vstd::slice::slice_subrange(b, 0, 4));
    let count = u32_from_le_bytes(vstd::slice::slice_subrange(b, 4, 8));
    PtrEntry { addr, count }
}

/// Appends the twelve wire bytes of one result triple to `out`.
pub fn push_triple_bytes(out: &mut Vec<u8>, t: Triple)
    ensures
        final(out)@ == old(out)@ + spec_triple_bytes(t),
{
    let a = u32_to_le_bytes(t.addr);
    let g = u32_to_le_bytes(t.tag);
    let l = u32_to_le_bytes(t.len);
    proof {
        lemma_auto_spec_u32_to_from_le_bytes();
    }
    out.push(a[0]);
    out.push(a[1]);
    out.push(a[2]);
    out.push(a[3]);
    out.push(g[0]);
    out.push(g[1]);
    out.push(g[2]);
    out.push(g[3]);
    out.push(l[0]);
    out.push(l[1]);
    out.push(l[2]);
    out.push(l[3]);
    proof {
        assert(a@ =~= seq![a@[0], a@[1], a@[2], a@[3]]);
        assert(g@ =~= seq![g@[0], g@[1], g@[2], g@[3]]);
        assert(l@ =~= seq![l@[0], l@[1], l@[2], l@[3]]);
        assert(out@ =~= old(out)@ + spec_triple_bytes(t));
    }
}

/// The wire bytes of a whole triple table.
pub fn triples_bytes(ts: &Vec<Triple>) -> (r: Vec<u8>)
    ensures
        r@ == spec_triples_bytes(ts@),
{
    let mut r: Vec<u8> = Vec::new();
    let mut k: usize = 0;
    proof {
        assert(ts@.subrange(0, 0) =~= Seq::<Triple>::empty());
    }
    while k < ts.len()
        invariant
            k <= ts@.len(),
            r@ == spec_triples_bytes(ts@.subrange(0, k as int)),
        decreases ts@.len() - k,
    {
        push_triple_bytes(&mut r, ts[k]);
        proof {
            assert(ts@.subrange(0, k + 1).drop_last() =~= ts@.subrange(0, k as int));
        }
        k = k + 1;
    }
    proof {
        assert(ts@.subrange(0, ts@.len() as int) =~= ts@);
    }
    r
}

/// Reads result triples back from a byte slice whose length is a
/// multiple of twelve.
pub fn triples_from_bytes(b: &[u8]) -> (r: Vec<Triple>)
    requires
        b@.len() % 12 == 0,
    ensures
        r@ == spec_triples_of_bytes(b@),
        12 * r@.len() == b@.len(),
{
    let mut r: Vec<Triple> = Vec::new();
    let mut k: usize = 0;
    proof {
        assert(b@.subrange(0, 0) =~= Seq::<u8>::empty());
    }
    while k < b.len()
        invariant
            k <= b@.len(),
            k % 12 == 0,
            b@.len() % 12 == 0,
            r@ == spec_triples_of_bytes(b@.subrange(0, k as int)),
            12 * r@.len() == k,
        decreases b@.len() - k,
    {
        let chunk = vstd::slice::slice_subrange(b, k, k + 12);
        let addr = u32_from_le_bytes(vstd::slice::slice_subrange(chunk, 0, 4));
        let tag = u32_from_le_bytes(vstd::slice::slice_subrange(chunk, 4, 8));
        let len = u32_from_le_bytes(vstd::slice::slice_subrange(chunk, 8, 12));
        r.push(Triple { addr, tag, len });
        proof {
            let cur = b@.subrange(0, k + 12);
            assert(cur.subrange(0, k as int) =~= b@.subrange(0, k as int));
            assert(cur.subrange(k as int, k + 12) =~= b@.subrange(k as int, k + 12));
            assert(chunk@.subrange(0, 4) =~= cur.subrange(k as int, k + 12).subrange(0, 4));
            assert(chunk@.subrange(4, 8) =~= cur.subrange(k as int, k + 12).subrange(4, 8));
            assert(chunk@.subrange(8, 12) =~= cur.subrange(k as int, k + 12).subrange(8, 12));
        }
        k = k + 12;
    }
    proof {
        assert(b@.subrange(0, b@.len() as int) =~= b@);
    }
    r
}

/// The nine wire bytes of a result header.
pub fn header_bytes(h: Header) -> (r: Vec<u8>)
    ensures
        r@ == spec_header_bytes(h),
{
    let mut r: Vec<u8> = Vec::new();
    r.push(h.flag);
    let a = u32_to_le_bytes(h.addr);
    let c = u32_to_le_bytes(h.count);
    proof {
        lemma_auto_spec_u32_to_from_le_bytes();
    }
    r.push(a[0]);
    r.push(a[1]);
    r.push(a[2]);
    r.push(a[3]);
    r.push(c[0]);
    r.push(c[1]);
    r.push(c[2]);
    r.push(c[3]);
    proof {
        assert(a@ =~= seq![a@[0], a@[1], a@[2], a@[3]]);
        assert(c@ =~= seq![c@[0], c@[1], c@[2], c@[3]]);
        assert(r@ =~= spec_header_bytes(h));
    }
    r
}

/// Reads a result header back from its nine bytes.
pub fn parse_header(b: &[u8]) -> (h: Option<Header>)
    ensures
        h is Some <==> b@.len() == 9,
        b@.len() == 9 ==> h == Some(spec_parse_header(b@)),
{
    if b.len() != 9 {
        return None;
    }
    let flag = *vstd::slice::slice_index_get(b, 0);
    let addr = u32_from_le_bytes(vstd::slice::slice_subrange(b, 1, 5));
    let count = u32_from_le_bytes(vstd::slice::slice_subrange(b, 5, 9));
    Some(Header { flag, addr, count })
}

} // verus!
