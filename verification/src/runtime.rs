//! The host calling runtime's compute half.
//!
//! To call a guest export the host settles each argument into guest
//! memory and builds the pointer table ([`stage_call`]); the underlying
//! virtual machine then invokes the export with the table's address and
//! the argument count. The guest's answer arrives through one of two
//! host imports: `return_result` hands over a triple table to decode
//! ([`return_result`]), `return_error` a raw UTF-8 error message
//! ([`return_error`]). A [`DeliverySlot`] carries the outcome from the
//! import callback back to the waiting caller; one call is in flight at
//! a time, so the slot holds at most one outcome and is emptied by the
//! caller that takes it.

use vstd::prelude::*;
use vstd::utf8::{valid_utf8, decode_utf8};
use crate::tag::spec_tag_code;
use crate::param::{
    Param, ParamModel, spec_param_tag, spec_param_bytes, spec_param_count, lemma_param_bytes_len,
};
use crate::decode::{
    DecodeError, spec_decode_by_code, decode_by_code, lemma_decode_param_bytes,
};
use crate::layout::{
    PtrEntry, Triple, spec_table_bytes, spec_triples_of_bytes, pointer_table_bytes,
    triples_from_bytes, lemma_table_bytes_len,
};
use crate::memory::{GuestMemory, spec_read};

verus! {

/// The mathematical models of a list of values.
pub open spec fn spec_models(ps: Seq<Param>) -> Seq<ParamModel> {
    ps.map_values(|p: Param| p@)
}

/// Total wire byte length of a list of values.
pub open spec fn spec_total_bytes(ms: Seq<ParamModel>) -> nat
    decreases ms.len(),
{
    if ms.len() == 0 {
        0
    } else {
        spec_param_bytes(ms.first()).len() + spec_total_bytes(ms.drop_first())
    }
}

/// Arguments are staged: entry `i` advertises value `i`'s element count
/// and points at its wire bytes in memory.
pub open spec fn spec_staged(mem: Seq<u8>, es: Seq<PtrEntry>, ms: Seq<ParamModel>) -> bool {
    &&& es.len() == ms.len()
    &&& forall|i: int|
        0 <= i < es.len() ==> {
            &&& (#[trigger] es[i]).count == spec_param_count(ms[i])
            &&& es[i].addr + spec_param_bytes(ms[i]).len() <= mem.len()
            &&& spec_read(mem, es[i].addr as int, spec_param_bytes(ms[i]).len() as int) == Some(
                spec_param_bytes(ms[i]),
            )
        }
}

/// A subrange within the left part of a concatenation reads from the
/// left part alone.
pub proof fn lemma_concat_subrange_left(a: Seq<u8>, b: Seq<u8>, lo: int, hi: int)
    requires
        0 <= lo <= hi <= a.len(),
    ensures
        (a + b).subrange(lo, hi) == a.subrange(lo, hi),
{
    assert((a + b).subrange(lo, hi) =~= a.subrange(lo, hi));
}

/// The bytes appended by a concatenation read back as themselves.
pub proof fn lemma_concat_suffix(a: Seq<u8>, b: Seq<u8>)
    ensures
        (a + b).subrange(a.len() as int, a.len() + b.len() as int) == b,
{
    assert((a + b).subrange(a.len() as int, a.len() + b.len() as int) =~= b);
}

/// Settles every argument into a fresh block of guest memory, in
/// argument order, and returns the pointer table entries.
pub fn stage_args(mem: &mut GuestMemory, params: &Vec<Param>) -> (entries: Vec<PtrEntry>)
    requires
        old(mem)@.len() + spec_total_bytes(spec_models(params@)) <= u32::MAX,
    ensures
        spec_staged(final(mem)@, entries@, spec_models(params@)),
        final(mem)@.len() == old(mem)@.len() + spec_total_bytes(spec_models(params@)),
        final(mem)@.subrange(0, old(mem)@.len() as int) == old(mem)@,
{
    let ghost ms = spec_models(params@);
    let ghost base = old(mem)@.len() as int;
    let mut entries: Vec<PtrEntry> = Vec::new();
    let mut k: usize = 0;
    proof {
        assert(ms.subrange(0, ms.len() as int) =~= ms);
    }
    while k < params.len()
        invariant
            k <= params@.len(),
            ms == spec_models(params@),
            ms.len() == params@.len(),
            entries@.len() == k,
            base == old(mem)@.len(),
            mem@.len() + spec_total_bytes(ms.subrange(k as int, ms.len() as int)) == base
                + spec_total_bytes(ms),
            base + spec_total_bytes(ms) <= u32::MAX,
            base <= mem@.len(),
            mem@.subrange(0, base) == old(mem)@,
            spec_staged(mem@, entries@, ms.subrange(0, k as int)),
        decreases params@.len() - k,
    {
        let ghost suffix = ms.subrange(k as int, ms.len() as int);
        proof {
            assert(suffix.first() == ms[k as int]);
            assert(suffix.drop_first() =~= ms.subrange(k + 1, ms.len() as int));
            assert(params@[k as int]@ == ms[k as int]);
            lemma_param_bytes_len(ms[k as int]);
            let w = crate::tag::spec_elem_width(spec_param_tag(ms[k as int]));
            assert(spec_param_count(ms[k as int]) <= spec_param_count(ms[k as int]) * w) by (
            nonlinear_arith)
                requires
                    w >= 1,
            ;
        }
        let (bytes, count) = params[k].settle();
        let ghost pre = mem@;
        let addr = mem.alloc_bytes(&bytes);
        entries.push(PtrEntry { addr, count });
        proof {
            assert(base <= pre.len());
            assert(mem@ == pre + bytes@);
            lemma_concat_subrange_left(pre, bytes@, 0, base);
            assert(mem@.subrange(0, base) == pre.subrange(0, base));
            let cur = ms.subrange(0, k + 1);
            assert(cur[k as int] == ms[k as int]);
            assert forall|j: int| 0 <= j < entries@.len() implies {
                &&& (#[trigger] entries@[j]).count == spec_param_count(cur[j])
                &&& entries@[j].addr + spec_param_bytes(cur[j]).len() <= mem@.len()
                &&& spec_read(mem@, entries@[j].addr as int, spec_param_bytes(cur[j]).len() as int)
                    == Some(spec_param_bytes(cur[j]))
            } by {
                assert(cur[j] == ms[j]);
                if j < k {
                    let a = entries@[j].addr as int;
                    let l = spec_param_bytes(ms[j]).len() as int;
                    assert(spec_read(pre, a, l) == Some(spec_param_bytes(ms[j])));
                    lemma_concat_subrange_left(pre, bytes@, a, a + l);
                    assert(mem@.subrange(a, a + l) == pre.subrange(a, a + l));
                } else {
                    assert(entries@[j].addr == pre.len());
                    lemma_concat_suffix(pre, bytes@);
                    assert(mem@.subrange(pre.len() as int, pre.len() + bytes@.len() as int)
                        == bytes@);
                }
            }
        }
        k = k + 1;
    }
    proof {
        assert(ms.subrange(k as int, ms.len() as int) =~= Seq::<ParamModel>::empty());
        assert(ms.subrange(0, k as int) =~= ms);
    }
    entries
}

/// Stages a whole call: settles every argument, then commits the
/// pointer table itself to guest memory. The returned address and the
/// argument count are what the guest export is invoked with.
pub fn stage_call(mem: &mut GuestMemory, params: &Vec<Param>) -> (r: (Vec<PtrEntry>, u32))
    requires
        old(mem)@.len() + spec_total_bytes(spec_models(params@)) + 8 * params@.len() <= u32::MAX,
    ensures
        r.0@.len() == params@.len(),
        spec_staged(final(mem)@, r.0@, spec_models(params@)),
        spec_read(final(mem)@, r.1 as int, 8 * r.0@.len() as int) == Some(spec_table_bytes(r.0@)),
        final(mem)@.subrange(0, old(mem)@.len() as int) == old(mem)@,
        final(mem)@.len() <= u32::MAX,
{
    let ghost ms = spec_models(params@);
    let entries = stage_args(mem, params);
    let table = pointer_table_bytes(&entries);
    proof {
        lemma_table_bytes_len(entries@);
        assert(ms.len() == params@.len());
    }
    let ghost pre = mem@;
    let table_addr = mem.alloc_bytes(&table);
    proof {
        assert(mem@ == pre + table@);
        lemma_concat_subrange_left(pre, table@, 0, old(mem)@.len() as int);
        assert(mem@.subrange(0, old(mem)@.len() as int) == pre.subrange(
            0,
            old(mem)@.len() as int,
        ));
        lemma_concat_suffix(pre, table@);
        assert(mem@.subrange(pre.len() as int, pre.len() + table@.len() as int) == table@);
        assert forall|j: int| 0 <= j < entries@.len() implies {
            &&& (#[trigger] entries@[j]).count == spec_param_count(ms[j])
            &&& entries@[j].addr + spec_param_bytes(ms[j]).len() <= mem@.len()
            &&& spec_read(mem@, entries@[j].addr as int, spec_param_bytes(ms[j]).len() as int)
                == Some(spec_param_bytes(ms[j]))
        } by {
            let a = entries@[j].addr as int;
            let l = spec_param_bytes(ms[j]).len() as int;
            assert(spec_read(pre, a, l) == Some(spec_param_bytes(ms[j])));
            lemma_concat_subrange_left(pre, table@, a, a + l);
            assert(mem@.subrange(a, a + l) == pre.subrange(a, a + l));
        }
    }
    (entries, table_addr)
}

/// What a triple table decodes to against a memory image: each triple's
/// payload read and decoded under its tag, first failure propagated.
pub open spec fn spec_decode_triples(mem: Seq<u8>, ts: Seq<Triple>) -> Result<
    Seq<ParamModel>,
    DecodeError,
>
    decreases ts.len(),
{
    if ts.len() == 0 {
        Ok(Seq::<ParamModel>::empty())
    } else {
        match spec_decode_triples(mem, ts.drop_last()) {
            Err(e) => Err(e),
            Ok(pre) => match spec_read(mem, ts.last().addr as int, ts.last().len as int) {
                None => Err(DecodeError::OutOfBounds),
                Some(b) => match spec_decode_by_code(ts.last().tag, b) {
                    Err(e) => Err(e),
                    Ok(p) => Ok(pre.push(p)),
                },
            },
        }
    }
}

/// What the `return_result` import delivers: `count` triples read at
/// `ptr`, then each payload decoded under its tag.
pub open spec fn spec_return_result(mem: Seq<u8>, ptr: u32, count: u32) -> Result<
    Seq<ParamModel>,
    DecodeError,
> {
    match spec_read(mem, ptr as int, 12 * (count as int)) {
        None => Err(DecodeError::OutOfBounds),
        Some(tb) => spec_decode_triples(mem, spec_triples_of_bytes(tb)),
    }
}

/// The executable outcome agrees with the specified one.
pub open spec fn outcome_matches(
    r: Result<Vec<Param>, DecodeError>,
    s: Result<Seq<ParamModel>, DecodeError>,
) -> bool {
    match r {
        Ok(ps) => s == Ok::<Seq<ParamModel>, DecodeError>(spec_models(ps@)),
        Err(e) => s == Err::<Seq<ParamModel>, DecodeError>(e),
    }
}

/// A failed prefix decides the whole table's decoding.
pub proof fn lemma_decode_triples_prefix_err(mem: Seq<u8>, ts: Seq<Triple>, j: int)
    requires
        0 <= j <= ts.len(),
        spec_decode_triples(mem, ts.subrange(0, j)) is Err,
    ensures
        spec_decode_triples(mem, ts) == spec_decode_triples(mem, ts.subrange(0, j)),
    decreases ts.len() - j,
{
    if j < ts.len() {
        assert(ts.subrange(0, j + 1).drop_last() =~= ts.subrange(0, j));
        lemma_decode_triples_prefix_err(mem, ts, j + 1);
    } else {
        assert(ts.subrange(0, ts.len() as int) =~= ts);
    }
}

/// Triples that point at the wire encodings of a list of values decode
/// back to exactly those values: the result path's round trip.
pub proof fn lemma_decode_triples_staged(mem: Seq<u8>, ts: Seq<Triple>, ms: Seq<ParamModel>)
    requires
        ts.len() == ms.len(),
        forall|i: int|
            0 <= i < ts.len() ==> {
                &&& (#[trigger] ts[i]).tag == spec_tag_code(spec_param_tag(ms[i]))
                &&& spec_read(mem, ts[i].addr as int, ts[i].len as int) == Some(
                    spec_param_bytes(ms[i]),
                )
            },
    ensures
        spec_decode_triples(mem, ts) == Ok::<Seq<ParamModel>, DecodeError>(ms),
    decreases ts.len(),
{
    if ts.len() > 0 {
        let n = ts.len() - 1;
        assert forall|i: int| 0 <= i < n implies {
            &&& (#[trigger] ts.drop_last()[i]).tag == spec_tag_code(
                spec_param_tag(ms.drop_last()[i]),
            )
            &&& spec_read(mem, ts.drop_last()[i].addr as int, ts.drop_last()[i].len as int)
                == Some(spec_param_bytes(ms.drop_last()[i]))
        } by {
            assert(ts.drop_last()[i] == ts[i]);
            assert(ms.drop_last()[i] == ms[i]);
            assert(ts[i].tag == spec_tag_code(spec_param_tag(ms[i])));
        }
        lemma_decode_triples_staged(mem, ts.drop_last(), ms.drop_last());
        crate::tag::lemma_tag_code_bijective();
        lemma_decode_param_bytes(ms.last());
        assert(ts[n].tag == spec_tag_code(spec_param_tag(ms[n])));
        assert(spec_read(mem, ts[n].addr as int, ts[n].len as int) == Some(
            spec_param_bytes(ms[n]),
        ));
        assert(ts.last() == ts[n]);
        assert(ms.last() == ms[n]);
        assert(spec_decode_by_code(ts.last().tag, spec_param_bytes(ms.last())) == Ok::<
            ParamModel,
            DecodeError,
        >(ms.last()));
        assert(spec_decode_triples(mem, ts) == Ok::<Seq<ParamModel>, DecodeError>(
            ms.drop_last().push(ms.last()),
        ));
        assert(ms.drop_last().push(ms.last()) =~= ms);
    } else {
        assert(ms =~= Seq::<ParamModel>::empty());
    }
}

/// The host import `return_result(pointer, count)`: reads `count` result
/// triples at `pointer` and decodes each payload under its tag into a
/// typed value, in declaration order.
pub fn return_result(mem: &GuestMemory, ptr: u32, count: u32) -> (r: Result<
    Vec<Param>,
    DecodeError,
>)
    requires
        mem@.len() <= u32::MAX,
    ensures
        outcome_matches(r, spec_return_result(mem@, ptr, count)),
{
    let need: u64 = (count as u64) * 12;
    if need > (u32::MAX as u64) || (ptr as u64) > (u32::MAX as u64) - need {
        return Err(DecodeError::OutOfBounds);
    }
    let tb = match mem.read_bytes(ptr, need as u32) {
        None => {
            return Err(DecodeError::OutOfBounds);
        },
        Some(tb) => tb,
    };
    proof {
        assert(tb@.len() % 12 == 0);
    }
    let ts = triples_from_bytes(tb.as_slice());
    let ghost tss = ts@;
    let mut out: Vec<Param> = Vec::new();
    let mut k: usize = 0;
    proof {
        assert(tss.subrange(0, 0) =~= Seq::<Triple>::empty());
        assert(spec_models(out@) =~= Seq::<ParamModel>::empty());
    }
    while k < ts.len()
        invariant
            k <= tss.len(),
            ts@ == tss,
            mem@.len() <= u32::MAX,
            spec_return_result(mem@, ptr, count) == spec_decode_triples(mem@, tss),
            spec_decode_triples(mem@, tss.subrange(0, k as int)) == Ok::<
                Seq<ParamModel>,
                DecodeError,
            >(spec_models(out@)),
        decreases tss.len() - k,
    {
        let t = ts[k];
        proof {
            assert(tss.subrange(0, k + 1).drop_last() =~= tss.subrange(0, k as int));
            assert(tss.subrange(0, k + 1).last() == tss[k as int]);
        }
        let payload = match mem.read_bytes(t.addr, t.len) {
            None => {
                proof {
                    lemma_decode_triples_prefix_err(mem@, tss, k + 1);
                }
                return Err(DecodeError::OutOfBounds);
            },
            Some(b) => b,
        };
        match decode_by_code(t.tag, payload) {
            Err(e) => {
                proof {
                    lemma_decode_triples_prefix_err(mem@, tss, k + 1);
                }
                return Err(e);
            },
            Ok(p) => {
                let ghost prev = out@;
                out.push(p);
                proof {
                    assert(spec_models(out@) =~= spec_models(prev).push(p@));
                }
            },
        }
        k = k + 1;
    }
    proof {
        assert(tss.subrange(0, tss.len() as int) =~= tss);
    }
    Ok(out)
}

/// What `String::from_utf8_lossy` makes of a byte sequence: a function
/// of the bytes alone.
pub uninterp spec fn lossy_utf8(b: Seq<u8>) -> Seq<char>;

/// Relies on `String::from_utf8_lossy`: the result depends on the bytes
/// alone, and valid UTF-8 comes back as exactly the characters it
/// encodes; invalid sequences are replaced, not rejected.
#[verifier::external_body]
fn bytes_to_string_lossy(bytes: &Vec<u8>) -> (r: String)
    ensures
        r@ == lossy_utf8(bytes@),
        valid_utf8(bytes@) ==> r@ == decode_utf8(bytes@),
{
    String::from_utf8_lossy(bytes.as_slice()).into_owned()
}

/// The host import `return_error(pointer, length)`: reads the guest's
/// error message and decodes it as UTF-8, substituting replacement
/// characters for invalid sequences rather than failing.
pub fn return_error(mem: &GuestMemory, ptr: u32, len: u32) -> (r: Option<String>)
    ensures
        r is Some <==> spec_read(mem@, ptr as int, len as int) is Some,
        r is Some ==> r->Some_0@ == lossy_utf8(spec_read(mem@, ptr as int, len as int)->Some_0),
        r is Some && valid_utf8(spec_read(mem@, ptr as int, len as int)->Some_0)
            ==> r->Some_0@ == decode_utf8(spec_read(mem@, ptr as int, len as int)->Some_0),
{
    match mem.read_bytes(ptr, len) {
        Some(b) => Some(bytes_to_string_lossy(&b)),
        None => None,
    }
}

/// The model of a call's outcome: decoded values, or the error string.
pub open spec fn spec_outcome(r: Result<Vec<Param>, String>) -> Result<Seq<ParamModel>, Seq<char>> {
    match r {
        Ok(ps) => Ok(spec_models(ps@)),
        Err(s) => Err(s@),
    }
}

/// The single-slot delivery channel between the host import that fires
/// during a call and the caller waiting for that call's outcome.
///
/// One call is in flight per runtime instance at a time: an outcome is
/// sent into an empty slot, and taking it empties the slot again, so no
/// delivery can ever be seen by any call but its own.
pub struct DeliverySlot {
    value: Option<Result<Vec<Param>, String>>,
}

impl View for DeliverySlot {
    type V = Option<Result<Seq<ParamModel>, Seq<char>>>;

    closed spec fn view(&self) -> Option<Result<Seq<ParamModel>, Seq<char>>> {
        match self.value {
            None => None,
            Some(r) => Some(spec_outcome(r)),
        }
    }
}

impl DeliverySlot {
    /// An empty slot: nothing delivered yet.
    pub fn new() -> (s: DeliverySlot)
        ensures
            s@ is None,
    {
        DeliverySlot { value: None }
    }

    /// Whether an outcome is waiting.
    pub fn is_full(&self) -> (b: bool)
        ensures
            b == (self@ is Some),
    {
        match &self.value {
            Some(_) => true,
            None => false,
        }
    }

    /// Delivers a call's outcome. Only the import callback that fired
    /// during the call sends, and the slot is empty when it does.
    pub fn send(&mut self, r: Result<Vec<Param>, String>)
        requires
            old(self)@ is None,
        ensures
            final(self)@ == Some(spec_outcome(r)),
    {
        self.value = Some(r);
    }

    /// Hands the waiting outcome to the caller and empties the slot, so
    /// a later call can never see this delivery.
    pub fn take(&mut self) -> (r: Result<Vec<Param>, String>)
        requires
            old(self)@ is Some,
        ensures
            final(self)@ is None,
            Some(spec_outcome(r)) == old(self)@,
    {
        match self.value.take() {
            Some(r) => r,
            None => vstd::pervasive::unreached(),
        }
    }
}

} // verus!
