//! What the generated guest shims do at run time.
//!
//! An exported-function shim receives `(params_pointer, params_count)`,
//! validates the count against the declared arity ([`check_params_count`]),
//! decodes each argument through its pointer table entry
//! ([`shim_read_args`]), runs the wrapped function, and encodes the
//! outcome behind a result header — [`shim_write_success`] for values,
//! [`shim_write_error`] for an error message. A foreign-import shim
//! drives the same staging in the other direction and decodes the single
//! result header the host's function hands back
//! ([`decode_foreign_result`]).

use vstd::prelude::*;
use vstd::utf8::{valid_utf8, decode_utf8, encode_utf8, encode_utf8_valid_utf8, encode_utf8_decode_utf8};
use crate::tag::{Tag, spec_tag_code, spec_elem_width, elem_width, tag_code};
use crate::param::{
    Param, ParamModel, spec_param_tag, spec_param_bytes, spec_param_count, lemma_param_bytes_len,
};
use crate::decode::{DecodeError, spec_decode, decode_value, string_from_utf8, lemma_decode_param_bytes};
use crate::layout::{
    PtrEntry, Triple, Header, FLAG_SUCCESS, FLAG_ERROR, spec_table_bytes, spec_entries_of_bytes,
    entries_from_bytes, lemma_entries_roundtrip, triples_bytes, lemma_triples_roundtrip,
    header_bytes, parse_header, spec_parse_header, lemma_header_roundtrip, spec_header_bytes,
};
use crate::memory::{GuestMemory, spec_read};
use crate::runtime::{
    spec_models, spec_total_bytes, spec_staged, spec_return_result, outcome_matches,
    lemma_decode_triples_staged,
};

verus! {

/// The decimal digit character for one digit value.
pub open spec fn spec_digit_char(d: int) -> char {
    if d == 0 {
        '0'
    } else if d == 1 {
        '1'
    } else if d == 2 {
        '2'
    } else if d == 3 {
        '3'
    } else if d == 4 {
        '4'
    } else if d == 5 {
        '5'
    } else if d == 6 {
        '6'
    } else if d == 7 {
        '7'
    } else if d == 8 {
        '8'
    } else {
        '9'
    }
}

/// The decimal digits of a non-negative number, most significant first.
pub open spec fn spec_dec_digits(n: int) -> Seq<char>
    decreases n,
{
    if n < 0 {
        Seq::<char>::empty()
    } else if n < 10 {
        seq![spec_digit_char(n)]
    } else {
        spec_dec_digits(n / 10).push(spec_digit_char(n % 10))
    }
}

/// The decimal rendering of a number, a leading minus sign when it is
/// negative.
pub open spec fn spec_dec_signed(n: int) -> Seq<char> {
    if n < 0 {
        seq!['-'] + spec_dec_digits(-n)
    } else {
        spec_dec_digits(n)
    }
}

/// The diagnostic a generated export answers an argument-count mismatch
/// with.
pub open spec fn spec_arity_error_msg(expected: int, got: int) -> Seq<char> {
    "Invalid params count, expect "@ + spec_dec_digits(expected) + ", got "@ + spec_dec_signed(got)
}

/// One decimal digit as a string slice.
fn digit_str(d: u64) -> (r: &'static str)
    requires
        d < 10,
    ensures
        r@ == seq![spec_digit_char(d as int)],
{
    proof {
        reveal_strlit("0");
        reveal_strlit("1");
        reveal_strlit("2");
        reveal_strlit("3");
        reveal_strlit("4");
        reveal_strlit("5");
        reveal_strlit("6");
        reveal_strlit("7");
        reveal_strlit("8");
        reveal_strlit("9");
    }
    let r = if d == 0 {
        "0"
    } else if d == 1 {
        "1"
    } else if d == 2 {
        "2"
    } else if d == 3 {
        "3"
    } else if d == 4 {
        "4"
    } else if d == 5 {
        "5"
    } else if d == 6 {
        "6"
    } else if d == 7 {
        "7"
    } else if d == 8 {
        "8"
    } else {
        "9"
    };
    proof {
        assert(r@ =~= seq![spec_digit_char(d as int)]);
    }
    r
}

/// Renders a number in decimal.
fn dec_u64(n: u64) -> (s: String)
    ensures
        s@ == spec_dec_digits(n as int),
    decreases n,
{
    if n < 10 {
        String::from_str(digit_str(n))
    } else {
        let mut s = dec_u64(n / 10);
        s.append(digit_str(n % 10));
        proof {
            assert(spec_dec_digits((n / 10) as int) + seq![spec_digit_char((n % 10) as int)]
                =~= spec_dec_digits((n / 10) as int).push(spec_digit_char((n % 10) as int)));
        }
        s
    }
}

/// Renders a signed number in decimal.
fn dec_i64(n: i64) -> (s: String)
    ensures
        s@ == spec_dec_signed(n as int),
{
    if n >= 0 {
        dec_u64(n as u64)
    } else {
        proof {
            reveal_strlit("-");
        }
        let mut s = String::from_str("-");
        let m = (-(n as i128)) as u64;
        let d = dec_u64(m);
        s.append(d.as_str());
        proof {
            assert("-"@ =~= seq!['-']);
        }
        s
    }
}

/// The exact diagnostic for an argument-count mismatch.
pub fn arity_error_message(expected: usize, got: i32) -> (s: String)
    ensures
        s@ == spec_arity_error_msg(expected as int, got as int),
{
    let mut s = String::from_str("Invalid params count, expect ");
    let e = dec_u64(expected as u64);
    s.append(e.as_str());
    s.append(", got ");
    let g = dec_i64(got as i64);
    s.append(g.as_str());
    proof {
        assert(s@ =~= spec_arity_error_msg(expected as int, got as int));
    }
    s
}

/// The generated export's first step: the call is accepted exactly when
/// the wire argument count equals the declared arity; on any other
/// count the shim answers with the diagnostic message and decodes
/// nothing.
pub fn check_params_count(expected: usize, got: i32) -> (r: Option<String>)
    ensures
        r is None <==> got >= 0 && got == expected,
        r is Some ==> r->Some_0@ == spec_arity_error_msg(expected as int, got as int),
{
    if got >= 0 && got as usize == expected {
        None
    } else {
        Some(arity_error_message(expected, got))
    }
}

/// The whole mismatch path of a generated export: any call whose wire
/// argument count differs from the declared arity is answered with an
/// error header — flag 1 — whose bytes are exactly the diagnostic
/// message, and no argument is decoded; a call with the declared count
/// is accepted and memory is left untouched. The one caveat of the
/// 32-bit memory model: when the committed memory cannot hold the
/// message and its header, nothing can be written and the rejection
/// carries no header.
pub fn shim_reject_arity(mem: &mut GuestMemory, expected: usize, got: i32) -> (r: Option<u32>)
    ensures
        got >= 0 && got == expected ==> r is None && final(mem)@ == old(mem)@,
        r is Some <==> !(got >= 0 && got == expected) && old(mem)@.len() + encode_utf8(
            spec_arity_error_msg(expected as int, got as int),
        ).len() + 9 <= u32::MAX,
        r is None ==> final(mem)@ == old(mem)@,
        r is Some ==> ({
            let h = r->Some_0;
            let msg = spec_arity_error_msg(expected as int, got as int);
            &&& spec_read(final(mem)@, h as int, 9) is Some
            &&& ({
                let hdr = spec_parse_header(spec_read(final(mem)@, h as int, 9)->Some_0);
                &&& hdr.flag == FLAG_ERROR
                &&& hdr.count == encode_utf8(msg).len()
                &&& spec_read(final(mem)@, hdr.addr as int, hdr.count as int) == Some(
                    encode_utf8(msg),
                )
            })
            &&& final(mem)@.subrange(0, old(mem)@.len() as int) == old(mem)@
        }),
{
    match check_params_count(expected, got) {
        None => None,
        Some(msg) => {
            let s = msg.as_str();
            let bytes = s.as_bytes_vec();
            let len64 = bytes.len() as u64;
            proof {
                assert(s@ == msg@);
                assert(len64 == encode_utf8(msg@).len());
            }
            if len64 > (u32::MAX as u64) - 9 {
                return None;
            }
            if (mem.size() as u64) > (u32::MAX as u64) - (len64 + 9) {
                return None;
            }
            Some(shim_write_error(mem, s))
        },
    }
}

/// What decoding staged arguments yields: each entry's payload — the
/// advertised element count times the declared kind's element width —
/// read and decoded under the declared kind, first failure propagated.
pub open spec fn spec_decode_entries(mem: Seq<u8>, es: Seq<PtrEntry>, decls: Seq<Tag>) -> Result<
    Seq<ParamModel>,
    DecodeError,
>
    decreases es.len(),
{
    if es.len() == 0 {
        Ok(Seq::<ParamModel>::empty())
    } else {
        match spec_decode_entries(mem, es.drop_last(), decls.drop_last()) {
            Err(e) => Err(e),
            Ok(pre) => {
                let ent = es.last();
                let t = decls[es.len() - 1];
                match spec_read(mem, ent.addr as int, ent.count * spec_elem_width(t)) {
                    None => Err(DecodeError::OutOfBounds),
                    Some(b) => match spec_decode(t, b) {
                        Err(e) => Err(e),
                        Ok(p) => Ok(pre.push(p)),
                    },
                }
            },
        }
    }
}

/// What the generated argument-decoding prologue yields: the pointer
/// table read at `table`, then each argument decoded under its declared
/// kind.
pub open spec fn spec_read_args(mem: Seq<u8>, decls: Seq<Tag>, table: u32) -> Result<
    Seq<ParamModel>,
    DecodeError,
> {
    match spec_read(mem, table as int, 8 * decls.len() as int) {
        None => Err(DecodeError::OutOfBounds),
        Some(tb) => spec_decode_entries(mem, spec_entries_of_bytes(tb), decls),
    }
}

/// A failed prefix decides the whole argument list's decoding.
proof fn lemma_decode_entries_prefix_err(mem: Seq<u8>, es: Seq<PtrEntry>, decls: Seq<Tag>, j: int)
    requires
        es.len() == decls.len(),
        0 <= j <= es.len(),
        spec_decode_entries(mem, es.subrange(0, j), decls.subrange(0, j)) is Err,
    ensures
        spec_decode_entries(mem, es, decls) == spec_decode_entries(
            mem,
            es.subrange(0, j),
            decls.subrange(0, j),
        ),
    decreases es.len() - j,
{
    if j < es.len() {
        assert(es.subrange(0, j + 1).drop_last() =~= es.subrange(0, j));
        assert(decls.subrange(0, j + 1).drop_last() =~= decls.subrange(0, j));
        lemma_decode_entries_prefix_err(mem, es, decls, j + 1);
    } else {
        assert(es.subrange(0, es.len() as int) =~= es);
        assert(decls.subrange(0, decls.len() as int) =~= decls);
    }
}

/// The generated argument-decoding prologue: reads the pointer table at
/// `table` and reconstructs each argument per its declared kind.
pub fn shim_read_args(mem: &GuestMemory, decls: &Vec<Tag>, table: u32) -> (r: Result<
    Vec<Param>,
    DecodeError,
>)
    requires
        mem@.len() <= u32::MAX,
        decls@.len() <= u32::MAX,
    ensures
        outcome_matches(r, spec_read_args(mem@, decls@, table)),
{
    let n = decls.len();
    let need: u64 = 8 * (n as u64);
    if need > (u32::MAX as u64) || (table as u64) > (u32::MAX as u64) - need {
        return Err(DecodeError::OutOfBounds);
    }
    let tb = match mem.read_bytes(table, need as u32) {
        None => {
            return Err(DecodeError::OutOfBounds);
        },
        Some(tb) => tb,
    };
    proof {
        assert(tb@.len() % 8 == 0);
    }
    let es = entries_from_bytes(tb.as_slice());
    let ghost ess = es@;
    let ghost dss = decls@;
    let mut out: Vec<Param> = Vec::new();
    let mut k: usize = 0;
    proof {
        assert(ess.subrange(0, 0) =~= Seq::<PtrEntry>::empty());
        assert(dss.subrange(0, 0) =~= Seq::<Tag>::empty());
        assert(spec_models(out@) =~= Seq::<ParamModel>::empty());
    }
    while k < n
        invariant
            k <= n,
            n == dss.len(),
            ess.len() == n,
            es@ == ess,
            decls@ == dss,
            mem@.len() <= u32::MAX,
            spec_read_args(mem@, dss, table) == spec_decode_entries(mem@, ess, dss),
            spec_decode_entries(mem@, ess.subrange(0, k as int), dss.subrange(0, k as int)) == Ok::<
                Seq<ParamModel>,
                DecodeError,
            >(spec_models(out@)),
        decreases n - k,
    {
        let ent = es[k];
        let t = decls[k];
        proof {
            assert(ess.subrange(0, k + 1).drop_last() =~= ess.subrange(0, k as int));
            assert(dss.subrange(0, k + 1).drop_last() =~= dss.subrange(0, k as int));
            assert(ess.subrange(0, k + 1).last() == ess[k as int]);
            assert(dss.subrange(0, k + 1)[ess.subrange(0, k + 1).len() - 1] == dss[k as int]);
        }
        let w = elem_width(t);
        proof {
            assert((ent.count as u64) * (w as u64) <= 0xFFFF_FFFFu64 * 8) by (nonlinear_arith)
                requires
                    ent.count <= u32::MAX,
                    w <= 8,
            ;
        }
        let blen: u64 = (ent.count as u64) * (w as u64);
        if blen > (u32::MAX as u64) || (ent.addr as u64) > (u32::MAX as u64) - blen {
            proof {
                lemma_decode_entries_prefix_err(mem@, ess, dss, k + 1);
            }
            return Err(DecodeError::OutOfBounds);
        }
        let payload = match mem.read_bytes(ent.addr, blen as u32) {
            None => {
                proof {
                    lemma_decode_entries_prefix_err(mem@, ess, dss, k + 1);
                }
                return Err(DecodeError::OutOfBounds);
            },
            Some(b) => b,
        };
        match decode_value(t, payload) {
            Err(e) => {
                proof {
                    lemma_decode_entries_prefix_err(mem@, ess, dss, k + 1);
                }
                return Err(e);
            },
            Ok(p) => {
                let ghost prev = out@;
                out.push(p);
                proof {
                    assert(spec_models(out@) =~= spec_models(prev).push(p@));
                }
            },
        }
        k = k + 1;
    }
    proof {
        assert(ess.subrange(0, n as int) =~= ess);
        assert(dss.subrange(0, n as int) =~= dss);
    }
    Ok(out)
}

/// Staged arguments decode back to exactly the values that were staged,
/// when each declared kind matches the staged value's kind.
pub proof fn lemma_decode_entries_staged(
    mem: Seq<u8>,
    es: Seq<PtrEntry>,
    ms: Seq<ParamModel>,
    decls: Seq<Tag>,
)
    requires
        spec_staged(mem, es, ms),
        decls.len() == ms.len(),
        forall|i: int| 0 <= i < ms.len() ==> decls[i] == spec_param_tag(ms[i]),
    ensures
        spec_decode_entries(mem, es, decls) == Ok::<Seq<ParamModel>, DecodeError>(ms),
    decreases es.len(),
{
    if es.len() == 0 {
        assert(ms =~= Seq::<ParamModel>::empty());
    } else {
        let n = es.len() - 1;
        assert(es[n].count == spec_param_count(ms[n]));
        assert(spec_read(mem, es[n].addr as int, spec_param_bytes(ms[n]).len() as int) == Some(
            spec_param_bytes(ms[n]),
        ));
        assert forall|i: int| 0 <= i < n implies {
            &&& (#[trigger] es.drop_last()[i]).count == spec_param_count(ms.drop_last()[i])
            &&& es.drop_last()[i].addr + spec_param_bytes(ms.drop_last()[i]).len() <= mem.len()
            &&& spec_read(
                mem,
                es.drop_last()[i].addr as int,
                spec_param_bytes(ms.drop_last()[i]).len() as int,
            ) == Some(spec_param_bytes(ms.drop_last()[i]))
        } by {
            assert(es.drop_last()[i] == es[i]);
            assert(ms.drop_last()[i] == ms[i]);
            assert(es[i].count == spec_param_count(ms[i]));
        }
        assert forall|i: int| 0 <= i < n implies ms.drop_last().len() == n && #[trigger] ms.drop_last()[
            i
        ] == ms[i] by {}
        lemma_decode_entries_staged(mem, es.drop_last(), ms.drop_last(), decls.drop_last());
        lemma_param_bytes_len(ms[n]);
        lemma_decode_param_bytes(ms[n]);
        assert(decls[n] == spec_param_tag(ms[n]));
        assert(es.last() == es[n]);
        assert(ms.last() == ms[n]);
        assert(es[n].count * spec_elem_width(decls[n]) == spec_param_bytes(ms[n]).len());
        assert(spec_decode_entries(mem, es, decls) == Ok::<Seq<ParamModel>, DecodeError>(
            ms.drop_last().push(ms[n]),
        ));
        assert(ms.drop_last().push(ms[n]) =~= ms);
    }
}

/// The argument path's round trip over a staged call: with the pointer
/// table committed at `table` and every declared kind matching its
/// argument, the generated prologue reconstructs exactly the arguments
/// the host staged — scalars bit for bit, arrays element-wise with
/// length and order kept, strings by exact UTF-8 content.
pub proof fn lemma_args_roundtrip(
    mem: Seq<u8>,
    es: Seq<PtrEntry>,
    ms: Seq<ParamModel>,
    decls: Seq<Tag>,
    table: u32,
)
    requires
        spec_staged(mem, es, ms),
        spec_read(mem, table as int, 8 * es.len() as int) == Some(spec_table_bytes(es)),
        decls.len() == ms.len(),
        forall|i: int| 0 <= i < ms.len() ==> decls[i] == spec_param_tag(ms[i]),
    ensures
        spec_read_args(mem, decls, table) == Ok::<Seq<ParamModel>, DecodeError>(ms),
{
    lemma_entries_roundtrip(es);
    lemma_decode_entries_staged(mem, es, ms, decls);
}

/// Values each settled into a fresh block, with their triples pointing
/// at those blocks.
spec fn spec_triples_staged(mem: Seq<u8>, ts: Seq<Triple>, ms: Seq<ParamModel>) -> bool {
    &&& ts.len() == ms.len()
    &&& forall|i: int|
        0 <= i < ts.len() ==> {
            &&& (#[trigger] ts[i]).tag == spec_tag_code(spec_param_tag(ms[i]))
            &&& ts[i].len == spec_param_bytes(ms[i]).len()
            &&& spec_read(mem, ts[i].addr as int, ts[i].len as int) == Some(
                spec_param_bytes(ms[i]),
            )
        }
}

/// The generated result-encoding epilogue, success side: settles each
/// return value into guest memory, commits the triple table, and writes
/// the nine-byte success header. The header at the returned address
/// carries flag 0 and exactly one triple per return value, and the
/// host's `return_result` decoding of that table yields exactly the
/// encoded values.
pub fn shim_write_success(mem: &mut GuestMemory, values: &Vec<Param>) -> (h: u32)
    requires
        old(mem)@.len() + spec_total_bytes(spec_models(values@)) + 12 * values@.len() + 9
            <= u32::MAX,
    ensures
        spec_read(final(mem)@, h as int, 9) is Some,
        ({
            let hdr = spec_parse_header(spec_read(final(mem)@, h as int, 9)->Some_0);
            &&& hdr.flag == FLAG_SUCCESS
            &&& hdr.count == values@.len()
            &&& spec_return_result(final(mem)@, hdr.addr, hdr.count) == Ok::<
                Seq<ParamModel>,
                DecodeError,
            >(spec_models(values@))
        }),
        final(mem)@.subrange(0, old(mem)@.len() as int) == old(mem)@,
        final(mem)@.len() <= u32::MAX,
{
    let ghost ms = spec_models(values@);
    let ghost base = old(mem)@.len() as int;
    let n = values.len();
    let mut triples: Vec<Triple> = Vec::new();
    let mut k: usize = 0;
    proof {
        assert(ms.subrange(0, ms.len() as int) =~= ms);
    }
    while k < n
        invariant
            k <= n,
            n == values@.len(),
            ms == spec_models(values@),
            ms.len() == n,
            triples@.len() == k,
            base == old(mem)@.len(),
            mem@.len() + spec_total_bytes(ms.subrange(k as int, ms.len() as int)) == base
                + spec_total_bytes(ms),
            base + spec_total_bytes(ms) + 12 * n + 9 <= u32::MAX,
            base <= mem@.len(),
            mem@.subrange(0, base) == old(mem)@,
            spec_triples_staged(mem@, triples@, ms.subrange(0, k as int)),
        decreases n - k,
    {
        let ghost suffix = ms.subrange(k as int, ms.len() as int);
        proof {
            assert(suffix.first() == ms[k as int]);
            assert(suffix.drop_first() =~= ms.subrange(k + 1, ms.len() as int));
            assert(values@[k as int]@ == ms[k as int]);
            lemma_param_bytes_len(ms[k as int]);
            let w = spec_elem_width(spec_param_tag(ms[k as int]));
            assert(spec_param_count(ms[k as int]) <= spec_param_count(ms[k as int]) * w) by (
            nonlinear_arith)
                requires
                    w >= 1,
            ;
        }
        let (bytes, _count) = values[k].settle();
        let g = tag_code(values[k].tag());
        let blen = bytes.len() as u32;
        let ghost pre = mem@;
        let addr = mem.alloc_bytes(&bytes);
        triples.push(Triple { addr, tag: g, len: blen });
        proof {
            assert(mem@ == pre + bytes@);
            crate::runtime::lemma_concat_subrange_left(pre, bytes@, 0, base);
            assert(mem@.subrange(0, base) == pre.subrange(0, base));
            let cur = ms.subrange(0, k + 1);
            assert(cur[k as int] == ms[k as int]);
            assert forall|j: int| 0 <= j < triples@.len() implies {
                &&& (#[trigger] triples@[j]).tag == spec_tag_code(spec_param_tag(cur[j]))
                &&& triples@[j].len == spec_param_bytes(cur[j]).len()
                &&& spec_read(mem@, triples@[j].addr as int, triples@[j].len as int) == Some(
                    spec_param_bytes(cur[j]),
                )
            } by {
                assert(cur[j] == ms[j]);
                if j < k {
                    let a = triples@[j].addr as int;
                    let l = triples@[j].len as int;
                    assert(spec_read(pre, a, l) == Some(spec_param_bytes(ms[j])));
                    crate::runtime::lemma_concat_subrange_left(pre, bytes@, a, a + l);
                    assert(mem@.subrange(a, a + l) == pre.subrange(a, a + l));
                } else {
                    assert(triples@[j].addr == pre.len());
                    crate::runtime::lemma_concat_suffix(pre, bytes@);
                    assert(mem@.subrange(pre.len() as int, pre.len() + bytes@.len() as int)
                        == bytes@);
                }
            }
        }
        k = k + 1;
    }
    proof {
        assert(ms.subrange(k as int, ms.len() as int) =~= Seq::<ParamModel>::empty());
        assert(ms.subrange(0, k as int) =~= ms);
    }
    let tb = triples_bytes(&triples);
    proof {
        crate::layout::lemma_triples_bytes_len(triples@);
    }
    let ghost pre1 = mem@;
    let taddr = mem.alloc_bytes(&tb);
    proof {
        assert(mem@ == pre1 + tb@);
        crate::runtime::lemma_concat_subrange_left(pre1, tb@, 0, base);
        crate::runtime::lemma_concat_suffix(pre1, tb@);
        assert(mem@.subrange(taddr as int, taddr + tb@.len() as int) == tb@);
        assert forall|j: int| 0 <= j < triples@.len() implies {
            &&& (#[trigger] triples@[j]).tag == spec_tag_code(spec_param_tag(ms[j]))
            &&& triples@[j].len == spec_param_bytes(ms[j]).len()
            &&& spec_read(mem@, triples@[j].addr as int, triples@[j].len as int) == Some(
                spec_param_bytes(ms[j]),
            )
        } by {
            let a = triples@[j].addr as int;
            let l = triples@[j].len as int;
            assert(spec_read(pre1, a, l) == Some(spec_param_bytes(ms[j])));
            crate::runtime::lemma_concat_subrange_left(pre1, tb@, a, a + l);
        }
    }
    let hdr = Header { flag: FLAG_SUCCESS, addr: taddr, count: n as u32 };
    let hb = header_bytes(hdr);
    proof {
        lemma_header_roundtrip(hdr);
        crate::layout::lemma_header_bytes_len(hdr);
    }
    let ghost pre2 = mem@;
    let h = mem.alloc_bytes(&hb);
    proof {
        assert(mem@ == pre2 + hb@);
        crate::runtime::lemma_concat_subrange_left(pre2, hb@, 0, base);
        crate::runtime::lemma_concat_suffix(pre2, hb@);
        assert(mem@.subrange(h as int, h + hb@.len() as int) == hb@);
        assert(spec_read(mem@, h as int, 9) == Some(spec_header_bytes(hdr)));
        crate::runtime::lemma_concat_subrange_left(pre2, hb@, taddr as int, taddr + tb@.len() as int);
        assert(mem@.subrange(taddr as int, taddr + tb@.len() as int) == tb@);
        assert(spec_read(mem@, taddr as int, 12 * (n as int)) == Some(tb@));
        lemma_triples_roundtrip(triples@);
        assert forall|j: int| 0 <= j < triples@.len() implies {
            &&& (#[trigger] triples@[j]).tag == spec_tag_code(spec_param_tag(ms[j]))
            &&& spec_read(mem@, triples@[j].addr as int, triples@[j].len as int) == Some(
                spec_param_bytes(ms[j]),
            )
        } by {
            let a = triples@[j].addr as int;
            let l = triples@[j].len as int;
            assert(spec_read(pre2, a, l) == Some(spec_param_bytes(ms[j])));
            crate::runtime::lemma_concat_subrange_left(pre2, hb@, a, a + l);
        }
        lemma_decode_triples_staged(mem@, triples@, ms);
    }
    h
}

/// The generated result-encoding epilogue, error side: writes the
/// message's UTF-8 bytes and the nine-byte error header. The header at
/// the returned address carries flag 1 and references exactly the
/// message's bytes, so the host's `return_error` decoding recovers the
/// original text.
pub fn shim_write_error(mem: &mut GuestMemory, msg: &str) -> (h: u32)
    requires
        old(mem)@.len() + encode_utf8(msg@).len() + 9 <= u32::MAX,
    ensures
        spec_read(final(mem)@, h as int, 9) is Some,
        ({
            let hdr = spec_parse_header(spec_read(final(mem)@, h as int, 9)->Some_0);
            &&& hdr.flag == FLAG_ERROR
            &&& hdr.count == encode_utf8(msg@).len()
            &&& spec_read(final(mem)@, hdr.addr as int, hdr.count as int) == Some(
                encode_utf8(msg@),
            )
        }),
        final(mem)@.subrange(0, old(mem)@.len() as int) == old(mem)@,
        final(mem)@.len() <= u32::MAX,
{
    let ghost base = old(mem)@.len() as int;
    let bytes = msg.as_bytes_vec();
    let blen = bytes.len() as u32;
    let ghost pre = mem@;
    let maddr = mem.alloc_bytes(&bytes);
    let hdr = Header { flag: FLAG_ERROR, addr: maddr, count: blen };
    let hb = header_bytes(hdr);
    proof {
        lemma_header_roundtrip(hdr);
        crate::layout::lemma_header_bytes_len(hdr);
    }
    let ghost pre2 = mem@;
    let h = mem.alloc_bytes(&hb);
    proof {
        assert(pre2 == pre + bytes@);
        assert(mem@ == pre2 + hb@);
        crate::runtime::lemma_concat_suffix(pre, bytes@);
        assert(pre2.subrange(maddr as int, maddr + bytes@.len() as int) == bytes@);
        crate::runtime::lemma_concat_subrange_left(pre2, hb@, maddr as int, maddr + bytes@.len() as int);
        assert(mem@.subrange(maddr as int, maddr + bytes@.len() as int) == bytes@);
        crate::runtime::lemma_concat_suffix(pre2, hb@);
        assert(mem@.subrange(h as int, h + hb@.len() as int) == hb@);
        assert(spec_read(mem@, h as int, 9) == Some(spec_header_bytes(hdr)));
        crate::runtime::lemma_concat_subrange_left(pre, bytes@, 0, base);
        crate::runtime::lemma_concat_subrange_left(pre2, hb@, 0, base);
        assert(mem@.subrange(0, base) == pre.subrange(0, base));
    }
    h
}

/// The error path preserves the message text exactly: the bytes an
/// error header references are this library's UTF-8 encoding of the
/// message, they are valid UTF-8, and they decode back to the original
/// characters — so the host-side decoding returns the text unchanged.
pub proof fn lemma_error_message_roundtrip(msg: Seq<char>)
    ensures
        valid_utf8(encode_utf8(msg)),
        decode_utf8(encode_utf8(msg)) == msg,
{
    encode_utf8_valid_utf8(msg);
    encode_utf8_decode_utf8(msg);
}

/// What a foreign-import shim makes of the single result header the
/// host's function returned: on a success flag, the referenced bytes
/// decoded as UTF-8; on any other flag, the empty string.
pub open spec fn spec_foreign_result(mem: Seq<u8>, h: u32) -> Result<Seq<char>, DecodeError> {
    match spec_read(mem, h as int, 9) {
        None => Err(DecodeError::OutOfBounds),
        Some(hb) => {
            let hdr = spec_parse_header(hb);
            if hdr.flag == FLAG_SUCCESS {
                match spec_read(mem, hdr.addr as int, hdr.count as int) {
                    None => Err(DecodeError::OutOfBounds),
                    Some(b) => if valid_utf8(b) {
                        Ok(decode_utf8(b))
                    } else {
                        Err(DecodeError::InvalidUtf8)
                    },
                }
            } else {
                Ok(Seq::<char>::empty())
            }
        },
    }
}

/// The foreign-import shim's decoding step: reads the result header the
/// host's function returned and recovers the declared string result,
/// the empty string on a non-success flag.
pub fn decode_foreign_result(mem: &GuestMemory, h: u32) -> (r: Result<String, DecodeError>)
    ensures
        r is Ok ==> spec_foreign_result(mem@, h) == Ok::<Seq<char>, DecodeError>(r->Ok_0@),
        r is Err ==> spec_foreign_result(mem@, h) == Err::<Seq<char>, DecodeError>(r->Err_0),
{
    let hb = match mem.read_bytes(h, 9) {
        None => {
            return Err(DecodeError::OutOfBounds);
        },
        Some(hb) => hb,
    };
    let hdr = match parse_header(hb.as_slice()) {
        None => {
            return Err(DecodeError::OutOfBounds);
        },
        Some(hdr) => hdr,
    };
    if hdr.flag == FLAG_SUCCESS {
        let b = match mem.read_bytes(hdr.addr, hdr.count) {
            None => {
                return Err(DecodeError::OutOfBounds);
            },
            Some(b) => b,
        };
        match string_from_utf8(b) {
            Some(s) => Ok(s),
            None => Err(DecodeError::InvalidUtf8),
        }
    } else {
        let s = String::new();
        Ok(s)
    }
}

} // verus!
