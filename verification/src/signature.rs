//! The signature analyzer: what the code generator reads off a
//! bindgen-annotated function's declaration.
//!
//! A declared parameter or return type is one of the closed set of
//! marshalable kinds ([`Tag`]); anything outside the set is a
//! code-generation failure before these passes run. The parameter pass
//! yields the ordered decode plan for the generated prologue; the
//! return pass yields one encoding slot per return value — its wire tag
//! and how its payload is sized — plus whether the function is
//! fallible, which decides the success/error branch of the epilogue.

use vstd::prelude::*;
use crate::tag::{Tag, spec_tag_code, spec_is_scalar, spec_elem_width, tag_code, elem_width, is_scalar_tag};

verus! {

/// The declared return type: zero or more return kinds — none for a
/// function returning nothing, several for a tuple, decomposed
/// positionally — and whether they are wrapped in a success-or-error
/// result.
#[derive(Debug)]
pub struct RetDecl {
    pub is_fallible: bool,
    pub types: Vec<Tag>,
}

/// A function's declared signature, as the code generator reads it:
/// ordered parameter kinds and the return declaration.
#[derive(Debug)]
pub struct FnSig {
    pub params: Vec<Tag>,
    pub ret: RetDecl,
}

/// How the generated epilogue sizes one return value's payload.
#[derive(Clone, Copy, Debug, PartialEq, Eq, Structural)]
pub enum SizeRule {
    /// A scalar's fixed byte size.
    Fixed(u32),
    /// The value's length times the element width: arrays and strings.
    PerElement(u32),
}

/// One return value's encoding plan: its wire tag and its size rule.
#[derive(Clone, Copy, Debug, PartialEq, Eq, Structural)]
pub struct RetSlot {
    pub tag: u32,
    pub size: SizeRule,
}

/// The size rule of a kind: scalars have a fixed payload, arrays and
/// strings are sized by their length.
pub open spec fn spec_size_rule(t: Tag) -> SizeRule {
    if spec_is_scalar(t) {
        SizeRule::Fixed(spec_elem_width(t) as u32)
    } else {
        SizeRule::PerElement(spec_elem_width(t) as u32)
    }
}

/// The analyzer's parameter pass: the ordered decode plan the generated
/// prologue follows, one kind per parameter, position fixing the wire
/// slot.
pub fn parse_params(sig: &FnSig) -> (decls: Vec<Tag>)
    ensures
        decls@ == sig.params@,
{
    let mut decls: Vec<Tag> = Vec::new();
    let mut k: usize = 0;
    proof {
        assert(decls@ =~= sig.params@.subrange(0, 0));
    }
    while k < sig.params.len()
        invariant
            k <= sig.params@.len(),
            decls@ == sig.params@.subrange(0, k as int),
        decreases sig.params@.len() - k,
    {
        decls.push(sig.params[k]);
        proof {
            assert(sig.params@.subrange(0, k + 1) =~= sig.params@.subrange(0, k as int).push(
                sig.params@[k as int],
            ));
        }
        k = k + 1;
    }
    proof {
        assert(sig.params@.subrange(0, sig.params@.len() as int) =~= sig.params@);
    }
    decls
}

/// The analyzer's return pass: one encoding slot per declared return
/// value, in declaration order, and whether the function is fallible.
pub fn parse_returns(sig: &FnSig) -> (r: (Vec<RetSlot>, bool))
    ensures
        r.1 == sig.ret.is_fallible,
        r.0@.len() == sig.ret.types@.len(),
        forall|i: int|
            0 <= i < sig.ret.types@.len() ==> {
                &&& (#[trigger] r.0@[i]).tag == spec_tag_code(sig.ret.types@[i])
                &&& r.0@[i].size == spec_size_rule(sig.ret.types@[i])
            },
{
    let mut slots: Vec<RetSlot> = Vec::new();
    let mut k: usize = 0;
    while k < sig.ret.types.len()
        invariant
            k <= sig.ret.types@.len(),
            slots@.len() == k,
            forall|i: int|
                0 <= i < k ==> {
                    &&& (#[trigger] slots@[i]).tag == spec_tag_code(sig.ret.types@[i])
                    &&& slots@[i].size == spec_size_rule(sig.ret.types@[i])
                },
        decreases sig.ret.types@.len() - k,
    {
        let t = sig.ret.types[k];
        let w = elem_width(t) as u32;
        let size = if is_scalar_tag(t) {
            SizeRule::Fixed(w)
        } else {
            SizeRule::PerElement(w)
        };
        slots.push(RetSlot { tag: tag_code(t), size });
        k = k + 1;
    }
    (slots, sig.ret.is_fallible)
}

} // verus!
