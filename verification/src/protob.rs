//! Choosing among decodings: the message type name a decoder is asked for,
//! and the best of several attempted decodings when the type is guessed.
use vstd::prelude::*;
use crate::canonical::{SpecValue, Value};

verus! {

/// The fully qualified form of a message type name: as given when it
/// starts with a dot, else behind a dot.
pub open spec fn spec_qualified_message_type(msg_type: Seq<char>) -> Seq<char> {
    if msg_type[0] == '.' {
        msg_type
    } else {
        "."@ + msg_type
    }
}

/// The fully qualified form of the (non-empty) message type name `msg_type`.
pub fn qualified_message_type(msg_type: &str) -> (r: String)
    requires
        msg_type@.len() > 0,
    ensures
        r@ == spec_qualified_message_type(msg_type@),
{
    proof { reveal_strlit("."); }
    let mut r = String::new();
    if msg_type.get_char(0) != '.' {
        r.append(".");
    }
    r.append(msg_type);
    r
}

/// The spec-level form of an attempted decoding.
pub open spec fn attempt(r: Option<Value>) -> Option<SpecValue> {
    match r {
        Some(v) => Some(v.deep()),
        None => None,
    }
}

/// An attempted decoding is a candidate when it succeeded with an object
/// none of whose values is `Unit` (a field that could not be decoded).
pub open spec fn is_candidate(r: Option<SpecValue>) -> bool {
    match r {
        Some(SpecValue::Dict(es)) => forall|j: int| 0 <= j < es.len() ==> (#[trigger] es[j]).1 != SpecValue::Unit,
        _ => false,
    }
}

/// A decoding to an object is a candidate exactly when none of its values
/// is `Unit`: absent optional fields and values of any other kind do not
/// keep it out.
pub proof fn law_candidate_iff_no_unit(es: Seq<(SpecValue, SpecValue)>)
    ensures
        is_candidate(Some(SpecValue::Dict(es))) <==> forall|j: int| 0 <= j < es.len() ==> #[trigger] es[j].1 != SpecValue::Unit,
        (forall|j: int| 0 <= j < es.len() ==> #[trigger] es[j].1 != SpecValue::Unit)
            ==> field_count(Some(SpecValue::Dict(es))) == es.len(),
{
}

/// Decodings that fail or give something other than an object are never
/// candidates.
pub proof fn law_only_objects_are_candidates(r: Option<SpecValue>)
    requires
        !(r matches Some(SpecValue::Dict(_))),
    ensures
        !is_candidate(r),
{
}

/// The number of fields of a decoded object.
pub open spec fn field_count(r: Option<SpecValue>) -> nat {
    match r {
        Some(SpecValue::Dict(es)) => es.len(),
        _ => 0,
    }
}

/// Whether `r` decoded to an object with no `Unit` value.
fn candidate_fields(r: &Option<Value>) -> (n: Option<usize>)
    ensures
        n is Some <==> is_candidate(attempt(*r)),
        n matches Some(k) ==> k == field_count(attempt(*r)),
{
    match r {
        Some(Value::Dict(map)) => {
            proof { crate::canonical::lemma_deep_entries_public(map@); }
            let mut j: usize = 0;
            while j < map.len()
                invariant
                    j <= map.len(),
                    attempt(*r) == Some(SpecValue::Dict(crate::canonical::deep_entries(map@))),
                    crate::canonical::deep_entries(map@).len() == map.len(),
                    forall|k: int| 0 <= k < map.len() ==> #[trigger] crate::canonical::deep_entries(map@)[k]
                        == (map@[k].0.deep(), map@[k].1.deep()),
                    forall|k: int| 0 <= k < j ==> (#[trigger] crate::canonical::deep_entries(map@)[k]).1 != SpecValue::Unit,
                decreases map.len() - j,
            {
                match &map[j].1 {
                    Value::Unit => {
                        assert(crate::canonical::deep_entries(map@)[j as int].1 == SpecValue::Unit);
                        return None;
                    },
                    _ => {},
                }
                j = j + 1;
            }
            Some(map.len())
        },
        _ => None,
    }
}

/// Of several attempted decodings of one message, the one to show: among
/// the candidates (objects with no `Unit` value), the one with the most
/// fields, the last of those when several have as many. `None` when no
/// attempt is a candidate.
pub fn select_guess(decoded: &Vec<Option<Value>>) -> (r: Option<usize>)
    ensures
        r is None <==> forall|i: int| 0 <= i < decoded.len() ==> !is_candidate(attempt(#[trigger] decoded@[i])),
        (exists|i: int| 0 <= i < decoded.len() && (#[trigger] attempt(decoded@[i]) matches Some(SpecValue::Dict(es))
            && forall|j: int| 0 <= j < es.len() ==> es[j].1 != SpecValue::Unit)) ==> r is Some,
        r matches Some(b) ==> {
            &&& b < decoded.len()
            &&& is_candidate(attempt(decoded@[b as int]))
            &&& forall|i: int| 0 <= i < decoded.len() && is_candidate(attempt(#[trigger] decoded@[i]))
                ==> field_count(attempt(decoded@[i])) <= field_count(attempt(decoded@[b as int]))
            &&& forall|i: int| b < i < decoded.len() && is_candidate(attempt(#[trigger] decoded@[i]))
                ==> field_count(attempt(decoded@[i])) < field_count(attempt(decoded@[b as int]))
        },
{
    let mut best: Option<usize> = None;
    let mut best_len: usize = 0;
    let mut i: usize = 0;
    while i < decoded.len()
        invariant
            i <= decoded.len(),
            best is None <==> forall|k: int| 0 <= k < i ==> !is_candidate(attempt(#[trigger] decoded@[k])),
            best matches Some(b) ==> {
                &&& b < i
                &&& is_candidate(attempt(decoded@[b as int]))
                &&& best_len == field_count(attempt(decoded@[b as int]))
                &&& forall|k: int| 0 <= k < i && is_candidate(attempt(#[trigger] decoded@[k]))
                    ==> field_count(attempt(decoded@[k])) <= best_len
                &&& forall|k: int| b < k < i && is_candidate(attempt(#[trigger] decoded@[k]))
                    ==> field_count(attempt(decoded@[k])) < best_len
            },
        decreases decoded.len() - i,
    {
        match candidate_fields(&decoded[i]) {
            Some(n) => {
                if best.is_none() || n >= best_len {
                    best = Some(i);
                    best_len = n;
                }
            },
            None => {},
        }
        i = i + 1;
    }
    best
}

} // verus!
