//! Reading a trace context from call metadata and writing one into it.
use vstd::prelude::*;
use crate::carrier::{
    lemma_lookup_skips, lemma_names_match_reflexive, lookup, names_match, other_name, Carrier,
};
use crate::context::{
    lemma_traceparent_round_trip, parse_traceparent, traceparent_text, valid_context, ContextView,
    TraceContext,
};
use crate::hex::{all_hex, low_bytes};

verus! {

/// The metadata name that holds the encoded context.
pub open spec fn traceparent_key() -> Seq<char> {
    seq!['t', 'r', 'a', 'c', 'e', 'p', 'a', 'r', 'e', 'n', 't']
}

/// The context found in `entries`, if any.
pub open spec fn extracted(entries: Seq<(Seq<char>, Seq<char>)>) -> Option<ContextView> {
    match lookup(entries, traceparent_key()) {
        Some(v) => parse_traceparent(v),
        None => None,
    }
}

/// The entries after writing the context `c`.
pub open spec fn injected(entries: Seq<(Seq<char>, Seq<char>)>, c: ContextView) -> Seq<
    (Seq<char>, Seq<char>),
> {
    entries.filter(other_name(traceparent_key())).push((traceparent_key(), traceparent_text(c)))
}

/// The upstream context that a call's metadata carries; `None` where the
/// `traceparent` entry is missing or malformed.
pub fn extract(carrier: &Carrier) -> (r: Option<TraceContext>)
    ensures
        r.is_some() == extracted(carrier@).is_some(),
        r.is_some() ==> Some(r.unwrap()@) == extracted(carrier@),
{
    proof {
        reveal_strlit("traceparent");
        assert("traceparent"@ =~= traceparent_key());
    }
    match carrier.get("traceparent") {
        Some(v) => TraceContext::from_traceparent(v),
        None => None,
    }
}

/// Writes `context` into an outbound call's metadata, in place of any
/// `traceparent` entry it held.
pub fn inject(context: &TraceContext, carrier: &mut Carrier)
    ensures
        final(carrier)@ == injected(old(carrier)@, context@),
{
    proof {
        reveal_strlit("traceparent");
        assert("traceparent"@ =~= traceparent_key());
    }
    let value = context.to_traceparent();
    carrier.set("traceparent", value.as_str());
}

/// Whatever a carrier held, extracting after injecting a valid context gives
/// that context back.
pub proof fn lemma_extract_inject(entries: Seq<(Seq<char>, Seq<char>)>, c: ContextView)
    requires
        valid_context(c),
    ensures
        extracted(injected(entries, c)) == Some(c),
{
    let key = traceparent_key();
    let kept = entries.filter(other_name(key));
    broadcast use vstd::seq_lib::group_filter_ensures;

    assert forall|i: int| 0 <= i < kept.len() implies !names_match(#[trigger] kept[i].0, key) by {
        assert(other_name(key)(kept[i]));
    }
    let e = (key, traceparent_text(c));
    lemma_lookup_skips(kept, e, key);
    lemma_names_match_reflexive(key);
    assert(seq![e].drop_first().len() == 0);
    lemma_traceparent_round_trip(c);
}

/// A carrier without a `traceparent` entry yields no context.
pub proof fn lemma_missing_key(entries: Seq<(Seq<char>, Seq<char>)>)
    requires
        lookup(entries, traceparent_key()).is_none(),
    ensures
        extracted(entries).is_none(),
{
}

/// A `traceparent` value of the wrong length, not ASCII, or with a field that
/// is not lower-case hex yields no context.
pub proof fn lemma_malformed_key(entries: Seq<(Seq<char>, Seq<char>)>, v: Seq<char>)
    requires
        lookup(entries, traceparent_key()) == Some(v),
        v.len() != 55 || !vstd::utf8::is_ascii_chars(v) || !all_hex(low_bytes(v).subrange(3, 35))
            || !all_hex(low_bytes(v).subrange(36, 52)) || !all_hex(low_bytes(v).subrange(53, 55)),
    ensures
        extracted(entries).is_none(),
{
}

} // verus!
