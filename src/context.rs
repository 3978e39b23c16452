//! The trace context carried between services, and its `traceparent` text.
use vstd::prelude::*;
use vstd::string::is_ascii_spec_bytes;
use crate::hex::{
    all_hex, append_hex, decode_hex, decode_pairs, hex_of, lemma_hex_round_trip, low_bytes,
};

verus! {

/// Identifies a span within a trace: a 16-byte trace id, an 8-byte span id
/// and the sampling decision.
#[derive(Clone, Debug)]
pub struct TraceContext {
    pub trace_id: Vec<u8>,
    pub span_id: Vec<u8>,
    pub sampled: bool,
}

pub struct ContextView {
    pub trace_id: Seq<u8>,
    pub span_id: Seq<u8>,
    pub sampled: bool,
}

impl View for TraceContext {
    type V = ContextView;

    open spec fn view(&self) -> ContextView {
        ContextView { trace_id: self.trace_id@, span_id: self.span_id@, sampled: self.sampled }
    }
}

pub open spec fn all_zero(s: Seq<u8>) -> bool {
    forall|i: int| 0 <= i < s.len() ==> #[trigger] s[i] == 0
}

/// A usable context: ids of the right width, neither of them all zeros.
pub open spec fn valid_context(c: ContextView) -> bool {
    &&& c.trace_id.len() == 16
    &&& c.span_id.len() == 8
    &&& !all_zero(c.trace_id)
    &&& !all_zero(c.span_id)
}

/// `00-<trace id>-<span id>-<flags>`, with the sampled flag as bit 0.
pub open spec fn traceparent_text(c: ContextView) -> Seq<char> {
    seq!['0', '0', '-'] + hex_of(c.trace_id) + seq!['-'] + hex_of(c.span_id) + seq![
        '-',
        '0',
        if c.sampled {
            '1'
        } else {
            '0'
        },
    ]
}

/// The context that a `traceparent` value stands for: version `00`, lower-case
/// hex fields of 32, 16 and 2 digits, and non-zero ids. Anything else stands
/// for no context.
pub open spec fn parse_traceparent(cs: Seq<char>) -> Option<ContextView> {
    let b = low_bytes(cs);
    let t = b.subrange(3, 35);
    let s = b.subrange(36, 52);
    let f = b.subrange(53, 55);
    if vstd::utf8::is_ascii_chars(cs) && cs.len() == 55 && b[0] == 48 && b[1] == 48 && b[2] == 45
        && b[35] == 45 && b[52] == 45 && all_hex(t) && all_hex(s) && all_hex(f) && !all_zero(
        decode_pairs(t),
    ) && !all_zero(decode_pairs(s)) {
        Some(
            ContextView {
                trace_id: decode_pairs(t),
                span_id: decode_pairs(s),
                sampled: decode_pairs(f)[0] % 2 == 1,
            },
        )
    } else {
        None
    }
}

/// Decoding the text of a valid context gives the context back.
#[verifier::rlimit(40)]
pub proof fn lemma_traceparent_round_trip(c: ContextView)
    requires
        valid_context(c),
    ensures
        parse_traceparent(traceparent_text(c)) == Some(c),
{
    let cs = traceparent_text(c);
    let b = low_bytes(cs);
    lemma_hex_round_trip(c.trace_id);
    lemma_hex_round_trip(c.span_id);
    let ht = hex_of(c.trace_id);
    let hs = hex_of(c.span_id);
    let fl: char = if c.sampled { '1' } else { '0' };
    let x = seq!['0', '0', '-'] + ht;
    let y = x + seq!['-'];
    let z = y + hs;
    assert(cs == z + seq!['-', '0', fl]);
    assert(cs.len() == 55);
    assert forall|i: int| 3 <= i < 35 implies #[trigger] cs[i] == ht[i - 3] by {
        assert(cs[i] == z[i] && z[i] == y[i] && y[i] == x[i]);
    }
    assert forall|i: int| 36 <= i < 52 implies #[trigger] cs[i] == hs[i - 36] by {
        assert(cs[i] == z[i]);
    }
    assert(cs[0] == '0' && cs[1] == '0' && cs[2] == '-') by {
        assert(cs[0] == x[0] && cs[1] == x[1] && cs[2] == x[2]);
    }
    assert(cs[35] == '-' && cs[52] == '-' && cs[53] == '0' && cs[54] == fl);
    assert(b.subrange(3, 35) =~= low_bytes(ht));
    assert(b.subrange(36, 52) =~= low_bytes(hs));
    assert(vstd::utf8::is_ascii_chars(cs)) by {
        assert forall|i: int| 0 <= i < cs.len() implies '\0' <= #[trigger] cs[i] <= '\u{7f}' by {
            if 3 <= i < 35 {
                assert(cs[i] == ht[i - 3]);
            } else if 36 <= i < 52 {
                assert(cs[i] == hs[i - 36]);
            }
        }
    }
    let f = b.subrange(53, 55);
    assert(f[0] == 48);
    assert(f[1] == (if c.sampled { 49u8 } else { 48u8 }));
    assert(all_hex(f));
    assert(decode_pairs(f).len() == 1);
    assert(decode_pairs(f)[0] == (if c.sampled { 1u8 } else { 0u8 }));
    assert(b[0] == 48 && b[1] == 48 && b[2] == 45 && b[35] == 45 && b[52] == 45);
}

/// Whether every byte of `v` is zero.
pub fn is_all_zero(v: &Vec<u8>) -> (r: bool)
    ensures
        r == all_zero(v@),
{
    let mut i: usize = 0;
    while i < v.len()
        invariant
            i <= v@.len(),
            forall|k: int| 0 <= k < i ==> #[trigger] v@[k] == 0,
        decreases v@.len() - i,
    {
        if v[i] != 0 {
            return false;
        }
        i = i + 1;
    }
    true
}

impl TraceContext {
    /// The `traceparent` value for this context.
    pub fn to_traceparent(&self) -> (r: String)
        ensures
            r@ == traceparent_text(self@),
    {
        let mut out = String::new();
        proof {
            reveal_strlit("00-");
            reveal_strlit("-");
            reveal_strlit("-01");
            reveal_strlit("-00");
        }
        out.append("00-");
        append_hex(&mut out, &self.trace_id);
        out.append("-");
        append_hex(&mut out, &self.span_id);
        if self.sampled {
            out.append("-01");
        } else {
            out.append("-00");
        }
        assert(out@ =~= traceparent_text(self@));
        out
    }

    /// The context that a `traceparent` value stands for, or `None` where the
    /// value is malformed.
    pub fn from_traceparent(value: &str) -> (r: Option<TraceContext>)
        ensures
            r.is_some() == parse_traceparent(value@).is_some(),
            r.is_some() ==> Some(r.unwrap()@) == parse_traceparent(value@),
    {
        if !value.is_ascii() {
            return None;
        }
        let b = value.as_bytes();
        proof {
            is_ascii_spec_bytes(value);
            assert(b@ =~= low_bytes(value@));
        }
        if b.len() != 55 || b[0] != 48 || b[1] != 48 || b[2] != 45 || b[35] != 45 || b[52] != 45 {
            return None;
        }
        let trace_id = match decode_hex(b, 3, 16) {
            Some(t) => t,
            None => {
                return None;
            },
        };
        let span_id = match decode_hex(b, 36, 8) {
            Some(s) => s,
            None => {
                return None;
            },
        };
        let flags = match decode_hex(b, 53, 1) {
            Some(f) => f,
            None => {
                return None;
            },
        };
        if is_all_zero(&trace_id) || is_all_zero(&span_id) {
            return None;
        }
        let r = TraceContext { trace_id, span_id, sampled: flags[0] % 2 == 1 };
        assert(r@.trace_id =~= parse_traceparent(value@).unwrap().trace_id);
        assert(r@.span_id =~= parse_traceparent(value@).unwrap().span_id);
        Some(r)
    }
}

} // verus!
