//! Spans: one per inbound call, a child of the upstream context where there
//! is one and a trace root otherwise.
use vstd::prelude::*;
use opentelemetry::sdk::trace::{IdGenerator, RandomIdGenerator};
use crate::carrier::Carrier;
use crate::context::{ContextView, TraceContext};
use crate::propagation::{extract, extracted};

verus! {

/// How the traced call ended.
#[derive(Clone, Copy, Debug, PartialEq, Eq, Structural)]
pub enum CallOutcome {
    Succeeded,
    Failed,
    Cancelled,
}

/// The status a closed span records.
#[derive(Clone, Copy, Debug, PartialEq, Eq, Structural)]
pub enum SpanStatus {
    Completed,
    Error,
    Cancelled,
}

pub open spec fn status_of(outcome: CallOutcome) -> SpanStatus {
    match outcome {
        CallOutcome::Succeeded => SpanStatus::Completed,
        CallOutcome::Failed => SpanStatus::Error,
        CallOutcome::Cancelled => SpanStatus::Cancelled,
    }
}

/// A span that is still open.
#[derive(Debug)]
pub struct Span {
    pub trace_id: Vec<u8>,
    pub span_id: Vec<u8>,
    pub parent_span_id: Option<Vec<u8>>,
    pub sampled: bool,
    pub name: String,
    pub start_time: u64,
}

/// A closed span, ready for export.
#[derive(Debug)]
pub struct FinishedSpan {
    pub trace_id: Vec<u8>,
    pub span_id: Vec<u8>,
    pub parent_span_id: Option<Vec<u8>>,
    pub sampled: bool,
    pub name: String,
    pub start_time: u64,
    pub end_time: u64,
    pub status: SpanStatus,
}

/// The identity of a span: its trace, its own id and its parent's.
pub struct SpanIds {
    pub trace_id: Seq<u8>,
    pub span_id: Seq<u8>,
    pub parent_span_id: Option<Seq<u8>>,
    pub sampled: bool,
}

pub open spec fn opt_view(o: Option<Vec<u8>>) -> Option<Seq<u8>> {
    match o {
        Some(v) => Some(v@),
        None => None,
    }
}

impl Span {
    pub open spec fn ids(&self) -> SpanIds {
        SpanIds {
            trace_id: self.trace_id@,
            span_id: self.span_id@,
            parent_span_id: opt_view(self.parent_span_id),
            sampled: self.sampled,
        }
    }
}

impl FinishedSpan {
    pub open spec fn ids(&self) -> SpanIds {
        SpanIds {
            trace_id: self.trace_id@,
            span_id: self.span_id@,
            parent_span_id: opt_view(self.parent_span_id),
            sampled: self.sampled,
        }
    }
}

/// The identity of a span begun under `parent` with freshly drawn ids: the
/// parent's trace and sampling where there is a parent, the fresh trace id
/// and a sampled root otherwise; its own id is always the fresh span id.
pub open spec fn begun(parent: Option<ContextView>, fresh_trace_id: Seq<u8>, fresh_span_id: Seq<u8>) -> SpanIds {
    match parent {
        Some(p) => SpanIds {
            trace_id: p.trace_id,
            span_id: fresh_span_id,
            parent_span_id: Some(p.span_id),
            sampled: p.sampled,
        },
        None => SpanIds {
            trace_id: fresh_trace_id,
            span_id: fresh_span_id,
            parent_span_id: None,
            sampled: true,
        },
    }
}

pub open spec fn ctx_view(o: Option<TraceContext>) -> Option<ContextView> {
    match o {
        Some(c) => Some(c@),
        None => None,
    }
}

/// Relies on opentelemetry's `RandomIdGenerator::new_trace_id`: sixteen random bytes.
#[verifier::external_body]
fn random_trace_id() -> (r: Vec<u8>)
    ensures
        r@.len() == 16,
{
    RandomIdGenerator::default().new_trace_id().to_bytes().to_vec()
}

/// Relies on opentelemetry's `RandomIdGenerator::new_span_id`: eight random bytes.
#[verifier::external_body]
fn random_span_id() -> (r: Vec<u8>)
    ensures
        r@.len() == 8,
{
    RandomIdGenerator::default().new_span_id().to_bytes().to_vec()
}

fn copy_bytes(v: &Vec<u8>) -> (r: Vec<u8>)
    ensures
        r@ == v@,
{
    let mut r: Vec<u8> = Vec::new();
    let mut i: usize = 0;
    while i < v.len()
        invariant
            i <= v@.len(),
            r@ == v@.subrange(0, i as int),
        decreases v@.len() - i,
    {
        r.push(v[i]);
        i = i + 1;
        assert(r@ =~= v@.subrange(0, i as int));
    }
    r
}

/// Begins a span named `name` under `parent`, with the given fresh ids.
pub fn begin_span(
    name: &str,
    parent: Option<&TraceContext>,
    fresh_trace_id: Vec<u8>,
    fresh_span_id: Vec<u8>,
    start_time: u64,
) -> (r: Span)
    ensures
        r.ids() == begun(
            match parent {
                Some(p) => Some(p@),
                None => None,
            },
            fresh_trace_id@,
            fresh_span_id@,
        ),
        r.name@ == name@,
        r.start_time == start_time,
{
    match parent {
        Some(p) => Span {
            trace_id: copy_bytes(&p.trace_id),
            span_id: fresh_span_id,
            parent_span_id: Some(copy_bytes(&p.span_id)),
            sampled: p.sampled,
            name: name.to_owned(),
            start_time,
        },
        None => Span {
            trace_id: fresh_trace_id,
            span_id: fresh_span_id,
            parent_span_id: None,
            sampled: true,
            name: name.to_owned(),
            start_time,
        },
    }
}

/// Begins the span for an inbound call whose metadata is `carrier`: a child
/// of the upstream context it carries, or the root of a new trace. The new
/// span's own id and, for a root, its trace id are drawn at random.
pub fn request_span(carrier: &Carrier, start_time: u64) -> (r: Span)
    ensures
        r.trace_id@.len() == 16,
        r.span_id@.len() == 8,
        r.start_time == start_time,
        r.name@ == request_span_name(),
        match extracted(carrier@) {
            Some(p) => r.trace_id@ == p.trace_id && r.parent_span_id.is_some()
                && r.parent_span_id.unwrap()@ == p.span_id && r.sampled == p.sampled,
            None => r.parent_span_id.is_none() && r.sampled,
        },
{
    let parent = extract(carrier);
    let trace_id = random_trace_id();
    let span_id = random_span_id();
    proof {
        reveal_strlit("request received");
        assert("request received"@ =~= request_span_name());
    }
    let r = match &parent {
        Some(p) => begin_span("request received", Some(p), trace_id, span_id, start_time),
        None => begin_span("request received", None, trace_id, span_id, start_time),
    };
    r
}

pub open spec fn request_span_name() -> Seq<char> {
    seq!['r', 'e', 'q', 'u', 'e', 's', 't', ' ', 'r', 'e', 'c', 'e', 'i', 'v', 'e', 'd']
}

/// Closes `span` at `end_time` with the status that `outcome` calls for.
/// The span is consumed, so it is closed once and handed on once.
pub fn end_span(span: Span, end_time: u64, outcome: CallOutcome) -> (r: FinishedSpan)
    ensures
        r.ids() == span.ids(),
        r.name@ == span.name@,
        r.start_time == span.start_time,
        r.end_time == end_time,
        r.status == status_of(outcome),
{
    let status = match outcome {
        CallOutcome::Succeeded => SpanStatus::Completed,
        CallOutcome::Failed => SpanStatus::Error,
        CallOutcome::Cancelled => SpanStatus::Cancelled,
    };
    FinishedSpan {
        trace_id: span.trace_id,
        span_id: span.span_id,
        parent_span_id: span.parent_span_id,
        sampled: span.sampled,
        name: span.name,
        start_time: span.start_time,
        end_time,
        status,
    }
}

/// Two calls under the same upstream context give sibling spans: the same
/// trace and parent, and own ids as distinct as the ids drawn for them.
pub proof fn lemma_siblings(
    parent: ContextView,
    trace_a: Seq<u8>,
    span_a: Seq<u8>,
    trace_b: Seq<u8>,
    span_b: Seq<u8>,
)
    requires
        span_a != span_b,
    ensures
        begun(Some(parent), trace_a, span_a).trace_id == begun(Some(parent), trace_b, span_b).trace_id,
        begun(Some(parent), trace_a, span_a).parent_span_id == Some(parent.span_id),
        begun(Some(parent), trace_b, span_b).parent_span_id == Some(parent.span_id),
        begun(Some(parent), trace_a, span_a).span_id != begun(Some(parent), trace_b, span_b).span_id,
{
}

/// A call without upstream context gives a trace root whose trace id is the
/// freshly drawn one.
pub proof fn lemma_root(fresh_trace_id: Seq<u8>, fresh_span_id: Seq<u8>)
    ensures
        begun(None, fresh_trace_id, fresh_span_id).parent_span_id.is_none(),
        begun(None, fresh_trace_id, fresh_span_id).trace_id == fresh_trace_id,
        begun(None, fresh_trace_id, fresh_span_id).span_id == fresh_span_id,
{
}

} // verus!
