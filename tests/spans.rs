use thespian_trace::carrier::{Carrier, Entry};
use thespian_trace::context::TraceContext;
use thespian_trace::span::{begin_span, end_span, request_span, CallOutcome, SpanStatus};

fn upstream() -> Carrier {
    let mut c = Carrier::new();
    c.entries.push(Entry {
        name: "traceparent".to_string(),
        value: "00-4bf92f3577b34da6a3ce929d0e0e4736-00f067aa0ba902b7-01".to_string(),
    });
    c
}

const TRACE: [u8; 16] = [
    0x4b, 0xf9, 0x2f, 0x35, 0x77, 0xb3, 0x4d, 0xa6, 0xa3, 0xce, 0x92, 0x9d, 0x0e, 0x0e, 0x47, 0x36,
];
const SPAN: [u8; 8] = [0x00, 0xf0, 0x67, 0xaa, 0x0b, 0xa9, 0x02, 0xb7];

#[test]
fn upstream_context_makes_child_span() {
    let s = request_span(&upstream(), 10);
    assert_eq!(s.trace_id, TRACE.to_vec());
    assert_eq!(s.parent_span_id, Some(SPAN.to_vec()));
    assert_eq!(s.span_id.len(), 8);
    assert_ne!(s.span_id, SPAN.to_vec());
    assert!(s.sampled);
    assert_eq!(s.name, "request received");
    assert_eq!(s.start_time, 10);
}

#[test]
fn no_upstream_context_makes_root_span() {
    let a = request_span(&Carrier::new(), 1);
    let b = request_span(&Carrier::new(), 2);
    assert!(a.parent_span_id.is_none());
    assert_eq!(a.trace_id.len(), 16);
    assert_ne!(a.trace_id, b.trace_id);
    assert_ne!(a.trace_id, vec![0u8; 16]);
}

#[test]
fn same_upstream_gives_sibling_spans() {
    let a = request_span(&upstream(), 1);
    let b = request_span(&upstream(), 1);
    assert_eq!(a.trace_id, b.trace_id);
    assert_eq!(a.parent_span_id, b.parent_span_id);
    assert_ne!(a.span_id, b.span_id);
}

#[test]
fn begin_span_uses_given_ids() {
    let parent = TraceContext { trace_id: TRACE.to_vec(), span_id: SPAN.to_vec(), sampled: false };
    let child = begin_span("work", Some(&parent), vec![9; 16], vec![7; 8], 5);
    assert_eq!(child.trace_id, TRACE.to_vec());
    assert_eq!(child.span_id, vec![7; 8]);
    assert_eq!(child.parent_span_id, Some(SPAN.to_vec()));
    assert!(!child.sampled);
    let root = begin_span("work", None, vec![9; 16], vec![7; 8], 5);
    assert_eq!(root.trace_id, vec![9; 16]);
    assert!(root.parent_span_id.is_none());
    assert!(root.sampled);
}

#[test]
fn end_span_records_each_outcome() {
    let cases = [
        (CallOutcome::Succeeded, SpanStatus::Completed),
        (CallOutcome::Failed, SpanStatus::Error),
        (CallOutcome::Cancelled, SpanStatus::Cancelled),
    ];
    for (outcome, status) in cases.iter() {
        let s = begin_span("call", None, vec![1; 16], vec![2; 8], 3);
        let f = end_span(s, 8, *outcome);
        assert_eq!(f.status, *status);
        assert_eq!(f.start_time, 3);
        assert_eq!(f.end_time, 8);
        assert_eq!(f.span_id, vec![2; 8]);
        assert_eq!(f.name, "call");
    }
}
