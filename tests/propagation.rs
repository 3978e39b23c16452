use thespian_trace::carrier::{Carrier, Entry};
use thespian_trace::context::TraceContext;
use thespian_trace::propagation::{extract, inject};

const TRACE: [u8; 16] = [
    0x4b, 0xf9, 0x2f, 0x35, 0x77, 0xb3, 0x4d, 0xa6, 0xa3, 0xce, 0x92, 0x9d, 0x0e, 0x0e, 0x47, 0x36,
];
const SPAN: [u8; 8] = [0x00, 0xf0, 0x67, 0xaa, 0x0b, 0xa9, 0x02, 0xb7];
const HEADER: &str = "00-4bf92f3577b34da6a3ce929d0e0e4736-00f067aa0ba902b7-01";

fn carrier_with(name: &str, value: &str) -> Carrier {
    let mut c = Carrier::new();
    c.entries.push(Entry { name: "content-type".to_string(), value: "application/grpc".to_string() });
    c.entries.push(Entry { name: name.to_string(), value: value.to_string() });
    c
}

#[test]
fn extract_reads_standard_header() {
    let c = extract(&carrier_with("traceparent", HEADER)).expect("context");
    assert_eq!(c.trace_id, TRACE.to_vec());
    assert_eq!(c.span_id, SPAN.to_vec());
    assert!(c.sampled);
}

#[test]
fn extract_matches_name_without_case() {
    let c = extract(&carrier_with("TraceParent", HEADER)).expect("context");
    assert_eq!(c.span_id, SPAN.to_vec());
}

#[test]
fn extract_missing_key_is_absent() {
    assert!(extract(&Carrier::new()).is_none());
    assert!(extract(&carrier_with("tracestate", "a=b")).is_none());
}

#[test]
fn extract_malformed_values_are_absent() {
    let bad = [
        "",
        "00-4bf92f3577b34da6a3ce929d0e0e4736-00f067aa0ba902b7-0",
        "00-4bf92f3577b34da6a3ce929d0e0e4736-00f067aa0ba902b7-011",
        "00-4BF92F3577B34DA6A3CE929D0E0E4736-00f067aa0ba902b7-01",
        "00-4bf92f3577b34da6a3ce929d0e0e473g-00f067aa0ba902b7-01",
        "00-4bf92f3577b34da6a3ce929d0e0e4736-00f067aa0ba902bz-01",
        "00-4bf92f3577b34da6a3ce929d0e0e4736-00f067aa0ba902b7-0x",
        "01-4bf92f3577b34da6a3ce929d0e0e4736-00f067aa0ba902b7-01",
        "00_4bf92f3577b34da6a3ce929d0e0e4736-00f067aa0ba902b7-01",
        "00-00000000000000000000000000000000-00f067aa0ba902b7-01",
        "00-4bf92f3577b34da6a3ce929d0e0e4736-0000000000000000-01",
        "00-4bf92f3577b34da6a3ce929d0e0e47é-00f067aa0ba902b7-01",
    ];
    for v in bad.iter() {
        assert!(extract(&carrier_with("traceparent", v)).is_none(), "{}", v);
    }
}

#[test]
fn unsampled_flag_is_read() {
    let c = extract(&carrier_with(
        "traceparent",
        "00-4bf92f3577b34da6a3ce929d0e0e4736-00f067aa0ba902b7-00",
    ))
    .expect("context");
    assert!(!c.sampled);
}

#[test]
fn to_traceparent_writes_standard_text() {
    let c = TraceContext { trace_id: TRACE.to_vec(), span_id: SPAN.to_vec(), sampled: true };
    assert_eq!(c.to_traceparent(), HEADER);
    let u = TraceContext { trace_id: TRACE.to_vec(), span_id: SPAN.to_vec(), sampled: false };
    assert_eq!(u.to_traceparent(), "00-4bf92f3577b34da6a3ce929d0e0e4736-00f067aa0ba902b7-00");
}

#[test]
fn from_traceparent_parses_text() {
    let c = TraceContext::from_traceparent(HEADER).expect("context");
    assert_eq!(c.trace_id, TRACE.to_vec());
    assert!(TraceContext::from_traceparent("garbage").is_none());
}

#[test]
fn inject_then_extract_round_trips() {
    let c = TraceContext { trace_id: TRACE.to_vec(), span_id: SPAN.to_vec(), sampled: false };
    let mut carrier = carrier_with("TRACEPARENT", "stale");
    inject(&c, &mut carrier);
    assert_eq!(carrier.get("traceparent"), Some("00-4bf92f3577b34da6a3ce929d0e0e4736-00f067aa0ba902b7-00"));
    assert_eq!(carrier.keys(), vec!["content-type", "traceparent"]);
    let back = extract(&carrier).expect("context");
    assert_eq!(back.trace_id, c.trace_id);
    assert_eq!(back.span_id, c.span_id);
    assert_eq!(back.sampled, c.sampled);
}

#[test]
fn carrier_get_returns_first_match() {
    let mut c = carrier_with("X-Id", "one");
    c.entries.push(Entry { name: "x-id".to_string(), value: "two".to_string() });
    assert_eq!(c.get("x-ID"), Some("one"));
    assert_eq!(c.get("missing"), None);
    c.set("x-id", "three");
    assert_eq!(c.get("X-ID"), Some("three"));
    assert_eq!(c.entries.len(), 2);
}

#[test]
fn keys_lists_each_name_once() {
    let mut c = Carrier::new();
    for (n, v) in [
        ("content-type", "application/grpc"),
        ("x-a", "1"),
        ("X-A", "2"),
        ("traceparent", "00-4bf92f3577b34da6a3ce929d0e0e4736-00f067aa0ba902b7-01"),
        ("x-a", "3"),
    ]
    .iter()
    {
        c.entries.push(Entry { name: n.to_string(), value: v.to_string() });
    }
    assert_eq!(c.keys(), vec!["content-type", "x-a", "traceparent"]);
    assert_eq!(Carrier::new().keys(), Vec::<&str>::new());
}
