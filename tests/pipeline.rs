use thespian_trace::pipeline::{local_record, ExportPipeline, InstallError, Instrumentation, Sink};
use thespian_trace::span::{begin_span, end_span, CallOutcome, SpanStatus};

fn finished(parent: bool) -> thespian_trace::span::FinishedSpan {
    let p = thespian_trace::context::TraceContext {
        trace_id: vec![0xab; 16],
        span_id: vec![0x01, 0x23, 0x45, 0x67, 0x89, 0xab, 0xcd, 0xef],
        sampled: true,
    };
    let s = if parent {
        begin_span("request received", Some(&p), vec![0; 16], vec![0x10; 8], 100)
    } else {
        begin_span("request received", None, vec![0x0f; 16], vec![0x10; 8], 100)
    };
    end_span(s, 250, CallOutcome::Failed)
}

#[test]
fn no_collector_is_local_only() {
    let p = ExportPipeline::select("svc", None).expect("pipeline");
    assert_eq!(p.sinks(), vec![Sink::Local]);
    let q = ExportPipeline::select("svc", Some("")).expect("pipeline");
    assert_eq!(q.sinks(), vec![Sink::Local]);
    let d = p.dispatch(finished(false));
    assert!(d.remote.is_none());
    assert_eq!(d.local.trace_id, "0f0f0f0f0f0f0f0f0f0f0f0f0f0f0f0f");
}

#[test]
fn collector_adds_remote_sink() {
    let p = ExportPipeline::select("thespian", Some("http://collector:4317")).expect("pipeline");
    assert_eq!(p.sinks(), vec![Sink::Local, Sink::Remote]);
    let d = p.dispatch(finished(true));
    let r = d.remote.expect("remote");
    assert_eq!(r.endpoint, "http://collector:4317");
    assert_eq!(r.service_name, "thespian");
    assert_eq!(r.span.end_time, 250);
    assert_eq!(d.local.parent_span_id, Some("0123456789abcdef".to_string()));
}

#[test]
fn unreachable_collector_still_writes_local_record() {
    let p = ExportPipeline::select("svc", Some("http://127.0.0.1:1")).expect("pipeline");
    let d = p.dispatch(finished(false));
    assert_eq!(d.local.status, SpanStatus::Error);
    assert!(d.remote.is_some());
}

#[test]
fn invalid_collector_address_is_rejected() {
    let r = ExportPipeline::select("svc", Some("not a uri"));
    assert!(matches!(r, Err(InstallError::InvalidCollectorAddress)));
}

#[test]
fn local_record_has_hex_ids() {
    let f = finished(true);
    let r = local_record(&f);
    assert_eq!(r.trace_id, "abababababababababababababababab");
    assert_eq!(r.span_id, "1010101010101010");
    assert_eq!(r.parent_span_id, Some("0123456789abcdef".to_string()));
    assert_eq!(r.name, "request received");
    assert_eq!(r.start_time, 100);
    assert_eq!(r.end_time, 250);
    let root = local_record(&finished(false));
    assert_eq!(root.parent_span_id, None);
}

#[test]
fn install_happens_once() {
    let mut i = Instrumentation::new();
    assert!(!i.is_installed());
    assert_eq!(i.install("svc", Some("bad uri")), Err(InstallError::InvalidCollectorAddress));
    assert!(!i.is_installed());
    assert_eq!(i.install("svc", None), Ok(()));
    assert!(i.is_installed());
    assert_eq!(i.install("svc", Some("http://collector:4317")), Err(InstallError::AlreadyInstalled));
    assert_eq!(i.pipeline().expect("pipeline").sinks(), vec![Sink::Local]);
}

#[test]
fn finish_call_closes_and_dispatches() {
    let p = ExportPipeline::select("svc", Some("http://collector:4317")).expect("pipeline");
    let s = begin_span("request received", None, vec![0x0f; 16], vec![0x10; 8], 7);
    let d = p.finish_call(s, 9, CallOutcome::Cancelled);
    assert_eq!(d.local.status, SpanStatus::Cancelled);
    assert_eq!(d.local.end_time, 9);
    assert_eq!(d.local.span_id, "1010101010101010");
    let r = d.remote.expect("remote");
    assert_eq!(r.span.status, SpanStatus::Cancelled);
}
