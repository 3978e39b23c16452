//! Where closed spans go: local records always, a remote collector when one
//! is configured. The choice is made once, when instrumentation is installed.
use vstd::prelude::*;
use crate::hex::{append_hex, hex_of};
use crate::span::{end_span, status_of, CallOutcome, FinishedSpan, Span, SpanStatus};

verus! {

/// A destination for closed spans.
#[derive(Clone, Copy, Debug, PartialEq, Eq, Structural)]
pub enum Sink {
    /// One structured record per span on the process's log stream.
    Local,
    /// Batched, best-effort export to a trace collector.
    Remote,
}

/// The sinks of a process: local only, or local and a remote collector.
#[derive(Debug)]
pub enum ExportPipeline {
    LocalOnly,
    LocalAndRemote { endpoint: String, service_name: String },
}

impl ExportPipeline {
    pub open spec fn sinks_spec(&self) -> Seq<Sink> {
        match self {
            ExportPipeline::LocalOnly => seq![Sink::Local],
            ExportPipeline::LocalAndRemote { .. } => seq![Sink::Local, Sink::Remote],
        }
    }
}

/// Why instrumentation could not be installed.
#[derive(Clone, Copy, Debug, PartialEq, Eq, Structural)]
pub enum InstallError {
    /// The collector address is not a URI.
    InvalidCollectorAddress,
    /// Instrumentation was installed before.
    AlreadyInstalled,
}

/// Whether `s` parses as a URI.
pub uninterp spec fn uri_accepts(s: Seq<char>) -> bool;

/// Relies on `http::Uri`'s `FromStr`, which tonic uses for a channel's
/// endpoint: whether the address parses as a URI.
#[verifier::external_body]
fn parses_as_uri(s: &str) -> (r: bool)
    ensures
        r == uri_accepts(s@),
{
    s.parse::<http::Uri>().is_ok()
}

/// The outcome of choosing sinks for a service and an optional collector
/// address: local only where the address is absent or empty, local and
/// remote where it is a URI, an error otherwise.
pub open spec fn selection(service_name: Seq<char>, collector: Option<Seq<char>>) -> Result<
    (Seq<Sink>, Seq<char>, Seq<char>),
    InstallError,
> {
    match collector {
        Some(a) => if a.len() == 0 {
            Ok((seq![Sink::Local], Seq::empty(), Seq::empty()))
        } else if uri_accepts(a) {
            Ok((seq![Sink::Local, Sink::Remote], a, service_name))
        } else {
            Err(InstallError::InvalidCollectorAddress)
        },
        None => Ok((seq![Sink::Local], Seq::empty(), Seq::empty())),
    }
}

pub open spec fn pipeline_view(p: ExportPipeline) -> (Seq<Sink>, Seq<char>, Seq<char>) {
    match p {
        ExportPipeline::LocalOnly => (seq![Sink::Local], Seq::empty(), Seq::empty()),
        ExportPipeline::LocalAndRemote { endpoint, service_name } => (
            seq![Sink::Local, Sink::Remote],
            endpoint@,
            service_name@,
        ),
    }
}

pub open spec fn selected(r: Result<ExportPipeline, InstallError>) -> Result<
    (Seq<Sink>, Seq<char>, Seq<char>),
    InstallError,
> {
    match r {
        Ok(p) => Ok(pipeline_view(p)),
        Err(e) => Err(e),
    }
}

impl ExportPipeline {
    /// Chooses the sinks for `service_name` and an optional collector address.
    pub fn select(service_name: &str, collector: Option<&str>) -> (r: Result<ExportPipeline, InstallError>)
        ensures
            selected(r) == selection(
                service_name@,
                match collector {
                    Some(a) => Some(a@),
                    None => None,
                },
            ),
    {
        match collector {
            Some(a) => {
                if a.is_empty() {
                    Ok(ExportPipeline::LocalOnly)
                } else if parses_as_uri(a) {
                    Ok(
                        ExportPipeline::LocalAndRemote {
                            endpoint: a.to_owned(),
                            service_name: service_name.to_owned(),
                        },
                    )
                } else {
                    Err(InstallError::InvalidCollectorAddress)
                }
            },
            None => Ok(ExportPipeline::LocalOnly),
        }
    }

    /// The sinks, local first.
    pub fn sinks(&self) -> (r: Vec<Sink>)
        ensures
            r@ == self.sinks_spec(),
    {
        let mut r: Vec<Sink> = Vec::new();
        r.push(Sink::Local);
        match self {
            ExportPipeline::LocalOnly => {},
            ExportPipeline::LocalAndRemote { .. } => {
                r.push(Sink::Remote);
            },
        }
        assert(r@ =~= self.sinks_spec());
        r
    }
}

/// The structured record that the local sink writes for one span.
#[derive(Debug)]
pub struct LogRecord {
    pub trace_id: String,
    pub span_id: String,
    pub parent_span_id: Option<String>,
    pub name: String,
    pub start_time: u64,
    pub end_time: u64,
    pub status: SpanStatus,
}

/// What the sinks receive for one closed span.
#[derive(Debug)]
pub struct Dispatch {
    pub local: LogRecord,
    pub remote: Option<RemoteExport>,
}

/// A span for the remote collector, with where and as which service.
#[derive(Debug)]
pub struct RemoteExport {
    pub span: FinishedSpan,
    pub endpoint: String,
    pub service_name: String,
}

/// Whether `r` is the record of `span`: ids in lower-case hex, the other
/// fields as they are.
pub open spec fn records(r: LogRecord, span: FinishedSpan) -> bool {
    &&& r.trace_id@ == hex_of(span.trace_id@)
    &&& r.span_id@ == hex_of(span.span_id@)
    &&& match span.parent_span_id {
        Some(p) => r.parent_span_id.is_some() && r.parent_span_id.unwrap()@ == hex_of(p@),
        None => r.parent_span_id.is_none(),
    }
    &&& r.name@ == span.name@
    &&& r.start_time == span.start_time
    &&& r.end_time == span.end_time
    &&& r.status == span.status
}

fn hex_string(b: &Vec<u8>) -> (r: String)
    ensures
        r@ == hex_of(b@),
{
    let mut r = String::new();
    append_hex(&mut r, b);
    r
}

/// The local record of `span`.
pub fn local_record(span: &FinishedSpan) -> (r: LogRecord)
    ensures
        records(r, *span),
{
    let parent_span_id = match &span.parent_span_id {
        Some(p) => Some(hex_string(p)),
        None => None,
    };
    LogRecord {
        trace_id: hex_string(&span.trace_id),
        span_id: hex_string(&span.span_id),
        parent_span_id,
        name: span.name.clone(),
        start_time: span.start_time,
        end_time: span.end_time,
        status: span.status,
    }
}

impl ExportPipeline {
    /// Hands a closed span to the sinks: always a local record, and the span
    /// itself to the collector where there is one. The span is consumed, so it
    /// is handed on once.
    pub fn dispatch(&self, span: FinishedSpan) -> (r: Dispatch)
        ensures
            records(r.local, span),
            r.remote.is_some() == self.sinks_spec().contains(Sink::Remote),
            r.remote.is_some() ==> r.remote.unwrap().span == span && (pipeline_view(*self).1,
            pipeline_view(*self).2) == (r.remote.unwrap().endpoint@, r.remote.unwrap().service_name@),
    {
        let local = local_record(&span);
        let remote = match self {
            ExportPipeline::LocalOnly => None,
            ExportPipeline::LocalAndRemote { endpoint, service_name } => Some(
                RemoteExport { span, endpoint: endpoint.clone(), service_name: service_name.clone() },
            ),
        };
        proof {
            assert(seq![Sink::Local][0] == Sink::Local);
            assert(seq![Sink::Local, Sink::Remote][1] == Sink::Remote);
        }
        Dispatch { local, remote }
    }
}

impl ExportPipeline {
    /// Ends a call: closes its span with the status for `outcome`, whatever
    /// that outcome was, and hands the closed span to the sinks. The span is
    /// consumed, so this happens once per span.
    pub fn finish_call(&self, span: Span, end_time: u64, outcome: CallOutcome) -> (r: Dispatch)
        ensures
            r.local.trace_id@ == hex_of(span.trace_id@),
            r.local.span_id@ == hex_of(span.span_id@),
            r.local.name@ == span.name@,
            r.local.start_time == span.start_time,
            r.local.end_time == end_time,
            r.local.status == status_of(outcome),
            r.remote.is_some() == self.sinks_spec().contains(Sink::Remote),
            match span.parent_span_id {
                Some(p) => r.local.parent_span_id.is_some() && r.local.parent_span_id.unwrap()@
                    == hex_of(p@),
                None => r.local.parent_span_id.is_none(),
            },
            r.remote.is_some() ==> r.remote.unwrap().span.ids() == span.ids()
                && r.remote.unwrap().span.name@ == span.name@
                && r.remote.unwrap().span.start_time == span.start_time
                && r.remote.unwrap().span.status == status_of(outcome)
                && r.remote.unwrap().span.end_time == end_time
                && (r.remote.unwrap().endpoint@, r.remote.unwrap().service_name@) == (
                pipeline_view(*self).1,
                pipeline_view(*self).2,
            ),
    {
        let finished = end_span(span, end_time, outcome);
        self.dispatch(finished)
    }
}

/// Without a collector address, or with an empty one, the only sink is local.
pub proof fn lemma_no_collector_local_only(service_name: Seq<char>, collector: Option<Seq<char>>)
    requires
        collector.is_none() || collector.unwrap().len() == 0,
    ensures
        selection(service_name, collector) == Ok::<_, InstallError>(
            (seq![Sink::Local], Seq::<char>::empty(), Seq::<char>::empty()),
        ),
        !selection(service_name, collector).unwrap().0.contains(Sink::Remote),
{
    assert(seq![Sink::Local][0] != Sink::Remote);
}

/// Every pipeline writes the local record first, whether or not a collector
/// is configured and whether or not it can be reached.
pub proof fn lemma_local_first(p: ExportPipeline)
    ensures
        p.sinks_spec()[0] == Sink::Local,
{
}

/// Process-wide instrumentation: uninstalled until `install` succeeds, and
/// then installed for good.
pub struct Instrumentation {
    pipeline: Option<ExportPipeline>,
}

pub open spec fn installed_view(p: Option<ExportPipeline>) -> Option<(Seq<Sink>, Seq<char>, Seq<char>)> {
    match p {
        Some(q) => Some(pipeline_view(q)),
        None => None,
    }
}

impl Instrumentation {
    pub closed spec fn view_pipeline(&self) -> Option<(Seq<Sink>, Seq<char>, Seq<char>)> {
        installed_view(self.pipeline)
    }

    pub fn new() -> (r: Instrumentation)
        ensures
            r.view_pipeline().is_none(),
    {
        Instrumentation { pipeline: None }
    }

    /// Installs the pipeline chosen for `service_name` and `collector`. Fails
    /// with `AlreadyInstalled` once installed, and with the selection's error
    /// where the address is not a URI; a failed call changes nothing.
    pub fn install(&mut self, service_name: &str, collector: Option<&str>) -> (r: Result<
        (),
        InstallError,
    >)
        ensures
            old(self).view_pipeline().is_some() ==> r == Err::<(), _>(InstallError::AlreadyInstalled)
                && final(self).view_pipeline() == old(self).view_pipeline(),
            old(self).view_pipeline().is_none() ==> match selection(
                service_name@,
                match collector {
                    Some(a) => Some(a@),
                    None => None,
                },
            ) {
                Ok(v) => r == Ok::<(), InstallError>(()) && final(self).view_pipeline() == Some(v),
                Err(e) => r == Err::<(), _>(e) && final(self).view_pipeline().is_none(),
            },
    {
        if self.pipeline.is_some() {
            return Err(InstallError::AlreadyInstalled);
        }
        match ExportPipeline::select(service_name, collector) {
            Ok(p) => {
                self.pipeline = Some(p);
                Ok(())
            },
            Err(e) => Err(e),
        }
    }

    pub fn is_installed(&self) -> (r: bool)
        ensures
            r == self.view_pipeline().is_some(),
    {
        self.pipeline.is_some()
    }

    /// The installed pipeline, if any.
    pub fn pipeline(&self) -> (r: Option<&ExportPipeline>)
        ensures
            installed_view(match r {
                Some(p) => Some(*p),
                None => None,
            }) == self.view_pipeline(),
    {
        match &self.pipeline {
            Some(p) => Some(p),
            None => None,
        }
    }
}

} // verus!
