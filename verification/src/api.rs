//! The delivery pipeline: per-stream batch sender with response
//! classification, adaptive window size and a bounded retry ladder, and the
//! flush-cycle reconciliation of the two streams.

use std::io::Write;

use vstd::prelude::*;
use vstd::string::StringSliceAdditionalSpecFns;

use crate::json::{json_logs_array, json_spans_array};
use crate::types::{NewrLogs, NewrSpans};
use crate::utils::parse_u64_spec;

verus! {

/// An ingestion endpoint choice: a named region or an override base URL.
#[derive(Debug)]
pub enum ApiEndpoint {
    /// United States (the default).
    US,
    /// European Union.
    EU,
    /// An arbitrary base URL.
    Custom(String),
}

impl Default for ApiEndpoint {
    /// The default region.
    fn default() -> (r: Self)
        ensures
            r is US,
    {
        ApiEndpoint::US
    }
}

impl Clone for ApiEndpoint {
    fn clone(&self) -> (r: Self)
        ensures
            r == *self,
    {
        match self {
            ApiEndpoint::US => ApiEndpoint::US,
            ApiEndpoint::EU => ApiEndpoint::EU,
            ApiEndpoint::Custom(s) => ApiEndpoint::Custom(s.clone()),
        }
    }
}

/// The delivery-side configuration and the two pending-batch queues.
#[derive(Debug)]
pub struct Api {
    /// Endpoint for the log stream.
    pub log_endpoint: ApiEndpoint,
    /// Endpoint for the span stream.
    pub trace_endpoint: ApiEndpoint,
    /// The opaque API credential sent with every request.
    pub key: String,
    /// How many buffered batches trigger a flush.
    pub batch_size: usize,
    /// Buffered log payloads, one per finished trace, oldest first.
    pub logs_queue: Vec<NewrLogs>,
    /// Buffered span payloads, one per finished trace, oldest first.
    pub spans_queue: Vec<NewrSpans>,
}

impl Api {
    /// The buffered log batches.
    pub open spec fn spec_logs_queue(self) -> Seq<NewrLogs> {
        self.logs_queue@
    }

    /// The buffered span batches.
    pub open spec fn spec_spans_queue(self) -> Seq<NewrSpans> {
        self.spans_queue@
    }

    /// Whether two values share endpoints, key and batch size.
    pub open spec fn same_config(self, other: Self) -> bool {
        &&& self.log_endpoint == other.log_endpoint
        &&& self.trace_endpoint == other.trace_endpoint
        &&& self.key == other.key
        &&& self.batch_size == other.batch_size
    }

    /// Buffer one trace's payloads; report whether either queue has reached
    /// the flush threshold.
    pub fn push(&mut self, logs: NewrLogs, traces: NewrSpans) -> (flush_now: bool)
        ensures
            final(self).spec_logs_queue() == old(self).spec_logs_queue().push(logs),
            final(self).spec_spans_queue() == old(self).spec_spans_queue().push(traces),
            final(self).same_config(*old(self)),
            flush_now == {
                ||| final(self).spec_logs_queue().len() >= old(self).batch_size
                ||| final(self).spec_spans_queue().len() >= old(self).batch_size
            },
    {
        self.logs_queue.push(logs);
        self.spans_queue.push(traces);
        self.logs_queue.len() >= self.batch_size || self.spans_queue.len() >= self.batch_size
    }

    /// Hand both queues to a flush cycle, leaving them empty.
    pub fn take_queues(&mut self) -> (r: (Vec<NewrLogs>, Vec<NewrSpans>))
        ensures
            r.0@ == old(self).spec_logs_queue(),
            r.1@ == old(self).spec_spans_queue(),
            final(self).spec_logs_queue().len() == 0,
            final(self).spec_spans_queue().len() == 0,
            final(self).same_config(*old(self)),
    {
        let logs = self.logs_queue.split_off(0);
        let spans = self.spans_queue.split_off(0);
        proof {
            assert(logs@ =~= old(self).spec_logs_queue());
            assert(spans@ =~= old(self).spec_spans_queue());
        }
        (logs, spans)
    }
}

impl Default for Api {
    /// US endpoints, an empty credential, a flush threshold of ten, and
    /// empty queues.
    fn default() -> (r: Self)
        ensures
            r.log_endpoint is US,
            r.trace_endpoint is US,
            r.key@ == Seq::<char>::empty(),
            r.batch_size == 10,
            r.spec_logs_queue().len() == 0,
            r.spec_spans_queue().len() == 0,
    {
        Api {
            log_endpoint: ApiEndpoint::US,
            trace_endpoint: ApiEndpoint::US,
            key: String::new(),
            batch_size: 10,
            logs_queue: Vec::new(),
            spans_queue: Vec::new(),
        }
    }
}

impl Api {
    /// A default configuration carrying the given credential.
    pub fn from_key(key: String) -> (r: Self)
        ensures
            r.log_endpoint is US,
            r.trace_endpoint is US,
            r.key == key,
            r.batch_size == 10,
            r.spec_logs_queue().len() == 0,
            r.spec_spans_queue().len() == 0,
    {
        Api {
            log_endpoint: ApiEndpoint::US,
            trace_endpoint: ApiEndpoint::US,
            key,
            batch_size: 10,
            logs_queue: Vec::new(),
            spans_queue: Vec::new(),
        }
    }

    /// A default configuration carrying the given credential, aimed at the
    /// given region for both streams.
    pub fn from_key_endpoint(key: String, endpoint: ApiEndpoint) -> (r: Self)
        ensures
            r.log_endpoint == r.trace_endpoint,
            r.trace_endpoint == endpoint,
            r.key == key,
            r.batch_size == 10,
            r.spec_logs_queue().len() == 0,
            r.spec_spans_queue().len() == 0,
    {
        Api {
            log_endpoint: endpoint.clone(),
            trace_endpoint: endpoint,
            key,
            batch_size: 10,
            logs_queue: Vec::new(),
            spans_queue: Vec::new(),
        }
    }
}

impl From<String> for Api {
    fn from(key: String) -> (r: Self) {
        Api::from_key(key)
    }
}

impl vstd::std_specs::convert::FromSpecImpl<String> for Api {
    open spec fn obeys_from_spec() -> bool {
        false
    }

    open spec fn from_spec(v: String) -> Self {
        arbitrary()
    }
}

impl<'a> From<&'a str> for Api {
    fn from(key: &'a str) -> (r: Self) {
        Api::from_key(key.to_owned())
    }
}

impl<'a> vstd::std_specs::convert::FromSpecImpl<&'a str> for Api {
    open spec fn obeys_from_spec() -> bool {
        false
    }

    open spec fn from_spec(v: &'a str) -> Self {
        arbitrary()
    }
}

impl From<(String, ApiEndpoint)> for Api {
    fn from(t: (String, ApiEndpoint)) -> (r: Self) {
        Api::from_key_endpoint(t.0, t.1)
    }
}

impl vstd::std_specs::convert::FromSpecImpl<(String, ApiEndpoint)> for Api {
    open spec fn obeys_from_spec() -> bool {
        false
    }

    open spec fn from_spec(v: (String, ApiEndpoint)) -> Self {
        arbitrary()
    }
}

/// What one delivery attempt reports back to the flush cycle.
#[derive(Clone, Copy, Debug, PartialEq, Eq, Structural)]
pub enum ServiceStatus {
    /// Wait this many seconds before the next attempt.
    Timeout(u64),
    /// Progress was made and data remains to be sent.
    Remaining,
    /// This stream is done for the cycle, by success or by giving up.
    Finished,
}

/// Model of a [`Service`]: the unsent suffix, the window size and the retry
/// counter.
#[verifier::ext_equal]
pub struct ServiceV<T> {
    pub pending: Seq<T>,
    pub batch_len: int,
    pub retry_count: int,
}

/// How many leading items the next request carries.
pub open spec fn spec_window_of<T>(s: ServiceV<T>) -> int {
    if s.batch_len <= s.pending.len() {
        s.batch_len
    } else {
        s.pending.len() as int
    }
}

/// The codes the endpoint answers that no retry can mend.
pub open spec fn is_fatal_client_error(code: u16) -> bool {
    code == 400 || code == 401 || code == 403 || code == 404 || code == 405 || code == 409 || code
        == 410 || code == 411
}

/// Two to the power `n`.
pub open spec fn spec_pow2(n: int) -> u64
    decreases n,
{
    if n <= 0 {
        1
    } else {
        (2 * spec_pow2(n - 1)) as u64
    }
}

/// The escalating schedule applied to transient failures: retry at once on
/// the first, wait `2^(n-1)` seconds on the following ones, give up (and
/// drop the payload) after the sixth.
pub open spec fn retry_ladder_step<T>(s: ServiceV<T>) -> (ServiceV<T>, ServiceStatus) {
    if s.retry_count == 0 {
        (ServiceV { retry_count: 1, ..s }, ServiceStatus::Timeout(0))
    } else if s.retry_count <= 5 {
        (
            ServiceV { retry_count: s.retry_count + 1, ..s },
            ServiceStatus::Timeout(spec_pow2(s.retry_count - 1)),
        )
    } else {
        (ServiceV { pending: Seq::empty(), ..s }, ServiceStatus::Finished)
    }
}

/// How one response changes the service and what the attempt reports:
/// success drops the sent window and resets the retry counter; a fatal
/// client error drops everything; `413` halves the window, or drops a
/// one-item payload; `429` waits out a well-formed `retry-after` header and
/// otherwise drops everything; any other answer, and a transport failure,
/// climbs the retry ladder.
pub open spec fn service_step<T>(
    s: ServiceV<T>,
    status: Option<u16>,
    retry_after: Option<Seq<u8>>,
) -> (ServiceV<T>, ServiceStatus) {
    let w = spec_window_of(s);
    match status {
        Some(code) => if 200 <= code <= 299 {
            let rest = s.pending.skip(w);
            (
                ServiceV { pending: rest, batch_len: s.batch_len, retry_count: 0 },
                if rest.len() == 0 {
                    ServiceStatus::Finished
                } else {
                    ServiceStatus::Remaining
                },
            )
        } else if is_fatal_client_error(code) {
            (ServiceV { pending: Seq::empty(), ..s }, ServiceStatus::Finished)
        } else if code == 413 {
            if w <= 1 {
                (ServiceV { pending: Seq::empty(), ..s }, ServiceStatus::Finished)
            } else {
                (ServiceV { batch_len: w / 2, ..s }, ServiceStatus::Remaining)
            }
        } else if code == 429 {
            match retry_after {
                Some(h) => match parse_u64_spec(h) {
                    Some(d) => (s, ServiceStatus::Timeout(d)),
                    None => (ServiceV { pending: Seq::empty(), ..s }, ServiceStatus::Finished),
                },
                None => (ServiceV { pending: Seq::empty(), ..s }, ServiceStatus::Finished),
            }
        } else {
            retry_ladder_step(s)
        },
        None => retry_ladder_step(s),
    }
}

/// The per-stream batch sender: owns the items still to send, the size of
/// the next window, and the retry counter.
#[derive(Debug)]
pub struct Service<T> {
    pending: Vec<T>,
    batch_len: usize,
    retry_count: u32,
}

impl<T> View for Service<T> {
    type V = ServiceV<T>;

    closed spec fn view(&self) -> ServiceV<T> {
        ServiceV {
            pending: self.pending@,
            batch_len: self.batch_len as int,
            retry_count: self.retry_count as int,
        }
    }
}

impl<T> Service<T> {
    /// A sender for `data`, starting with the whole of it as one window.
    pub fn new(data: Vec<T>) -> (r: Self)
        ensures
            r@.pending == data@,
            r@.batch_len == data@.len(),
            r@.retry_count == 0,
    {
        let batch_len = data.len();
        Service { pending: data, batch_len, retry_count: 0 }
    }

    /// How many leading items the next request carries.
    pub fn window_len(&self) -> (r: usize)
        ensures
            r == spec_window_of(self@),
    {
        if self.batch_len <= self.pending.len() {
            self.batch_len
        } else {
            self.pending.len()
        }
    }

    /// The items of the next request: the leading window of the unsent
    /// suffix.
    pub fn window(&self) -> (r: &[T])
        ensures
            r@ == self@.pending.take(spec_window_of(self@)),
    {
        let w = self.window_len();
        let r = &self.pending.as_slice()[0..w];
        proof {
            assert(r@ =~= self@.pending.take(spec_window_of(self@)));
        }
        r
    }

    /// Whether anything is left to send.
    pub fn is_empty(&self) -> (r: bool)
        ensures
            r == (self@.pending.len() == 0),
    {
        self.pending.len() == 0
    }

    /// Climb the retry ladder after a transient failure.
    pub fn retry(&mut self) -> (r: ServiceStatus)
        ensures
            ({
                let (sv, st) = retry_ladder_step(old(self)@);
                final(self)@ == sv && r == st
            }),
    {
        if self.retry_count == 0 {
            self.retry_count = 1;
            ServiceStatus::Timeout(0)
        } else if self.retry_count <= 5 {
            let s: u64 = match self.retry_count {
                1 => 1,
                2 => 2,
                3 => 4,
                4 => 8,
                _ => 16,
            };
            self.retry_count = self.retry_count + 1;
            proof {
                reveal_with_fuel(spec_pow2, 6);
                assert(spec_pow2(0) == 1 && spec_pow2(1) == 2 && spec_pow2(2) == 4 && spec_pow2(3)
                    == 8 && spec_pow2(4) == 16);
                assert(final(self)@ =~= retry_ladder_step(old(self)@).0);
            }
            ServiceStatus::Timeout(s)
        } else {
            self.pending.clear();
            proof {
                assert(final(self)@ =~= retry_ladder_step(old(self)@).0);
            }
            ServiceStatus::Finished
        }
    }

    /// Record the answer to one request: apply the classification of
    /// [`service_step`] to the sender's state.
    ///
    /// `status` is the response's status code, or nothing on a transport
    /// failure; `retry_after` is the raw `retry-after` header if one came.
    pub fn on_response(&mut self, status: Option<u16>, retry_after: Option<&str>) -> (r:
        ServiceStatus)
        requires
            old(self)@.pending.len() > 0,
        ensures
            ({
                let (sv, st) = service_step(
                    old(self)@,
                    status,
                    match retry_after {
                        Some(h) => Some(h.spec_bytes()),
                        None => None,
                    },
                );
                final(self)@ == sv && r == st
            }),
    {
        let w = self.window_len();
        match status {
            None => self.retry(),
            Some(code) => {
                if 200 <= code && code <= 299 {
                    self.retry_count = 0;
                    let rest = self.pending.split_off(w);
                    self.pending = rest;
                    proof {
                        assert(final(self)@ =~= service_step(
                            old(self)@,
                            status,
                            match retry_after {
                                Some(h) => Some(h.spec_bytes()),
                                None => None,
                            },
                        ).0);
                    }
                    if self.pending.len() == 0 {
                        ServiceStatus::Finished
                    } else {
                        ServiceStatus::Remaining
                    }
                } else if code == 400 || code == 401 || code == 403 || code == 404 || code == 405
                    || code == 409 || code == 410 || code == 411 {
                    self.pending.clear();
                    ServiceStatus::Finished
                } else if code == 413 {
                    if w <= 1 {
                        self.pending.clear();
                        ServiceStatus::Finished
                    } else {
                        self.batch_len = w / 2;
                        ServiceStatus::Remaining
                    }
                } else if code == 429 {
                    let secs = match retry_after {
                        Some(h) => crate::utils::parse_u64(h),
                        None => None,
                    };
                    match secs {
                        Some(d) => ServiceStatus::Timeout(d),
                        None => {
                            self.pending.clear();
                            ServiceStatus::Finished
                        },
                    }
                } else {
                    self.retry()
                }
            },
        }
    }
}

/// What the flush cycle does after one joint attempt.
#[derive(Clone, Copy, Debug, PartialEq, Eq, Structural)]
pub enum FlushStep {
    /// Sleep this many seconds, then try again.
    Sleep(u64),
    /// Try again at once: at least one stream made progress.
    Continue,
    /// Both streams are drained or gave up; the cycle is over.
    Done,
}

/// How one joint attempt's pair of outcomes is reconciled: when both streams
/// must wait, sleep the longer of the two waits; when one must wait, sleep
/// its wait; when both are finished, stop; otherwise go round again at once.
pub open spec fn spec_flush_step(a: ServiceStatus, b: ServiceStatus) -> FlushStep {
    match (a, b) {
        (ServiceStatus::Timeout(d1), ServiceStatus::Timeout(d2)) => FlushStep::Sleep(
            if d1 >= d2 {
                d1
            } else {
                d2
            },
        ),
        (ServiceStatus::Timeout(d), _) => FlushStep::Sleep(d),
        (_, ServiceStatus::Timeout(d)) => FlushStep::Sleep(d),
        (ServiceStatus::Finished, ServiceStatus::Finished) => FlushStep::Done,
        _ => FlushStep::Continue,
    }
}

/// Reconcile the two streams' outcomes for one flush-cycle iteration.
pub fn flush_step(a: ServiceStatus, b: ServiceStatus) -> (r: FlushStep)
    ensures
        r == spec_flush_step(a, b),
{
    match (a, b) {
        (ServiceStatus::Timeout(d1), ServiceStatus::Timeout(d2)) => FlushStep::Sleep(
            if d1 >= d2 {
                d1
            } else {
                d2
            },
        ),
        (ServiceStatus::Timeout(d), _) => FlushStep::Sleep(d),
        (_, ServiceStatus::Timeout(d)) => FlushStep::Sleep(d),
        (ServiceStatus::Finished, ServiceStatus::Finished) => FlushStep::Done,
        _ => FlushStep::Continue,
    }
}

/// What flate2's gzip encoder produces for the given bytes. The encoding is
/// a function of the input alone: the stream header is fixed (zero
/// modification time, operating-system byte 255) and the compressor is the
/// pure-Rust backend.
pub uninterp spec fn gz_of(data: Seq<u8>) -> Seq<u8>;

/// Relies on `flate2::write::GzEncoder` with `Compression::fast`: the gzip
/// encoding of the input bytes.
#[verifier::external_body]
fn to_gz(data: &[u8]) -> (r: Vec<u8>)
    ensures
        r@ == gz_of(data@),
{
    let mut encoder = flate2::write::GzEncoder::new(Vec::new(), flate2::Compression::fast());
    encoder.write_all(data).unwrap_or(());
    encoder.finish().unwrap_or_default()
}

/// One delivery request, ready for a transport to send: the endpoint URL,
/// the headers, and the compressed body.
#[derive(Debug)]
pub struct HttpRequest {
    /// Where to POST.
    pub url: String,
    /// The headers to set, in order.
    pub headers: Vec<(String, String)>,
    /// The gzip-compressed JSON body.
    pub body: Vec<u8>,
}

/// The log-stream endpoint URL for the chosen region or override base.
pub open spec fn spec_log_url(e: ApiEndpoint) -> Seq<char> {
    match e {
        ApiEndpoint::US => "https://log-api.newrelic.com/log/v1"@,
        ApiEndpoint::EU => "https://log-api.eu.newrelic.com/log/v1"@,
        ApiEndpoint::Custom(d) => d@ + "/log/v1"@,
    }
}

/// The span-stream endpoint URL for the chosen region or override base.
pub open spec fn spec_trace_url(e: ApiEndpoint) -> Seq<char> {
    match e {
        ApiEndpoint::US => "https://trace-api.newrelic.com/trace/v1"@,
        ApiEndpoint::EU => "https://trace-api.eu.newrelic.com/trace/v1"@,
        ApiEndpoint::Custom(d) => d@ + "/trace/v1"@,
    }
}

/// The headers of a log-stream request: JSON content, gzip encoding, and the
/// credential.
pub open spec fn spec_log_headers(key: Seq<char>) -> Seq<(Seq<char>, Seq<char>)> {
    seq![
        ("content-type"@, "application/json"@),
        ("content-encoding"@, "gzip"@),
        ("Api-Key"@, key),
    ]
}

/// The headers of a span-stream request: as for logs, plus the two fixed
/// format-identification headers.
pub open spec fn spec_trace_headers(key: Seq<char>) -> Seq<(Seq<char>, Seq<char>)> {
    spec_log_headers(key) + seq![("Data-Format"@, "newrelic"@), ("Data-Format-Version"@, "1"@)]
}

/// The header pairs as sequences of characters.
pub open spec fn headers_view(hs: Seq<(String, String)>) -> Seq<(Seq<char>, Seq<char>)> {
    hs.map_values(|kv: (String, String)| (kv.0@, kv.1@))
}

fn base_headers(key: &String) -> (r: Vec<(String, String)>)
    ensures
        headers_view(r@) == spec_log_headers(key@),
{
    let mut headers: Vec<(String, String)> = Vec::new();
    headers.push((String::from_str("content-type"), String::from_str("application/json")));
    headers.push((String::from_str("content-encoding"), String::from_str("gzip")));
    headers.push((String::from_str("Api-Key"), key.clone()));
    proof {
        assert(headers_view(headers@) =~= spec_log_headers(key@));
    }
    headers
}

impl NewrLogs {
    /// The request that sends this window of log payloads: the region's log
    /// endpoint, the standard headers, and the compressed JSON body.
    pub fn build_request(data: &[NewrLogs], api: &Api) -> (r: HttpRequest)
        ensures
            r.url@ == spec_log_url(api.log_endpoint),
            headers_view(r.headers@) == spec_log_headers(api.key@),
            r.body@ == gz_of(json_logs_array(data@.map_values(|b: NewrLogs| b@))),
    {
        let url = match &api.log_endpoint {
            ApiEndpoint::US => String::from_str("https://log-api.newrelic.com/log/v1"),
            ApiEndpoint::EU => String::from_str("https://log-api.eu.newrelic.com/log/v1"),
            ApiEndpoint::Custom(d) => {
                let mut u = d.clone();
                u.append("/log/v1");
                u
            },
        };
        let headers = base_headers(&api.key);
        let json = crate::json::logs_body(data);
        let body = to_gz(json.as_slice());
        HttpRequest { url, headers, body }
    }
}

impl NewrSpans {
    /// The request that sends this window of span payloads: the region's
    /// trace endpoint, the standard and format-identification headers, and
    /// the compressed JSON body.
    pub fn build_request(data: &[NewrSpans], api: &Api) -> (r: HttpRequest)
        ensures
            r.url@ == spec_trace_url(api.trace_endpoint),
            headers_view(r.headers@) == spec_trace_headers(api.key@),
            r.body@ == gz_of(json_spans_array(data@.map_values(|b: NewrSpans| b@))),
    {
        let url = match &api.trace_endpoint {
            ApiEndpoint::US => String::from_str("https://trace-api.newrelic.com/trace/v1"),
            ApiEndpoint::EU => String::from_str("https://trace-api.eu.newrelic.com/trace/v1"),
            ApiEndpoint::Custom(d) => {
                let mut u = d.clone();
                u.append("/trace/v1");
                u
            },
        };
        let mut headers = base_headers(&api.key);
        headers.push((String::from_str("Data-Format"), String::from_str("newrelic")));
        headers.push((String::from_str("Data-Format-Version"), String::from_str("1")));
        proof {
            assert(headers_view(headers@) =~= spec_trace_headers(api.key@));
        }
        let json = crate::json::spans_body(data);
        let body = to_gz(json.as_slice());
        HttpRequest { url, headers, body }
    }
}

} // verus!
