//! The delivery state machine: response classification, the retry ladder,
//! window adaptation, rate limiting, and flush-cycle reconciliation.

use tracing_newrelic::api::{flush_step, Api, ApiEndpoint, FlushStep, Service, ServiceStatus};
use tracing_newrelic::types::{NewrCommon, NewrLogs, NewrSpans};
use tracing_newrelic::utils::parse_u64;

fn attrs() -> tracing_newrelic::types::NewrAttributes {
    tracing_newrelic::types::NewrAttributes::new()
}

fn logs_batch() -> NewrLogs {
    NewrLogs { logs: Vec::new(), common: NewrCommon { attributes: attrs() } }
}

fn spans_batch() -> NewrSpans {
    NewrSpans { spans: Vec::new(), common: NewrCommon { attributes: attrs() } }
}

#[test]
fn two_server_errors_then_success_drain_three_items() {
    let mut svc: Service<u32> = Service::new(vec![1, 2, 3]);
    let mut waits: Vec<u64> = Vec::new();

    match svc.on_response(Some(500), None) {
        ServiceStatus::Timeout(d) => waits.push(d),
        other => panic!("expected a timeout, got {:?}", other),
    }
    match svc.on_response(Some(500), None) {
        ServiceStatus::Timeout(d) => waits.push(d),
        other => panic!("expected a timeout, got {:?}", other),
    }
    assert_eq!(waits, vec![0, 1]);

    let s3 = svc.on_response(Some(200), None);
    assert_eq!(s3, ServiceStatus::Finished);
    assert!(svc.is_empty());
}

#[test]
fn payload_too_large_halves_the_window() {
    let mut svc: Service<u32> = Service::new(vec![1, 2, 3, 4]);
    assert_eq!(svc.window_len(), 4);
    let s = svc.on_response(Some(413), None);
    assert_eq!(s, ServiceStatus::Remaining);
    assert_eq!(svc.window_len(), 2);
}

#[test]
fn payload_too_large_on_single_item_drops_it() {
    let mut svc: Service<u32> = Service::new(vec![1]);
    assert_eq!(svc.window_len(), 1);
    let s = svc.on_response(Some(413), None);
    assert_eq!(s, ServiceStatus::Finished);
    assert!(svc.is_empty());
}

#[test]
fn rate_limit_with_retry_after_waits_that_long() {
    let mut svc: Service<u32> = Service::new(vec![1, 2]);
    let s = svc.on_response(Some(429), Some("5"));
    assert_eq!(s, ServiceStatus::Timeout(5));
    assert!(!svc.is_empty());
}

#[test]
fn rate_limit_without_retry_after_finishes_at_once() {
    let mut svc: Service<u32> = Service::new(vec![1, 2]);
    let s = svc.on_response(Some(429), None);
    assert_eq!(s, ServiceStatus::Finished);
    assert!(svc.is_empty());
}

#[test]
fn rate_limit_with_malformed_retry_after_finishes_at_once() {
    let mut svc: Service<u32> = Service::new(vec![1]);
    let s = svc.on_response(Some(429), Some("soon"));
    assert_eq!(s, ServiceStatus::Finished);
    assert!(svc.is_empty());
}

#[test]
fn fatal_client_errors_drop_everything() {
    for code in [400u16, 401, 403, 404, 405, 409, 410, 411] {
        let mut svc: Service<u32> = Service::new(vec![1, 2, 3]);
        let s = svc.on_response(Some(code), None);
        assert_eq!(s, ServiceStatus::Finished, "code {}", code);
        assert!(svc.is_empty(), "code {}", code);
    }
}

#[test]
fn transport_failures_climb_the_ladder_then_give_up() {
    let mut svc: Service<u32> = Service::new(vec![1]);
    let mut waits: Vec<u64> = Vec::new();
    for _ in 0..6 {
        match svc.on_response(None, None) {
            ServiceStatus::Timeout(d) => waits.push(d),
            other => panic!("expected a timeout, got {:?}", other),
        }
    }
    assert_eq!(waits, vec![0, 1, 2, 4, 8, 16]);
    let last = svc.on_response(None, None);
    assert_eq!(last, ServiceStatus::Finished);
    assert!(svc.is_empty());
}

#[test]
fn success_resets_the_retry_counter() {
    let mut svc: Service<u32> = Service::new(vec![1, 2]);
    // shrink the window so a success leaves one item behind
    assert_eq!(svc.on_response(Some(413), None), ServiceStatus::Remaining);
    assert_eq!(svc.on_response(Some(500), None), ServiceStatus::Timeout(0));
    assert_eq!(svc.on_response(Some(200), None), ServiceStatus::Remaining);
    // the ladder starts over
    assert_eq!(svc.on_response(Some(503), None), ServiceStatus::Timeout(0));
}

#[test]
fn flush_step_reconciles_both_streams() {
    let t = ServiceStatus::Timeout;
    let f = ServiceStatus::Finished;
    let r = ServiceStatus::Remaining;
    assert_eq!(flush_step(t(3), t(7)), FlushStep::Sleep(7));
    assert_eq!(flush_step(t(9), t(2)), FlushStep::Sleep(9));
    assert_eq!(flush_step(t(4), f), FlushStep::Sleep(4));
    assert_eq!(flush_step(r, t(6)), FlushStep::Sleep(6));
    assert_eq!(flush_step(f, f), FlushStep::Done);
    assert_eq!(flush_step(r, f), FlushStep::Continue);
    assert_eq!(flush_step(f, r), FlushStep::Continue);
    assert_eq!(flush_step(r, r), FlushStep::Continue);
}

#[test]
fn push_reports_when_either_queue_reaches_the_threshold() {
    let mut api = Api::default();
    api.batch_size = 2;
    assert!(!api.push(logs_batch(), spans_batch()));
    assert!(api.push(logs_batch(), spans_batch()));
    let (logs, spans) = api.take_queues();
    assert_eq!(logs.len(), 2);
    assert_eq!(spans.len(), 2);
    assert!(!api.push(logs_batch(), spans_batch()));
}

#[test]
fn api_conversions_carry_the_credential() {
    let a: Api = Api::from("key-one");
    assert_eq!(a.key, "key-one");
    let b: Api = Api::from(String::from("key-two"));
    assert_eq!(b.key, "key-two");
    let c: Api = Api::from((String::from("key-three"), ApiEndpoint::EU));
    assert_eq!(c.key, "key-three");
    assert!(matches!(c.trace_endpoint, ApiEndpoint::EU));
    assert_eq!(a.batch_size, 10);
}

#[test]
fn parse_u64_accepts_plain_and_signed_digits() {
    assert_eq!(parse_u64("5"), Some(5));
    assert_eq!(parse_u64("+5"), Some(5));
    assert_eq!(parse_u64("0"), Some(0));
    assert_eq!(parse_u64("18446744073709551615"), Some(u64::MAX));
}

#[test]
fn parse_u64_rejects_what_is_not_a_small_number() {
    assert_eq!(parse_u64(""), None);
    assert_eq!(parse_u64("+"), None);
    assert_eq!(parse_u64("soon"), None);
    assert_eq!(parse_u64("5s"), None);
    assert_eq!(parse_u64("-5"), None);
    assert_eq!(parse_u64("18446744073709551616"), None);
    assert_eq!(parse_u64("99999999999999999999999"), None);
}
