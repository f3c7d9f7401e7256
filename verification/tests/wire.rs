//! The wire format: exact JSON bytes, request building, and compression.

use std::io::Read;

use tracing_newrelic::api::{Api, ApiEndpoint};
use tracing_newrelic::json::{logs_body, spans_body};
use tracing_newrelic::types::{
    NewrAttributes, NewrCommon, NewrLog, NewrLogs, NewrSpan, NewrSpans,
};
use tracing_newrelic::utils::{fmt_i64, fmt_u64};

fn gunzip(data: &[u8]) -> Vec<u8> {
    let mut decoder = flate2::read::GzDecoder::new(data);
    let mut out = Vec::new();
    decoder.read_to_end(&mut out).expect("the body must be valid gzip");
    out
}

fn one_log() -> NewrLogs {
    let mut log = NewrLog::from_parts(5, String::from("INFO"));
    log.attributes.insert("a", 1i64);
    NewrLogs { logs: vec![log], common: NewrCommon { attributes: NewrAttributes::new() } }
}

#[test]
fn decimal_rendering_is_exact() {
    assert_eq!(fmt_u64(0), "0");
    assert_eq!(fmt_u64(10), "10");
    assert_eq!(fmt_u64(18446744073709551615), "18446744073709551615");
    assert_eq!(fmt_i64(7), "7");
    assert_eq!(fmt_i64(-7), "-7");
    assert_eq!(fmt_i64(i64::MIN), "-9223372036854775808");
}

#[test]
fn log_payloads_render_byte_for_byte() {
    let body = logs_body(&[one_log()]);
    let expected = "[{\"logs\":[{\"timestamp\":5,\"logtype\":\"accesslogs\",\"attributes\":{\"a\":1},\"level\":\"INFO\"}],\"common\":{\"attributes\":{}}}]";
    assert_eq!(String::from_utf8(body).unwrap(), expected);
}

#[test]
fn span_payloads_render_byte_for_byte() {
    let mut span = NewrSpan::from_parts(String::from("s-1"), 9, String::from("work"));
    span.attributes.insert("ok", true);
    let with_none = NewrSpans {
        spans: vec![span],
        common: NewrCommon { attributes: NewrAttributes::new() },
    };
    let body = spans_body(&[with_none]);
    let expected = "[{\"spans\":[{\"id\":\"s-1\",\"trace.id\":null,\"timestamp\":9,\"attributes\":{\"name\":\"work\",\"ok\":true}}],\"common\":{\"attributes\":{}}}]";
    assert_eq!(String::from_utf8(body).unwrap(), expected);

    let mut stamped = NewrSpan::from_parts(String::from("s-2"), 9, String::from("w"));
    stamped.trace_id = Some(String::from("t-1"));
    let with_some = NewrSpans {
        spans: vec![stamped],
        common: NewrCommon { attributes: NewrAttributes::new() },
    };
    let body = spans_body(&[with_some]);
    let rendered = String::from_utf8(body).unwrap();
    assert!(rendered.contains("\"trace.id\":\"t-1\""));
}

#[test]
fn strings_are_escaped_like_json_wants() {
    let mut log = NewrLog::from_parts(0, String::from("INFO"));
    log.attributes.insert("m", "say \"hi\" \\ now\nplease\ttab");
    let batch = NewrLogs { logs: vec![log], common: NewrCommon { attributes: NewrAttributes::new() } };
    let rendered = String::from_utf8(logs_body(&[batch])).unwrap();
    assert!(rendered.contains("say \\\"hi\\\" \\\\ now\\u000aplease\\u0009tab"));
}

#[test]
fn non_ascii_strings_pass_through_as_utf8() {
    let mut log = NewrLog::from_parts(0, String::from("INFO"));
    log.attributes.insert("m", "grüße µ");
    let batch = NewrLogs { logs: vec![log], common: NewrCommon { attributes: NewrAttributes::new() } };
    let rendered = String::from_utf8(logs_body(&[batch])).unwrap();
    assert!(rendered.contains("grüße µ"));
}

#[test]
fn empty_windows_render_as_empty_arrays() {
    assert_eq!(String::from_utf8(logs_body(&[])).unwrap(), "[]");
    assert_eq!(String::from_utf8(spans_body(&[])).unwrap(), "[]");
}

#[test]
fn log_requests_carry_url_headers_and_gzipped_body() {
    let api = Api::from("SECRET-REDACTED");
    let window = [one_log()];
    let req = NewrLogs::build_request(&window, &api);
    assert_eq!(req.url, "https://log-api.newrelic.com/log/v1");
    let headers: Vec<(&str, &str)> =
        req.headers.iter().map(|kv| (kv.0.as_str(), kv.1.as_str())).collect();
    assert_eq!(
        headers,
        vec![
            ("content-type", "application/json"),
            ("content-encoding", "gzip"),
            ("Api-Key", "SECRET-REDACTED"),
        ]
    );
    // the body is really compressed: inflating it gives the JSON back
    assert_ne!(req.body, logs_body(&window));
    assert_eq!(gunzip(&req.body), logs_body(&window));
}

#[test]
fn span_requests_carry_the_format_headers() {
    let api = Api::from((String::from("k"), ApiEndpoint::EU));
    let window: [NewrSpans; 0] = [];
    let req = NewrSpans::build_request(&window, &api);
    assert_eq!(req.url, "https://trace-api.eu.newrelic.com/trace/v1");
    let headers: Vec<(&str, &str)> =
        req.headers.iter().map(|kv| (kv.0.as_str(), kv.1.as_str())).collect();
    assert_eq!(
        headers,
        vec![
            ("content-type", "application/json"),
            ("content-encoding", "gzip"),
            ("Api-Key", "k"),
            ("Data-Format", "newrelic"),
            ("Data-Format-Version", "1"),
        ]
    );
    assert_eq!(gunzip(&req.body), spans_body(&window));
}

#[test]
fn custom_endpoints_extend_the_base_url() {
    let mut api = Api::from("k");
    api.log_endpoint = ApiEndpoint::Custom(String::from("https://example.test"));
    api.trace_endpoint = ApiEndpoint::Custom(String::from("https://example.test"));
    let req = NewrLogs::build_request(&[], &api);
    assert_eq!(req.url, "https://example.test/log/v1");
    let req = NewrSpans::build_request(&[], &api);
    assert_eq!(req.url, "https://example.test/trace/v1");
}
