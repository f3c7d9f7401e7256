//! The aggregation engine: attribute merging, reparenting, and root-closure
//! batches.

use tracing_newrelic::layer::NewRelicLayer;
use tracing_newrelic::types::{NewrAttributes, NewrSpan, Value};
use tracing_newrelic::utils::{Clock, IdGen};

fn test_layer() -> NewRelicLayer {
    NewRelicLayer::new(IdGen::Sequential { next_span: 1, next_trace: 1 }, Clock::Fixed(0))
}

fn str_val(v: &Value) -> &str {
    match v {
        Value::String(s) => s.as_str(),
        other => panic!("expected a string value, got {:?}", other),
    }
}

#[test]
fn merge_missing_never_overrides_and_is_idempotent() {
    let mut child = NewrAttributes::new();
    child.insert("shared", 1i64);
    let mut parent = NewrAttributes::new();
    parent.insert("shared", 2i64);
    parent.insert("extra", 3i64);

    child.append(&parent);
    assert_eq!(child.len(), 2);
    assert_eq!(child.get("shared"), Some(&Value::I64(1)));
    assert_eq!(child.get("extra"), Some(&Value::I64(3)));

    // merging the same set again changes nothing
    child.append(&parent);
    assert_eq!(child.len(), 2);
    assert_eq!(child.get("shared"), Some(&Value::I64(1)));
    assert_eq!(child.get("extra"), Some(&Value::I64(3)));
}

#[test]
fn insert_overwrites_in_place() {
    let mut a = NewrAttributes::new();
    a.insert("k", 1i64);
    a.insert("k", true);
    assert_eq!(a.len(), 1);
    assert_eq!(a.get("k"), Some(&Value::Bool(true)));
    assert_eq!(a.get("missing"), None);
    assert!(a.contains_key("k"));
    assert!(!a.contains_key("missing"));
}

#[test]
fn closing_a_lone_root_emits_one_batch() {
    let mut layer = test_layer();
    layer.open(7, None, String::from("job"));
    let batch = layer.close(7);
    let (logs, spans) = batch.expect("a root closure must emit a batch");
    assert_eq!(logs.logs.len(), 0);
    assert_eq!(spans.spans.len(), 1);
    let root = &spans.spans[0];
    assert_eq!(root.id, "span_1");
    assert_eq!(root.trace_id.as_deref(), Some("trace_1"));
    assert_eq!(str_val(root.attributes.get("name").unwrap()), "job");
    assert_eq!(root.attributes.get("duration.ms"), Some(&Value::U64(0)));
}

#[test]
fn closing_under_an_open_parent_emits_nothing() {
    let mut layer = test_layer();
    layer.open(1, None, String::from("parent"));
    layer.open(2, Some(1), String::from("child"));
    assert!(layer.close(2).is_none());
    // the records surface only through the parent's own closure
    let (_, spans) = layer.close(1).expect("the parent is a root");
    assert_eq!(spans.spans.len(), 2);
    assert_eq!(str_val(spans.spans[0].attributes.get("name").unwrap()), "parent");
    assert_eq!(str_val(spans.spans[1].attributes.get("name").unwrap()), "child");
    assert_eq!(str_val(spans.spans[1].attributes.get("parent.id").unwrap()), "span_1");
}

#[test]
fn nested_closes_flatten_in_closing_order_and_inherit_attributes() {
    let mut layer = test_layer();
    layer.open(1, None, String::from("A"));
    layer.record_attribute(1, "service.name", Value::from("x"));
    layer.open(2, Some(1), String::from("B"));
    layer.open(3, Some(1), String::from("C"));

    assert!(layer.close(2).is_none());
    assert!(layer.close(3).is_none());
    let (_, spans) = layer.close(1).expect("closing the root emits the batch");

    assert_eq!(spans.spans.len(), 3);
    let names: Vec<&str> =
        spans.spans.iter().map(|s| str_val(s.attributes.get("name").unwrap())).collect();
    assert_eq!(names, vec!["A", "B", "C"]);

    let tid = spans.spans[0].trace_id.clone().expect("the root is stamped");
    assert_eq!(tid, "trace_1");
    for s in &spans.spans {
        assert_eq!(s.trace_id.as_deref(), Some(tid.as_str()));
        assert_eq!(str_val(s.attributes.get("service.name").unwrap()), "x");
    }
}

#[test]
fn test() {
    let mut layer = test_layer();
    layer.open(1, None, String::from("foobar"));
    layer.record_attribute(1, "service.name", Value::from("integration-testing"));
    layer.open(2, Some(1), String::from("foo"));
    assert!(layer.close(2).is_none());
    layer.open(3, Some(1), String::from("bar"));
    assert!(layer.close(3).is_none());

    let (_, spans) = layer.close(1).expect("one batch for the whole tree");
    assert_eq!(spans.spans.len(), 3);
    assert_eq!(spans.spans[0].id, "span_1");
    assert_eq!(spans.spans[1].id, "span_2");
    assert_eq!(spans.spans[2].id, "span_3");
    assert_eq!(str_val(spans.spans[0].attributes.get("name").unwrap()), "foobar");
    assert_eq!(str_val(spans.spans[1].attributes.get("name").unwrap()), "foo");
    assert_eq!(str_val(spans.spans[2].attributes.get("name").unwrap()), "bar");
    assert_eq!(str_val(spans.spans[1].attributes.get("parent.id").unwrap()), "span_1");
    assert_eq!(str_val(spans.spans[2].attributes.get("parent.id").unwrap()), "span_1");
    assert_eq!(
        str_val(spans.spans[1].attributes.get("service.name").unwrap()),
        "integration-testing"
    );
}

#[test]
fn events_become_logs_stamped_with_the_trace() {
    let mut layer = test_layer();
    layer.open(1, None, String::from("root"));
    let mut fields = NewrAttributes::new();
    fields.insert("message", "hello");
    layer.record_event(1, String::from("INFO"), fields);
    let (logs, _) = layer.close(1).expect("a batch");
    assert_eq!(logs.logs.len(), 1);
    let log = &logs.logs[0];
    assert_eq!(log.level, "INFO");
    assert_eq!(log.logtype, "accesslogs");
    assert_eq!(str_val(log.attributes.get("message").unwrap()), "hello");
    assert_eq!(str_val(log.attributes.get("span.id").unwrap()), "span_1");
    assert_eq!(str_val(log.attributes.get("trace.id").unwrap()), "trace_1");
}

#[test]
fn child_logs_travel_up_to_the_root_batch() {
    let mut layer = test_layer();
    layer.open(1, None, String::from("parent"));
    layer.open(2, Some(1), String::from("child"));
    layer.record_event(2, String::from("WARN"), NewrAttributes::new());
    assert!(layer.close(2).is_none());
    let (logs, _) = layer.close(1).expect("a batch");
    assert_eq!(logs.logs.len(), 1);
    assert_eq!(logs.logs[0].level, "WARN");
    assert_eq!(str_val(logs.logs[0].attributes.get("span.id").unwrap()), "span_2");
}

#[test]
fn configured_names_form_the_common_block() {
    let mut layer = test_layer()
        .with_service_name(String::from("svc"))
        .with_hostname(String::from("host-1"));
    layer.open(1, None, String::from("root"));
    let (logs, spans) = layer.close(1).expect("a batch");
    assert_eq!(str_val(logs.common.attributes.get("service.name").unwrap()), "svc");
    assert_eq!(str_val(logs.common.attributes.get("hostname").unwrap()), "host-1");
    assert_eq!(str_val(spans.common.attributes.get("service.name").unwrap()), "svc");
    assert_eq!(str_val(spans.common.attributes.get("hostname").unwrap()), "host-1");
}

#[test]
fn sequential_identifiers_count_up() {
    let mut ids = IdGen::Sequential { next_span: 1, next_trace: 1 };
    assert_eq!(ids.span_id(), "span_1");
    assert_eq!(ids.span_id(), "span_2");
    assert_eq!(ids.trace_id(), "trace_1");
}

#[test]
fn random_identifiers_are_uuid_shaped() {
    let a = tracing_newrelic::utils::next_span_id();
    let b = tracing_newrelic::utils::next_trace_id();
    assert_eq!(a.len(), 36);
    assert_eq!(b.len(), 36);
    assert_ne!(a, b);
}

#[test]
fn durations_come_from_the_clock() {
    let mut span = NewrSpan::from_parts(String::from("id-1"), 100, String::from("s"));
    span.update_duration_at(250);
    assert_eq!(span.attributes.get("duration.ms"), Some(&Value::U64(150)));

    let mut backwards = NewrSpan::from_parts(String::from("id-2"), 100, String::from("s"));
    backwards.update_duration_at(50);
    assert_eq!(backwards.attributes.get("duration.ms"), None);
}

#[test]
fn value_conversions_cover_all_wire_types() {
    assert_eq!(Value::from(-3i64), Value::I64(-3));
    assert_eq!(Value::from(3u64), Value::U64(3));
    assert_eq!(Value::from(false), Value::Bool(false));
    assert_eq!(Value::from("s"), Value::String(String::from("s")));
    assert_eq!(Value::from(String::from("t")), Value::String(String::from("t")));
    assert_ne!(Value::I64(1), Value::U64(1));
}
