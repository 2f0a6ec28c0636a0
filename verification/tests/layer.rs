use dd_trace_rust::span::ParentLink;
use dd_trace_rust::tracing_datadog_sdk::{
    set_span_source, AttrValue, DatadogLayer, ParentSel, SpanAttr,
};
use dd_trace_rust::{Config, ConfigProperty, Tracer};

fn test_tracer() -> Tracer {
    let mut cfg = Config::new();
    cfg.set(ConfigProperty::Service, "ddtrace-rs-test");
    cfg.set(ConfigProperty::AgentUrl, "http://localhost:8136");
    Tracer::new(&cfg)
}

fn attr(name: &str, value: AttrValue) -> SpanAttr {
    SpanAttr {
        name: name.to_string(),
        value,
    }
}

/// A root, a child under it by explicit parent, and a grandchild by
/// ambient lookup: the native links mirror the event structure.
#[test]
fn test_layer_tree_mirrors_events() {
    let mut layer = DatadogLayer::new(test_tracer());
    layer.on_new_span(1, "root", ParentSel::Root, None, false, &Vec::new(), None, None);
    layer.on_new_span(2, "child", ParentSel::Explicit(1), None, false, &Vec::new(), None, None);
    layer.on_new_span(3, "grandchild", ParentSel::Current, Some(2), false, &Vec::new(), None, None);

    let root_sid = layer.span_of(1).unwrap().span_id();
    let child = layer.span_of(2).unwrap();
    assert_eq!(child.parent(), ParentLink::ChildOf(root_sid));
    let child_sid = child.span_id();
    let grandchild = layer.span_of(3).unwrap();
    assert_eq!(grandchild.parent(), ParentLink::ChildOf(child_sid));
    assert_eq!(grandchild.trace_id(), layer.span_of(1).unwrap().trace_id());

    // An explicit parent id the registry does not know falls back to a
    // fresh root, as does an empty ambient context.
    layer.on_new_span(4, "stray", ParentSel::Explicit(99), None, false, &Vec::new(), None, None);
    assert!(layer.span_of(4).unwrap().is_root());
}

/// Initial attributes, the error level, and the source position all
/// land on the new span.
#[test]
fn test_layer_initial_attributes() {
    let mut layer = DatadogLayer::new(test_tracer());
    let attrs = vec![
        attr("val", AttrValue::Unsigned(1)),
        attr("neg", AttrValue::Signed(-5)),
        attr("flag", AttrValue::Truth(true)),
        attr("note", AttrValue::Text("hi".to_string())),
    ];
    layer.on_new_span(
        1,
        "app_start",
        ParentSel::Root,
        None,
        true,
        &attrs,
        Some("src/main.rs"),
        Some(406),
    );
    let span = layer.span_of(1).unwrap();
    assert!(span.error());
    assert_eq!(span.get_tag("val").map(|v| v.as_str()), Some("1"));
    assert_eq!(span.get_tag("neg").map(|v| v.as_str()), Some("-5"));
    assert_eq!(span.get_tag("flag").map(|v| v.as_str()), Some("true"));
    assert_eq!(span.get_tag("note").map(|v| v.as_str()), Some("hi"));
    assert_eq!(span.get_tag("source.file").map(|v| v.as_str()), Some("src/main.rs"));
    assert_eq!(span.get_tag("source.line").map(|v| v.as_str()), Some("406"));
}

/// Recorded attributes reach the attached span; an error value marks it
/// errored and sets the message without adding a tag.
#[test]
fn test_layer_on_record() {
    let mut layer = DatadogLayer::new(test_tracer());
    layer.on_new_span(1, "op", ParentSel::Root, None, false, &Vec::new(), None, None);
    layer.on_record(1, &vec![attr("k", AttrValue::Rendered("Foo { a: 1 }".to_string()))]);
    layer.on_record(1, &vec![attr("boom", AttrValue::Failure("it broke".to_string()))]);
    let span = layer.span_of(1).unwrap();
    assert_eq!(span.get_tag("k").map(|v| v.as_str()), Some("Foo { a: 1 }"));
    assert!(span.error());
    assert_eq!(span.error_message().map(|m| m.as_str()), Some("it broke"));
    assert!(span.get_tag("boom").is_none());

    // Recording against an unknown node is ignored.
    layer.on_record(9, &vec![attr("k", AttrValue::Unsigned(2))]);
    assert!(layer.span_of(9).is_none());
}

/// A live child still names its released parent; the query a caller
/// uses to rule out id reuse sees that.
#[test]
fn test_has_child_ref() {
    let mut layer = DatadogLayer::new(test_tracer());
    layer.on_new_span(1, "root", ParentSel::Root, None, false, &Vec::new(), None, None);
    assert!(!layer.has_child_ref(1));
    layer.on_new_span(2, "child", ParentSel::Explicit(1), None, false, &Vec::new(), None, None);
    assert!(layer.has_child_ref(1));
    assert!(!layer.has_child_ref(2));
    layer.release_node(1);
    // The child's reference outlives the parent's entry.
    assert!(layer.has_child_ref(1));
    layer.release_node(2);
    assert!(!layer.has_child_ref(1));
}

/// Closing is observational; releasing the slot finalises exactly once.
#[test]
fn test_layer_release() {
    let mut layer = DatadogLayer::new(test_tracer());
    layer.on_new_span(1, "op", ParentSel::Root, None, false, &Vec::new(), None, None);
    layer.on_close(1);
    assert!(layer.span_of(1).is_some());
    let span = layer.release_node(1).unwrap();
    assert!(span.is_finished());
    assert!(layer.release_node(1).is_none());
}

/// The source position setter alone.
#[test]
fn test_set_span_source() {
    let tracer = test_tracer();
    let mut span = tracer.create_span("op");
    set_span_source(&mut span, Some("lib.rs"), Some(12));
    assert_eq!(span.get_tag("source.file").map(|v| v.as_str()), Some("lib.rs"));
    assert_eq!(span.get_tag("source.line").map(|v| v.as_str()), Some("12"));
    set_span_source(&mut span, None, None);
    assert_eq!(span.get_tag("source.file").map(|v| v.as_str()), Some("lib.rs"));
}

/// A synchroniser over a no-op engine still keeps the tree structure;
/// the attached handles are no-op handles and record nothing.
#[test]
fn test_layer_noop_mode() {
    let mut cfg = Config::new();
    cfg.set(ConfigProperty::AgentUrl, "nowhere");
    let mut layer = DatadogLayer::new(Tracer::new(&cfg));
    layer.on_new_span(1, "root", ParentSel::Root, None, false, &Vec::new(), None, None);
    layer.on_new_span(2, "child", ParentSel::Current, Some(1), false, &Vec::new(), None, None);
    layer.on_record(2, &vec![attr("k", AttrValue::Unsigned(1))]);
    let child = layer.span_of(2).unwrap();
    assert!(!child.is_active());
    assert!(child.get_tag("k").is_none());
    assert!(layer.release_node(2).is_some());
    assert!(layer.release_node(1).is_some());
}
