use dd_trace_rust::span::ParentLink;
use dd_trace_rust::tracing_datadog_sdk::ParentSel;
use dd_trace_rust::tracing_dd::DDTraceLayer;
use dd_trace_rust::{Config, ConfigProperty, Tracer};

fn test_tracer() -> Tracer {
    let mut cfg = Config::new();
    cfg.set(ConfigProperty::Service, "ddtrace-rs-test");
    cfg.set(ConfigProperty::Env, "dev");
    cfg.set(ConfigProperty::AgentUrl, "http://localhost:8136");
    cfg.set(ConfigProperty::Version, "0.0.1");

    Tracer::new(&cfg)
}

#[test]
fn test_tracing() {
    let tracer = test_tracer();
    let mut layer = DDTraceLayer::new(tracer);

    // The root span of the instrumented run, with nothing ambient yet.
    layer.on_new_span(1, "app_start", ParentSel::Current, None, false);
    let root_sid = layer.span_of(1).expect("root span attached").span_id();
    assert!(layer.span_of(1).unwrap().is_root());

    // An instrumented call under the entered root.
    layer.on_new_span(2, "hello_there", ParentSel::Current, Some(1), false);
    let child = layer.span_of(2).expect("child span attached");
    assert_eq!(child.parent(), ParentLink::ChildOf(root_sid));
    assert_eq!(child.trace_id(), layer.span_of(1).unwrap().trace_id());

    layer.on_close(2);
    let child = layer.release_node(2).expect("child released");
    assert!(child.is_finished());
    layer.on_close(1);
    let root = layer.release_node(1).expect("root released");
    assert!(root.is_finished());
    assert!(layer.span_of(1).is_none());
}
