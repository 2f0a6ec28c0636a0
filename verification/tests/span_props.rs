use dd_trace_rust::span::ParentLink;
use dd_trace_rust::{Config, ConfigProperty, Tracer};

fn live_tracer() -> Tracer {
    let mut cfg = Config::new();
    cfg.set(ConfigProperty::AgentUrl, "https://localhost:8136");
    Tracer::new(&cfg)
}

fn noop_tracer() -> Tracer {
    let mut cfg = Config::new();
    cfg.set(ConfigProperty::AgentUrl, "not a url");
    Tracer::new(&cfg)
}

/// Writing one key twice keeps exactly the second value.
#[test]
fn test_set_tag_overwrites() {
    let tracer = live_tracer();
    let mut span = tracer.create_span("op");
    span.set_tag("k", "v1");
    span.set_tag("k", "v2");
    assert_eq!(span.get_tag("k").map(|v| v.as_str()), Some("v2"));
    span.set_tag("other", "x");
    assert_eq!(span.get_tag("k").map(|v| v.as_str()), Some("v2"));
    assert_eq!(span.get_tag("other").map(|v| v.as_str()), Some("x"));
    assert!(span.get_tag("missing").is_none());
}

/// A no-op-configured engine: spans are built, mutated and dropped
/// without effect and without panicking.
#[test]
fn test_noop_scenario() {
    let tracer = noop_tracer();
    assert!(tracer.is_noop());
    let mut span = tracer.create_span("op1");
    span.set_tag("k", "v");
    assert!(!span.is_active());
    assert!(span.get_tag("k").is_none());
    span.set_error(true);
    assert!(!span.error());
    span.set_error_message("boom");
    assert!(span.error_message().is_none());
    let child = span.create_child("c");
    assert!(!child.is_active());
    span.inject(|_k: Vec<u8>, _v: Vec<u8>| panic!("a no-op span must propagate nothing"));
    tracer.flush();
    drop(span);
}

/// Injected context read back by extraction continues the same trace.
#[test]
fn test_inject_extract_roundtrip() {
    let tracer = live_tracer();
    let span_a = tracer.create_span("a");
    let pairs = span_a.propagation_pairs();
    assert_eq!(pairs.len(), 2);

    let lookup_pairs = pairs.clone();
    let span_b = tracer.create_or_extract_span(
        move |key: Vec<u8>| {
            for (k, v) in lookup_pairs.iter() {
                if *k == key {
                    return Some(v.clone());
                }
            }
            None
        },
        "b",
        "res",
    );
    assert_eq!(span_b.trace_id(), span_a.trace_id());
    assert_eq!(span_b.parent(), ParentLink::Remote(span_a.span_id()));
}

/// Extraction failure is a normal fallback: a fresh root comes back,
/// still carrying the request's resource.
#[test]
fn test_extract_fallback_is_root() {
    let tracer = live_tracer();
    let span = tracer.create_or_extract_span(|_key: Vec<u8>| None, "op", "res");
    assert!(span.is_active());
    assert!(span.is_root());
    assert_eq!(span.resource().map(|r| r.as_str()), Some("res"));
    let span = tracer.create_or_extract_span(
        |_key: Vec<u8>| Some(b"garbage".to_vec()),
        "op2",
        "res",
    );
    assert!(span.is_root());
    assert_eq!(span.resource().map(|r| r.as_str()), Some("res"));
}

/// Two spans drawn from one shared engine handle stay independent:
/// tags never cross between them.
#[test]
fn test_shared_engine_independent_spans() {
    let tracer = live_tracer();
    let tracer_ref_a: &Tracer = &tracer;
    let tracer_ref_b: &Tracer = &tracer;
    let mut span_a = tracer_ref_a.create_span("request-a");
    let mut span_b = tracer_ref_b.create_span("request-b");
    span_a.set_tag("user", "alice");
    span_b.set_tag("user", "bob");
    span_a.set_tag("path", "/a");
    assert_eq!(span_a.get_tag("user").map(|v| v.as_str()), Some("alice"));
    assert_eq!(span_b.get_tag("user").map(|v| v.as_str()), Some("bob"));
    assert!(span_b.get_tag("path").is_none());
    assert!(span_a.is_root() && span_b.is_root());
    assert_ne!(span_a.span_id(), span_b.span_id());
}

/// Child creation borrows the parent and yields an independent handle.
#[test]
fn test_child_links_to_parent() {
    let tracer = live_tracer();
    let parent = tracer.create_span("parent");
    let mut child = parent.create_child("child");
    assert_eq!(child.parent(), ParentLink::ChildOf(parent.span_id()));
    assert_eq!(child.trace_id(), parent.trace_id());
    child.set_tag("k", "v");
    assert!(parent.get_tag("k").is_none());
    child.finish();
    assert!(child.is_finished());
    assert!(!parent.is_finished());
}

/// The engine accepts each known scheme and an unset URL.
#[test]
fn test_engine_config_modes() {
    assert!(!Tracer::new(&Config::new()).is_noop());
    for url in ["http://h:1", "https://h:1", "unix:///var/run/apm.sock"] {
        let mut cfg = Config::new();
        cfg.set(ConfigProperty::AgentUrl, url);
        assert!(!Tracer::new(&cfg).is_noop());
    }
    for url in ["", "ftp://h:1", "localhost:8126"] {
        let mut cfg = Config::new();
        cfg.set(ConfigProperty::AgentUrl, url);
        assert!(Tracer::new(&cfg).is_noop());
    }
}

/// Configuration reads back what was written, the later write winning.
#[test]
fn test_config_get_set() {
    let mut cfg = Config::new();
    assert!(cfg.get(ConfigProperty::Service).is_none());
    cfg.set(ConfigProperty::Service, "svc");
    cfg.set(ConfigProperty::Service, "svc2");
    assert_eq!(cfg.get(ConfigProperty::Service).map(|v| v.as_str()), Some("svc2"));
    assert!(cfg.get(ConfigProperty::Env).is_none());
}

/// The error flag and the error message are independent setters.
#[test]
fn test_error_fields_independent() {
    let tracer = live_tracer();
    let mut span = tracer.create_span("op");
    span.set_error_message("just a note");
    assert!(!span.error());
    assert_eq!(span.error_message().map(|m| m.as_str()), Some("just a note"));
    span.set_error(true);
    assert!(span.error());
    span.set_error(false);
    assert!(!span.error());
    assert_eq!(span.error_message().map(|m| m.as_str()), Some("just a note"));
}

/// The injection callback sees exactly the two propagation pairs, in
/// the fixed order.
#[test]
fn test_inject_hands_over_pairs() {
    let tracer = live_tracer();
    let span = tracer.create_span("op");
    let seen = std::cell::RefCell::new(Vec::new());
    span.inject(|k: Vec<u8>, v: Vec<u8>| {
        seen.borrow_mut().push((k, v));
    });
    let seen = seen.into_inner();
    assert_eq!(seen.len(), 2);
    assert_eq!(seen[0].0, b"x-datadog-trace-id".to_vec());
    assert_eq!(seen[0].1, span.trace_id().to_string().into_bytes());
    assert_eq!(seen[1].0, b"x-datadog-parent-id".to_vec());
    assert_eq!(seen[1].1, span.span_id().to_string().into_bytes());
}
