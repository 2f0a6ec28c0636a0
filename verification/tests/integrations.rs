use dd_trace_rust::integrations::{header_pair_encodable, DatadogTracing, DatadoggMiddleware};
use dd_trace_rust::span::ParentLink;
use dd_trace_rust::tracing_datadog_sdk::{DatadogLayer, ParentSel};
use dd_trace_rust::{Config, ConfigProperty, Tracer};

fn test_tracer() -> Tracer {
    let mut cfg = Config::new();
    cfg.set(ConfigProperty::Service, "ddtrace-rs-test");
    cfg.set(ConfigProperty::Env, "dev");
    cfg.set(ConfigProperty::AgentUrl, "http://localhost:8136");
    cfg.set(ConfigProperty::Version, "0.0.1");

    Tracer::new(&cfg)
}

/// One request from an instrumented client to an instrumented server,
/// the wire replaced by the headers the client middleware produced.
#[test]
fn test_axum() {
    // Client side: a span for the outbound request, and its headers.
    let client_tracer = test_tracer();
    let client_span = client_tracer.create_span("http.client.request");
    let header_pairs = DatadoggMiddleware::encodable_pairs(&client_span);
    assert_eq!(header_pairs.len(), 2);
    let typed = DatadoggMiddleware::outbound_headers(&client_span);
    assert_eq!(typed.len(), 2);
    assert_eq!(
        typed[0].0,
        http::header::HeaderName::from_bytes(b"x-datadog-trace-id").unwrap()
    );
    assert_eq!(
        typed[1].0,
        http::header::HeaderName::from_bytes(b"x-datadog-parent-id").unwrap()
    );
    assert_eq!(typed[0].1.as_bytes(), header_pairs[0].1.as_slice());
    assert_eq!(typed[1].1.as_bytes(), header_pairs[1].1.as_slice());

    // Server side: the layer skips the boundary name, the adapter
    // extracts and attaches.
    let server_tracer = test_tracer();
    let mut layer = DatadogLayer::new(server_tracer);
    layer.on_new_span(
        7,
        "http.server.request",
        ParentSel::Current,
        None,
        false,
        &Vec::new(),
        None,
        None,
    );
    assert!(layer.contains(7));
    assert!(layer.span_of(7).is_none());

    let adapter = DatadogTracing::new(test_tracer(), ());
    let pairs_for_lookup = header_pairs.clone();
    let mut server_span = adapter.start_request(
        move |key: Vec<u8>| {
            for (k, v) in pairs_for_lookup.iter() {
                if *k == key {
                    return Some(v.clone());
                }
            }
            None
        },
        "GET",
        "http://localhost:15678/",
    );
    assert_eq!(server_span.trace_id(), client_span.trace_id());
    assert_eq!(
        server_span.parent(),
        ParentLink::Remote(client_span.span_id())
    );
    DatadogTracing::<()>::finish_request(&mut server_span, 200);
    assert_eq!(
        server_span.get_tag("http.status").map(|v| v.as_str()),
        Some("200")
    );

    layer.attach_span(7, server_span);
    assert!(layer.span_of(7).is_some());
    let released = layer.release_node(7).expect("boundary span released");
    assert!(released.is_finished());
}

/// An inbound request to a plain path gets the standard server tags and,
/// on completion, the response status.
#[test]
fn test_good_path_request() {
    let adapter = DatadogTracing::new(test_tracer(), ());
    let mut span = adapter.start_request(|_key: Vec<u8>| None, "GET", "/good/123");
    assert!(span.is_active());
    assert!(span.is_root());
    assert_eq!(span.get_tag("http.url").map(|v| v.as_str()), Some("/good/123"));
    assert_eq!(span.get_tag("http.method").map(|v| v.as_str()), Some("GET"));
    assert_eq!(span.get_tag("span.kind").map(|v| v.as_str()), Some("server"));
    assert_eq!(span.get_tag("component").map(|v| v.as_str()), Some("axum"));
    DatadogTracing::<()>::finish_request(&mut span, 200);
    assert_eq!(span.get_tag("http.status").map(|v| v.as_str()), Some("200"));
}

/// A no-op engine's boundary span carries nothing and produces no
/// outbound headers.
#[test]
fn test_noop_boundary() {
    let mut cfg = Config::new();
    cfg.set(ConfigProperty::AgentUrl, "not a url");
    let tracer = Tracer::new(&cfg);
    assert!(tracer.is_noop());
    let adapter = DatadogTracing::new(tracer, ());
    let mut span = adapter.start_request(|_key: Vec<u8>| None, "GET", "/good/123");
    assert!(!span.is_active());
    assert!(span.get_tag("http.url").is_none());
    DatadogTracing::<()>::finish_request(&mut span, 500);
    assert!(span.get_tag("http.status").is_none());
    assert_eq!(DatadoggMiddleware::encodable_pairs(&span).len(), 0);
    assert_eq!(DatadoggMiddleware::outbound_headers(&span).len(), 0);
}

/// The encodable pairs carry the two carrier keys, in order, with the
/// span's ids in decimal.
#[test]
fn test_outbound_pairs_exact() {
    let tracer = test_tracer();
    let span = tracer.create_span("op");
    let pairs = DatadoggMiddleware::encodable_pairs(&span);
    assert_eq!(pairs.len(), 2);
    assert_eq!(pairs[0].0, b"x-datadog-trace-id".to_vec());
    assert_eq!(pairs[1].0, b"x-datadog-parent-id".to_vec());
    assert_eq!(pairs[0].1, span.trace_id().to_string().into_bytes());
    assert_eq!(pairs[1].1, span.span_id().to_string().into_bytes());
}

/// The per-pair header check: token keys and printable values pass,
/// anything else is rejected — name and value each on their own.
#[test]
fn test_header_pair_encodable() {
    assert!(header_pair_encodable(b"x-datadog-trace-id", b"12345679"));
    assert!(header_pair_encodable(b"X-Custom", b"a b\tc"));
    assert!(!header_pair_encodable(b"", b"ok"));
    assert!(!header_pair_encodable(b"bad name", b"ok"));
    assert!(!header_pair_encodable(b"ok", b"\x01"));
    assert!(!header_pair_encodable(b"ok", b"\x7f"));
    assert!(!header_pair_encodable(&vec![b'a'; 65536], b"ok"));
}
