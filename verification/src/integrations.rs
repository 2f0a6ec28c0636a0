//! HTTP boundary adapters.
//!
//! Server side: [`DatadogTracing`] extracts inbound context through a
//! carrier lookup, builds the boundary span with its standard tags, and
//! records the response status. Client side: [`DatadoggMiddleware`]
//! turns a span's propagation pairs into outbound header pairs, skipping
//! any pair that does not encode as a header — each alone, never the
//! whole injection.

use crate::codec::dec_chars;
use crate::codec::is_dec_byte;
use crate::codec::lemma_dec_bytes_are_digits;
use crate::codec::opt_bytes_view;
use crate::codec::parent_id_key;
use crate::codec::spec_context_of;
use crate::codec::trace_id_key;
use crate::codec::u64_to_string;
use crate::codec::SpanContext;
use crate::engine::spec_extract_outcome;
use crate::engine::Tracer;
use crate::engine::TracerData;
use crate::span::pair_views;
use crate::span::spec_noop_span;
use crate::span::spec_propagation_pairs;
use crate::span::spec_with_tag;
use crate::span::spec_with_type;
use crate::span::Span;
use crate::span::SpanData;
use crate::tracing_datadog_sdk::spec_boundary_name;
use vstd::prelude::*;

verus! {

#[verifier::external_type_specification]
#[verifier::external_body]
pub struct ExHeaderName(http::header::HeaderName);

#[verifier::external_type_specification]
#[verifier::external_body]
pub struct ExHeaderValue(http::header::HeaderValue);

/// A byte that may stand in a header name: an HTTP token byte.
pub open spec fn is_token_byte(b: u8) -> bool {
    (48 <= b <= 57) || (65 <= b <= 90) || (97 <= b <= 122) || b == 33 || b == 35 || b == 36 || b
        == 37 || b == 38 || b == 39 || b == 42 || b == 43 || b == 45 || b == 46 || b == 94 || b
        == 95 || b == 96 || b == 124 || b == 126
}

/// What `HeaderName::from_bytes` accepts: one or more token bytes, at
/// most 65535 of them.
pub open spec fn spec_header_name_ok(s: Seq<u8>) -> bool {
    0 < s.len() <= 65535 && forall|i: int| 0 <= i < s.len() ==> is_token_byte(#[trigger] s[i])
}

/// What `HeaderValue::from_bytes` accepts of each byte: horizontal tab,
/// or anything from space on except delete.
pub open spec fn spec_header_value_ok(s: Seq<u8>) -> bool {
    forall|i: int| 0 <= i < s.len() ==> ((#[trigger] s[i]) >= 32 && s[i] != 127) || s[i] == 9
}

/// The name `HeaderName::from_bytes` builds from accepted bytes — a
/// function of the bytes alone.
pub uninterp spec fn spec_header_name_of(s: Seq<u8>) -> http::header::HeaderName;

/// The value `HeaderValue::from_bytes` builds from accepted bytes — a
/// function of the bytes alone.
pub uninterp spec fn spec_header_value_of(s: Seq<u8>) -> http::header::HeaderValue;

/// Relies on http's `HeaderName::from_bytes`: it returns `Ok` exactly
/// for one to 65535 token bytes (uppercase letters are normalised, not
/// rejected), per its character table; the name it builds depends on
/// the bytes alone.
#[verifier::external_body]
fn parse_header_name(b: &[u8]) -> (r: Option<http::header::HeaderName>)
    ensures
        r is Some <==> spec_header_name_ok(b@),
        r is Some ==> r->0 == spec_header_name_of(b@),
{
    match http::header::HeaderName::from_bytes(b) {
        Ok(n) => Some(n),
        Err(_) => None,
    }
}

/// Relies on http's `HeaderValue::from_bytes`: it returns `Ok` exactly
/// when every byte is horizontal tab or printable-and-not-delete; the
/// value it builds depends on the bytes alone.
#[verifier::external_body]
fn parse_header_value(b: &[u8]) -> (r: Option<http::header::HeaderValue>)
    ensures
        r is Some <==> spec_header_value_ok(b@),
        r is Some ==> r->0 == spec_header_value_of(b@),
{
    match http::header::HeaderValue::from_bytes(b) {
        Ok(v) => Some(v),
        Err(_) => None,
    }
}

/// A propagation pair that can travel as an HTTP header.
pub open spec fn spec_encodable(p: (Seq<u8>, Seq<u8>)) -> bool {
    spec_header_name_ok(p.0) && spec_header_value_ok(p.1)
}

/// The pairs that can travel, kept in order; the others are skipped
/// one by one.
pub open spec fn spec_encodable_pairs(ps: Seq<(Seq<u8>, Seq<u8>)>) -> Seq<(Seq<u8>, Seq<u8>)>
    decreases ps.len(),
{
    if ps.len() == 0 {
        Seq::empty()
    } else {
        let pre = spec_encodable_pairs(ps.drop_last());
        if spec_encodable(ps.last()) {
            pre.push(ps.last())
        } else {
            pre
        }
    }
}

/// Whether one key/value byte pair can travel as an HTTP header.
pub fn header_pair_encodable(k: &[u8], v: &[u8]) -> (r: bool)
    ensures
        r == spec_encodable((k@, v@)),
{
    let name_ok = parse_header_name(k).is_some();
    let value_ok = parse_header_value(v).is_some();
    name_ok && value_ok
}

/// The client-side middleware.
pub struct DatadoggMiddleware {}

impl DatadoggMiddleware {
    /// The propagation pairs of `span` that encode as headers, as bytes,
    /// in order. A pair that does not encode is dropped alone; the rest
    /// still travel.
    pub fn encodable_pairs(span: &Span) -> (r: Vec<(Vec<u8>, Vec<u8>)>)
        ensures
            pair_views(r@) == spec_encodable_pairs(spec_propagation_pairs(span@)),
    {
        let pairs = span.propagation_pairs();
        let ghost all = pair_views(pairs@);
        let mut out: Vec<(Vec<u8>, Vec<u8>)> = Vec::new();
        let mut i: usize = 0;
        while i < pairs.len()
            invariant
                i <= pairs@.len(),
                all == pair_views(pairs@),
                all == spec_propagation_pairs(span@),
                pair_views(out@) == spec_encodable_pairs(all.take(i as int)),
            decreases pairs@.len() - i,
        {
            let ok_name = parse_header_name(pairs[i].0.as_slice()).is_some();
            let ok_value = parse_header_value(pairs[i].1.as_slice()).is_some();
            proof {
                assert(all.take(i + 1).drop_last() =~= all.take(i as int));
                assert(all.take(i + 1).last() == all[i as int]);
            }
            if ok_name && ok_value {
                let k = pairs[i].0.clone();
                let v = pairs[i].1.clone();
                out.push((k, v));
                proof {
                    assert(pair_views(out@) =~= spec_encodable_pairs(all.take(i + 1)));
                }
            } else {
                proof {
                    assert(pair_views(out@) =~= spec_encodable_pairs(all.take(i + 1)));
                }
            }
            i += 1;
        }
        proof {
            assert(all.take(all.len() as int) =~= all);
        }
        out
    }

    /// The outbound headers for `span`: one typed header per encodable
    /// propagation pair.
    pub fn outbound_headers(span: &Span) -> (r: Vec<
        (http::header::HeaderName, http::header::HeaderValue),
    >)
        ensures
            r@.len() == spec_encodable_pairs(spec_propagation_pairs(span@)).len(),
            forall|i: int|
                0 <= i < r@.len() ==> (#[trigger] r@[i]).0 == spec_header_name_of(
                    spec_encodable_pairs(spec_propagation_pairs(span@))[i].0,
                ) && r@[i].1 == spec_header_value_of(
                    spec_encodable_pairs(spec_propagation_pairs(span@))[i].1,
                ),
            span@.active ==> r@.len() == 2,
            !span@.active ==> r@.len() == 0,
    {
        proof {
            if span@.active {
                lemma_active_span_pairs_encodable(span@);
            }
        }
        let pairs = Self::encodable_pairs(span);
        let ghost good = spec_encodable_pairs(spec_propagation_pairs(span@));
        let mut out: Vec<(http::header::HeaderName, http::header::HeaderValue)> = Vec::new();
        let mut i: usize = 0;
        while i < pairs.len()
            invariant
                i <= pairs@.len(),
                good == spec_encodable_pairs(spec_propagation_pairs(span@)),
                pair_views(pairs@) == good,
                out@.len() == i,
                forall|j: int|
                    0 <= j < i ==> (#[trigger] out@[j]).0 == spec_header_name_of(good[j].0)
                        && out@[j].1 == spec_header_value_of(good[j].1),
            decreases pairs@.len() - i,
        {
            proof {
                assert(good.len() == pairs@.len());
                assert(good[i as int] == (pairs@[i as int].0@, pairs@[i as int].1@));
                assert(spec_encodable(good[i as int])) by {
                    lemma_encodable_pairs_all_encodable(spec_propagation_pairs(span@), i as int);
                }
            }
            let n = parse_header_name(pairs[i].0.as_slice());
            let v = parse_header_value(pairs[i].1.as_slice());
            match (n, v) {
                (Some(n), Some(v)) => {
                    out.push((n, v));
                },
                _ => {
                    proof {
                        assert(false);
                    }
                },
            }
            i += 1;
        }
        out
    }
}

/// Every pair the filter keeps is encodable.
proof fn lemma_encodable_pairs_all_encodable(ps: Seq<(Seq<u8>, Seq<u8>)>, i: int)
    requires
        0 <= i < spec_encodable_pairs(ps).len(),
    ensures
        spec_encodable(spec_encodable_pairs(ps)[i]),
    decreases ps.len(),
{
    if ps.len() > 0 {
        let pre = spec_encodable_pairs(ps.drop_last());
        if i < pre.len() {
            lemma_encodable_pairs_all_encodable(ps.drop_last(), i);
        }
    }
}

/// A decimal byte string always travels as a header value.
pub proof fn lemma_decimal_value_encodable(s: Seq<u8>)
    requires
        forall|i: int| 0 <= i < s.len() ==> is_dec_byte(#[trigger] s[i]),
    ensures
        spec_header_value_ok(s),
{
}

/// An active span's two propagation pairs both encode: the carrier keys
/// are token bytes and the decimal values are printable, so injection
/// skips nothing.
pub proof fn lemma_active_span_pairs_encodable(s: SpanData)
    requires
        s.active,
    ensures
        spec_encodable_pairs(spec_propagation_pairs(s)) == spec_propagation_pairs(s),
{
    reveal_strlit("x-datadog-trace-id");
    reveal_strlit("x-datadog-parent-id");
    lemma_dec_bytes_are_digits(s.trace_id as nat);
    lemma_dec_bytes_are_digits(s.span_id as nat);
    lemma_decimal_value_encodable(crate::codec::dec_bytes(s.trace_id as nat));
    lemma_decimal_value_encodable(crate::codec::dec_bytes(s.span_id as nat));
    assert(spec_header_name_ok(crate::codec::trace_id_key()));
    assert(spec_header_name_ok(crate::codec::parent_id_key()));
    let ps = spec_propagation_pairs(s);
    let p0 = (crate::codec::trace_id_key(), crate::codec::dec_bytes(s.trace_id as nat));
    let p1 = (crate::codec::parent_id_key(), crate::codec::dec_bytes(s.span_id as nat));
    assert(ps.len() == 2 && ps.last() == p1);
    assert(ps.drop_last().len() == 1 && ps.drop_last().last() == p0);
    assert(ps.drop_last().drop_last() =~= Seq::empty());
    assert(spec_encodable(p0));
    assert(spec_encodable(p1));
    reveal_with_fuel(spec_encodable_pairs, 3);
    assert(spec_encodable_pairs(ps.drop_last()) =~= seq![p0]);
    assert(seq![p0].push(p1) =~= ps);
    assert(spec_encodable_pairs(ps) =~= ps);
}

/// The server-side adapter around an inner service.
pub struct DatadogTracing<S> {
    inner: S,
    tracer: Tracer,
}

/// The boundary span with its standard server tags.
pub open spec fn spec_server_span(base: SpanData, method: Seq<char>, uri: Seq<char>) -> SpanData {
    spec_with_tag(
        spec_with_tag(
            spec_with_tag(
                spec_with_tag(spec_with_type(base, "web"@), "http.url"@, uri),
                "http.method"@,
                method,
            ),
            "span.kind"@,
            "server"@,
        ),
        "component"@,
        "axum"@,
    )
}

impl<S> DatadogTracing<S> {
    /// The engine handle's value.
    pub closed spec fn tracer_data(&self) -> TracerData {
        self.tracer@
    }

    /// Wraps `inner` with the boundary adapter.
    pub fn new(tracer: Tracer, inner: S) -> (r: Self)
        ensures
            r.tracer_data() == tracer@,
    {
        DatadogTracing { inner, tracer }
    }

    /// The engine handle.
    pub fn tracer(&self) -> (r: &Tracer)
        ensures
            r@ == self.tracer_data(),
    {
        &self.tracer
    }

    /// The wrapped service.
    pub fn inner_mut(&mut self) -> &mut S {
        &mut self.inner
    }

    /// Starts the boundary span for an inbound request: context is
    /// extracted through `lookup` first, then the standard server tags
    /// are set. The handle comes back to the caller, who attaches it to
    /// the boundary node.
    pub fn start_request<F: Fn(Vec<u8>) -> Option<Vec<u8>>>(
        &self,
        lookup: F,
        method: &str,
        uri: &str,
    ) -> (r: Span)
        requires
            forall|k: Vec<u8>| #[trigger] lookup.requires((k,)),
        ensures
            r@.active == !self.tracer_data().noop,
            self.tracer_data().noop ==> r@ == spec_noop_span(spec_boundary_name()),
            !self.tracer_data().noop ==> exists|ctx: Option<SpanContext>|
                r@ == spec_server_span(
                    #[trigger] spec_extract_outcome(
                        spec_boundary_name(),
                        "http.request"@,
                        ctx,
                        r@.span_id,
                    ),
                    method@,
                    uri@,
                ),
            !self.tracer_data().noop ==> exists|kt: Vec<u8>, kp: Vec<u8>, tv: Option<Vec<u8>>, pv: Option<
                Vec<u8>,
            >|
                kt@ == trace_id_key() && kp@ == parent_id_key() && #[trigger] call_ensures(
                    lookup,
                    (kt,),
                    tv,
                ) && #[trigger] call_ensures(lookup, (kp,), pv) && r@ == spec_server_span(
                    spec_extract_outcome(
                        spec_boundary_name(),
                        "http.request"@,
                        spec_context_of(opt_bytes_view(tv), opt_bytes_view(pv)),
                        r@.span_id,
                    ),
                    method@,
                    uri@,
                ),
    {
        let ghost glookup = lookup;
        let mut span = self.tracer.create_or_extract_span(
            lookup,
            "http.server.request",
            "http.request",
        );
        let ghost base = span@;
        let ghost sid = span@.span_id;
        span.set_type("web");
        span.set_tag("http.url", uri);
        span.set_tag("http.method", method);
        span.set_tag("span.kind", "server");
        span.set_tag("component", "axum");
        proof {
            assert(span@ == spec_server_span(base, method@, uri@));
            if !self.tracer_data().noop {
                let ctx = choose|ctx: Option<SpanContext>|
                    base == #[trigger] spec_extract_outcome(
                        spec_boundary_name(),
                        "http.request"@,
                        ctx,
                        sid,
                    );
                assert(base == spec_extract_outcome(
                    spec_boundary_name(),
                    "http.request"@,
                    ctx,
                    sid,
                ));
                assert(span@.span_id == sid);
                assert(span@ == spec_server_span(
                    spec_extract_outcome(spec_boundary_name(), "http.request"@, ctx, span@.span_id),
                    method@,
                    uri@,
                ));
                let (kt, kp, tv, pv) = choose|kt: Vec<u8>, kp: Vec<u8>, tv: Option<Vec<u8>>, pv: Option<
                    Vec<u8>,
                >|
                    kt@ == trace_id_key() && kp@ == parent_id_key() && #[trigger] call_ensures(
                        glookup,
                        (kt,),
                        tv,
                    ) && #[trigger] call_ensures(glookup, (kp,), pv) && base == spec_extract_outcome(
                        spec_boundary_name(),
                        "http.request"@,
                        spec_context_of(opt_bytes_view(tv), opt_bytes_view(pv)),
                        sid,
                    );
                assert(kt@ == trace_id_key() && kp@ == parent_id_key() && call_ensures(
                    glookup,
                    (kt,),
                    tv,
                ) && call_ensures(glookup, (kp,), pv));
                assert(span@ == spec_server_span(
                    spec_extract_outcome(
                        spec_boundary_name(),
                        "http.request"@,
                        spec_context_of(opt_bytes_view(tv), opt_bytes_view(pv)),
                        span@.span_id,
                    ),
                    method@,
                    uri@,
                ));
            }
        }
        span
    }

    /// Records the response status on the boundary span, after the
    /// handler completed.
    pub fn finish_request(span: &mut Span, status: u16)
        ensures
            final(span)@ == spec_with_tag(
                old(span)@,
                "http.status"@,
                dec_chars(status as nat),
            ),
    {
        let t = u64_to_string(status as u64);
        span.set_tag("http.status", t.as_str());
    }
}

} // verus!
