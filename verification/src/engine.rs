//! The engine handle.
//!
//! A [`Tracer`] owns one native engine instance and builds spans from it.
//! Construction never fails observably: when the engine cannot be
//! initialised — here, when the configured agent URL is malformed — the
//! handle degrades to no-op mode, and every span it builds is a no-op
//! handle. The handle is immutable after construction and may be shared
//! across threads; span creation needs only `&self`.

use crate::codec::context_from_values;
use crate::codec::opt_bytes_view;
use crate::codec::parent_id_key;
use crate::codec::parent_id_key_bytes;
use crate::codec::spec_context_of;
use crate::codec::trace_id_key;
use crate::codec::trace_id_key_bytes;
use crate::codec::SpanContext;
use crate::config::Config;
use crate::config::ConfigProperty;
use crate::span::new_id_well;
use crate::span::spec_extracted_span;
use crate::span::spec_fallback_root;
use crate::span::spec_noop_span;
use crate::span::spec_root_span;
use crate::span::IdWell;
use crate::span::Span;
use crate::span::SpanData;
use vstd::prelude::*;

verus! {

/// The mathematical value of an engine handle.
pub ghost struct TracerData {
    /// True when engine initialisation failed and the handle degraded
    /// to no-op mode.
    pub noop: bool,
}

/// Owns the native engine, or nothing in no-op mode.
pub struct Tracer {
    noop: bool,
    ids: IdWell,
}

impl View for Tracer {
    type V = TracerData;

    closed spec fn view(&self) -> TracerData {
        TracerData { noop: self.noop }
    }
}

/// An agent URL the engine accepts: one with a scheme it knows.
pub open spec fn spec_agent_url_ok(u: Seq<char>) -> bool {
    spec_has_prefix(u, "http://"@) || spec_has_prefix(u, "https://"@) || spec_has_prefix(
        u,
        "unix://"@,
    )
}

/// Whether construction from `c` degrades to no-op mode: it does exactly
/// when an agent URL is given and is malformed. An unset URL falls back
/// to the engine default and initialisation succeeds.
pub open spec fn spec_config_degrades(c: crate::config::ConfigData) -> bool {
    match c.agent_url {
        Option::Some(u) => !spec_agent_url_ok(u),
        Option::None => false,
    }
}

pub open spec fn spec_has_prefix(s: Seq<char>, p: Seq<char>) -> bool {
    s.len() >= p.len() && s.subrange(0, p.len() as int) == p
}

/// True when `s` starts with `p`.
fn has_prefix(s: &str, p: &str) -> (r: bool)
    ensures
        r == spec_has_prefix(s@, p@),
{
    let n = s.unicode_len();
    let m = p.unicode_len();
    if n < m {
        return false;
    }
    let mut i: usize = 0;
    while i < m
        invariant
            i <= m,
            m <= n,
            n == s@.len(),
            m == p@.len(),
            forall|j: int| 0 <= j < i ==> s@[j] == p@[j],
        decreases m - i,
    {
        if s.get_char(i) != p.get_char(i) {
            proof {
                assert(forall|k: int|
                    0 <= k < p@.len() ==> s@.subrange(0, p@.len() as int)[k] == s@[k]);
            }
            return false;
        }
        i += 1;
    }
    proof {
        assert(s@.subrange(0, p@.len() as int) =~= p@);
    }
    true
}

/// What a root creation yields: a fresh root span, or a no-op handle
/// from a no-op engine.
pub open spec fn spec_created_span(t: TracerData, name: Seq<char>, sid: u64) -> SpanData {
    if t.noop {
        spec_noop_span(name)
    } else {
        spec_root_span(name, sid)
    }
}

/// What creation with extraction yields, given the extraction outcome:
/// a span under the remote context when one was found, a fresh root
/// otherwise — the fallback is normal, not an error, and it records the
/// request's resource too.
pub open spec fn spec_extract_outcome(
    name: Seq<char>,
    resource: Seq<char>,
    ctx: Option<SpanContext>,
    sid: u64,
) -> SpanData {
    match ctx {
        Option::Some(c) => spec_extracted_span(name, resource, c, sid),
        Option::None => spec_fallback_root(name, resource, sid),
    }
}

impl Tracer {
    /// Builds an engine handle. This never fails: a configuration the
    /// engine cannot use yields a handle in no-op mode instead.
    pub fn new(cfg: &Config) -> (r: Tracer)
        ensures
            r@.noop == spec_config_degrades(cfg@),
    {
        proof {
            reveal_strlit("http://");
            reveal_strlit("https://");
            reveal_strlit("unix://");
        }
        let noop = match cfg.get(ConfigProperty::AgentUrl) {
            Some(u) => {
                let ok = has_prefix(u.as_str(), "http://") || has_prefix(u.as_str(), "https://")
                    || has_prefix(u.as_str(), "unix://");
                !ok
            },
            None => false,
        };
        Tracer { noop, ids: new_id_well() }
    }

    /// Builds a new root span.
    pub fn create_span(&self, name: &str) -> (r: Span)
        ensures
            r@ == spec_created_span(self@, name@, r@.span_id),
            !self@.noop ==> 1 <= r@.span_id,
    {
        if self.noop {
            Span::noop(&self.ids, name)
        } else {
            Span::root(&self.ids, name)
        }
    }

    /// Builds a span, first attempting context extraction through
    /// `lookup`; the callback is queried once per carrier key, only for
    /// the duration of this call. A missing or malformed context falls
    /// back to a fresh root span that still records the resource; the
    /// result is pinned, for some pair of values the callback can
    /// return for the two carrier keys, to the extraction outcome of
    /// exactly those values.
    pub fn create_or_extract_span<F: Fn(Vec<u8>) -> Option<Vec<u8>>>(
        &self,
        lookup: F,
        name: &str,
        resource: &str,
    ) -> (r: Span)
        requires
            forall|k: Vec<u8>| #[trigger] lookup.requires((k,)),
        ensures
            r@.active == !self@.noop,
            self@.noop ==> r@ == spec_noop_span(name@),
            !self@.noop ==> 1 <= r@.span_id,
            !self@.noop ==> exists|ctx: Option<SpanContext>|
                r@ == #[trigger] spec_extract_outcome(name@, resource@, ctx, r@.span_id),
            !self@.noop ==> exists|kt: Vec<u8>, kp: Vec<u8>, tv: Option<Vec<u8>>, pv: Option<
                Vec<u8>,
            >|
                kt@ == trace_id_key() && kp@ == parent_id_key() && #[trigger] call_ensures(
                    lookup,
                    (kt,),
                    tv,
                ) && #[trigger] call_ensures(lookup, (kp,), pv) && r@ == spec_extract_outcome(
                    name@,
                    resource@,
                    spec_context_of(opt_bytes_view(tv), opt_bytes_view(pv)),
                    r@.span_id,
                ),
    {
        if self.noop {
            return Span::noop(&self.ids, name);
        }
        let tk = trace_id_key_bytes();
        let ghost gtk = tk;
        let tv = lookup(tk);
        let pk = parent_id_key_bytes();
        let ghost gpk = pk;
        let pv = lookup(pk);
        let ghost gtv = tv;
        let ghost gpv = pv;
        let tr = match &tv {
            Some(v) => Some(v),
            None => None,
        };
        let pr = match &pv {
            Some(v) => Some(v),
            None => None,
        };
        let ghost gctx = spec_context_of(opt_bytes_view(gtv), opt_bytes_view(gpv));
        match context_from_values(tr, pr) {
            Some(ctx) => {
                let r = Span::extracted(&self.ids, name, resource, ctx);
                proof {
                    assert(gctx == Option::Some(ctx));
                    assert(r@ == spec_extract_outcome(name@, resource@, gctx, r@.span_id));
                    assert(call_ensures(lookup, (gtk,), gtv) && call_ensures(lookup, (gpk,), gpv));
                }
                r
            },
            None => {
                let r = Span::fallback_root(&self.ids, name, resource);
                proof {
                    assert(gctx == Option::<SpanContext>::None);
                    assert(r@ == spec_extract_outcome(name@, resource@, gctx, r@.span_id));
                    assert(call_ensures(lookup, (gtk,), gtv) && call_ensures(lookup, (gpk,), gpv));
                }
                r
            },
        }
    }

    /// Blocks until buffered telemetry is drained. The model engine
    /// buffers nothing, so there is nothing to say of the outcome; a
    /// real engine's drain happens outside this handle's state.
    pub fn flush(&self) {
    }

    /// True for a handle that degraded to no-op mode.
    pub fn is_noop(&self) -> (r: bool)
        ensures
            r == self@.noop,
    {
        self.noop
    }

}

/// Round trip: a context injected by an active span `a` — its
/// propagation pairs read back through extraction — names `a`'s trace,
/// and a span built under the extracted context continues that trace as
/// a child of `a`'s span.
pub proof fn lemma_inject_extract_roundtrip(
    a: SpanData,
    name: Seq<char>,
    resource: Seq<char>,
    sid: u64,
)
    requires
        a.active,
    ensures
        ({
            let pairs = crate::span::spec_propagation_pairs(a);
            let ctx = crate::codec::spec_context_of(
                Option::Some(pairs[0].1),
                Option::Some(pairs[1].1),
            );
            ctx == Option::Some(SpanContext { trace_id: a.trace_id, parent_id: a.span_id })
                && spec_extracted_span(name, resource, ctx->0, sid).trace_id == a.trace_id
                && spec_extracted_span(name, resource, ctx->0, sid).parent
                == crate::span::ParentLink::Remote(a.span_id)
        }),
{
    crate::codec::lemma_dec_roundtrip(a.trace_id);
    crate::codec::lemma_dec_roundtrip(a.span_id);
}

} // verus!
