//! The span tree synchroniser.
//!
//! [`DatadogLayer`] consumes the instrumentation framework's span
//! lifecycle events — span created, attributes recorded, span closed —
//! and keeps one native span attached to every live non-boundary node,
//! with the native tree mirroring the framework's tree
//! ([`spec_mirrored`]). Boundary nodes are skipped at creation; the
//! boundary adapter attaches their span explicitly after extraction.

use crate::codec::bool_to_string;
use crate::codec::dec_chars;
use crate::codec::i64_to_string;
use crate::codec::sdec_chars;
use crate::codec::spec_bool_chars;
use crate::codec::u64_to_string;
use crate::engine::spec_created_span;
use crate::engine::Tracer;
use crate::engine::TracerData;
use crate::registry::lemma_attach_preserves;
use crate::registry::lemma_register_preserves;
use crate::registry::lemma_remove_preserves;
use crate::registry::lemma_update_handle_preserves;
use crate::registry::spec_handles_inactive;
use crate::registry::spec_mirrored;
use crate::registry::spec_parents_attached;
use crate::registry::NodeData;
use crate::registry::NodeTable;
use crate::span::spec_child_span;
use crate::span::spec_finished;
use crate::span::spec_same_identity;
use crate::span::spec_with_error;
use crate::span::spec_with_error_message;
use crate::span::spec_with_tag;
use crate::span::str_eq;
use crate::span::Span;
use crate::span::SpanData;
use vstd::prelude::*;

verus! {

/// One recorded attribute value, as the framework's visitor hands it
/// over. Values the engine cannot hold directly arrive pre-rendered.
pub enum AttrValue {
    /// A text value.
    Text(String),
    /// A boolean, rendered `true` or `false`.
    Truth(bool),
    /// A signed number, rendered in decimal.
    Signed(i64),
    /// An unsigned number, rendered in decimal.
    Unsigned(u64),
    /// A value already rendered by the caller (a debug form, a float).
    Rendered(String),
    /// An error value's description: it marks the span errored and
    /// becomes its error message, not a tag.
    Failure(String),
}

/// The mathematical value of an attribute value.
pub ghost enum AttrValueData {
    Text(Seq<char>),
    Truth(bool),
    Signed(i64),
    Unsigned(u64),
    Rendered(Seq<char>),
    Failure(Seq<char>),
}

impl View for AttrValue {
    type V = AttrValueData;

    open spec fn view(&self) -> AttrValueData {
        match self {
            AttrValue::Text(s) => AttrValueData::Text(s@),
            AttrValue::Truth(b) => AttrValueData::Truth(*b),
            AttrValue::Signed(v) => AttrValueData::Signed(*v),
            AttrValue::Unsigned(v) => AttrValueData::Unsigned(*v),
            AttrValue::Rendered(s) => AttrValueData::Rendered(s@),
            AttrValue::Failure(s) => AttrValueData::Failure(s@),
        }
    }
}

/// One named attribute.
pub struct SpanAttr {
    pub name: String,
    pub value: AttrValue,
}

/// The mathematical value of a named attribute.
pub ghost struct AttrData {
    pub name: Seq<char>,
    pub value: AttrValueData,
}

impl View for SpanAttr {
    type V = AttrData;

    open spec fn view(&self) -> AttrData {
        AttrData { name: self.name@, value: self.value@ }
    }
}

pub open spec fn attrs_view(s: Seq<SpanAttr>) -> Seq<AttrData> {
    s.map_values(|a: SpanAttr| a@)
}

/// The text a non-error attribute value is stored as.
pub open spec fn spec_render_value(v: AttrValueData) -> Seq<char> {
    match v {
        AttrValueData::Text(s) => s,
        AttrValueData::Truth(b) => spec_bool_chars(b),
        AttrValueData::Signed(i) => sdec_chars(i as int),
        AttrValueData::Unsigned(u) => dec_chars(u as nat),
        AttrValueData::Rendered(s) => s,
        AttrValueData::Failure(s) => s,
    }
}

/// What recording one attribute does to a span: an error value marks
/// the span errored and sets its message; every other value becomes a
/// tag under the attribute's name.
pub open spec fn spec_apply_attr(s: SpanData, a: AttrData) -> SpanData {
    match a.value {
        AttrValueData::Failure(m) => spec_with_error_message(spec_with_error(s, true), m),
        _ => spec_with_tag(s, a.name, spec_render_value(a.value)),
    }
}

/// Recording a list of attributes, first to last.
pub open spec fn spec_apply_attrs(s: SpanData, attrs: Seq<AttrData>) -> SpanData
    decreases attrs.len(),
{
    if attrs.len() == 0 {
        s
    } else {
        spec_apply_attr(spec_apply_attrs(s, attrs.drop_last()), attrs.last())
    }
}

pub open spec fn opt_sref_view(o: Option<&str>) -> Option<Seq<char>> {
    match o {
        Option::Some(s) => Option::Some(s@),
        Option::None => Option::None,
    }
}

/// What recording the source position does to a span: the file path and
/// the line number, each as a tag, when known.
pub open spec fn spec_set_source(s: SpanData, file: Option<Seq<char>>, line: Option<u64>) -> SpanData {
    let s1 = match file {
        Option::Some(f) => spec_with_tag(s, "source.file"@, f),
        Option::None => s,
    };
    match line {
        Option::Some(l) => spec_with_tag(s1, "source.line"@, dec_chars(l as nat)),
        Option::None => s1,
    }
}

/// Records one attribute on a span.
pub fn apply_attr(span: &mut Span, attr: &SpanAttr)
    ensures
        final(span)@ == spec_apply_attr(old(span)@, attr@),
{
    match &attr.value {
        AttrValue::Text(s) => span.set_tag(attr.name.as_str(), s.as_str()),
        AttrValue::Truth(b) => {
            let t = bool_to_string(*b);
            span.set_tag(attr.name.as_str(), t.as_str());
        },
        AttrValue::Signed(v) => {
            let t = i64_to_string(*v);
            span.set_tag(attr.name.as_str(), t.as_str());
        },
        AttrValue::Unsigned(v) => {
            let t = u64_to_string(*v);
            span.set_tag(attr.name.as_str(), t.as_str());
        },
        AttrValue::Rendered(s) => span.set_tag(attr.name.as_str(), s.as_str()),
        AttrValue::Failure(m) => {
            span.set_error(true);
            span.set_error_message(m.as_str());
        },
    }
}

/// Records a list of attributes on a span, first to last.
pub fn apply_attrs(span: &mut Span, attrs: &Vec<SpanAttr>)
    ensures
        final(span)@ == spec_apply_attrs(old(span)@, attrs_view(attrs@)),
{
    let ghost all = attrs_view(attrs@);
    let mut i: usize = 0;
    while i < attrs.len()
        invariant
            i <= attrs@.len(),
            all == attrs_view(attrs@),
            span@ == spec_apply_attrs(old(span)@, all.take(i as int)),
        decreases attrs@.len() - i,
    {
        apply_attr(span, &attrs[i]);
        proof {
            assert(all.take(i + 1).drop_last() =~= all.take(i as int));
            assert(all.take(i + 1).last() == attrs@[i as int]@);
        }
        i += 1;
    }
    proof {
        assert(all.take(attrs@.len() as int) =~= all);
    }
}

/// Tags a span with where in the source it was opened.
pub fn set_span_source(dd_span: &mut Span, file: Option<&str>, line: Option<u64>)
    ensures
        final(dd_span)@ == spec_set_source(old(dd_span)@, opt_sref_view(file), line),
{
    proof {
        reveal_strlit("source.file");
        reveal_strlit("source.line");
    }
    match file {
        Some(f) => dd_span.set_tag("source.file", f),
        None => {},
    }
    match line {
        Some(l) => {
            let t = u64_to_string(l);
            dd_span.set_tag("source.line", t.as_str());
        },
        None => {},
    }
}

/// Recording attributes never moves a span in the tree.
pub proof fn lemma_apply_attrs_identity(s: SpanData, attrs: Seq<AttrData>)
    ensures
        spec_same_identity(spec_apply_attrs(s, attrs), s),
    decreases attrs.len(),
{
    if attrs.len() > 0 {
        lemma_apply_attrs_identity(s, attrs.drop_last());
    }
}

/// Recording attributes on a no-op handle changes nothing at all.
pub proof fn lemma_apply_attrs_inert(s: SpanData, attrs: Seq<AttrData>)
    requires
        !s.active,
    ensures
        spec_apply_attrs(s, attrs) == s,
    decreases attrs.len(),
{
    if attrs.len() > 0 {
        lemma_apply_attrs_inert(s, attrs.drop_last());
    }
}

/// Tagging the source position never moves a span in the tree.
pub proof fn lemma_set_source_identity(s: SpanData, file: Option<Seq<char>>, line: Option<u64>)
    ensures
        spec_same_identity(spec_set_source(s, file, line), s),
{
}

/// How an event names its parent: explicitly none, an explicit node id,
/// or whatever node is ambient at the call site.
#[derive(Clone, Copy, PartialEq, Eq, Structural, Debug)]
pub enum ParentSel {
    Root,
    Explicit(u64),
    Current,
}

/// The reserved name of the inbound-request boundary span, skipped at
/// creation so the boundary adapter can attach an extracted span first.
pub open spec fn spec_boundary_name() -> Seq<char> {
    "http.server.request"@
}

/// Which live node an event's parent selection resolves to: the
/// explicit id when it names a live node, else the ambient node when it
/// is live, else none.
pub open spec fn spec_resolved_parent(
    m: Map<u64, NodeData>,
    sel: ParentSel,
    ambient: Option<u64>,
) -> Option<u64> {
    match sel {
        ParentSel::Root => Option::None,
        ParentSel::Explicit(p) => if m.contains_key(p) {
            Option::Some(p)
        } else {
            Option::None
        },
        ParentSel::Current => match ambient {
            Option::Some(a) => if m.contains_key(a) {
                Option::Some(a)
            } else {
                Option::None
            },
            Option::None => Option::None,
        },
    }
}

/// The parent handle under which a new span is built, when one is.
pub open spec fn spec_parent_handle(
    m: Map<u64, NodeData>,
    sel: ParentSel,
    ambient: Option<u64>,
) -> Option<SpanData> {
    match spec_resolved_parent(m, sel, ambient) {
        Option::Some(p) => m[p].handle,
        Option::None => Option::None,
    }
}

/// The span a creation event builds: a child of the resolved parent's
/// handle, or a fresh root from the engine; errored when the event is
/// error-level; then the initial attributes; then the source position.
pub open spec fn spec_built_span(
    t: TracerData,
    ph: Option<SpanData>,
    name: Seq<char>,
    error_level: bool,
    attrs: Seq<AttrData>,
    file: Option<Seq<char>>,
    line: Option<u64>,
    sid: u64,
) -> SpanData {
    let base = match ph {
        Option::Some(h) => spec_child_span(h, name, sid),
        Option::None => spec_created_span(t, name, sid),
    };
    let flagged = if error_level {
        spec_with_error(base, true)
    } else {
        base
    };
    spec_set_source(spec_apply_attrs(flagged, attrs), file, line)
}

/// The synchroniser: an engine handle and the registry of live nodes.
pub struct DatadogLayer {
    tracer: Tracer,
    nodes: NodeTable,
}

impl View for DatadogLayer {
    type V = Map<u64, NodeData>;

    closed spec fn view(&self) -> Map<u64, NodeData> {
        self.nodes@
    }
}

impl DatadogLayer {
    /// The registry is coherent: ids unique, the native tree mirrors
    /// the framework tree, no attached node hangs under an empty slot,
    /// and over a no-op engine every attached handle is a no-op handle.
    pub closed spec fn wf(&self) -> bool {
        self.nodes.wf() && spec_mirrored(self.nodes@) && spec_parents_attached(self.nodes@) && (
        self.tracer@.noop ==> spec_handles_inactive(self.nodes@))
    }

    /// The engine handle's value.
    pub closed spec fn tracer_data(&self) -> TracerData {
        self.tracer@
    }

    /// Builds a synchroniser around an engine handle.
    pub fn new(tracer: Tracer) -> (r: DatadogLayer)
        ensures
            r.wf(),
            r@ == Map::<u64, NodeData>::empty(),
            r.tracer_data() == tracer@,
    {
        let r = DatadogLayer { tracer, nodes: NodeTable::new() };
        proof {
            assert forall|c: u64, p: u64|
                crate::registry::spec_mirror_edge(r.nodes@, c, p) implies
                crate::registry::spec_mirror_claim(r.nodes@, c, p) by {
                assert(!r.nodes@.contains_key(c));
            }
            assert forall|c: u64, p: u64|
                crate::registry::spec_orphan_edge(r.nodes@, c, p) implies r.nodes@[p].handle
                is Some by {
                assert(!r.nodes@.contains_key(c));
            }
            assert forall|c: u64|
                (#[trigger] r.nodes@.contains_key(c)) && r.nodes@[c].handle is Some implies
                !r.nodes@[c].handle->0.active by {
                assert(!r.nodes@.contains_key(c));
            }
        }
        r
    }

    /// The engine handle.
    pub fn tracer(&self) -> (r: &Tracer)
        ensures
            r@ == self.tracer_data(),
    {
        &self.tracer
    }

    /// A span was created. A boundary-named node is registered without a
    /// handle — the boundary adapter attaches one. Any other node gets a
    /// native span built under its resolved parent's handle, or a fresh
    /// root when none resolves; a live resolved parent must already have
    /// its handle attached — a bare parent is a synchronisation bug the
    /// caller must rule out. The framework hands each new span an id no
    /// live node carries or names as its parent.
    pub fn on_new_span(
        &mut self,
        id: u64,
        name: &str,
        sel: ParentSel,
        ambient: Option<u64>,
        error_level: bool,
        attrs: &Vec<SpanAttr>,
        source_file: Option<&str>,
        source_line: Option<u64>,
    )
        requires
            old(self).wf(),
            !old(self)@.contains_key(id),
            forall|c: u64| #[trigger]
                old(self)@.contains_key(c) ==> old(self)@[c].parent != Option::Some(id),
            name@ != spec_boundary_name() ==> match spec_resolved_parent(
                old(self)@,
                sel,
                ambient,
            ) {
                Option::Some(p) => old(self)@[p].handle is Some,
                Option::None => true,
            },
        ensures
            final(self).wf(),
            final(self).tracer_data() == old(self).tracer_data(),
            spec_mirrored(final(self)@),
            name@ == spec_boundary_name() ==> final(self)@ == old(self)@.insert(
                id,
                (NodeData {
                    parent: spec_resolved_parent(old(self)@, sel, ambient),
                    boundary: true,
                    handle: Option::None,
                }),
            ),
            name@ != spec_boundary_name() ==> exists|sid: u64|
                final(self)@ == old(self)@.insert(
                    id,
                    (NodeData {
                        parent: spec_resolved_parent(old(self)@, sel, ambient),
                        boundary: false,
                        handle: Option::Some(
                            #[trigger] spec_built_span(
                                old(self).tracer_data(),
                                spec_parent_handle(old(self)@, sel, ambient),
                                name@,
                                error_level,
                                attrs_view(attrs@),
                                opt_sref_view(source_file),
                                source_line,
                                sid,
                            ),
                        ),
                    }),
                ),
            name@ != spec_boundary_name() && old(self).tracer_data().noop ==> final(self)@[id].handle
                == Option::Some(crate::span::spec_noop_span(name@)),
    {
        proof {
            reveal_strlit("http.server.request");
        }
        let ghost m0 = self.nodes@;
        let resolved: Option<u64> = match sel {
            ParentSel::Root => None,
            ParentSel::Explicit(p) => if self.nodes.contains(p) {
                Some(p)
            } else {
                None
            },
            ParentSel::Current => match ambient {
                Some(a) => if self.nodes.contains(a) {
                    Some(a)
                } else {
                    None
                },
                None => None,
            },
        };
        proof {
            assert(resolved == spec_resolved_parent(m0, sel, ambient));
        }
        if str_eq(name, "http.server.request") {
            let ghost nd = NodeData { parent: resolved, boundary: true, handle: Option::None };
            self.nodes.insert_new(id, resolved, true, None);
            proof {
                lemma_register_preserves(m0, id, nd, self.tracer@.noop);
            }
            return ;
        }
        let mut span: Span = match resolved {
            Some(p) => {
                match self.nodes.handle_ref(p) {
                    Some(h) => h.create_child(name),
                    None => {
                        proof {
                            assert(false);
                        }
                        self.tracer.create_span(name)
                    },
                }
            },
            None => self.tracer.create_span(name),
        };
        let ghost base = span@;
        let ghost sid = span@.span_id;
        if error_level {
            span.set_error(true);
        }
        apply_attrs(&mut span, attrs);
        set_span_source(&mut span, source_file, source_line);
        proof {
            let flagged = if error_level {
                spec_with_error(base, true)
            } else {
                base
            };
            lemma_apply_attrs_identity(flagged, attrs_view(attrs@));
            lemma_set_source_identity(
                spec_apply_attrs(flagged, attrs_view(attrs@)),
                opt_sref_view(source_file),
                source_line,
            );
            assert(span@ == spec_built_span(
                self.tracer@,
                spec_parent_handle(m0, sel, ambient),
                name@,
                error_level,
                attrs_view(attrs@),
                opt_sref_view(source_file),
                source_line,
                sid,
            ));
            assert(spec_same_identity(span@, base));
            if self.tracer@.noop {
                // Over a no-op engine every attached handle is inactive
                // (wf), so the base span — a child of one, or a fresh
                // no-op root — is the no-op span, and nothing recorded
                // on it sticks.
                match resolved {
                    Option::Some(p) => {
                        assert(m0.contains_key(p));
                        assert(!m0[p].handle->0.active);
                    },
                    Option::None => {},
                }
                assert(base == crate::span::spec_noop_span(name@));
                lemma_apply_attrs_inert(base, attrs_view(attrs@));
                assert(span@ == crate::span::spec_noop_span(name@));
            }
        }
        let ghost sv = span@;
        let ghost nd = NodeData { parent: resolved, boundary: false, handle: Option::Some(sv) };
        self.nodes.insert_new(id, resolved, false, Some(span));
        proof {
            lemma_register_preserves(m0, id, nd, self.tracer@.noop);
            assert(self.nodes@ == m0.insert(id, nd));
            assert(sv == spec_built_span(
                old(self).tracer_data(),
                spec_parent_handle(old(self)@, sel, ambient),
                name@,
                error_level,
                attrs_view(attrs@),
                opt_sref_view(source_file),
                source_line,
                sid,
            ));
            assert(self.nodes@ == old(self)@.insert(
                id,
                (NodeData {
                    parent: spec_resolved_parent(old(self)@, sel, ambient),
                    boundary: false,
                    handle: Option::Some(
                        spec_built_span(
                            old(self).tracer_data(),
                            spec_parent_handle(old(self)@, sel, ambient),
                            name@,
                            error_level,
                            attrs_view(attrs@),
                            opt_sref_view(source_file),
                            source_line,
                            sid,
                        ),
                    ),
                }),
            ));
        }
    }

    /// Attributes were recorded on a live span: each is forwarded to the
    /// node's attached handle. A node the registry does not know, or one
    /// with no handle attached, is left alone.
    pub fn on_record(&mut self, id: u64, attrs: &Vec<SpanAttr>)
        requires
            old(self).wf(),
        ensures
            final(self).wf(),
            final(self).tracer_data() == old(self).tracer_data(),
            spec_mirrored(final(self)@),
            if old(self)@.contains_key(id) && old(self)@[id].handle is Some {
                final(self)@ == old(self)@.insert(
                    id,
                    (NodeData {
                        handle: Option::Some(
                            spec_apply_attrs(old(self)@[id].handle->0, attrs_view(attrs@)),
                        ),
                        ..old(self)@[id]
                    }),
                )
            } else {
                final(self)@ == old(self)@
            },
    {
        let ghost m0 = self.nodes@;
        match self.nodes.take_handle(id) {
            Some(mut h) => {
                let ghost h0 = h@;
                apply_attrs(&mut h, attrs);
                proof {
                    lemma_apply_attrs_identity(h0, attrs_view(attrs@));
                }
                let ghost h2 = h@;
                self.nodes.put_handle(id, h);
                proof {
                    lemma_update_handle_preserves(m0, id, h2);
                    assert(m0.insert(id, (NodeData { handle: Option::None, ..m0[id] })).insert(
                        id,
                        (NodeData { handle: Option::Some(h2), ..m0[id] }),
                    ) =~= m0.insert(id, (NodeData { handle: Option::Some(h2), ..m0[id] })));
                    assert(self.nodes@ == m0.insert(
                        id,
                        (NodeData { handle: Option::Some(h2), ..m0[id] }),
                    ));
                }
            },
            None => {},
        }
    }

    /// A span closed. This callback is observational only: the native
    /// span is finalised and released when the node's storage slot is
    /// destroyed ([`Self::release_node`]), never here.
    pub fn on_close(&self, _id: u64) {
    }

    /// The node's storage slot was destroyed by the framework: the entry
    /// leaves the registry and its handle, when one was attached, comes
    /// back finalised — finalise-then-release, exactly once.
    pub fn release_node(&mut self, id: u64) -> (r: Option<Span>)
        requires
            old(self).wf(),
        ensures
            final(self).wf(),
            final(self).tracer_data() == old(self).tracer_data(),
            spec_mirrored(final(self)@),
            final(self)@ == old(self)@.remove(id),
            match r {
                Option::Some(h) => old(self)@.contains_key(id) && old(self)@[id].handle
                    is Some && h@ == spec_finished(old(self)@[id].handle->0),
                Option::None => !old(self)@.contains_key(id) || old(self)@[id].handle is None,
            },
    {
        let ghost m0 = self.nodes@;
        let r = self.nodes.remove_node(id);
        proof {
            lemma_remove_preserves(m0, id);
        }
        match r {
            Some(mut h) => {
                h.finish();
                Some(h)
            },
            None => None,
        }
    }

    /// The boundary adapter attaches the span it built into a boundary
    /// node's empty slot — exactly once per node. Adapter and
    /// synchroniser share one engine, so over a no-op engine only a
    /// no-op handle arrives here.
    pub fn attach_span(&mut self, id: u64, span: Span)
        requires
            old(self).wf(),
            old(self)@.contains_key(id),
            old(self)@[id].boundary,
            old(self)@[id].handle is None,
            old(self).tracer_data().noop ==> !span@.active,
        ensures
            final(self).wf(),
            final(self).tracer_data() == old(self).tracer_data(),
            spec_mirrored(final(self)@),
            final(self)@ == old(self)@.insert(
                id,
                (NodeData { handle: Option::Some(span@), ..old(self)@[id] }),
            ),
    {
        let ghost m0 = self.nodes@;
        let ghost sv = span@;
        self.nodes.put_handle(id, span);
        proof {
            lemma_attach_preserves(m0, id, sv, self.tracer@.noop);
        }
    }

    /// Sets the engine-defined span type on a node's attached handle; a
    /// node the registry does not know, or one with no handle, is left
    /// alone.
    pub fn set_span_type(&mut self, id: u64, t: &str)
        requires
            old(self).wf(),
        ensures
            final(self).wf(),
            final(self).tracer_data() == old(self).tracer_data(),
            spec_mirrored(final(self)@),
            if old(self)@.contains_key(id) && old(self)@[id].handle is Some {
                final(self)@ == old(self)@.insert(
                    id,
                    (NodeData {
                        handle: Option::Some(
                            crate::span::spec_with_type(old(self)@[id].handle->0, t@),
                        ),
                        ..old(self)@[id]
                    }),
                )
            } else {
                final(self)@ == old(self)@
            },
    {
        let ghost m0 = self.nodes@;
        match self.nodes.take_handle(id) {
            Some(mut h) => {
                let ghost h0 = h@;
                h.set_type(t);
                let ghost h2 = h@;
                self.nodes.put_handle(id, h);
                proof {
                    assert(spec_same_identity(h2, h0));
                    lemma_update_handle_preserves(m0, id, h2);
                    assert(m0.insert(id, (NodeData { handle: Option::None, ..m0[id] })).insert(
                        id,
                        (NodeData { handle: Option::Some(h2), ..m0[id] }),
                    ) =~= m0.insert(id, (NodeData { handle: Option::Some(h2), ..m0[id] })));
                }
            },
            None => {},
        }
    }

    /// Whether a node is a boundary node.
    pub fn is_boundary(&self, id: u64) -> (r: bool)
        requires
            self.wf(),
        ensures
            r == (self@.contains_key(id) && self@[id].boundary),
    {
        self.nodes.is_boundary(id)
    }

    /// Whether a node is live in the registry.
    pub fn contains(&self, id: u64) -> (r: bool)
        requires
            self.wf(),
        ensures
            r == self@.contains_key(id),
    {
        self.nodes.contains(id)
    }

    /// Whether some live node names `id` as its parent; a fresh node id
    /// from the framework never is, and a caller can check that here.
    pub fn has_child_ref(&self, id: u64) -> (r: bool)
        requires
            self.wf(),
        ensures
            r == exists|c: u64|
                (#[trigger] self@.contains_key(c)) && self@[c].parent == Option::Some(id),
    {
        self.nodes.refs_parent(id)
    }

    /// Borrows the handle attached to a node.
    pub fn span_of(&self, id: u64) -> (r: Option<&Span>)
        requires
            self.wf(),
        ensures
            match r {
                Option::Some(s) => self@.contains_key(id) && self@[id].handle == Option::Some(s@),
                Option::None => !self@.contains_key(id) || self@[id].handle is None,
            },
    {
        self.nodes.handle_ref(id)
    }
}

} // verus!
