//! A minimal span tree synchroniser.
//!
//! [`DDTraceLayer`] keeps the same mirror invariant as the full
//! synchroniser but skips no boundary names and records no attributes:
//! every creation event gets a native span at once — a child under the
//! resolved parent, or a fresh root.

use crate::engine::Tracer;
use crate::engine::TracerData;
use crate::registry::lemma_register_preserves;
use crate::registry::lemma_remove_preserves;
use crate::registry::spec_handles_inactive;
use crate::registry::spec_mirrored;
use crate::registry::spec_parents_attached;
use crate::registry::NodeData;
use crate::registry::NodeTable;
use crate::span::spec_finished;
use crate::span::spec_same_identity;
use crate::span::spec_with_error;
use crate::span::Span;
use crate::tracing_datadog_sdk::spec_built_span;
use crate::tracing_datadog_sdk::spec_parent_handle;
use crate::tracing_datadog_sdk::spec_resolved_parent;
use crate::tracing_datadog_sdk::AttrData;
use crate::tracing_datadog_sdk::ParentSel;
use vstd::prelude::*;

verus! {

/// The minimal synchroniser: an engine handle and the registry of live
/// nodes.
pub struct DDTraceLayer {
    tracer: Tracer,
    nodes: NodeTable,
}

impl View for DDTraceLayer {
    type V = Map<u64, NodeData>;

    closed spec fn view(&self) -> Map<u64, NodeData> {
        self.nodes@
    }
}

impl DDTraceLayer {
    /// The registry is coherent: ids unique, the native tree mirrors
    /// the framework tree, no attached node hangs under an empty slot,
    /// and over a no-op engine every attached handle is a no-op handle.
    pub closed spec fn wf(&self) -> bool {
        self.nodes.wf() && spec_mirrored(self.nodes@) && spec_parents_attached(self.nodes@) && (
        self.tracer@.noop ==> spec_handles_inactive(self.nodes@))
    }

    /// The engine handle's value.
    pub closed spec fn tracer_data(&self) -> TracerData {
        self.tracer@
    }

    /// Builds a synchroniser around an engine handle.
    pub fn new(tracer: Tracer) -> (r: DDTraceLayer)
        ensures
            r.wf(),
            r@ == Map::<u64, NodeData>::empty(),
            r.tracer_data() == tracer@,
    {
        let r = DDTraceLayer { tracer, nodes: NodeTable::new() };
        proof {
            assert forall|c: u64, p: u64|
                crate::registry::spec_mirror_edge(r.nodes@, c, p) implies
                crate::registry::spec_mirror_claim(r.nodes@, c, p) by {
                assert(!r.nodes@.contains_key(c));
            }
            assert forall|c: u64, p: u64|
                crate::registry::spec_orphan_edge(r.nodes@, c, p) implies r.nodes@[p].handle
                is Some by {
                assert(!r.nodes@.contains_key(c));
            }
            assert forall|c: u64|
                (#[trigger] r.nodes@.contains_key(c)) && r.nodes@[c].handle is Some implies
                !r.nodes@[c].handle->0.active by {
                assert(!r.nodes@.contains_key(c));
            }
        }
        r
    }

    /// The engine handle.
    pub fn tracer(&self) -> (r: &Tracer)
        ensures
            r@ == self.tracer_data(),
    {
        &self.tracer
    }

    /// A span was created: a native span is built at once, under the
    /// resolved parent's handle or as a fresh root, errored when the
    /// event is error-level, and attached to the new node. A live
    /// resolved parent must already have its handle attached, and the
    /// framework hands out an id no live node carries or names.
    pub fn on_new_span(
        &mut self,
        id: u64,
        name: &str,
        sel: ParentSel,
        ambient: Option<u64>,
        error_level: bool,
    )
        requires
            old(self).wf(),
            !old(self)@.contains_key(id),
            forall|c: u64| #[trigger]
                old(self)@.contains_key(c) ==> old(self)@[c].parent != Option::Some(id),
            match spec_resolved_parent(old(self)@, sel, ambient) {
                Option::Some(p) => old(self)@[p].handle is Some,
                Option::None => true,
            },
        ensures
            final(self).wf(),
            final(self).tracer_data() == old(self).tracer_data(),
            spec_mirrored(final(self)@),
            exists|sid: u64|
                final(self)@ == old(self)@.insert(
                    id,
                    (NodeData {
                        parent: spec_resolved_parent(old(self)@, sel, ambient),
                        boundary: false,
                        handle: Option::Some(
                            #[trigger] spec_built_span(
                                old(self).tracer_data(),
                                spec_parent_handle(old(self)@, sel, ambient),
                                name@,
                                error_level,
                                Seq::<AttrData>::empty(),
                                Option::None,
                                Option::None,
                                sid,
                            ),
                        ),
                    }),
                ),
            old(self).tracer_data().noop ==> final(self)@[id].handle == Option::Some(
                crate::span::spec_noop_span(name@),
            ),
    {
        let ghost m0 = self.nodes@;
        let resolved: Option<u64> = match sel {
            ParentSel::Root => None,
            ParentSel::Explicit(p) => if self.nodes.contains(p) {
                Some(p)
            } else {
                None
            },
            ParentSel::Current => match ambient {
                Some(a) => if self.nodes.contains(a) {
                    Some(a)
                } else {
                    None
                },
                None => None,
            },
        };
        proof {
            assert(resolved == spec_resolved_parent(m0, sel, ambient));
        }
        let mut span: Span = match resolved {
            Some(p) => {
                match self.nodes.handle_ref(p) {
                    Some(h) => h.create_child(name),
                    None => {
                        proof {
                            assert(false);
                        }
                        self.tracer.create_span(name)
                    },
                }
            },
            None => self.tracer.create_span(name),
        };
        let ghost base = span@;
        let ghost sid = span@.span_id;
        if error_level {
            span.set_error(true);
        }
        proof {
            let flagged = if error_level {
                spec_with_error(base, true)
            } else {
                base
            };
            assert(span@ == flagged);
            assert(spec_same_identity(span@, base));
            if self.tracer@.noop {
                // Over a no-op engine every attached handle is inactive
                // (wf), so the base span is the no-op span and the error
                // flag does not stick.
                match resolved {
                    Option::Some(p) => {
                        assert(m0.contains_key(p));
                        assert(!m0[p].handle->0.active);
                    },
                    Option::None => {},
                }
                assert(span@ == crate::span::spec_noop_span(name@));
            }
        }
        let ghost sv = span@;
        let ghost nd = NodeData { parent: resolved, boundary: false, handle: Option::Some(sv) };
        self.nodes.insert_new(id, resolved, false, Some(span));
        proof {
            lemma_register_preserves(m0, id, nd, self.tracer@.noop);
            assert(self.nodes@ == m0.insert(id, nd));
            assert(sv == spec_built_span(
                old(self).tracer_data(),
                spec_parent_handle(old(self)@, sel, ambient),
                name@,
                error_level,
                Seq::<AttrData>::empty(),
                Option::None,
                Option::None,
                sid,
            ));
            assert(self.nodes@ == old(self)@.insert(
                id,
                (NodeData {
                    parent: spec_resolved_parent(old(self)@, sel, ambient),
                    boundary: false,
                    handle: Option::Some(
                        spec_built_span(
                            old(self).tracer_data(),
                            spec_parent_handle(old(self)@, sel, ambient),
                            name@,
                            error_level,
                            Seq::<AttrData>::empty(),
                            Option::None,
                            Option::None,
                            sid,
                        ),
                    ),
                }),
            ));
        }
    }

    /// A span closed. Observational only, as in the full synchroniser:
    /// finalisation happens at slot destruction.
    pub fn on_close(&self, _id: u64) {
    }

    /// The node's storage slot was destroyed by the framework.
    pub fn release_node(&mut self, id: u64) -> (r: Option<Span>)
        requires
            old(self).wf(),
        ensures
            final(self).wf(),
            final(self).tracer_data() == old(self).tracer_data(),
            spec_mirrored(final(self)@),
            final(self)@ == old(self)@.remove(id),
            match r {
                Option::Some(h) => old(self)@.contains_key(id) && old(self)@[id].handle
                    is Some && h@ == spec_finished(old(self)@[id].handle->0),
                Option::None => !old(self)@.contains_key(id) || old(self)@[id].handle is None,
            },
    {
        let ghost m0 = self.nodes@;
        let r = self.nodes.remove_node(id);
        proof {
            lemma_remove_preserves(m0, id);
        }
        match r {
            Some(mut h) => {
                h.finish();
                Some(h)
            },
            None => None,
        }
    }

    /// Whether a node is live in the registry.
    pub fn contains(&self, id: u64) -> (r: bool)
        requires
            self.wf(),
        ensures
            r == self@.contains_key(id),
    {
        self.nodes.contains(id)
    }

    /// Whether some live node names `id` as its parent; a fresh node id
    /// from the framework never is, and a caller can check that here.
    pub fn has_child_ref(&self, id: u64) -> (r: bool)
        requires
            self.wf(),
        ensures
            r == exists|c: u64|
                (#[trigger] self@.contains_key(c)) && self@[c].parent == Option::Some(id),
    {
        self.nodes.refs_parent(id)
    }

    /// Borrows the handle attached to a node.
    pub fn span_of(&self, id: u64) -> (r: Option<&Span>)
        requires
            self.wf(),
        ensures
            match r {
                Option::Some(s) => self@.contains_key(id) && self@[id].handle == Option::Some(s@),
                Option::None => !self@.contains_key(id) || self@[id].handle is None,
            },
    {
        self.nodes.handle_ref(id)
    }
}

} // verus!
