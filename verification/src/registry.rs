//! The node registry a synchroniser keeps.
//!
//! One entry per live framework span node: the node's resolved parent,
//! whether the node is a boundary node, and the storage slot that holds
//! the attached native span handle, when one is attached.

use crate::span::spec_same_identity;
use crate::span::ParentLink;
use crate::span::Span;
use crate::span::SpanData;
use vstd::prelude::*;

verus! {

/// The mathematical value of one registry entry.
pub ghost struct NodeData {
    /// The node this one hangs under in the framework's tree, when one
    /// was resolved at creation.
    pub parent: Option<u64>,
    /// True for a boundary node, whose handle the boundary adapter
    /// attaches explicitly.
    pub boundary: bool,
    /// The attached native span handle.
    pub handle: Option<SpanData>,
}

pub(crate) struct NodeEntry {
    pub(crate) node_id: u64,
    pub(crate) parent: Option<u64>,
    pub(crate) boundary: bool,
    pub(crate) handle: Option<Span>,
}

pub(crate) open spec fn entry_data(e: NodeEntry) -> NodeData {
    NodeData {
        parent: e.parent,
        boundary: e.boundary,
        handle: match e.handle {
            Option::Some(s) => Option::Some(s@),
            Option::None => Option::None,
        },
    }
}

/// The registry read as a map from node id to entry.
pub(crate) open spec fn node_map(s: Seq<NodeEntry>) -> Map<u64, NodeData>
    decreases s.len(),
{
    if s.len() == 0 {
        Map::empty()
    } else {
        node_map(s.drop_last()).insert(s.last().node_id, entry_data(s.last()))
    }
}

/// No two entries carry one node id.
pub(crate) open spec fn ids_unique(s: Seq<NodeEntry>) -> bool {
    forall|i: int, j: int|
        0 <= i < j < s.len() ==> (#[trigger] s[i].node_id) != (#[trigger] s[j].node_id)
}

/// Every entry's id is a key of the map reading.
proof fn lemma_node_map_covers(s: Seq<NodeEntry>, i: int)
    requires
        0 <= i < s.len(),
    ensures
        node_map(s).contains_key(s[i].node_id),
    decreases s.len(),
{
    if i < s.len() - 1 {
        lemma_node_map_covers(s.drop_last(), i);
    }
}

/// With unique ids the map reading returns the one matching entry.
proof fn lemma_node_map_found(s: Seq<NodeEntry>, i: int)
    requires
        0 <= i < s.len(),
        ids_unique(s),
    ensures
        node_map(s).contains_key(s[i].node_id),
        node_map(s)[s[i].node_id] == entry_data(s[i]),
    decreases s.len(),
{
    if i == s.len() - 1 {
    } else {
        assert(ids_unique(s.drop_last()));
        lemma_node_map_found(s.drop_last(), i);
        assert(s.last().node_id != s[i].node_id);
    }
}

/// An id no entry carries is absent from the map reading.
proof fn lemma_node_map_absent(s: Seq<NodeEntry>, id: u64)
    requires
        forall|j: int| 0 <= j < s.len() ==> (#[trigger] s[j].node_id) != id,
    ensures
        !node_map(s).contains_key(id),
    decreases s.len(),
{
    if s.len() > 0 {
        assert(forall|j: int|
            0 <= j < s.drop_last().len() ==> (#[trigger] s.drop_last()[j].node_id) != id);
        lemma_node_map_absent(s.drop_last(), id);
    }
}

/// Replacing the entry at `i` rewrites exactly that id in the map reading.
proof fn lemma_node_map_update(s: Seq<NodeEntry>, i: int, e: NodeEntry)
    requires
        0 <= i < s.len(),
        ids_unique(s),
        e.node_id == s[i].node_id,
    ensures
        node_map(s.update(i, e)) == node_map(s).insert(e.node_id, entry_data(e)),
    decreases s.len(),
{
    let t = s.update(i, e);
    if i == s.len() - 1 {
        assert(t.drop_last() =~= s.drop_last());
        assert(t.last() == e);
        assert(node_map(t) =~= node_map(s).insert(e.node_id, entry_data(e)));
    } else {
        assert(ids_unique(s.drop_last()));
        assert(s.drop_last()[i].node_id == e.node_id);
        lemma_node_map_update(s.drop_last(), i, e);
        assert(t.drop_last() =~= s.drop_last().update(i, e));
        assert(t.last() == s.last());
        assert(s.last().node_id != e.node_id);
        assert(node_map(t) =~= node_map(s).insert(e.node_id, entry_data(e)));
    }
}

/// Removing the entry at `i` removes exactly that id from the map reading.
proof fn lemma_node_map_remove(s: Seq<NodeEntry>, i: int)
    requires
        0 <= i < s.len(),
        ids_unique(s),
    ensures
        node_map(s.remove(i)) == node_map(s).remove(s[i].node_id),
    decreases s.len(),
{
    let id = s[i].node_id;
    if i == s.len() - 1 {
        assert(s.remove(i) =~= s.drop_last());
        assert(forall|j: int| 0 <= j < s.drop_last().len() ==> s.drop_last()[j].node_id != id);
        lemma_node_map_absent(s.drop_last(), id);
        assert(node_map(s.drop_last()) =~= node_map(s).remove(id));
    } else {
        assert(ids_unique(s.drop_last()));
        lemma_node_map_remove(s.drop_last(), i);
        assert(s.remove(i).drop_last() =~= s.drop_last().remove(i));
        assert(s.remove(i).last() == s.last());
        assert(s.last().node_id != id);
        assert(node_map(s.remove(i)) =~= node_map(s).remove(id));
    }
}

/// Every key of the map reading comes from one matching entry.
proof fn lemma_node_map_inverse(s: Seq<NodeEntry>, c: u64)
    requires
        ids_unique(s),
        node_map(s).contains_key(c),
    ensures
        exists|j: int|
            0 <= j < s.len() && (#[trigger] s[j].node_id) == c && node_map(s)[c] == entry_data(
                s[j],
            ),
    decreases s.len(),
{
    if s.len() > 0 {
        if s.last().node_id == c {
            assert(s[s.len() - 1].node_id == c && node_map(s)[c] == entry_data(s[s.len() - 1]));
        } else {
            assert(ids_unique(s.drop_last()));
            lemma_node_map_inverse(s.drop_last(), c);
            let j = choose|j: int|
                0 <= j < s.drop_last().len() && (#[trigger] s.drop_last()[j].node_id) == c
                    && node_map(s.drop_last())[c] == entry_data(s.drop_last()[j]);
            assert(s[j].node_id == c && node_map(s)[c] == entry_data(s[j]));
        }
    }
}

/// The registry: one slot per live framework node.
pub struct NodeTable {
    entries: Vec<NodeEntry>,
}

impl View for NodeTable {
    type V = Map<u64, NodeData>;

    closed spec fn view(&self) -> Map<u64, NodeData> {
        node_map(self.entries@)
    }
}

impl NodeTable {
    /// Entry ids never repeat.
    pub closed spec fn wf(&self) -> bool {
        ids_unique(self.entries@)
    }

    pub(crate) fn new() -> (r: NodeTable)
        ensures
            r.wf(),
            r@ == Map::<u64, NodeData>::empty(),
    {
        NodeTable { entries: Vec::new() }
    }

    fn find_index(&self, id: u64) -> (r: Option<usize>)
        requires
            self.wf(),
        ensures
            match r {
                Option::Some(i) => i < self.entries@.len() && self.entries@[i as int].node_id
                    == id,
                Option::None => forall|j: int|
                    0 <= j < self.entries@.len() ==> (#[trigger] self.entries@[j].node_id) != id,
            },
    {
        let mut i: usize = 0;
        while i < self.entries.len()
            invariant
                i <= self.entries@.len(),
                forall|j: int| 0 <= j < i ==> (#[trigger] self.entries@[j].node_id) != id,
            decreases self.entries@.len() - i,
        {
            if self.entries[i].node_id == id {
                return Some(i);
            }
            i += 1;
        }
        None
    }

    pub(crate) fn contains(&self, id: u64) -> (r: bool)
        requires
            self.wf(),
        ensures
            r == self@.contains_key(id),
    {
        match self.find_index(id) {
            Some(i) => {
                proof {
                    lemma_node_map_found(self.entries@, i as int);
                }
                true
            },
            None => {
                proof {
                    lemma_node_map_absent(self.entries@, id);
                }
                false
            },
        }
    }

    /// Whether a node is live and marked as a boundary node.
    pub(crate) fn is_boundary(&self, id: u64) -> (r: bool)
        requires
            self.wf(),
        ensures
            r == (self@.contains_key(id) && self@[id].boundary),
    {
        match self.find_index(id) {
            Some(i) => {
                proof {
                    lemma_node_map_found(self.entries@, i as int);
                }
                self.entries[i].boundary
            },
            None => {
                proof {
                    lemma_node_map_absent(self.entries@, id);
                }
                false
            },
        }
    }

    /// Whether some live node names `id` as its parent.
    pub(crate) fn refs_parent(&self, id: u64) -> (r: bool)
        requires
            self.wf(),
        ensures
            r == exists|c: u64|
                (#[trigger] self@.contains_key(c)) && self@[c].parent == Option::Some(id),
    {
        let mut i: usize = 0;
        while i < self.entries.len()
            invariant
                i <= self.entries@.len(),
                self.wf(),
                forall|j: int|
                    0 <= j < i ==> (#[trigger] self.entries@[j].parent) != Option::Some(id),
            decreases self.entries@.len() - i,
        {
            let hit = match self.entries[i].parent {
                Some(p) => p == id,
                None => false,
            };
            if hit {
                proof {
                    lemma_node_map_found(self.entries@, i as int);
                    let c = self.entries@[i as int].node_id;
                    assert(self@.contains_key(c) && self@[c].parent == Option::Some(id));
                }
                return true;
            }
            i += 1;
        }
        proof {
            assert forall|c: u64|
                (#[trigger] self@.contains_key(c)) implies self@[c].parent != Option::Some(
                id,
            ) by {
                lemma_node_map_inverse(self.entries@, c);
                let j = choose|j: int|
                    0 <= j < self.entries@.len() && (#[trigger] self.entries@[j].node_id) == c
                        && node_map(self.entries@)[c] == entry_data(self.entries@[j]);
                assert(self.entries@[j].parent != Option::Some(id));
            }
        }
        false
    }

    /// Registers a fresh node.
    pub(crate) fn insert_new(
        &mut self,
        id: u64,
        parent: Option<u64>,
        boundary: bool,
        handle: Option<Span>,
    )
        requires
            old(self).wf(),
            !old(self)@.contains_key(id),
        ensures
            final(self).wf(),
            final(self)@ == old(self)@.insert(
                id,
                (NodeData {
                    parent,
                    boundary,
                    handle: match handle {
                        Option::Some(s) => Option::Some(s@),
                        Option::None => Option::<SpanData>::None,
                    },
                }),
            ),
    {
        let ghost olds = self.entries@;
        let e = NodeEntry { node_id: id, parent, boundary, handle };
        proof {
            if exists|j: int| 0 <= j < olds.len() && (#[trigger] olds[j].node_id) == id {
                let j = choose|j: int| 0 <= j < olds.len() && (#[trigger] olds[j].node_id) == id;
                lemma_node_map_covers(olds, j);
                assert(false);
            }
        }
        self.entries.push(e);
        proof {
            assert(self.entries@.drop_last() =~= olds);
            assert(self.entries@.last() == e);
            assert(forall|i: int, j: int|
                0 <= i < j < self.entries@.len() ==> (#[trigger] self.entries@[i].node_id) != (
                #[trigger] self.entries@[j].node_id));
        }
    }

    /// Borrows the handle attached to a node.
    pub(crate) fn handle_ref(&self, id: u64) -> (r: Option<&Span>)
        requires
            self.wf(),
        ensures
            match r {
                Option::Some(s) => self@.contains_key(id) && self@[id].handle == Option::Some(s@),
                Option::None => !self@.contains_key(id) || self@[id].handle is None,
            },
    {
        match self.find_index(id) {
            Some(i) => {
                proof {
                    lemma_node_map_found(self.entries@, i as int);
                }
                match &self.entries[i].handle {
                    Some(s) => Some(s),
                    None => None,
                }
            },
            None => {
                proof {
                    lemma_node_map_absent(self.entries@, id);
                }
                None
            },
        }
    }

    /// Takes the attached handle out of a node's slot, leaving the slot
    /// empty; the caller puts a handle back before it returns.
    pub(crate) fn take_handle(&mut self, id: u64) -> (r: Option<Span>)
        requires
            old(self).wf(),
        ensures
            final(self).wf(),
            match r {
                Option::Some(s) => old(self)@.contains_key(id) && old(self)@[id].handle
                    == Option::Some(s@) && final(self)@ == old(self)@.insert(
                    id,
                    NodeData { handle: Option::None, ..old(self)@[id] },
                ),
                Option::None => final(self)@ == old(self)@ && (!old(self)@.contains_key(id) || old(
                    self,
                )@[id].handle is None),
            },
    {
        let ghost olds = self.entries@;
        match self.find_index(id) {
            Some(i) => {
                proof {
                    lemma_node_map_found(olds, i as int);
                }
                let e = self.entries.remove(i);
                let NodeEntry { node_id, parent, boundary, handle } = e;
                let e2 = NodeEntry { node_id, parent, boundary, handle: None };
                self.entries.insert(i, e2);
                proof {
                    assert(self.entries@ =~= olds.update(i as int, e2));
                    lemma_node_map_update(olds, i as int, e2);
                    assert(forall|a: int, b: int|
                        0 <= a < b < self.entries@.len() ==> (#[trigger] self.entries@[a].node_id)
                            != (#[trigger] self.entries@[b].node_id));
                }
                match handle {
                    Some(s) => Some(s),
                    None => {
                        proof {
                            assert(self@ =~= old(self)@);
                        }
                        None
                    },
                }
            },
            None => {
                proof {
                    lemma_node_map_absent(olds, id);
                }
                None
            },
        }
    }

    /// Attaches `s` into a node's empty slot.
    pub(crate) fn put_handle(&mut self, id: u64, s: Span)
        requires
            old(self).wf(),
            old(self)@.contains_key(id),
            old(self)@[id].handle is None,
        ensures
            final(self).wf(),
            final(self)@ == old(self)@.insert(
                id,
                NodeData { handle: Option::Some(s@), ..old(self)@[id] },
            ),
    {
        let ghost olds = self.entries@;
        match self.find_index(id) {
            Some(i) => {
                proof {
                    lemma_node_map_found(olds, i as int);
                }
                let e = self.entries.remove(i);
                let NodeEntry { node_id, parent, boundary, handle: _ } = e;
                let e2 = NodeEntry { node_id, parent, boundary, handle: Some(s) };
                self.entries.insert(i, e2);
                proof {
                    assert(self.entries@ =~= olds.update(i as int, e2));
                    lemma_node_map_update(olds, i as int, e2);
                    assert(forall|a: int, b: int|
                        0 <= a < b < self.entries@.len() ==> (#[trigger] self.entries@[a].node_id)
                            != (#[trigger] self.entries@[b].node_id));
                }
            },
            None => {
                proof {
                    lemma_node_map_absent(olds, id);
                    assert(false);
                }
            },
        }
    }

    /// Drops a node's entry, handing back whatever handle it held.
    pub(crate) fn remove_node(&mut self, id: u64) -> (r: Option<Span>)
        requires
            old(self).wf(),
        ensures
            final(self).wf(),
            final(self)@ == old(self)@.remove(id),
            match r {
                Option::Some(s) => old(self)@.contains_key(id) && old(self)@[id].handle
                    == Option::Some(s@),
                Option::None => !old(self)@.contains_key(id) || old(self)@[id].handle is None,
            },
    {
        let ghost olds = self.entries@;
        match self.find_index(id) {
            Some(i) => {
                proof {
                    lemma_node_map_found(olds, i as int);
                    lemma_node_map_remove(olds, i as int);
                }
                let e = self.entries.remove(i);
                proof {
                    assert(forall|a: int, b: int|
                        0 <= a < b < self.entries@.len() ==> (#[trigger] self.entries@[a].node_id)
                            != (#[trigger] self.entries@[b].node_id));
                }
                e.handle
            },
            None => {
                proof {
                    lemma_node_map_absent(olds, id);
                    assert(self@ =~= old(self)@.remove(id));
                }
                None
            },
        }
    }
}

// The two structural invariants a synchroniser maintains over its
// registry, and the lemmas that carry them across each operation.
/// A parent/child pair of live nodes whose native handles are both
/// attached and active, the child not a boundary node.
pub open spec fn spec_mirror_edge(m: Map<u64, NodeData>, c: u64, p: u64) -> bool {
    m.contains_key(c) && m.contains_key(p) && !m[c].boundary && m[c].parent == Option::Some(p)
        && m[c].handle is Some && m[p].handle is Some && m[c].handle->0.active
        && m[p].handle->0.active
}

/// What mirroring says of such a pair: the child's native span hangs
/// under the parent's native span, in the parent's trace.
pub open spec fn spec_mirror_claim(m: Map<u64, NodeData>, c: u64, p: u64) -> bool {
    m[c].handle->0.parent == ParentLink::ChildOf(m[p].handle->0.span_id) && m[c].handle->0.trace_id
        == m[p].handle->0.trace_id
}

/// The native span tree mirrors the framework's tree: every recorded
/// parent/child pair of non-boundary nodes with attached handles is a
/// native parent/child pair in one trace.
pub open spec fn spec_mirrored(m: Map<u64, NodeData>) -> bool {
    forall|c: u64, p: u64| spec_mirror_edge(m, c, p) ==> spec_mirror_claim(m, c, p)
}

/// A live non-boundary node with an attached handle and a live parent.
pub open spec fn spec_orphan_edge(m: Map<u64, NodeData>, c: u64, p: u64) -> bool {
    m.contains_key(c) && m.contains_key(p) && !m[c].boundary && m[c].handle is Some && m[c].parent
        == Option::Some(p)
}

/// A node with an attached native span never hangs under a live node
/// whose slot is empty.
pub open spec fn spec_parents_attached(m: Map<u64, NodeData>) -> bool {
    forall|c: u64, p: u64| spec_orphan_edge(m, c, p) ==> m[p].handle is Some
}

/// Every attached handle is a no-op handle — what a registry over a
/// no-op engine satisfies.
pub open spec fn spec_handles_inactive(m: Map<u64, NodeData>) -> bool {
    forall|c: u64|
        (#[trigger] m.contains_key(c)) && m[c].handle is Some ==> !m[c].handle->0.active
}

/// Registering a fresh node whose handle was built under its resolved
/// parent's handle keeps the invariants; over a no-op engine the new
/// handle must itself be a no-op handle.
pub proof fn lemma_register_preserves(m0: Map<u64, NodeData>, id: u64, nd: NodeData, noop: bool)
    requires
        spec_mirrored(m0),
        spec_parents_attached(m0),
        noop && spec_handles_inactive(m0) && nd.handle is Some ==> !nd.handle->0.active,
        !m0.contains_key(id),
        forall|c: u64| #[trigger] m0.contains_key(c) ==> m0[c].parent != Option::Some(id),
        match nd.parent {
            Option::Some(p) => m0.contains_key(p),
            Option::None => true,
        },
        !nd.boundary && nd.handle is Some ==> match nd.parent {
            Option::Some(p) => m0[p].handle is Some && (nd.handle->0.active
                ==> m0[p].handle->0.active && nd.handle->0.parent == ParentLink::ChildOf(
                m0[p].handle->0.span_id,
            ) && nd.handle->0.trace_id == m0[p].handle->0.trace_id),
            Option::None => true,
        },
    ensures
        spec_mirrored(m0.insert(id, nd)),
        spec_parents_attached(m0.insert(id, nd)),
        noop && spec_handles_inactive(m0) ==> spec_handles_inactive(m0.insert(id, nd)),
{
    let m1 = m0.insert(id, nd);
    if noop && spec_handles_inactive(m0) {
        assert forall|c: u64|
            (#[trigger] m1.contains_key(c)) && m1[c].handle is Some implies !m1[c].handle->0.active by {
            if c == id {
                assert(m1[c] == nd);
            } else {
                assert(m1[c] == m0[c]);
                assert(m0.contains_key(c));
            }
        }
    }
    assert forall|c: u64, p: u64| spec_mirror_edge(m1, c, p) implies spec_mirror_claim(
        m1,
        c,
        p,
    ) by {
        if c == id {
            assert(m1[c] == nd);
            if p == id {
                assert(nd.parent == Option::Some(id));
                assert(m0.contains_key(id));
                assert(false);
            } else {
                assert(m1[p] == m0[p]);
            }
        } else if p == id {
            assert(m0.contains_key(c));
            assert(m1[c] == m0[c]);
            assert(m0[c].parent != Option::Some(id));
            assert(false);
        } else {
            assert(m1[c] == m0[c] && m1[p] == m0[p]);
            assert(spec_mirror_edge(m0, c, p));
        }
    }
    assert forall|c: u64, p: u64| spec_orphan_edge(m1, c, p) implies m1[p].handle is Some by {
        if c == id {
            assert(m1[c] == nd);
            if p == id {
                assert(m0.contains_key(id));
                assert(false);
            } else {
                assert(m1[p] == m0[p]);
            }
        } else if p == id {
            assert(m0.contains_key(c));
            assert(m1[c] == m0[c]);
            assert(m0[c].parent != Option::Some(id));
            assert(false);
        } else {
            assert(m1[c] == m0[c] && m1[p] == m0[p]);
            assert(spec_orphan_edge(m0, c, p));
        }
    }
}

/// Replacing a node's handle by one of the same identity keeps the
/// invariants, inactivity of the handles included.
pub proof fn lemma_update_handle_preserves(m0: Map<u64, NodeData>, id: u64, h2: SpanData)
    requires
        spec_mirrored(m0),
        spec_parents_attached(m0),
        m0.contains_key(id),
        m0[id].handle is Some,
        spec_same_identity(h2, m0[id].handle->0),
    ensures
        spec_mirrored(m0.insert(id, (NodeData { handle: Option::Some(h2), ..m0[id] }))),
        spec_parents_attached(m0.insert(id, (NodeData { handle: Option::Some(h2), ..m0[id] }))),
        spec_handles_inactive(m0) ==> spec_handles_inactive(
            m0.insert(id, (NodeData { handle: Option::Some(h2), ..m0[id] })),
        ),
{
    let nd = NodeData { handle: Option::Some(h2), ..m0[id] };
    let m1 = m0.insert(id, nd);
    if spec_handles_inactive(m0) {
        assert forall|c: u64|
            (#[trigger] m1.contains_key(c)) && m1[c].handle is Some implies !m1[c].handle->0.active by {
            if c == id {
                assert(m1[c] == nd);
                assert(m0.contains_key(id));
            } else {
                assert(m1[c] == m0[c]);
                assert(m0.contains_key(c));
            }
        }
    }
    assert forall|c: u64, p: u64| spec_mirror_edge(m1, c, p) implies spec_mirror_claim(
        m1,
        c,
        p,
    ) by {
        assert(m1.contains_key(c) == m0.contains_key(c));
        assert(m1.contains_key(p) == m0.contains_key(p));
        if c == id {
            assert(m1[c] == nd);
        } else {
            assert(m1[c] == m0[c]);
        }
        if p == id {
            assert(m1[p] == nd);
        } else {
            assert(m1[p] == m0[p]);
        }
        assert(spec_mirror_edge(m0, c, p));
        assert(spec_mirror_claim(m0, c, p));
    }
    assert forall|c: u64, p: u64| spec_orphan_edge(m1, c, p) implies m1[p].handle is Some by {
        if c == id {
            assert(m1[c] == nd);
        } else {
            assert(m1[c] == m0[c]);
        }
        if p == id {
            assert(m1[p] == nd);
        } else {
            assert(m1[p] == m0[p]);
            assert(spec_orphan_edge(m0, c, p));
        }
    }
}

/// Dropping a node keeps both invariants.
pub proof fn lemma_remove_preserves(m0: Map<u64, NodeData>, id: u64)
    requires
        spec_mirrored(m0),
        spec_parents_attached(m0),
    ensures
        spec_mirrored(m0.remove(id)),
        spec_parents_attached(m0.remove(id)),
        spec_handles_inactive(m0) ==> spec_handles_inactive(m0.remove(id)),
{
    let m1 = m0.remove(id);
    if spec_handles_inactive(m0) {
        assert forall|c: u64|
            (#[trigger] m1.contains_key(c)) && m1[c].handle is Some implies !m1[c].handle->0.active by {
            assert(m1[c] == m0[c]);
            assert(m0.contains_key(c));
        }
    }
    assert forall|c: u64, p: u64| spec_mirror_edge(m1, c, p) implies spec_mirror_claim(
        m1,
        c,
        p,
    ) by {
        assert(m1[c] == m0[c] && m1[p] == m0[p]);
        assert(spec_mirror_edge(m0, c, p));
    }
    assert forall|c: u64, p: u64| spec_orphan_edge(m1, c, p) implies m1[p].handle is Some by {
        assert(m1[c] == m0[c] && m1[p] == m0[p]);
        assert(spec_orphan_edge(m0, c, p));
    }
}

/// Attaching a handle into a boundary node's empty slot keeps the
/// invariants; over a no-op engine only a no-op handle may be attached.
pub proof fn lemma_attach_preserves(m0: Map<u64, NodeData>, id: u64, h: SpanData, noop: bool)
    requires
        spec_mirrored(m0),
        spec_parents_attached(m0),
        m0.contains_key(id),
        m0[id].boundary,
        m0[id].handle is None,
        noop ==> !h.active,
    ensures
        spec_mirrored(m0.insert(id, (NodeData { handle: Option::Some(h), ..m0[id] }))),
        spec_parents_attached(m0.insert(id, (NodeData { handle: Option::Some(h), ..m0[id] }))),
        noop && spec_handles_inactive(m0) ==> spec_handles_inactive(
            m0.insert(id, (NodeData { handle: Option::Some(h), ..m0[id] })),
        ),
{
    let nd = NodeData { handle: Option::Some(h), ..m0[id] };
    let m1 = m0.insert(id, nd);
    if noop && spec_handles_inactive(m0) {
        assert forall|c: u64|
            (#[trigger] m1.contains_key(c)) && m1[c].handle is Some implies !m1[c].handle->0.active by {
            if c == id {
                assert(m1[c] == nd);
            } else {
                assert(m1[c] == m0[c]);
                assert(m0.contains_key(c));
            }
        }
    }
    assert forall|c: u64, p: u64| spec_mirror_edge(m1, c, p) implies spec_mirror_claim(
        m1,
        c,
        p,
    ) by {
        if c == id {
            assert(m1[c] == nd);
            assert(false);
        } else if p == id {
            assert(m1[c] == m0[c]);
            assert(spec_orphan_edge(m0, c, id));
            assert(m0[id].handle is Some);
            assert(false);
        } else {
            assert(m1[c] == m0[c] && m1[p] == m0[p]);
            assert(spec_mirror_edge(m0, c, p));
        }
    }
    assert forall|c: u64, p: u64| spec_orphan_edge(m1, c, p) implies m1[p].handle is Some by {
        if c == id {
            assert(m1[c] == nd);
            assert(false);
        } else if p == id {
            assert(m1[p] == nd);
        } else {
            assert(m1[c] == m0[c] && m1[p] == m0[p]);
            assert(spec_orphan_edge(m0, c, p));
        }
    }
}

} // verus!
