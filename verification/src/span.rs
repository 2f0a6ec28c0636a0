//! Span handles.
//!
//! A [`Span`] owns one native span: a named unit of work with tags, error
//! state and a parent link. A handle in no-op mode owns no native
//! resource; every operation on it is side-effect-free. Handles are
//! move-only; child creation borrows the parent immutably and yields an
//! independently owned handle.

use crate::codec::dec_bytes;
use crate::codec::parent_id_key;
use crate::codec::trace_id_key;
use crate::codec::SpanContext;
use std::sync::Arc;
use vstd::prelude::*;
use vstd::rwlock::RwLock;
use vstd::rwlock::RwLockPredicate;
use vstd::string::*;

verus! {

/// How a native span hangs in the trace tree.
#[derive(Clone, Copy, PartialEq, Eq, Structural, Debug)]
pub enum ParentLink {
    /// A fresh root: no parent at all.
    Root,
    /// A child of a local span, named by that span's id.
    ChildOf(u64),
    /// A child of a remote caller's span, carried in from another process;
    /// the id is zero when the carrier named the trace but not the span.
    Remote(u64),
}

/// The mathematical value of a span handle.
pub ghost struct SpanData {
    /// False for a handle in no-op mode.
    pub active: bool,
    pub trace_id: u64,
    pub span_id: u64,
    pub parent: ParentLink,
    pub name: Seq<char>,
    pub resource: Option<Seq<char>>,
    pub span_type: Option<Seq<char>>,
    pub tags: Map<Seq<char>, Seq<char>>,
    pub error: bool,
    pub error_message: Option<Seq<char>>,
    pub finished: bool,
}

/// The generator's count stays above zero, so zero can stand for
/// "no id" in carriers.
pub struct IdPred;

impl RwLockPredicate<u64> for IdPred {
    open spec fn inv(self, v: u64) -> bool {
        1 <= v
    }
}

/// A shared well of span ids; each engine handle owns one and every span
/// built from that engine draws from it.
pub(crate) type IdWell = Arc<RwLock<u64, IdPred>>;

/// Draws the next id from the well: always a nonzero id. The count
/// wraps after every 64-bit id has been drawn, so distinctness of two
/// draws is a practical property of the counter, not a stated one: the
/// well is shared behind `&self` handles, and no ghost token travels
/// out through the public signatures to carry it.
pub(crate) fn fresh_id(well: &IdWell) -> (r: u64)
    ensures
        1 <= r,
{
    let (v, handle) = (**well).acquire_write();
    let next: u64 = if v == u64::MAX {
        1
    } else {
        v + 1
    };
    handle.release_write(next);
    v
}

/// Builds a new well, starting at one.
pub(crate) fn new_id_well() -> IdWell {
    Arc::new(RwLock::new(1, Ghost(IdPred)))
}

/// A handle that owns one native span, or none in no-op mode.
pub struct Span {
    active: bool,
    trace_id: u64,
    span_id: u64,
    parent: ParentLink,
    name: String,
    resource: Option<String>,
    span_type: Option<String>,
    tags: Vec<(String, String)>,
    error: bool,
    error_message: Option<String>,
    finished: bool,
    ids: IdWell,
}

/// The tag store read as a map; a later entry for a key shadows an
/// earlier one.
pub open spec fn tag_map(s: Seq<(String, String)>) -> Map<Seq<char>, Seq<char>>
    decreases s.len(),
{
    if s.len() == 0 {
        Map::empty()
    } else {
        tag_map(s.drop_last()).insert(s.last().0@, s.last().1@)
    }
}

pub open spec fn opt_str_view(o: Option<String>) -> Option<Seq<char>> {
    match o {
        Option::Some(s) => Option::Some(s@),
        Option::None => Option::None,
    }
}

impl View for Span {
    type V = SpanData;

    closed spec fn view(&self) -> SpanData {
        SpanData {
            active: self.active,
            trace_id: self.trace_id,
            span_id: self.span_id,
            parent: self.parent,
            name: self.name@,
            resource: opt_str_view(self.resource),
            span_type: opt_str_view(self.span_type),
            tags: tag_map(self.tags@),
            error: self.error,
            error_message: opt_str_view(self.error_message),
            finished: self.finished,
        }
    }
}

/// A fresh active root span: its own id also names the trace.
pub open spec fn spec_root_span(name: Seq<char>, sid: u64) -> SpanData {
    SpanData {
        active: true,
        trace_id: sid,
        span_id: sid,
        parent: ParentLink::Root,
        name: name,
        resource: Option::None,
        span_type: Option::None,
        tags: Map::empty(),
        error: false,
        error_message: Option::None,
        finished: false,
    }
}

/// A handle in no-op mode: it records its name and nothing else, ever.
pub open spec fn spec_noop_span(name: Seq<char>) -> SpanData {
    SpanData {
        active: false,
        trace_id: 0,
        span_id: 0,
        parent: ParentLink::Root,
        name: name,
        resource: Option::None,
        span_type: Option::None,
        tags: Map::empty(),
        error: false,
        error_message: Option::None,
        finished: false,
    }
}

/// A span continuing a remote caller's trace.
pub open spec fn spec_extracted_span(
    name: Seq<char>,
    resource: Seq<char>,
    ctx: SpanContext,
    sid: u64,
) -> SpanData {
    SpanData {
        active: true,
        trace_id: ctx.trace_id,
        span_id: sid,
        parent: ParentLink::Remote(ctx.parent_id),
        name: name,
        resource: Option::Some(resource),
        span_type: Option::None,
        tags: Map::empty(),
        error: false,
        error_message: Option::None,
        finished: false,
    }
}

/// A fresh root built for a request whose carrier held no usable
/// context: a plain root that still records the request's resource.
pub open spec fn spec_fallback_root(name: Seq<char>, resource: Seq<char>, sid: u64) -> SpanData {
    SpanData { resource: Option::Some(resource), ..spec_root_span(name, sid) }
}

/// A child of a local parent span; a no-op parent yields a no-op child.
pub open spec fn spec_child_span(parent: SpanData, name: Seq<char>, sid: u64) -> SpanData {
    if parent.active {
        SpanData {
            active: true,
            trace_id: parent.trace_id,
            span_id: sid,
            parent: ParentLink::ChildOf(parent.span_id),
            name: name,
            resource: Option::None,
            span_type: Option::None,
            tags: Map::empty(),
            error: false,
            error_message: Option::None,
            finished: false,
        }
    } else {
        spec_noop_span(name)
    }
}

impl Span {
    /// Builds an active root span drawing its id from `well`.
    pub(crate) fn root(well: &IdWell, name: &str) -> (r: Span)
        ensures
            r@ == spec_root_span(name@, r@.span_id),
            1 <= r@.span_id,
    {
        let sid = fresh_id(well);
        Span {
            active: true,
            trace_id: sid,
            span_id: sid,
            parent: ParentLink::Root,
            name: String::from_str(name),
            resource: None,
            span_type: None,
            tags: Vec::new(),
            error: false,
            error_message: None,
            finished: false,
            ids: well.clone(),
        }
    }

    /// Builds a no-op handle.
    pub(crate) fn noop(well: &IdWell, name: &str) -> (r: Span)
        ensures
            r@ == spec_noop_span(name@),
    {
        Span {
            active: false,
            trace_id: 0,
            span_id: 0,
            parent: ParentLink::Root,
            name: String::from_str(name),
            resource: None,
            span_type: None,
            tags: Vec::new(),
            error: false,
            error_message: None,
            finished: false,
            ids: well.clone(),
        }
    }

    /// Builds an active span under a remote parent context.
    pub(crate) fn extracted(well: &IdWell, name: &str, resource: &str, ctx: SpanContext) -> (r:
        Span)
        ensures
            r@ == spec_extracted_span(name@, resource@, ctx, r@.span_id),
            1 <= r@.span_id,
    {
        let sid = fresh_id(well);
        Span {
            active: true,
            trace_id: ctx.trace_id,
            span_id: sid,
            parent: ParentLink::Remote(ctx.parent_id),
            name: String::from_str(name),
            resource: Some(String::from_str(resource)),
            span_type: None,
            tags: Vec::new(),
            error: false,
            error_message: None,
            finished: false,
            ids: well.clone(),
        }
    }

    /// Builds the fallback root for a request without usable context.
    pub(crate) fn fallback_root(well: &IdWell, name: &str, resource: &str) -> (r: Span)
        ensures
            r@ == spec_fallback_root(name@, resource@, r@.span_id),
            1 <= r@.span_id,
    {
        let sid = fresh_id(well);
        Span {
            active: true,
            trace_id: sid,
            span_id: sid,
            parent: ParentLink::Root,
            name: String::from_str(name),
            resource: Some(String::from_str(resource)),
            span_type: None,
            tags: Vec::new(),
            error: false,
            error_message: None,
            finished: false,
            ids: well.clone(),
        }
    }

    /// A new span whose parent is `self`, with an independent lifetime.
    pub fn create_child(&self, name: &str) -> (r: Span)
        ensures
            r@ == spec_child_span(self@, name@, r@.span_id),
            self@.active ==> 1 <= r@.span_id,
    {
        if self.active {
            let sid = fresh_id(&self.ids);
            Span {
                active: true,
                trace_id: self.trace_id,
                span_id: sid,
                parent: ParentLink::ChildOf(self.span_id),
                name: String::from_str(name),
                resource: None,
                span_type: None,
                tags: Vec::new(),
                error: false,
                error_message: None,
                finished: false,
                ids: self.ids.clone(),
            }
        } else {
            Span::noop(&self.ids, name)
        }
    }

    /// True for a handle that owns a native span.
    pub fn is_active(&self) -> (r: bool)
        ensures
            r == self@.active,
    {
        self.active
    }

    pub fn trace_id(&self) -> (r: u64)
        ensures
            r == self@.trace_id,
    {
        self.trace_id
    }

    pub fn span_id(&self) -> (r: u64)
        ensures
            r == self@.span_id,
    {
        self.span_id
    }

    pub fn parent(&self) -> (r: ParentLink)
        ensures
            r == self@.parent,
    {
        self.parent
    }

    /// True for a span that starts a fresh trace of its own.
    pub fn is_root(&self) -> (r: bool)
        ensures
            r == (self@.parent == ParentLink::Root),
    {
        match self.parent {
            ParentLink::Root => true,
            _ => false,
        }
    }

    pub fn name(&self) -> (r: &String)
        ensures
            r@ == self@.name,
    {
        &self.name
    }

    pub fn error(&self) -> (r: bool)
        ensures
            r == self@.error,
    {
        self.error
    }

    pub fn is_finished(&self) -> (r: bool)
        ensures
            r == self@.finished,
    {
        self.finished
    }

    pub fn resource(&self) -> (r: Option<&String>)
        ensures
            opt_ref_view(r) == self@.resource,
    {
        match &self.resource {
            Some(s) => Some(s),
            None => None,
        }
    }

    pub fn error_message(&self) -> (r: Option<&String>)
        ensures
            opt_ref_view(r) == self@.error_message,
    {
        match &self.error_message {
            Some(s) => Some(s),
            None => None,
        }
    }

    pub fn span_type(&self) -> (r: Option<&String>)
        ensures
            opt_ref_view(r) == self@.span_type,
    {
        match &self.span_type {
            Some(s) => Some(s),
            None => None,
        }
    }
}

pub open spec fn opt_ref_view(o: Option<&String>) -> Option<Seq<char>> {
    match o {
        Option::Some(s) => Option::Some(s@),
        Option::None => Option::None,
    }
}

/// The span after a tag write: an overwrite of the key on an active
/// handle, and no change at all on a no-op handle.
pub open spec fn spec_with_tag(s: SpanData, k: Seq<char>, v: Seq<char>) -> SpanData {
    if s.active {
        SpanData { tags: s.tags.insert(k, v), ..s }
    } else {
        s
    }
}

pub open spec fn spec_with_error(s: SpanData, e: bool) -> SpanData {
    if s.active {
        SpanData { error: e, ..s }
    } else {
        s
    }
}

pub open spec fn spec_with_error_message(s: SpanData, m: Seq<char>) -> SpanData {
    if s.active {
        SpanData { error_message: Option::Some(m), ..s }
    } else {
        s
    }
}

pub open spec fn spec_with_type(s: SpanData, t: Seq<char>) -> SpanData {
    if s.active {
        SpanData { span_type: Option::Some(t), ..s }
    } else {
        s
    }
}

pub open spec fn spec_finished(s: SpanData) -> SpanData {
    if s.active {
        SpanData { finished: true, ..s }
    } else {
        s
    }
}

/// Character-for-character string comparison.
pub fn str_eq(a: &str, b: &str) -> (r: bool)
    ensures
        r == (a@ == b@),
{
    let n = a.unicode_len();
    if n != b.unicode_len() {
        return false;
    }
    let mut i: usize = 0;
    while i < n
        invariant
            i <= n,
            n == a@.len(),
            n == b@.len(),
            forall|j: int| 0 <= j < i ==> a@[j] == b@[j],
        decreases n - i,
    {
        if a.get_char(i) != b.get_char(i) {
            return false;
        }
        i += 1;
    }
    proof {
        assert(a@ =~= b@);
    }
    true
}

/// Updating the last entry for a key rewrites exactly that key's value
/// in the map reading of the store.
proof fn lemma_tag_map_update(s: Seq<(String, String)>, i: int, p: (String, String))
    requires
        0 <= i < s.len(),
        s[i].0@ == p.0@,
        forall|j: int| i < j < s.len() ==> s[j].0@ != p.0@,
    ensures
        tag_map(s.update(i, p)) == tag_map(s).insert(p.0@, p.1@),
    decreases s.len(),
{
    let t = s.update(i, p);
    if i == s.len() - 1 {
        assert(t.drop_last() =~= s.drop_last());
        assert(t.last() == p);
        assert(tag_map(t) =~= tag_map(s).insert(p.0@, p.1@));
    } else {
        assert(forall|j: int| i < j < s.drop_last().len() ==> s.drop_last()[j].0@ != p.0@);
        assert(s.drop_last()[i].0@ == p.0@);
        lemma_tag_map_update(s.drop_last(), i, p);
        assert(t.drop_last() =~= s.drop_last().update(i, p));
        assert(t.last() == s.last());
        assert(s.last().0@ != p.0@);
        assert(tag_map(t) =~= tag_map(s).insert(p.0@, p.1@));
    }
}

/// The last entry for a key is the one the map reading holds.
proof fn lemma_tag_map_found(s: Seq<(String, String)>, i: int, k: Seq<char>)
    requires
        0 <= i < s.len(),
        s[i].0@ == k,
        forall|j: int| i < j < s.len() ==> s[j].0@ != k,
    ensures
        tag_map(s).contains_key(k),
        tag_map(s)[k] == s[i].1@,
    decreases s.len(),
{
    if i == s.len() - 1 {
    } else {
        assert(forall|j: int| i < j < s.drop_last().len() ==> s.drop_last()[j].0@ != k);
        assert(s.drop_last()[i].0@ == k);
        lemma_tag_map_found(s.drop_last(), i, k);
        assert(s.last().0@ != k);
    }
}

/// A key no entry carries is absent from the map reading.
proof fn lemma_tag_map_absent(s: Seq<(String, String)>, k: Seq<char>)
    requires
        forall|j: int| 0 <= j < s.len() ==> s[j].0@ != k,
    ensures
        !tag_map(s).contains_key(k),
    decreases s.len(),
{
    if s.len() > 0 {
        assert(forall|j: int| 0 <= j < s.drop_last().len() ==> s.drop_last()[j].0@ != k);
        lemma_tag_map_absent(s.drop_last(), k);
        assert(s.last().0@ != k);
    }
}

impl Span {
    /// The index just past the last entry for `key`, or zero when none
    /// matches; the scan runs from the back so a shadowing entry wins.
    fn find_tag_end(&self, key: &str) -> (r: Option<usize>)
        ensures
            match r {
                Option::Some(i) => i < self.tags@.len() && self.tags@[i as int].0@ == key@
                    && forall|j: int| i < j < self.tags@.len() ==> self.tags@[j].0@ != key@,
                Option::None => forall|j: int| 0 <= j < self.tags@.len() ==> self.tags@[j].0@
                    != key@,
            },
    {
        let mut j = self.tags.len();
        while j > 0
            invariant
                j <= self.tags@.len(),
                forall|t: int| j <= t < self.tags@.len() ==> self.tags@[t].0@ != key@,
            decreases j,
        {
            j = j - 1;
            if str_eq(self.tags[j].0.as_str(), key) {
                return Some(j);
            }
        }
        None
    }

    /// Stores `value` under `key`: an overwrite, never a duplicate.
    pub fn set_tag(&mut self, key: &str, value: &str)
        ensures
            final(self)@ == spec_with_tag(old(self)@, key@, value@),
    {
        if !self.active {
            return ;
        }
        let pair = (String::from_str(key), String::from_str(value));
        let ghost old_tags = self.tags@;
        match self.find_tag_end(key) {
            Some(i) => {
                self.tags.remove(i);
                self.tags.insert(i, pair);
                proof {
                    assert(self.tags@ =~= old_tags.update(i as int, pair));
                    lemma_tag_map_update(old_tags, i as int, pair);
                }
            },
            None => {
                self.tags.push(pair);
                proof {
                    assert(self.tags@.drop_last() =~= old_tags);
                    assert(self.tags@.last() == pair);
                }
            },
        }
        proof {
            assert(tag_map(self.tags@) == tag_map(old_tags).insert(key@, value@));
        }
    }

    /// The stored value under `key`, when one is there.
    pub fn get_tag(&self, key: &str) -> (r: Option<&String>)
        ensures
            match r {
                Option::Some(v) => self@.tags.contains_key(key@) && v@ == self@.tags[key@],
                Option::None => !self@.tags.contains_key(key@),
            },
    {
        match self.find_tag_end(key) {
            Some(i) => {
                proof {
                    lemma_tag_map_found(self.tags@, i as int, key@);
                }
                Some(&self.tags[i].1)
            },
            None => {
                proof {
                    lemma_tag_map_absent(self.tags@, key@);
                }
                None
            },
        }
    }

    /// Flags the span as errored, or clears the flag.
    pub fn set_error(&mut self, e: bool)
        ensures
            final(self)@ == spec_with_error(old(self)@, e),
    {
        if self.active {
            self.error = e;
        }
    }

    /// Records an error description; the error flag is left alone.
    pub fn set_error_message(&mut self, msg: &str)
        ensures
            final(self)@ == spec_with_error_message(old(self)@, msg@),
    {
        if self.active {
            self.error_message = Some(String::from_str(msg));
        }
    }

    /// Records the engine-defined span type.
    pub fn set_type(&mut self, t: &str)
        ensures
            final(self)@ == spec_with_type(old(self)@, t@),
    {
        if self.active {
            self.span_type = Some(String::from_str(t));
        }
    }

    /// Stops duration measurement; releasing the native resource follows
    /// when the handle is dropped, never before this.
    pub fn finish(&mut self)
        ensures
            final(self)@ == spec_finished(old(self)@),
    {
        if self.active {
            self.finished = true;
        }
    }
}

/// The key/value byte pairs a span hands to carriers: the trace id and
/// the span's own id, in decimal, under the two carrier keys, in that
/// order. A no-op handle propagates nothing.
pub open spec fn spec_propagation_pairs(s: SpanData) -> Seq<(Seq<u8>, Seq<u8>)> {
    if s.active {
        seq![
            (trace_id_key(), dec_bytes(s.trace_id as nat)),
            (parent_id_key(), dec_bytes(s.span_id as nat)),
        ]
    } else {
        Seq::empty()
    }
}

pub open spec fn pair_views(ps: Seq<(Vec<u8>, Vec<u8>)>) -> Seq<(Seq<u8>, Seq<u8>)> {
    ps.map_values(|p: (Vec<u8>, Vec<u8>)| (p.0@, p.1@))
}

impl Span {
    /// The propagation pairs of this span, as owned byte strings.
    pub fn propagation_pairs(&self) -> (r: Vec<(Vec<u8>, Vec<u8>)>)
        ensures
            pair_views(r@) == spec_propagation_pairs(self@),
    {
        let mut out: Vec<(Vec<u8>, Vec<u8>)> = Vec::new();
        if self.active {
            out.push(
                (crate::codec::trace_id_key_bytes(), crate::codec::u64_to_dec_bytes(
                    self.trace_id,
                )),
            );
            out.push(
                (crate::codec::parent_id_key_bytes(), crate::codec::u64_to_dec_bytes(
                    self.span_id,
                )),
            );
        }
        proof {
            assert(pair_views(out@) =~= spec_propagation_pairs(self@));
        }
        out
    }

    /// Hands every propagation pair to `writer`, one call per pair, in
    /// the fixed order; the callback is used only for the duration of
    /// this call. A no-op handle calls `writer` never.
    pub fn inject<F: Fn(Vec<u8>, Vec<u8>)>(&self, writer: F)
        requires
            forall|k: Vec<u8>, v: Vec<u8>| #[trigger] writer.requires((k, v)),
    {
        let mut pairs = self.propagation_pairs();
        while pairs.len() > 0
            invariant
                forall|k: Vec<u8>, v: Vec<u8>| #[trigger] writer.requires((k, v)),
            decreases pairs@.len(),
        {
            let (k, v) = pairs.remove(0);
            writer(k, v);
        }
    }

    /// A short textual account of the handle, for logs and tests.
    pub fn describe(&self) -> (r: String)
        ensures
            r@ == spec_describe(self@),
    {
        proof {
            reveal_strlit("span ");
            reveal_strlit("/");
        }
        let mut out = String::from_str("span ");
        let t = crate::codec::u64_to_string(self.trace_id);
        out.append(t.as_str());
        out.append("/");
        let s = crate::codec::u64_to_string(self.span_id);
        out.append(s.as_str());
        out
    }
}

/// Two span values that name the same native span in the same place of
/// the tree: tag and error state may differ, identity may not.
pub open spec fn spec_same_identity(a: SpanData, b: SpanData) -> bool {
    a.active == b.active && a.parent == b.parent && a.trace_id == b.trace_id && a.span_id
        == b.span_id
}

/// The text `describe` yields: the trace and span ids in decimal.
pub open spec fn spec_describe(s: SpanData) -> Seq<char> {
    "span "@ + crate::codec::dec_chars(s.trace_id as nat) + "/"@ + crate::codec::dec_chars(
        s.span_id as nat,
    )
}

/// Writing a key twice stores one value: the second. This holds of every
/// span and every pair of values.
pub proof fn lemma_set_tag_overwrites(s: SpanData, k: Seq<char>, v1: Seq<char>, v2: Seq<char>)
    ensures
        spec_with_tag(spec_with_tag(s, k, v1), k, v2) == spec_with_tag(s, k, v2),
        s.active ==> spec_with_tag(spec_with_tag(s, k, v1), k, v2).tags[k] == v2,
{
    if s.active {
        assert(s.tags.insert(k, v1).insert(k, v2) =~= s.tags.insert(k, v2));
    }
}

/// No-op safety: every operation on a no-op handle leaves it unchanged
/// and propagates nothing; its children are no-op handles again.
pub proof fn lemma_noop_is_inert(
    s: SpanData,
    k: Seq<char>,
    v: Seq<char>,
    e: bool,
    m: Seq<char>,
    t: Seq<char>,
    name: Seq<char>,
    sid: u64,
)
    requires
        !s.active,
    ensures
        spec_with_tag(s, k, v) == s,
        spec_with_error(s, e) == s,
        spec_with_error_message(s, m) == s,
        spec_with_type(s, t) == s,
        spec_finished(s) == s,
        spec_propagation_pairs(s) == Seq::<(Seq<u8>, Seq<u8>)>::empty(),
        spec_child_span(s, name, sid) == spec_noop_span(name),
{
}

} // verus!
