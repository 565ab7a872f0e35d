//! Serializable session state for topology tracking and replay.

use vstd::prelude::*;

use super::error::TrackingError;
use super::model::{
    copy_ids, compare_refs, ids_view, lemma_ref_order, ref_lt, same_id, BindingView, EventView,
    IdView, LineageEvent, LineageRelation, OperationKind, RefView, SemanticBinding,
    SemanticTopologyRef, TrackingGeneration, TrackingId, TrackingSessionId,
};
use crate::text::{compare_text, Precedence};

verus! {

/// Why an identifier is not current in a session.
#[derive(Clone, Copy, Debug, PartialEq, Eq, Structural)]
pub enum ValidationFailure {
    /// The identifier belongs to another session.
    WrongSession,
    /// The identifier belongs to another generation.
    StaleGeneration,
    /// The identifier was not allocated by the current generation.
    UnknownId,
}

/// Mathematical value of a [`TrackingSession`].
pub struct SessionView {
    pub id: Seq<char>,
    pub generation: u64,
    pub next_serial: u64,
    pub bindings: Seq<BindingView>,
    pub lineage: Seq<EventView>,
}

/// Whether `bs` is strictly ordered by semantic reference.
pub open spec fn bindings_ordered(bs: Seq<BindingView>) -> bool {
    forall|i: int, j: int|
        0 <= i < j < bs.len() ==> #[trigger] ref_lt(bs[i].reference, bs[j].reference)
}

/// Whether no identifier is bound twice in `bs`.
pub open spec fn binding_ids_distinct(bs: Seq<BindingView>) -> bool {
    forall|i: int, j: int|
        0 <= i < bs.len() && 0 <= j < bs.len() && i != j ==> bs[i].tracking_id
            != bs[j].tracking_id
}

/// Whether `s` holds some identifier twice.
pub open spec fn has_duplicate(s: Seq<IdView>) -> bool {
    exists|i: int, j: int| 0 <= i < j < s.len() && s[i] == s[j]
}

/// Whether `p` is the position at which a binding of `r` keeps `bs` ordered.
pub open spec fn is_insertion_point(bs: Seq<BindingView>, r: RefView, p: int) -> bool {
    &&& 0 <= p <= bs.len()
    &&& forall|i: int| 0 <= i < p ==> #[trigger] ref_lt(bs[i].reference, r)
    &&& forall|i: int| p <= i < bs.len() ==> #[trigger] ref_lt(r, bs[i].reference)
}

/// The position at which a binding of `r` keeps `bs` ordered.
pub open spec fn insertion_point(bs: Seq<BindingView>, r: RefView) -> int {
    choose|p: int| is_insertion_point(bs, r, p)
}

impl SessionView {
    /// Why `t` is not current in this session, or `None` when it is.
    pub open spec fn failure(self, t: IdView) -> Option<ValidationFailure> {
        if t.session != self.id {
            Some(ValidationFailure::WrongSession)
        } else if t.generation != self.generation {
            Some(ValidationFailure::StaleGeneration)
        } else if t.serial == 0 || t.serial >= self.next_serial {
            Some(ValidationFailure::UnknownId)
        } else {
            None
        }
    }

    /// Whether `t` was allocated by the current generation of this session.
    pub open spec fn is_current(self, t: IdView) -> bool {
        self.failure(t) is None
    }

    /// Whether a lineage event only names current identifiers and has a
    /// well-formed child list.
    pub open spec fn event_ok(self, e: EventView) -> bool {
        &&& self.is_current(e.parent)
        &&& (e.children.len() == 0 <==> e.relation == LineageRelation::Deleted)
        &&& forall|k: int| 0 <= k < e.children.len() ==> self.is_current(#[trigger] e.children[k])
        &&& !has_duplicate(e.children)
    }

    /// The runtime invariant of a tracking session.
    pub open spec fn valid(self) -> bool {
        &&& self.next_serial >= 1
        &&& forall|i: int|
            0 <= i < self.bindings.len() ==> self.is_current(#[trigger] self.bindings[i].tracking_id)
        &&& bindings_ordered(self.bindings)
        &&& binding_ids_distinct(self.bindings)
        &&& forall|i: int| 0 <= i < self.lineage.len() ==> self.event_ok(#[trigger] self.lineage[i])
    }

    /// Whether some binding names `r`.
    pub open spec fn is_bound(self, r: RefView) -> bool {
        exists|i: int| 0 <= i < self.bindings.len() && self.bindings[i].reference == r
    }

    /// The index of the binding of `r`.
    pub open spec fn reference_index(self, r: RefView) -> int {
        choose|i: int| 0 <= i < self.bindings.len() && self.bindings[i].reference == r
    }

    /// Whether some binding holds identifier `t`.
    pub open spec fn id_is_bound(self, t: IdView) -> bool {
        exists|i: int| 0 <= i < self.bindings.len() && self.bindings[i].tracking_id == t
    }

    /// The index of the binding that holds `t`.
    pub open spec fn id_index(self, t: IdView) -> int {
        choose|i: int| 0 <= i < self.bindings.len() && self.bindings[i].tracking_id == t
    }

    /// The identifier that `r` resolves to in the current generation.
    pub open spec fn resolved(self, r: RefView) -> Option<IdView> {
        if self.is_bound(r) {
            Some(self.bindings[self.reference_index(r)].tracking_id)
        } else {
            None
        }
    }

    /// The session after a fresh allocation.
    pub open spec fn allocated(self) -> SessionView {
        SessionView { next_serial: (self.next_serial + 1) as u64, ..self }
    }

    /// The identifier that the next allocation returns.
    pub open spec fn next_id(self) -> IdView {
        IdView { session: self.id, generation: self.generation, serial: self.next_serial }
    }

    /// The session after advancing to the next replay generation.
    pub open spec fn advanced(self) -> SessionView {
        SessionView {
            id: self.id,
            generation: (self.generation + 1) as u64,
            next_serial: 1,
            bindings: Seq::empty(),
            lineage: Seq::empty(),
        }
    }

    /// Whether some child in `cs` is not current.
    pub open spec fn has_stale_child(self, cs: Seq<IdView>) -> bool {
        exists|k: int| 0 <= k < cs.len() && !self.is_current(cs[k])
    }

    /// The index of the first child in `cs` that is not current.
    pub open spec fn first_stale_child(self, cs: Seq<IdView>) -> int {
        choose|k: int|
            0 <= k < cs.len() && !self.is_current(cs[k]) && forall|j: int|
                0 <= j < k ==> self.is_current(#[trigger] cs[j])
    }

    /// The outcome of recording a lineage event: the new session, or `None`
    /// when the event is refused.
    pub open spec fn recorded(
        self,
        operation: OperationKind,
        relation: LineageRelation,
        parent: IdView,
        children: Seq<IdView>,
    ) -> Option<SessionView> {
        if !self.is_current(parent) {
            None
        } else if children.len() == 0 && relation != LineageRelation::Deleted {
            None
        } else if children.len() != 0 && relation == LineageRelation::Deleted {
            None
        } else if self.has_stale_child(children) {
            None
        } else if has_duplicate(children) {
            None
        } else {
            Some(
                SessionView {
                    lineage: self.lineage.push(EventView { operation, relation, parent, children }),
                    ..self
                },
            )
        }
    }

    /// The outcome of binding `r` to `t`: the new session, or `None` when the
    /// binding is refused.
    pub open spec fn bound(self, r: RefView, t: IdView) -> Option<SessionView> {
        if !self.is_current(t) {
            None
        } else if self.is_bound(r) {
            if self.bindings[self.reference_index(r)].tracking_id == t {
                Some(self)
            } else {
                None
            }
        } else if self.id_is_bound(t) {
            None
        } else {
            Some(
                SessionView {
                    bindings: self.bindings.insert(
                        insertion_point(self.bindings, r),
                        BindingView { reference: r, tracking_id: t },
                    ),
                    ..self
                },
            )
        }
    }
}

/// Raising the next serial keeps a session valid.
pub proof fn lemma_raise_serial_valid(s: SessionView, n: u64)
    requires
        s.valid(),
        n >= s.next_serial,
    ensures
        (SessionView { next_serial: n, ..s }).valid(),
{
    let t = SessionView { next_serial: n, ..s };
    assert forall|i: int| 0 <= i < t.bindings.len() implies t.is_current(
        #[trigger] t.bindings[i].tracking_id,
    ) by {
        assert(s.is_current(s.bindings[i].tracking_id));
    }
    assert forall|i: int| 0 <= i < t.lineage.len() implies t.event_ok(#[trigger] t.lineage[i]) by {
        let e = s.lineage[i];
        assert(s.event_ok(e));
        assert forall|k: int| 0 <= k < e.children.len() implies t.is_current(
            #[trigger] e.children[k],
        ) by {
            assert(s.is_current(e.children[k]));
        }
    }
}

/// An ordered binding list names each reference at most once.
pub proof fn lemma_ordered_unique(bs: Seq<BindingView>, i: int, j: int)
    requires
        bindings_ordered(bs),
        0 <= i < bs.len(),
        0 <= j < bs.len(),
        bs[i].reference == bs[j].reference,
    ensures
        i == j,
{
    if i < j {
        assert(ref_lt(bs[i].reference, bs[j].reference));
        lemma_ref_order(bs[i].reference, bs[i].reference, bs[i].reference);
    } else if j < i {
        assert(ref_lt(bs[j].reference, bs[i].reference));
        lemma_ref_order(bs[i].reference, bs[i].reference, bs[i].reference);
    }
}

/// There is at most one insertion point.
pub proof fn lemma_insertion_point_unique(bs: Seq<BindingView>, r: RefView, p: int, q: int)
    requires
        is_insertion_point(bs, r, p),
        is_insertion_point(bs, r, q),
    ensures
        p == q,
{
    if p < q {
        assert(ref_lt(bs[p].reference, r));
        assert(ref_lt(r, bs[p].reference));
        lemma_ref_order(r, bs[p].reference, r);
    } else if q < p {
        assert(ref_lt(bs[q].reference, r));
        assert(ref_lt(r, bs[q].reference));
        lemma_ref_order(r, bs[q].reference, r);
    }
}

/// A list with an insertion point for `r` does not name `r`.
pub proof fn lemma_insertion_point_absent(bs: Seq<BindingView>, r: RefView, p: int)
    requires
        is_insertion_point(bs, r, p),
    ensures
        forall|i: int| 0 <= i < bs.len() ==> bs[i].reference != r,
{
    assert forall|i: int| 0 <= i < bs.len() implies bs[i].reference != r by {
        lemma_ref_order(r, r, r);
        if i < p {
            assert(ref_lt(bs[i].reference, r));
        } else {
            assert(ref_lt(r, bs[i].reference));
        }
    }
}

/// An ordered list without `r` has an insertion point for `r`.
pub proof fn lemma_insertion_point_exists(bs: Seq<BindingView>, r: RefView)
    requires
        bindings_ordered(bs),
        forall|i: int| 0 <= i < bs.len() ==> bs[i].reference != r,
    ensures
        exists|p: int| is_insertion_point(bs, r, p),
    decreases bs.len(),
{
    if bs.len() == 0 {
        assert(is_insertion_point(bs, r, 0));
    } else {
        let front = bs.drop_last();
        assert forall|i: int, j: int| 0 <= i < j < front.len() implies #[trigger] ref_lt(
            front[i].reference,
            front[j].reference,
        ) by {
            assert(ref_lt(bs[i].reference, bs[j].reference));
        }
        lemma_insertion_point_exists(front, r);
        let q = choose|p: int| is_insertion_point(front, r, p);
        let last = bs.last().reference;
        lemma_ref_order(last, r, last);
        if ref_lt(last, r) {
            if q < front.len() {
                assert(ref_lt(r, front[q].reference));
                assert(ref_lt(bs[q].reference, bs[bs.len() - 1].reference));
                lemma_ref_order(r, front[q].reference, last);
                lemma_ref_order(r, last, r);
            }
            assert forall|i: int| 0 <= i < bs.len() implies #[trigger] ref_lt(
                bs[i].reference,
                r,
            ) by {
                if i < front.len() {
                    assert(ref_lt(front[i].reference, r));
                }
            }
            assert(is_insertion_point(bs, r, bs.len() as int));
        } else {
            assert(bs[bs.len() - 1].reference != r);
            assert(ref_lt(r, last));
            assert forall|i: int| 0 <= i < q implies #[trigger] ref_lt(bs[i].reference, r) by {
                assert(ref_lt(front[i].reference, r));
            }
            assert forall|i: int| q <= i < bs.len() implies #[trigger] ref_lt(r, bs[i].reference) by {
                if i < front.len() {
                    assert(ref_lt(r, front[i].reference));
                }
            }
            assert(is_insertion_point(bs, r, q));
        }
    }
}

/// Inserting a binding of an unbound reference to a current, unbound
/// identifier at its insertion point keeps a session valid.
pub proof fn lemma_insert_binding_valid(s: SessionView, r: RefView, t: IdView, p: int)
    requires
        s.valid(),
        is_insertion_point(s.bindings, r, p),
        s.is_current(t),
        !s.id_is_bound(t),
    ensures
        (SessionView {
            bindings: s.bindings.insert(p, BindingView { reference: r, tracking_id: t }),
            ..s
        }).valid(),
{
    let b = BindingView { reference: r, tracking_id: t };
    let nb = s.bindings.insert(p, b);
    let n = SessionView { bindings: nb, ..s };
    assert forall|i: int| 0 <= i < nb.len() implies n.is_current(#[trigger] nb[i].tracking_id) by {
        if i < p {
            assert(nb[i] == s.bindings[i]);
        } else if i > p {
            assert(nb[i] == s.bindings[i - 1]);
        }
    }
    assert forall|i: int, j: int| 0 <= i < j < nb.len() implies #[trigger] ref_lt(
        nb[i].reference,
        nb[j].reference,
    ) by {
        if j < p {
            assert(ref_lt(s.bindings[i].reference, s.bindings[j].reference));
        } else if j == p {
            assert(ref_lt(s.bindings[i].reference, r));
        } else if i < p {
            assert(ref_lt(s.bindings[i].reference, r));
            assert(ref_lt(r, s.bindings[j - 1].reference));
            lemma_ref_order(s.bindings[i].reference, r, s.bindings[j - 1].reference);
        } else if i == p {
            assert(ref_lt(r, s.bindings[j - 1].reference));
        } else {
            assert(ref_lt(s.bindings[i - 1].reference, s.bindings[j - 1].reference));
        }
    }
    assert forall|i: int, j: int|
        0 <= i < nb.len() && 0 <= j < nb.len() && i != j implies nb[i].tracking_id
        != nb[j].tracking_id by {
        let oi = if i < p {
            i
        } else {
            i - 1
        };
        let oj = if j < p {
            j
        } else {
            j - 1
        };
        if i != p && j != p {
            assert(nb[i] == s.bindings[oi]);
            assert(nb[j] == s.bindings[oj]);
        } else if i == p {
            assert(nb[j] == s.bindings[oj]);
        } else {
            assert(nb[i] == s.bindings[oi]);
        }
    }
    assert forall|i: int| 0 <= i < n.lineage.len() implies n.event_ok(#[trigger] n.lineage[i]) by {
        let e = s.lineage[i];
        assert(s.event_ok(e));
        assert forall|k: int| 0 <= k < e.children.len() implies n.is_current(
            #[trigger] e.children[k],
        ) by {
            assert(s.is_current(e.children[k]));
        }
    }
}

/// Searches an ordered binding list for `r`: the index of its binding, or
/// the position at which a binding of `r` would keep the list ordered.
fn search_bindings(bs: &Vec<SemanticBinding>, r: &SemanticTopologyRef) -> (res: Result<
    usize,
    usize,
>)
    requires
        bindings_ordered(bindings_view(bs@)),
    ensures
        match res {
            Ok(i) => i < bs.len() && bindings_view(bs@)[i as int].reference == r@,
            Err(p) => is_insertion_point(bindings_view(bs@), r@, p as int),
        },
{
    let ghost v = bindings_view(bs@);
    let mut lo: usize = 0;
    let mut hi: usize = bs.len();
    while lo < hi
        invariant
            v == bindings_view(bs@),
            bindings_ordered(v),
            0 <= lo <= hi <= bs.len(),
            forall|i: int| 0 <= i < lo ==> #[trigger] ref_lt(v[i].reference, r@),
            forall|i: int| hi <= i < bs.len() ==> #[trigger] ref_lt(r@, v[i].reference),
        decreases hi - lo,
    {
        let mid = lo + (hi - lo) / 2;
        let m = bs[mid].reference();
        assert(v[mid as int] == bs@[mid as int]@);
        match compare_refs(m, r) {
            Precedence::Same => {
                return Ok(mid);
            },
            Precedence::Before => {
                assert forall|i: int| 0 <= i < mid + 1 implies #[trigger] ref_lt(
                    v[i].reference,
                    r@,
                ) by {
                    if i < mid {
                        assert(ref_lt(v[i].reference, v[mid as int].reference));
                        lemma_ref_order(v[i].reference, v[mid as int].reference, r@);
                    }
                }
                lo = mid + 1;
            },
            Precedence::After => {
                assert forall|i: int| mid <= i < bs.len() implies #[trigger] ref_lt(
                    r@,
                    v[i].reference,
                ) by {
                    if i > mid {
                        assert(ref_lt(v[mid as int].reference, v[i].reference));
                        lemma_ref_order(r@, v[mid as int].reference, v[i].reference);
                    }
                }
                hi = mid;
            },
        }
    }
    Err(lo)
}

/// The index of the binding that holds `t`, if any.
fn find_bound_id(bs: &Vec<SemanticBinding>, t: &TrackingId) -> (res: Option<usize>)
    ensures
        match res {
            Some(j) => j < bs.len() && bindings_view(bs@)[j as int].tracking_id == t@,
            None => forall|i: int|
                0 <= i < bs.len() ==> bindings_view(bs@)[i].tracking_id != t@,
        },
{
    let mut j: usize = 0;
    while j < bs.len()
        invariant
            j <= bs.len(),
            forall|i: int| 0 <= i < j ==> bindings_view(bs@)[i].tracking_id != t@,
        decreases bs.len() - j,
    {
        assert(bindings_view(bs@)[j as int] == bs@[j as int]@);
        if same_id(bs[j].tracking_id(), t) {
            return Some(j);
        }
        j = j + 1;
    }
    None
}

/// Whether `e` is the error that validation of `t` in `s` reports.
pub open spec fn validation_error(e: TrackingError, s: SessionView, t: IdView) -> bool {
    match s.failure(t) {
        Some(ValidationFailure::WrongSession) => e matches TrackingError::WrongSession {
            expected,
            actual,
        } && expected@ == s.id && actual@ == t.session,
        Some(ValidationFailure::StaleGeneration) => e matches TrackingError::StaleGeneration {
            current,
            actual,
        } && current@ == s.generation && actual@ == t.generation,
        Some(ValidationFailure::UnknownId) => e matches TrackingError::UnknownTrackingId(x) && x@
            == t,
        None => false,
    }
}

/// Whether `e` is the error that binding `r` to `t` in `s` reports.
pub open spec fn bind_error(e: TrackingError, s: SessionView, r: RefView, t: IdView) -> bool {
    if !s.is_current(t) {
        validation_error(e, s, t)
    } else if s.is_bound(r) {
        e matches TrackingError::SemanticReferenceAlreadyBound { reference, existing, requested }
            && reference@ == r && existing@ == s.bindings[s.reference_index(r)].tracking_id
            && requested@ == t
    } else {
        e matches TrackingError::TrackingIdAlreadyBound { tracking_id, existing, requested }
            && tracking_id@ == t && existing@ == s.bindings[s.id_index(t)].reference && requested@
            == r
    }
}

/// Whether `e` is the error that recording a lineage event in `s` reports.
pub open spec fn lineage_error(
    e: TrackingError,
    s: SessionView,
    relation: LineageRelation,
    parent: IdView,
    children: Seq<IdView>,
) -> bool {
    if !s.is_current(parent) {
        validation_error(e, s, parent)
    } else if children.len() == 0 && relation != LineageRelation::Deleted {
        e matches TrackingError::EmptyLineage
    } else if children.len() != 0 && relation == LineageRelation::Deleted {
        e matches TrackingError::DeletedLineageHasChildren
    } else if s.has_stale_child(children) {
        validation_error(e, s, children[s.first_stale_child(children)])
    } else {
        e matches TrackingError::DuplicateLineageChild
    }
}

/// Reason reported for a restored session whose next serial is zero.
pub const ZERO_SERIAL_REASON: &'static str = "the next serial must be non-zero";

/// Reason reported for restored bindings out of canonical order.
pub const BINDING_ORDER_REASON: &'static str = "semantic bindings are not in unique canonical order";

/// Reason reported for a restored identifier bound more than once.
pub const SHARED_BINDING_REASON: &'static str = "a tracking ID has multiple semantic bindings";

/// Whether each binding of `bs` precedes its successor.
pub open spec fn adjacent_ordered(bs: Seq<BindingView>) -> bool {
    forall|i: int| 0 <= i < bs.len() - 1 ==> #[trigger] ref_lt(bs[i].reference, bs[i + 1].reference)
}

/// Ordering of neighbours orders the whole list.
pub proof fn lemma_adjacent_ordered(bs: Seq<BindingView>)
    requires
        adjacent_ordered(bs),
    ensures
        bindings_ordered(bs),
    decreases bs.len(),
{
    if bs.len() > 1 {
        let front = bs.drop_last();
        assert forall|i: int| 0 <= i < front.len() - 1 implies #[trigger] ref_lt(
            front[i].reference,
            front[i + 1].reference,
        ) by {
            assert(ref_lt(bs[i].reference, bs[i + 1].reference));
        }
        lemma_adjacent_ordered(front);
        assert forall|i: int, j: int| 0 <= i < j < bs.len() implies #[trigger] ref_lt(
            bs[i].reference,
            bs[j].reference,
        ) by {
            if j < bs.len() - 1 {
                assert(ref_lt(front[i].reference, front[j].reference));
            } else if i < j - 1 {
                let k = j - 1;
                assert(ref_lt(front[i].reference, front[k].reference));
                assert(ref_lt(bs[k].reference, bs[k + 1].reference));
                lemma_ref_order(bs[i].reference, bs[j - 1].reference, bs[j].reference);
            } else {
                let k = j - 1;
                assert(ref_lt(bs[k].reference, bs[k + 1].reference));
            }
        }
    }
}

impl SessionView {
    /// Whether some binding holds an identifier that is not current.
    pub open spec fn has_stale_binding(self) -> bool {
        exists|i: int| 0 <= i < self.bindings.len() && !self.is_current(self.bindings[i].tracking_id)
    }

    /// The index of the first binding whose identifier is not current.
    pub open spec fn first_stale_binding(self) -> int {
        choose|i: int|
            0 <= i < self.bindings.len() && !self.is_current(self.bindings[i].tracking_id) && forall|
                j: int,
            | 0 <= j < i ==> self.is_current(#[trigger] self.bindings[j].tracking_id)
    }

    /// The index of the first malformed lineage event.
    pub open spec fn first_bad_event(self) -> int {
        choose|k: int|
            0 <= k < self.lineage.len() && !self.event_ok(self.lineage[k]) && forall|j: int|
                0 <= j < k ==> self.event_ok(#[trigger] self.lineage[j])
    }
}

/// Whether `e` is the error that restoring the session state `v` reports.
/// The checks run in order: the next serial, the current-ness of every
/// binding, the order of bindings, the uniqueness of bound identifiers, and
/// each lineage event in recording order.
pub open spec fn state_error(e: TrackingError, v: SessionView) -> bool {
    if v.next_serial == 0 {
        e matches TrackingError::InvalidSessionState(reason) && reason@ == ZERO_SERIAL_REASON@
    } else if v.has_stale_binding() {
        validation_error(e, v, v.bindings[v.first_stale_binding()].tracking_id)
    } else if !adjacent_ordered(v.bindings) {
        e matches TrackingError::InvalidSessionState(reason) && reason@ == BINDING_ORDER_REASON@
    } else if !binding_ids_distinct(v.bindings) {
        e matches TrackingError::InvalidSessionState(reason) && reason@ == SHARED_BINDING_REASON@
    } else {
        let bad = v.lineage[v.first_bad_event()];
        lineage_error(e, v, bad.relation, bad.parent, bad.children)
    }
}

/// The session value that serialized parts describe.
pub open spec fn parts_view(
    id: TrackingSessionId,
    generation: TrackingGeneration,
    next_serial: u64,
    bindings: Vec<SemanticBinding>,
    lineage: Vec<LineageEvent>,
) -> SessionView {
    SessionView {
        id: id@,
        generation: generation@,
        next_serial,
        bindings: bindings_view(bindings@),
        lineage: events_view(lineage@),
    }
}

/// The index of the first occurrence of `x` in `s`.
pub open spec fn position_of(s: Seq<IdView>, x: IdView) -> Option<int> {
    if exists|i: int| 0 <= i < s.len() && s[i] == x {
        Some(
            choose|i: int|
                0 <= i < s.len() && s[i] == x && forall|j: int| 0 <= j < i ==> #[trigger] s[j] != x,
        )
    } else {
        None
    }
}

/// The selection `d` after applying one lineage event: the first occurrence
/// of the parent is kept and followed by the children for a generated event,
/// and replaced by the children otherwise.
pub open spec fn apply_event(d: Seq<IdView>, e: EventView) -> Seq<IdView> {
    match position_of(d, e.parent) {
        None => d,
        Some(i) => if e.relation == LineageRelation::Generated {
            d.take(i + 1) + e.children + d.skip(i + 1)
        } else {
            d.take(i) + e.children + d.skip(i + 1)
        },
    }
}

/// The selection `start` after applying `events` in recording order.
pub open spec fn descend(start: Seq<IdView>, events: Seq<EventView>) -> Seq<IdView>
    decreases events.len(),
{
    if events.len() == 0 {
        start
    } else {
        apply_event(descend(start, events.drop_last()), events.last())
    }
}

/// Appends copies of `src[from..to]` to `out`.
fn append_ids(out: &mut Vec<TrackingId>, src: &[TrackingId], from: usize, to: usize)
    requires
        from <= to <= src@.len(),
    ensures
        ids_view(final(out)@) == ids_view(old(out)@) + ids_view(src@).subrange(
            from as int,
            to as int,
        ),
{
    let ghost start = ids_view(out@);
    let mut i = from;
    while i < to
        invariant
            from <= i <= to,
            to <= src@.len(),
            ids_view(out@) == start + ids_view(src@).subrange(from as int, i as int),
        decreases to - i,
    {
        let ghost before = out@;
        out.push(src[i].clone());
        assert(ids_view(out@) =~= ids_view(before) + seq![src@[i as int]@]);
        assert(ids_view(src@).subrange(from as int, i + 1) =~= ids_view(src@).subrange(
            from as int,
            i as int,
        ) + seq![src@[i as int]@]);
        i = i + 1;
    }
}

/// Whether `cs` holds some identifier twice.
fn contains_duplicate(cs: &[TrackingId]) -> (b: bool)
    ensures
        b == has_duplicate(ids_view(cs@)),
{
    let ghost v = ids_view(cs@);
    let mut j: usize = 0;
    while j < cs.len()
        invariant
            v == ids_view(cs@),
            j <= cs.len(),
            forall|a: int, b: int| 0 <= a < b < j ==> v[a] != v[b],
        decreases cs.len() - j,
    {
        let mut i: usize = 0;
        while i < j
            invariant
                v == ids_view(cs@),
                i <= j < cs.len(),
                forall|a: int| 0 <= a < i ==> v[a] != v[j as int],
            decreases j - i,
        {
            if same_id(&cs[i], &cs[j]) {
                assert(v[i as int] == v[j as int]);
                return true;
            }
            i = i + 1;
        }
        j = j + 1;
    }
    false
}

/// The selection after applying `e` to `desc`.
fn apply_lineage_event(desc: &Vec<TrackingId>, e: &LineageEvent) -> (r: Vec<TrackingId>)
    ensures
        ids_view(r@) == apply_event(ids_view(desc@), e@),
{
    let ghost d = ids_view(desc@);
    let parent = e.parent();
    let mut i: usize = 0;
    while i < desc.len()
        invariant
            d == ids_view(desc@),
            parent@ == e@.parent,
            i <= desc.len(),
            forall|j: int| 0 <= j < i ==> #[trigger] d[j] != e@.parent,
        decreases desc.len() - i,
    {
        assert(d[i as int] == desc@[i as int]@);
        if same_id(&desc[i], parent) {
            let ghost pos = choose|k: int|
                0 <= k < d.len() && d[k] == e@.parent && forall|j: int|
                    0 <= j < k ==> #[trigger] d[j] != e@.parent;
            assert(d[i as int] == e@.parent);
            assert(pos == i) by {
                if pos < i {
                    assert(d[pos] != e@.parent);
                } else if pos > i {
                    assert(d[i as int] != e@.parent);
                }
            }
            let keep = if e.relation() == LineageRelation::Generated {
                i + 1
            } else {
                i
            };
            let mut out: Vec<TrackingId> = Vec::new();
            assert(ids_view(out@) =~= Seq::empty());
            append_ids(&mut out, desc.as_slice(), 0, keep);
            let children = e.children();
            append_ids(&mut out, children, 0, children.len());
            append_ids(&mut out, desc.as_slice(), i + 1, desc.len());
            assert(ids_view(children@).subrange(0, children@.len() as int) =~= e@.children);
            assert(ids_view(desc@).subrange(0, keep as int) =~= d.take(keep as int));
            assert(ids_view(desc@).subrange(i + 1, desc.len() as int) =~= d.skip(i + 1));
            return out;
        }
        i = i + 1;
    }
    assert(!(exists|i: int| 0 <= i < d.len() && d[i] == e@.parent));
    let r = copy_ids(desc);
    r
}

/// The views of a list of bindings.
pub open spec fn bindings_view(s: Seq<SemanticBinding>) -> Seq<BindingView> {
    s.map_values(|b: SemanticBinding| b@)
}

/// The views of a list of lineage events.
pub open spec fn events_view(s: Seq<LineageEvent>) -> Seq<EventView> {
    s.map_values(|e: LineageEvent| e@)
}

/// Serializable session state for topology tracking and replay.
#[derive(Clone, Debug, PartialEq, Eq)]
pub struct TrackingSession {
    id: TrackingSessionId,
    generation: TrackingGeneration,
    next_serial: u64,
    bindings: Vec<SemanticBinding>,
    lineage: Vec<LineageEvent>,
}

impl View for TrackingSession {
    type V = SessionView;

    closed spec fn view(&self) -> SessionView {
        SessionView {
            id: self.id@,
            generation: self.generation@,
            next_serial: self.next_serial,
            bindings: bindings_view(self.bindings@),
            lineage: events_view(self.lineage@),
        }
    }
}

impl TrackingSession {
    /// Whether the session satisfies its runtime invariant.
    pub open spec fn wf(&self) -> bool {
        self@.valid()
    }

    /// Creates an empty tracking session at the initial generation.
    pub fn new(id: TrackingSessionId) -> (r: Self)
        ensures
            r@ == (SessionView {
                id: id@,
                generation: 0,
                next_serial: 1,
                bindings: Seq::empty(),
                lineage: Seq::empty(),
            }),
            r.wf(),
    {
        let r = Self {
            id,
            generation: TrackingGeneration::initial(),
            next_serial: 1,
            bindings: Vec::new(),
            lineage: Vec::new(),
        };
        assert(r@.bindings =~= Seq::empty());
        assert(r@.lineage =~= Seq::empty());
        r
    }

    /// Restores a session from its serialized parts, checking the runtime
    /// invariant that every session maintains.
    ///
    /// Fails with the first violation found: a zero next serial, a binding
    /// whose identifier is not current, bindings out of canonical order, an
    /// identifier bound twice, or a malformed lineage event.
    #[verifier::loop_isolation(false)]
    pub fn from_parts(
        id: TrackingSessionId,
        generation: TrackingGeneration,
        next_serial: u64,
        bindings: Vec<SemanticBinding>,
        lineage: Vec<LineageEvent>,
    ) -> (r: Result<Self, TrackingError>)
        ensures
            parts_view(id, generation, next_serial, bindings, lineage).valid() ==> r is Ok
                && r->Ok_0@ == parts_view(id, generation, next_serial, bindings, lineage)
                && r->Ok_0.wf(),
            !parts_view(id, generation, next_serial, bindings, lineage).valid() ==> r is Err
                && state_error(r->Err_0, parts_view(id, generation, next_serial, bindings, lineage)),
    {
        let ghost pv = parts_view(id, generation, next_serial, bindings, lineage);
        let session = Self { id, generation, next_serial, bindings, lineage };
        let ghost v = session@;
        assert(v == pv);
        if session.next_serial == 0 {
            return Err(TrackingError::InvalidSessionState(ZERO_SERIAL_REASON));
        }
        let n = session.bindings.len();
        let mut i: usize = 0;
        while i < n
            invariant
                v == session@,
                v == pv,
                v.next_serial != 0,
                n == session.bindings.len(),
                i <= n,
                forall|j: int| 0 <= j < i ==> v.is_current(#[trigger] v.bindings[j].tracking_id),
            decreases n - i,
        {
            assert(v.bindings[i as int] == session.bindings@[i as int]@);
            match session.validate_current(session.bindings[i].tracking_id()) {
                Ok(()) => {},
                Err(e) => {
                    let ghost first = v.first_stale_binding();
                    assert(first == i) by {
                        if first < i {
                            assert(v.is_current(v.bindings[first].tracking_id));
                        } else if first > i {
                            assert(v.is_current(v.bindings[i as int].tracking_id));
                        }
                    }
                    assert(!pv.valid());
                    return Err(e);
                },
            }
            i = i + 1;
        }
        assert(!v.has_stale_binding());
        let mut i: usize = 0;
        let last = if n == 0 {
            0
        } else {
            n - 1
        };
        while i < last
            invariant
                v == session@,
                v == pv,
                v.next_serial != 0,
                !v.has_stale_binding(),
                n == session.bindings.len(),
                last == if n == 0 {
                    0
                } else {
                    n - 1
                },
                i <= last,
                forall|j: int| 0 <= j < i ==> #[trigger] ref_lt(
                    v.bindings[j].reference,
                    v.bindings[j + 1].reference,
                ),
            decreases n - i,
        {
            assert(v.bindings[i as int] == session.bindings@[i as int]@);
            assert(v.bindings[i + 1] == session.bindings@[i + 1]@);
            match compare_refs(session.bindings[i].reference(), session.bindings[i + 1].reference()) {
                Precedence::Before => {},
                _ => {
                    proof {
                        lemma_ref_order(
                            v.bindings[i as int].reference,
                            v.bindings[i + 1].reference,
                            v.bindings[i as int].reference,
                        );
                    }
                    assert(!ref_lt(v.bindings[i as int].reference, v.bindings[i + 1].reference));
                    assert(!bindings_ordered(pv.bindings));
                    return Err(TrackingError::InvalidSessionState(BINDING_ORDER_REASON));
                },
            }
            i = i + 1;
        }
        assert(adjacent_ordered(v.bindings));
        proof {
            lemma_adjacent_ordered(v.bindings);
        }
        let mut j: usize = 0;
        while j < n
            invariant
                v == session@,
                v == pv,
                v.next_serial != 0,
                !v.has_stale_binding(),
                adjacent_ordered(v.bindings),
                n == session.bindings.len(),
                j <= n,
                forall|a: int, b: int|
                    0 <= a < j && 0 <= b < j && a != b ==> v.bindings[a].tracking_id
                        != v.bindings[b].tracking_id,
            decreases n - j,
        {
            let mut k: usize = 0;
            while k < j
                invariant
                    v == session@,
                v == pv,
                    v.next_serial != 0,
                    !v.has_stale_binding(),
                    adjacent_ordered(v.bindings),
                    n == session.bindings.len(),
                    k <= j < n,
                    forall|a: int| 0 <= a < k ==> v.bindings[a].tracking_id
                        != v.bindings[j as int].tracking_id,
                decreases j - k,
            {
                assert(v.bindings[k as int] == session.bindings@[k as int]@);
                assert(v.bindings[j as int] == session.bindings@[j as int]@);
                if same_id(session.bindings[k].tracking_id(), session.bindings[j].tracking_id()) {
                    assert(!binding_ids_distinct(v.bindings));
                    assert(!pv.valid());
                    return Err(TrackingError::InvalidSessionState(SHARED_BINDING_REASON));
                }
                k = k + 1;
            }
            j = j + 1;
        }
        assert(binding_ids_distinct(v.bindings));
        let m = session.lineage.len();
        let mut k: usize = 0;
        while k < m
            invariant
                v == session@,
                v == pv,
                v.next_serial != 0,
                !v.has_stale_binding(),
                adjacent_ordered(v.bindings),
                bindings_ordered(v.bindings),
                binding_ids_distinct(v.bindings),
                m == session.lineage.len(),
                k <= m,
                forall|j: int| 0 <= j < k ==> v.event_ok(#[trigger] v.lineage[j]),
            decreases m - k,
        {
            let event = &session.lineage[k];
            assert(v.lineage[k as int] == event@);
            match session.check_event(event.relation(), event.parent(), event.children()) {
                Ok(()) => {
                    assert(v.event_ok(v.lineage[k as int]));
                },
                Err(e) => {
                    let ghost first = v.first_bad_event();
                    assert(first == k) by {
                        if first < k {
                            assert(v.event_ok(v.lineage[first]));
                        } else if first > k {
                            assert(v.event_ok(v.lineage[k as int]));
                        }
                    }
                    assert(!pv.valid());
                    return Err(e);
                },
            }
            k = k + 1;
        }
        Ok(session)
    }

    /// Returns the session identifier.
    pub fn id(&self) -> (r: &TrackingSessionId)
        ensures
            r@ == self@.id,
    {
        &self.id
    }

    /// Returns the current replay generation.
    pub fn generation(&self) -> (r: TrackingGeneration)
        ensures
            r@ == self@.generation,
    {
        self.generation
    }

    /// Returns the serial that the next allocation will receive.
    pub fn next_serial(&self) -> (r: u64)
        ensures
            r == self@.next_serial,
    {
        self.next_serial
    }

    /// Returns semantic bindings in canonical semantic-reference order.
    pub fn bindings(&self) -> (r: &[SemanticBinding])
        ensures
            bindings_view(r@) == self@.bindings,
    {
        self.bindings.as_slice()
    }

    /// Returns current-generation lineage in recording order.
    pub fn lineage(&self) -> (r: &[LineageEvent])
        ensures
            events_view(r@) == self@.lineage,
    {
        self.lineage.as_slice()
    }

    /// Validates that an identifier belongs to this current session generation.
    ///
    /// Fails with [`TrackingError::WrongSession`],
    /// [`TrackingError::StaleGeneration`], or
    /// [`TrackingError::UnknownTrackingId`] for invalid runtime handles.
    pub fn validate_current(&self, tracking_id: &TrackingId) -> (r: Result<(), TrackingError>)
        ensures
            self@.is_current(tracking_id@) ==> r is Ok,
            !self@.is_current(tracking_id@) ==> r is Err && validation_error(
                r->Err_0,
                self@,
                tracking_id@,
            ),
    {
        match compare_text(tracking_id.session().as_str(), self.id.as_str()) {
            Precedence::Same => {},
            _ => {
                return Err(
                    TrackingError::WrongSession {
                        expected: self.id.clone(),
                        actual: tracking_id.session().clone(),
                    },
                );
            },
        }
        let generation = tracking_id.generation();
        if generation.raw() != self.generation.raw() {
            Err(TrackingError::StaleGeneration { current: self.generation, actual: generation })
        } else if tracking_id.serial() == 0 || tracking_id.serial() >= self.next_serial {
            Err(TrackingError::UnknownTrackingId(tracking_id.clone()))
        } else {
            Ok(())
        }
    }

    /// Allocates a fresh current-generation [`TrackingId`].
    ///
    /// Serials share one monotonic namespace across all topology kinds.
    /// Fails with [`TrackingError::SerialOverflow`], leaving the session
    /// unchanged, when the session exhausts its serial range.
    pub fn allocate(&mut self) -> (r: Result<TrackingId, TrackingError>)
        requires
            old(self).wf(),
        ensures
            final(self).wf(),
            old(self)@.next_serial < u64::MAX ==> r is Ok && r->Ok_0@ == old(self)@.next_id()
                && final(self)@ == old(self)@.allocated(),
            old(self)@.next_serial == u64::MAX ==> (r matches Err(TrackingError::SerialOverflow)
                && final(self)@ == old(self)@),
    {
        let serial = self.next_serial;
        match self.next_serial.checked_add(1) {
            None => Err(TrackingError::SerialOverflow),
            Some(next) => {
                proof {
                    lemma_raise_serial_valid(self@, next);
                }
                self.next_serial = next;
                assert(self@ == old(self)@.allocated());
                Ok(TrackingId::new(self.id.clone(), self.generation, serial))
            },
        }
    }

    /// Binds a semantic reference to an allocated current-generation ID.
    ///
    /// Repeating the same binding is idempotent. Fails with a typed
    /// [`TrackingError`], leaving the session unchanged, when `tracking_id`
    /// is not current, the semantic reference already names a different ID,
    /// or the ID already has a different semantic reference.
    pub fn bind(&mut self, reference: SemanticTopologyRef, tracking_id: TrackingId) -> (r: Result<
        &SemanticBinding,
        TrackingError,
    >)
        requires
            old(self).wf(),
        ensures
            final(self).wf(),
            old(self)@.bound(reference@, tracking_id@) is Some ==> r is Ok && final(self)@
                == old(self)@.bound(reference@, tracking_id@)->0 && r->Ok_0@ == (BindingView {
                reference: reference@,
                tracking_id: tracking_id@,
            }),
            old(self)@.bound(reference@, tracking_id@) is None ==> r is Err && final(self)@ == old(
                self,
            )@ && bind_error(r->Err_0, old(self)@, reference@, tracking_id@),
    {
        let ghost s = self@;
        self.validate_current(&tracking_id)?;
        match search_bindings(&self.bindings, &reference) {
            Ok(index) => {
                proof {
                    let k = s.reference_index(reference@);
                    lemma_ordered_unique(s.bindings, k, index as int);
                }
                assert(s.bindings[index as int] == self.bindings@[index as int]@);
                if same_id(self.bindings[index].tracking_id(), &tracking_id) {
                    Ok(&self.bindings[index])
                } else {
                    Err(
                        TrackingError::SemanticReferenceAlreadyBound {
                            reference: Box::new(reference),
                            existing: Box::new(self.bindings[index].tracking_id().clone()),
                            requested: Box::new(tracking_id),
                        },
                    )
                }
            },
            Err(index) => {
                proof {
                    lemma_insertion_point_absent(s.bindings, reference@, index as int);
                }
                assert(!s.is_bound(reference@));
                match find_bound_id(&self.bindings, &tracking_id) {
                    Some(j) => {
                        proof {
                            let k = s.id_index(tracking_id@);
                            assert(s.bindings[k].tracking_id == s.bindings[j as int].tracking_id);
                        }
                        assert(s.bindings[j as int] == self.bindings@[j as int]@);
                        Err(
                            TrackingError::TrackingIdAlreadyBound {
                                tracking_id: Box::new(tracking_id),
                                existing: Box::new(self.bindings[j].reference().clone()),
                                requested: Box::new(reference),
                            },
                        )
                    },
                    None => {
                        let ghost b = BindingView { reference: reference@, tracking_id: tracking_id@ };
                        proof {
                            assert(is_insertion_point(s.bindings, reference@, index as int));
                            lemma_insertion_point_unique(
                                s.bindings,
                                reference@,
                                index as int,
                                insertion_point(s.bindings, reference@),
                            );
                            lemma_insert_binding_valid(s, reference@, tracking_id@, index as int);
                        }
                        self.bindings.insert(index, SemanticBinding::new(reference, tracking_id));
                        assert(self@.bindings =~= s.bindings.insert(index as int, b));
                        Ok(&self.bindings[index])
                    },
                }
            },
        }
    }

    /// Resolves a semantic reference in the current generation.
    ///
    /// Fails with [`TrackingError::UnknownSemanticReference`] when no current
    /// binding exists.
    pub fn resolve(&self, reference: &SemanticTopologyRef) -> (r: Result<&TrackingId, TrackingError>)
        requires
            self.wf(),
        ensures
            self@.resolved(reference@) is Some ==> r is Ok && r->Ok_0@ == self@.resolved(
                reference@,
            )->0,
            self@.resolved(reference@) is None ==> (r matches Err(
                TrackingError::UnknownSemanticReference(x),
            ) && x@ == reference@),
    {
        match search_bindings(&self.bindings, reference) {
            Ok(index) => {
                proof {
                    let k = self@.reference_index(reference@);
                    lemma_ordered_unique(self@.bindings, k, index as int);
                }
                assert(self@.bindings[index as int] == self.bindings@[index as int]@);
                Ok(self.bindings[index].tracking_id())
            },
            Err(index) => {
                proof {
                    lemma_insertion_point_absent(self@.bindings, reference@, index as int);
                }
                Err(TrackingError::UnknownSemanticReference(reference.clone()))
            },
        }
    }

    /// Returns the semantic binding for a current runtime identifier.
    ///
    /// An allocated identifier may be intentionally unbound, in which case
    /// this returns `Ok(None)`. Fails with the same session, generation, and
    /// allocation errors as [`Self::validate_current`].
    pub fn binding_for_tracking_id(&self, tracking_id: &TrackingId) -> (r: Result<
        Option<&SemanticBinding>,
        TrackingError,
    >)
        requires
            self.wf(),
        ensures
            !self@.is_current(tracking_id@) ==> r is Err && validation_error(
                r->Err_0,
                self@,
                tracking_id@,
            ),
            self@.is_current(tracking_id@) && self@.id_is_bound(tracking_id@) ==> (r matches Ok(
                Some(b),
            ) && b@ == self@.bindings[self@.id_index(tracking_id@)]),
            self@.is_current(tracking_id@) && !self@.id_is_bound(tracking_id@) ==> r matches Ok(
                None,
            ),
    {
        self.validate_current(tracking_id)?;
        match find_bound_id(&self.bindings, tracking_id) {
            Some(j) => {
                proof {
                    let k = self@.id_index(tracking_id@);
                    assert(self@.bindings[k].tracking_id == self@.bindings[j as int].tracking_id);
                }
                assert(self@.bindings[j as int] == self.bindings@[j as int]@);
                Ok(Some(&self.bindings[j]))
            },
            None => Ok(None),
        }
    }

    /// Checks a lineage event against the session: its parent and children
    /// must be current, its child list must be empty exactly for a deleted
    /// event, and no child may repeat.
    fn check_event(
        &self,
        relation: LineageRelation,
        parent: &TrackingId,
        children: &[TrackingId],
    ) -> (r: Result<(), TrackingError>)
        ensures
            r is Ok <==> self@.event_ok(
                EventView {
                    operation: OperationKind::Mapping,
                    relation,
                    parent: parent@,
                    children: ids_view(children@),
                },
            ),
            r is Err ==> lineage_error(r->Err_0, self@, relation, parent@, ids_view(children@)),
    {
        let ghost s = self@;
        let ghost cs = ids_view(children@);
        self.validate_current(parent)?;
        let deleted = match relation {
            LineageRelation::Deleted => true,
            _ => false,
        };
        if children.len() == 0 && !deleted {
            return Err(TrackingError::EmptyLineage);
        } else if children.len() != 0 && deleted {
            return Err(TrackingError::DeletedLineageHasChildren);
        }
        let mut k: usize = 0;
        while k < children.len()
            invariant
                self@ == s,
                s.is_current(parent@),
                !(cs.len() == 0 && relation != LineageRelation::Deleted),
                !(cs.len() != 0 && relation == LineageRelation::Deleted),
                cs == ids_view(children@),
                k <= children.len(),
                forall|j: int| 0 <= j < k ==> s.is_current(#[trigger] cs[j]),
            decreases children.len() - k,
        {
            match self.validate_current(&children[k]) {
                Ok(()) => {},
                Err(e) => {
                    assert(cs[k as int] == children@[k as int]@);
                    let ghost first = s.first_stale_child(cs);
                    assert(!s.is_current(cs[k as int]));
                    assert(first == k) by {
                        if first < k {
                            assert(s.is_current(cs[first]));
                        } else if first > k {
                            assert(s.is_current(cs[k as int]));
                        }
                    }
                    return Err(e);
                },
            }
            k = k + 1;
        }
        assert(!s.has_stale_child(cs));
        if contains_duplicate(children) {
            return Err(TrackingError::DuplicateLineageChild);
        }
        Ok(())
    }

    /// Records one parent-to-children lineage event.
    ///
    /// Child order is preserved because it can encode deterministic split
    /// roles such as the parameter-start and parameter-end pieces. Fails with
    /// a typed [`TrackingError`], leaving the session unchanged, when an
    /// identifier is not current, a non-deleted event has no children, a
    /// deleted event has children, or a child occurs more than once.
    pub fn record_lineage(
        &mut self,
        operation: OperationKind,
        relation: LineageRelation,
        parent: TrackingId,
        children: Vec<TrackingId>,
    ) -> (r: Result<&LineageEvent, TrackingError>)
        requires
            old(self).wf(),
        ensures
            final(self).wf(),
            old(self)@.recorded(operation, relation, parent@, ids_view(children@)) is Some ==> r is Ok
                && final(self)@ == old(self)@.recorded(
                operation,
                relation,
                parent@,
                ids_view(children@),
            )->0 && r->Ok_0@ == (EventView {
                operation,
                relation,
                parent: parent@,
                children: ids_view(children@),
            }),
            old(self)@.recorded(operation, relation, parent@, ids_view(children@)) is None ==> r is Err
                && final(self)@ == old(self)@ && lineage_error(
                r->Err_0,
                old(self)@,
                relation,
                parent@,
                ids_view(children@),
            ),
    {
        let ghost s = self@;
        let ghost cs = ids_view(children@);
        self.check_event(relation, &parent, children.as_slice())?;
        let ghost event = EventView { operation, relation, parent: parent@, children: cs };
        self.lineage.push(LineageEvent::new(operation, relation, parent, children));
        assert(self@.lineage =~= s.lineage.push(event));
        proof {
            let n = self@;
            assert forall|i: int| 0 <= i < n.lineage.len() implies n.event_ok(
                #[trigger] n.lineage[i],
            ) by {
                if i < s.lineage.len() {
                    assert(n.lineage[i] == s.lineage[i]);
                }
            }
        }
        let last = self.lineage.len() - 1;
        Ok(&self.lineage[last])
    }

    /// Resolves the current terminal descendants of a tracked selection.
    ///
    /// Events are applied in recording order, so preserved identities can
    /// continue through later operations while split identities expand into
    /// every surviving child. A deleted selection resolves to an empty set.
    /// Fails with the same session, generation, and allocation errors as
    /// [`Self::validate_current`].
    pub fn descendants(&self, tracking_id: &TrackingId) -> (r: Result<Vec<TrackingId>, TrackingError>)
        requires
            self.wf(),
        ensures
            !self@.is_current(tracking_id@) ==> r is Err && validation_error(
                r->Err_0,
                self@,
                tracking_id@,
            ),
            self@.is_current(tracking_id@) ==> r is Ok && ids_view(r->Ok_0@) == descend(
                seq![tracking_id@],
                self@.lineage,
            ),
    {
        self.validate_current(tracking_id)?;
        let mut desc: Vec<TrackingId> = Vec::new();
        desc.push(tracking_id.clone());
        let ghost events = self@.lineage;
        assert(ids_view(desc@) =~= seq![tracking_id@]);
        assert(events.take(0) =~= Seq::<EventView>::empty());
        let mut k: usize = 0;
        while k < self.lineage.len()
            invariant
                events == self@.lineage,
                events == events_view(self.lineage@),
                k <= self.lineage.len(),
                ids_view(desc@) == descend(seq![tracking_id@], events.take(k as int)),
            decreases self.lineage.len() - k,
        {
            desc = apply_lineage_event(&desc, &self.lineage[k]);
            assert(events.take(k + 1).drop_last() =~= events.take(k as int));
            assert(events.take(k + 1).last() == self.lineage@[k as int]@);
            k = k + 1;
        }
        assert(events.take(self.lineage.len() as int) =~= events);
        Ok(desc)
    }

    /// Resolves a semantic selection to its current terminal descendants.
    ///
    /// Fails with [`TrackingError::UnknownSemanticReference`] when the
    /// selection is unknown.
    pub fn resolve_descendants(&self, reference: &SemanticTopologyRef) -> (r: Result<
        Vec<TrackingId>,
        TrackingError,
    >)
        requires
            self.wf(),
        ensures
            self@.resolved(reference@) is None ==> (r matches Err(
                TrackingError::UnknownSemanticReference(x),
            ) && x@ == reference@),
            self@.resolved(reference@) is Some ==> r is Ok && ids_view(r->Ok_0@) == descend(
                seq![self@.resolved(reference@)->0],
                self@.lineage,
            ),
    {
        let tracking_id = self.resolve(reference)?;
        proof {
            let i = self@.reference_index(reference@);
            assert(self@.is_current(self@.bindings[i].tracking_id));
        }
        self.descendants(tracking_id)
    }

    /// Advances replay generation and clears generation-local state.
    ///
    /// The serial resets to one so replaying the same deterministic operation
    /// order produces the same serial sequence in the new generation. Fails
    /// with [`TrackingError::GenerationOverflow`], leaving the session
    /// unchanged, when the generation counter is exhausted.
    pub fn advance_generation(&mut self) -> (r: Result<TrackingGeneration, TrackingError>)
        requires
            old(self).wf(),
        ensures
            final(self).wf(),
            old(self)@.generation < u64::MAX ==> r is Ok && r->Ok_0@ == old(self)@.generation + 1
                && final(self)@ == old(self)@.advanced(),
            old(self)@.generation == u64::MAX ==> (r matches Err(
                TrackingError::GenerationOverflow,
            ) && final(self)@ == old(self)@),
    {
        let next = self.generation.next()?;
        self.generation = next;
        self.next_serial = 1;
        self.bindings.clear();
        self.lineage.clear();
        assert(self@.bindings =~= Seq::empty());
        assert(self@.lineage =~= Seq::empty());
        Ok(self.generation)
    }
}

} // verus!
