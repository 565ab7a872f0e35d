//! Properties that span several tracking-session operations.

use vstd::prelude::*;

use super::model::{EventView, IdView, LineageRelation, RefView};
use super::session::{
    apply_event, descend, insertion_point, is_insertion_point, lemma_insert_binding_valid,
    lemma_insertion_point_exists, lemma_ordered_unique, SessionView,
    ValidationFailure,
};

verus! {

/// The serials that `n` successive allocations hand out, starting from `s`.
pub open spec fn allocated_serials(s: SessionView, n: nat) -> Seq<u64>
    decreases n,
{
    if n == 0 || s.next_serial == u64::MAX {
        Seq::empty()
    } else {
        seq![s.next_serial] + allocated_serials(s.allocated(), (n - 1) as nat)
    }
}

/// The serials `1, 2, ..., n`.
pub open spec fn first_serials(n: nat) -> Seq<u64> {
    Seq::new(n, |i: int| (i + 1) as u64)
}

/// From next serial `k`, `n` allocations hand out `k, k + 1, ..., k + n - 1`
/// while the range lasts.
proof fn lemma_allocated_serials_from(s: SessionView, n: nat)
    requires
        s.next_serial + n <= u64::MAX,
    ensures
        allocated_serials(s, n) == Seq::new(n, |i: int| (s.next_serial + i) as u64),
    decreases n,
{
    if n > 0 {
        lemma_allocated_serials_from(s.allocated(), (n - 1) as nat);
        assert(allocated_serials(s, n) =~= Seq::new(n, |i: int| (s.next_serial + i) as u64));
    } else {
        assert(allocated_serials(s, n) =~= Seq::new(n, |i: int| (s.next_serial + i) as u64));
    }
}

/// Replay reproduces serials: after advancing the generation, `n`
/// allocations hand out the serials `1, ..., n`, exactly as in a new session.
pub proof fn law_replay_reproduces_serials(s: SessionView, n: nat)
    requires
        s.generation < u64::MAX,
        n < u64::MAX,
    ensures
        allocated_serials(s.advanced(), n) == first_serials(n),
{
    lemma_allocated_serials_from(s.advanced(), n);
    assert(allocated_serials(s.advanced(), n) =~= first_serials(n));
}

/// Allocation hands out a fresh identifier: it was unknown before and is
/// current afterwards, and every identifier current before stays current.
pub proof fn law_allocation_is_fresh(s: SessionView, t: IdView)
    requires
        s.valid(),
        s.next_serial < u64::MAX,
    ensures
        s.failure(s.next_id()) == Some(ValidationFailure::UnknownId),
        s.allocated().is_current(s.next_id()),
        s.is_current(t) ==> s.allocated().is_current(t),
{
}

/// Session qualification makes equal serials globally unique: the
/// identifiers that two sessions with different IDs hand out differ, even
/// when their generations and serials agree; and no identifier of one is
/// current in the other.
pub proof fn law_sessions_qualify_identifiers(s1: SessionView, s2: SessionView)
    requires
        s1.id != s2.id,
    ensures
        s1.next_id() != s2.next_id(),
        s1.failure(s2.next_id()) == Some(ValidationFailure::WrongSession),
{
}

/// Advancing the generation makes every identifier of the previous
/// generation stale and clears all bindings and lineage.
pub proof fn law_advance_invalidates_old_ids(s: SessionView, t: IdView, r: RefView)
    requires
        s.valid(),
        s.is_current(t),
        s.generation < u64::MAX,
    ensures
        s.advanced().failure(t) == Some(ValidationFailure::StaleGeneration),
        s.advanced().resolved(r) is None,
        s.advanced().lineage.len() == 0,
        s.advanced().valid(),
{
}

/// A read gives back what a bind wrote: after a successful binding of `r`
/// to `t`, `r` resolves to `t`.
pub proof fn law_bind_then_resolve(s: SessionView, r: RefView, t: IdView)
    requires
        s.valid(),
        s.bound(r, t) is Some,
    ensures
        s.bound(r, t)->0.resolved(r) == Some(t),
        s.bound(r, t)->0.valid(),
{
    if s.is_bound(r) {
        let i = s.reference_index(r);
        assert(s.bindings[i].reference == r);
    } else {
        assert forall|i: int| 0 <= i < s.bindings.len() implies s.bindings[i].reference != r by {}
        lemma_insertion_point_exists(s.bindings, r);
        let p = insertion_point(s.bindings, r);
        assert(is_insertion_point(s.bindings, r, p));
        lemma_insert_binding_valid(s, r, t, p);
        let n = s.bound(r, t)->0;
        assert(n.bindings[p].reference == r);
        assert(n.is_bound(r));
        let k = n.reference_index(r);
        lemma_ordered_unique(n.bindings, k, p);
    }
}

/// Binding is idempotent: repeating a successful binding succeeds and
/// changes nothing.
pub proof fn law_bind_idempotent(s: SessionView, r: RefView, t: IdView)
    requires
        s.valid(),
        s.bound(r, t) is Some,
    ensures
        s.bound(r, t)->0.bound(r, t) == s.bound(r, t),
{
    law_bind_then_resolve(s, r, t);
    let n = s.bound(r, t)->0;
    assert(n.is_current(t));
    assert(n.is_bound(r));
}

/// A binding never steals: a reference bound to one identifier refuses
/// another, and an identifier bound to one reference refuses another.
pub proof fn law_binding_is_exclusive(s: SessionView, r: RefView, t: IdView, u: IdView)
    requires
        s.valid(),
        s.resolved(r) == Some(t),
        u != t,
    ensures
        s.bound(r, u) is None,
{
}

/// Descendants of a single selected identifier through one event naming it
/// as parent: a generated event keeps it and appends the children, a
/// deleted event removes it, and any other event replaces it by its
/// children.
pub proof fn law_descendants_step(t: IdView, e: EventView)
    requires
        e.parent == t,
    ensures
        e.relation == LineageRelation::Generated ==> apply_event(seq![t], e) == seq![t]
            + e.children,
        e.relation == LineageRelation::Deleted && e.children.len() == 0 ==> apply_event(
            seq![t],
            e,
        ) == Seq::<IdView>::empty(),
        e.relation != LineageRelation::Generated ==> apply_event(seq![t], e) == e.children,
{
    let d = seq![t];
    assert(d[0] == t);
    let p = choose|i: int| 0 <= i < d.len() && d[i] == t && forall|j: int| 0 <= j < i ==> #[trigger] d[j] != t;
    assert(p == 0);
    assert(d.take(1) =~= d);
    assert(d.skip(1) =~= Seq::<IdView>::empty());
    assert(d.take(0) =~= Seq::<IdView>::empty());
    assert(seq![t] + e.children + Seq::<IdView>::empty() =~= seq![t] + e.children);
    assert(Seq::<IdView>::empty() + e.children + Seq::<IdView>::empty() =~= e.children);
}

/// Events about other identifiers leave a selection unchanged.
pub proof fn law_unrelated_events_keep_descendants(d: Seq<IdView>, events: Seq<EventView>)
    requires
        forall|k: int, i: int|
            0 <= k < events.len() && 0 <= i < d.len() ==> #[trigger] events[k].parent != #[trigger] d[i],
    ensures
        descend(d, events) == d,
    decreases events.len(),
{
    if events.len() > 0 {
        law_unrelated_events_keep_descendants(d, events.drop_last());
        let e = events.last();
        assert(forall|i: int| 0 <= i < d.len() ==> d[i] != e.parent);
    }
}

/// One lineage event acts on a selection only at the first occurrence of
/// its parent. A generated event keeps the parent there and inserts the
/// children right after it; any other event replaces that one occurrence by
/// the children. Every other selected identifier, before or after it, stays
/// in place and in order; a selection without the parent is unchanged.
pub proof fn law_event_touches_only_first_parent(d: Seq<IdView>, e: EventView, i: int)
    requires
        0 <= i < d.len(),
        d[i] == e.parent,
        forall|j: int| 0 <= j < i ==> d[j] != e.parent,
    ensures
        e.relation == LineageRelation::Generated ==> {
            let r = apply_event(d, e);
            &&& r.len() == d.len() + e.children.len()
            &&& forall|j: int| 0 <= j <= i ==> r[j] == d[j]
            &&& forall|k: int| 0 <= k < e.children.len() ==> r[i + 1 + k] == e.children[k]
            &&& forall|j: int| i < j < d.len() ==> r[j + e.children.len()] == d[j]
        },
        e.relation != LineageRelation::Generated ==> {
            let r = apply_event(d, e);
            &&& r.len() == d.len() - 1 + e.children.len()
            &&& forall|j: int| 0 <= j < i ==> r[j] == d[j]
            &&& forall|k: int| 0 <= k < e.children.len() ==> r[i + k] == e.children[k]
            &&& forall|j: int| i < j < d.len() ==> r[j - 1 + e.children.len()] == d[j]
        },
{
    let p = choose|q: int|
        0 <= q < d.len() && d[q] == e.parent && forall|j: int| 0 <= j < q ==> #[trigger] d[j] != e.parent;
    assert(0 <= i < d.len() && d[i] == e.parent);
    if p < i {
        assert(d[p] != e.parent);
    }
    if i < p {
        assert(d[i] != e.parent);
    }
    assert(p == i);
}

/// A selection that does not hold the parent of an event is left unchanged
/// by it.
pub proof fn law_event_without_parent_keeps_selection(d: Seq<IdView>, e: EventView)
    requires
        forall|j: int| 0 <= j < d.len() ==> d[j] != e.parent,
    ensures
        apply_event(d, e) == d,
{
}

} // verus!
