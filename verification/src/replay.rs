//! Transactional continuity-request preparation for parametric replay.

use vstd::prelude::*;

use crate::continuity::{BoundaryContinuityRequest, BoundaryEndpoint};
use crate::contract::{
    resolution, resolution_error, ContinuityContract, ContractError, ContractId, ContractView,
    ResolvedContractView,
};
use crate::order::{
    has_repeat, is_slot, least_repeat, least_repeat_so_far, lemma_insert_at_slot, repeats,
    repeats_before,
    lemma_least_repeat_done, lemma_least_repeat_step, lemma_slot_absent, strict_total,
    strictly_ordered,
};
use crate::text::{compare_text, lemma_text_lt_irreflexive, lemma_text_lt_transitive,
    lemma_text_lt_trichotomy, text_lt, Precedence};
use crate::tracking::error::TrackingError;
use crate::tracking::model::{compare_ids, id_lt, ids_view, lemma_id_order, IdView, TrackingId};
use crate::tracking::session::{validation_error, SessionView, TrackingSession};

verus! {

/// The identifier order as a function value.
pub open spec fn id_order() -> spec_fn(IdView, IdView) -> bool {
    |a: IdView, b: IdView| id_lt(a, b)
}

/// The identifier order is a strict total order.
pub proof fn lemma_id_order_total()
    ensures
        strict_total(id_order()),
{
    assert forall|a: IdView| !#[trigger] id_order()(a, a) by {
        lemma_id_order(a, a, a);
    }
    assert forall|a: IdView, b: IdView| a != b implies #[trigger] id_order()(a, b) || id_order()(
        b,
        a,
    ) by {
        lemma_id_order(a, b, a);
    }
    assert forall|a: IdView, b: IdView, c: IdView| #[trigger] id_order()(a, b) && #[trigger] id_order()(
        b,
        c,
    ) implies id_order()(a, c) by {
        lemma_id_order(a, b, c);
    }
}

/// Searches an ordered identifier list for `t`: its index, or the slot at
/// which `t` would keep the list ordered.
fn search_ids(v: &Vec<TrackingId>, t: &TrackingId) -> (res: Result<usize, usize>)
    requires
        strictly_ordered(ids_view(v@), id_order()),
    ensures
        match res {
            Ok(i) => i < v.len() && ids_view(v@)[i as int] == t@,
            Err(p) => is_slot(ids_view(v@), t@, p as int, id_order()),
        },
{
    let ghost s = ids_view(v@);
    proof {
        lemma_id_order_total();
    }
    let mut lo: usize = 0;
    let mut hi: usize = v.len();
    while lo < hi
        invariant
            s == ids_view(v@),
            strict_total(id_order()),
            strictly_ordered(s, id_order()),
            0 <= lo <= hi <= v.len(),
            forall|i: int| 0 <= i < lo ==> #[trigger] id_order()(s[i], t@),
            forall|i: int| hi <= i < v.len() ==> #[trigger] id_order()(t@, s[i]),
        decreases hi - lo,
    {
        let mid = lo + (hi - lo) / 2;
        assert(s[mid as int] == v@[mid as int]@);
        match compare_ids(&v[mid], t) {
            Precedence::Same => {
                return Ok(mid);
            },
            Precedence::Before => {
                assert forall|i: int| 0 <= i < mid + 1 implies #[trigger] id_order()(s[i], t@) by {
                    if i < mid {
                        assert(id_order()(s[i], s[mid as int]));
                    }
                }
                lo = mid + 1;
            },
            Precedence::After => {
                assert forall|i: int| mid <= i < v.len() implies #[trigger] id_order()(t@, s[i]) by {
                    if i > mid {
                        assert(id_order()(s[mid as int], s[i]));
                    }
                }
                hi = mid;
            },
        }
    }
    Err(lo)
}

/// The position of the least identifier that occurs twice in `v`, if any.
fn least_repeated_id(v: &Vec<TrackingId>) -> (r: Option<usize>)
    ensures
        match r {
            Some(i) => i < v.len() && has_repeat(ids_view(v@)) && ids_view(v@)[i as int]
                == least_repeat(ids_view(v@), id_order()),
            None => !has_repeat(ids_view(v@)),
        },
{
    let ghost s = ids_view(v@);
    proof {
        lemma_id_order_total();
    }
    let mut best: Option<usize> = None;
    let mut j: usize = 0;
    while j < v.len()
        invariant
            s == ids_view(v@),
            strict_total(id_order()),
            j <= v.len(),
            least_repeat_so_far(s, j as int, best, id_order()),
        decreases v.len() - j,
    {
        let mut i: usize = 0;
        let mut found = false;
        while i < j
            invariant
                s == ids_view(v@),
                i <= j < v.len(),
                found == exists|a: int| 0 <= a < i && s[a] == s[j as int],
            decreases j - i,
        {
            assert(s[i as int] == v@[i as int]@ && s[j as int] == v@[j as int]@);
            if compare_ids(&v[i], &v[j]) == Precedence::Same {
                found = true;
            }
            i = i + 1;
        }
        let ghost prev = best;
        if found {
            match best {
                None => {
                    best = Some(j);
                },
                Some(b) => {
                    assert(s[b as int] == v@[b as int]@ && s[j as int] == v@[j as int]@);
                    if compare_ids(&v[j], &v[b]) == Precedence::Before {
                        best = Some(j);
                    }
                },
            }
        }
        proof {
            lemma_least_repeat_step(s, j as int, prev, found, best, id_order());
        }
        j = j + 1;
    }
    proof {
        lemma_least_repeat_done(s, best, id_order());
    }
    best
}

// ---------------------------------------------------------------------------
// Surface registry
// ---------------------------------------------------------------------------

/// Failure to prepare continuity solver requests from replayed contracts.
#[derive(Clone, Debug, PartialEq, Eq)]
pub enum ContinuityReplayError {
    /// A topology surface ID is not current in the supplied session.
    InvalidSurfaceId {
        /// Invalid topology ID.
        tracking_id: TrackingId,
        /// Typed tracking validation failure.
        source: Box<TrackingError>,
    },
    /// A topology traversal supplied one surface ID more than once.
    DuplicateSurfaceId {
        /// Repeated topology ID.
        tracking_id: TrackingId,
    },
    /// A request batch contains duplicate persistent contract IDs.
    DuplicateContractId {
        /// Repeated persistent contract ID.
        contract_id: ContractId,
    },
    /// A persistent contract could not resolve in the current generation.
    ContractResolution {
        /// Persistent contract ID.
        contract_id: ContractId,
        /// Typed contract-resolution failure.
        source: Box<ContractError>,
    },
    /// A resolved contract endpoint is not current in the supplied session.
    ResolvedSurfaceIdInvalid {
        /// Persistent contract ID.
        contract_id: ContractId,
        /// Contract endpoint with the invalid ID.
        endpoint: BoundaryEndpoint,
        /// Invalid resolved topology ID.
        tracking_id: TrackingId,
        /// Typed tracking validation failure.
        source: Box<TrackingError>,
    },
    /// A resolved contract endpoint is absent from the replayed surfaces.
    SurfaceNotRegistered {
        /// Persistent contract ID.
        contract_id: ContractId,
        /// Contract endpoint absent from the registry.
        endpoint: BoundaryEndpoint,
        /// Missing current-generation topology ID.
        tracking_id: TrackingId,
    },
}

/// The index of the first identifier of `ids` that is not current in `s`.
pub open spec fn first_stale(s: SessionView, ids: Seq<IdView>) -> int {
    choose|k: int|
        0 <= k < ids.len() && !s.is_current(ids[k]) && forall|j: int|
            0 <= j < k ==> s.is_current(#[trigger] ids[j])
}

/// The first `k + 1` entries hold what the first `k` hold and entry `k`.
pub proof fn lemma_take_step_contains<T>(s: Seq<T>, k: int, t: T)
    requires
        0 <= k < s.len(),
    ensures
        s.take(k + 1).contains(t) <==> (s.take(k).contains(t) || t == s[k]),
{
    let pre = s.take(k);
    let post = s.take(k + 1);
    if post.contains(t) {
        let i = choose|i: int| 0 <= i < post.len() && post[i] == t;
        if i < k {
            assert(pre[i] == t);
        }
    }
    if pre.contains(t) {
        let i = choose|i: int| 0 <= i < pre.len() && pre[i] == t;
        assert(post[i] == t);
    }
    if t == s[k] {
        assert(post[k] == t);
    }
}

/// Current-generation IDs of surfaces available to continuity replay.
///
/// Construction validates every [`TrackingId`] against the supplied
/// [`TrackingSession`] and rejects duplicate IDs.
#[derive(Debug, PartialEq, Eq)]
pub struct TrackedSurfaceIdRegistry {
    ids: Vec<TrackingId>,
}

impl View for TrackedSurfaceIdRegistry {
    type V = Seq<IdView>;

    closed spec fn view(&self) -> Seq<IdView> {
        ids_view(self.ids@)
    }
}

impl TrackedSurfaceIdRegistry {
    #[verifier::type_invariant]
    spec fn valid(self) -> bool {
        strictly_ordered(ids_view(self.ids@), id_order())
    }

    /// Builds a validated surface-ID registry for the current generation.
    ///
    /// Fails with [`ContinuityReplayError::InvalidSurfaceId`] for the first
    /// ID that is not current, and otherwise with
    /// [`ContinuityReplayError::DuplicateSurfaceId`] for the least ID that
    /// the topology supplies more than once.
    pub fn try_new(session: &TrackingSession, tracking_ids: Vec<TrackingId>) -> (r: Result<
        Self,
        ContinuityReplayError,
    >)
        ensures
            ({
                let ids = ids_view(tracking_ids@);
                &&& (exists|k: int| 0 <= k < ids.len() && !session@.is_current(ids[k])) ==> (r matches Err(
                    ContinuityReplayError::InvalidSurfaceId { tracking_id, source },
                ) && tracking_id@ == ids[first_stale(session@, ids)] && validation_error(
                    *source,
                    session@,
                    ids[first_stale(session@, ids)],
                ))
                &&& (forall|k: int| 0 <= k < ids.len() ==> session@.is_current(ids[k]))
                    && has_repeat(ids) ==> (r matches Err(
                    ContinuityReplayError::DuplicateSurfaceId { tracking_id },
                ) && tracking_id@ == least_repeat(ids, id_order()))
                &&& (forall|k: int| 0 <= k < ids.len() ==> session@.is_current(ids[k]))
                    && !has_repeat(ids) ==> (r is Ok && strictly_ordered(r->Ok_0@, id_order())
                    && forall|t: IdView| r->Ok_0@.contains(t) <==> ids.contains(t))
            }),
    {
        let ghost ids = ids_view(tracking_ids@);
        let mut k: usize = 0;
        while k < tracking_ids.len()
            invariant
                ids == ids_view(tracking_ids@),
                k <= tracking_ids.len(),
                forall|j: int| 0 <= j < k ==> session@.is_current(#[trigger] ids[j]),
            decreases tracking_ids.len() - k,
        {
            assert(ids[k as int] == tracking_ids@[k as int]@);
            match session.validate_current(&tracking_ids[k]) {
                Ok(()) => {},
                Err(source) => {
                    let ghost first = first_stale(session@, ids);
                    assert(first == k) by {
                        if first < k {
                            assert(session@.is_current(ids[first]));
                        } else if first > k {
                            assert(session@.is_current(ids[k as int]));
                        }
                    }
                    return Err(
                        ContinuityReplayError::InvalidSurfaceId {
                            tracking_id: tracking_ids[k].clone(),
                            source: Box::new(source),
                        },
                    );
                },
            }
            k = k + 1;
        }
        if let Some(i) = least_repeated_id(&tracking_ids) {
            return Err(ContinuityReplayError::DuplicateSurfaceId { tracking_id: tracking_ids[i].clone() });
        }
        proof {
            lemma_id_order_total();
        }
        let mut set: Vec<TrackingId> = Vec::new();
        let mut k: usize = 0;
        assert(ids_view(set@) =~= Seq::<IdView>::empty());
        while k < tracking_ids.len()
            invariant
                ids == ids_view(tracking_ids@),
                strict_total(id_order()),
                k <= tracking_ids.len(),
                strictly_ordered(ids_view(set@), id_order()),
                forall|t: IdView| ids_view(set@).contains(t) <==> ids.take(k as int).contains(t),
            decreases tracking_ids.len() - k,
        {
            let ghost before = ids_view(set@);
            let ghost x = ids[k as int];
            assert(ids.take(k + 1) =~= ids.take(k as int).push(x));
            assert(x == tracking_ids@[k as int]@);
            match search_ids(&set, &tracking_ids[k]) {
                Ok(i) => {
                    assert(before[i as int] == x);
                    assert(before.contains(x));
                },
                Err(p) => {
                    proof {
                        lemma_insert_at_slot(before, ids[k as int], p as int, id_order());
                    }
                    set.insert(p, tracking_ids[k].clone());
                    assert(ids_view(set@) =~= before.insert(p as int, ids[k as int]));
                },
            }
            assert forall|t: IdView| ids_view(set@).contains(t) <==> ids.take(k + 1).contains(t) by {
                lemma_take_step_contains(ids, k as int, t);
                assert(before.contains(t) <==> ids.take(k as int).contains(t));
            }
            k = k + 1;
        }
        assert(ids.take(tracking_ids.len() as int) =~= ids);
        Ok(TrackedSurfaceIdRegistry { ids: set })
    }

    /// Whether a current-generation surface ID is registered.
    pub fn contains(&self, tracking_id: &TrackingId) -> (r: bool)
        ensures
            r == self@.contains(tracking_id@),
    {
        proof {
            use_type_invariant(self);
            lemma_id_order_total();
        }
        match search_ids(&self.ids, tracking_id) {
            Ok(i) => {
                assert(self@[i as int] == tracking_id@);
                true
            },
            Err(p) => {
                proof {
                    lemma_slot_absent(self@, tracking_id@, p as int, id_order());
                }
                false
            },
        }
    }

    /// Returns the number of registered surface IDs.
    pub fn len(&self) -> (r: usize)
        ensures
            r == self@.len(),
    {
        self.ids.len()
    }

    /// Returns whether no surface IDs are registered.
    pub fn is_empty(&self) -> (r: bool)
        ensures
            r == (self@.len() == 0),
    {
        self.ids.len() == 0
    }

    /// Returns the registered IDs in canonical tracking-ID order.
    pub fn iter(&self) -> (r: &[TrackingId])
        ensures
            ids_view(r@) == self@,
            strictly_ordered(self@, id_order()),
    {
        proof {
            use_type_invariant(self);
        }
        self.ids.as_slice()
    }
}

// ---------------------------------------------------------------------------
// Request preparation
// ---------------------------------------------------------------------------

/// Mathematical value of a [`ResolvedBoundaryContinuityRequest`].
pub struct RequestView {
    pub contract_id: Seq<char>,
    pub first_surface: IdView,
    pub second_surface: IdView,
    pub request: BoundaryContinuityRequest,
}

/// One resolved contract ready to pair with two surfaces.
///
/// This runtime value deliberately retains generation-scoped
/// [`TrackingId`]s and therefore is not a persistent contract.
#[derive(Debug, Hash, PartialEq, Eq)]
pub struct ResolvedBoundaryContinuityRequest {
    contract_id: ContractId,
    first_surface: TrackingId,
    second_surface: TrackingId,
    request: BoundaryContinuityRequest,
}

impl View for ResolvedBoundaryContinuityRequest {
    type V = RequestView;

    closed spec fn view(&self) -> RequestView {
        RequestView {
            contract_id: self.contract_id@,
            first_surface: self.first_surface@,
            second_surface: self.second_surface@,
            request: self.request,
        }
    }
}

/// The request that a resolved contract asks for.
pub open spec fn request_of(rc: ResolvedContractView) -> RequestView {
    RequestView {
        contract_id: rc.id,
        first_surface: rc.first.tracking_id,
        second_surface: rc.second.tracking_id,
        request: BoundaryContinuityRequest::spec_new(
            rc.first.boundary,
            rc.second.boundary,
            rc.alignment,
            rc.order,
        ),
    }
}

/// The request prepared for contract `c`, or `None` when the contract does
/// not resolve or an endpoint is stale or absent from `registry`.
pub open spec fn prepared(c: ContractView, s: SessionView, registry: Seq<IdView>) -> Option<
    RequestView,
> {
    match resolution(c, s) {
        None => None,
        Some(rc) => {
            let f = rc.first.tracking_id;
            let g = rc.second.tracking_id;
            if s.is_current(f) && registry.contains(f) && s.is_current(g) && registry.contains(g) {
                Some(request_of(rc))
            } else {
                None
            }
        },
    }
}

/// Whether `e` reports that endpoint `endpoint` of contract `c`, resolved to
/// `t`, is stale in `s` or absent from `registry`.
pub open spec fn endpoint_error(
    e: ContinuityReplayError,
    c: ContractView,
    s: SessionView,
    registry: Seq<IdView>,
    endpoint: BoundaryEndpoint,
    t: IdView,
) -> bool {
    if !s.is_current(t) {
        e matches ContinuityReplayError::ResolvedSurfaceIdInvalid {
            contract_id,
            endpoint: p,
            tracking_id,
            source,
        } && contract_id@ == c.id && p == endpoint && tracking_id@ == t && validation_error(
            *source,
            s,
            t,
        )
    } else {
        e matches ContinuityReplayError::SurfaceNotRegistered {
            contract_id,
            endpoint: p,
            tracking_id,
        } && contract_id@ == c.id && p == endpoint && tracking_id@ == t
    }
}

/// Whether `e` is the error that preparing contract `c` reports.
pub open spec fn preparation_error(
    e: ContinuityReplayError,
    c: ContractView,
    s: SessionView,
    registry: Seq<IdView>,
) -> bool {
    match resolution(c, s) {
        None => e matches ContinuityReplayError::ContractResolution { contract_id, source }
            && contract_id@ == c.id && resolution_error(*source, c, s),
        Some(rc) => {
            let f = rc.first.tracking_id;
            if !s.is_current(f) || !registry.contains(f) {
                endpoint_error(e, c, s, registry, BoundaryEndpoint::First, f)
            } else {
                endpoint_error(e, c, s, registry, BoundaryEndpoint::Second, rc.second.tracking_id)
            }
        },
    }
}

impl ResolvedBoundaryContinuityRequest {
    /// Returns the persistent contract identifier.
    pub fn contract_id(&self) -> (r: &ContractId)
        ensures
            r@ == self@.contract_id,
    {
        &self.contract_id
    }

    /// Returns the current-generation fixed-surface ID.
    pub fn first_surface(&self) -> (r: &TrackingId)
        ensures
            r@ == self@.first_surface,
    {
        &self.first_surface
    }

    /// Returns the current-generation optimized-surface ID.
    pub fn second_surface(&self) -> (r: &TrackingId)
        ensures
            r@ == self@.second_surface,
    {
        &self.second_surface
    }

    /// Returns the surface-only solver request.
    pub fn request(&self) -> (r: BoundaryContinuityRequest)
        ensures
            r == self@.request,
    {
        self.request
    }

    /// Checks that a resolved endpoint is current and registered.
    fn check_endpoint(
        contract: &ContinuityContract,
        session: &TrackingSession,
        surfaces: &TrackedSurfaceIdRegistry,
        endpoint: BoundaryEndpoint,
        tracking_id: &TrackingId,
    ) -> (r: Result<(), ContinuityReplayError>)
        ensures
            r is Ok <==> session@.is_current(tracking_id@) && surfaces@.contains(tracking_id@),
            r is Err ==> endpoint_error(
                r->Err_0,
                contract@,
                session@,
                surfaces@,
                endpoint,
                tracking_id@,
            ),
    {
        match session.validate_current(tracking_id) {
            Ok(()) => {},
            Err(source) => {
                return Err(
                    ContinuityReplayError::ResolvedSurfaceIdInvalid {
                        contract_id: contract.id().clone(),
                        endpoint,
                        tracking_id: tracking_id.clone(),
                        source: Box::new(source),
                    },
                );
            },
        }
        if surfaces.contains(tracking_id) {
            Ok(())
        } else {
            Err(
                ContinuityReplayError::SurfaceNotRegistered {
                    contract_id: contract.id().clone(),
                    endpoint,
                    tracking_id: tracking_id.clone(),
                },
            )
        }
    }

    /// Resolves one contract and checks both of its endpoints.
    fn from_contract(
        contract: &ContinuityContract,
        session: &TrackingSession,
        surfaces: &TrackedSurfaceIdRegistry,
    ) -> (r: Result<Self, ContinuityReplayError>)
        requires
            session.wf(),
        ensures
            r is Ok <==> prepared(contract@, session@, surfaces@) is Some,
            r is Ok ==> r->Ok_0@ == prepared(contract@, session@, surfaces@)->0,
            r is Err ==> preparation_error(r->Err_0, contract@, session@, surfaces@),
    {
        let resolved = match contract.resolve(session) {
            Ok(resolved) => resolved,
            Err(source) => {
                return Err(
                    ContinuityReplayError::ContractResolution {
                        contract_id: contract.id().clone(),
                        source: Box::new(source),
                    },
                );
            },
        };
        Self::check_endpoint(
            contract,
            session,
            surfaces,
            BoundaryEndpoint::First,
            resolved.first().tracking_id(),
        )?;
        Self::check_endpoint(
            contract,
            session,
            surfaces,
            BoundaryEndpoint::Second,
            resolved.second().tracking_id(),
        )?;
        Ok(
            Self {
                contract_id: contract.id().clone(),
                first_surface: resolved.first().tracking_id().clone(),
                second_surface: resolved.second().tracking_id().clone(),
                request: BoundaryContinuityRequest::new(
                    resolved.first().boundary(),
                    resolved.second().boundary(),
                    resolved.alignment(),
                    resolved.order(),
                ),
            },
        )
    }
}

/// The text order as a function value.
pub open spec fn text_order() -> spec_fn(Seq<char>, Seq<char>) -> bool {
    |a: Seq<char>, b: Seq<char>| text_lt(a, b)
}

/// The text order is a strict total order.
pub proof fn lemma_text_order_total()
    ensures
        strict_total(text_order()),
{
    assert forall|a: Seq<char>| !#[trigger] text_order()(a, a) by {
        lemma_text_lt_irreflexive(a);
    }
    assert forall|a: Seq<char>, b: Seq<char>| a != b implies #[trigger] text_order()(a, b)
        || text_order()(b, a) by {
        lemma_text_lt_trichotomy(a, b);
    }
    assert forall|a: Seq<char>, b: Seq<char>, c: Seq<char>| #[trigger] text_order()(a, b)
        && #[trigger] text_order()(b, c) implies text_order()(a, c) by {
        lemma_text_lt_transitive(a, b, c);
    }
}

/// The identifiers of a list of contracts.
pub open spec fn contract_ids(cs: Seq<ContinuityContract>) -> Seq<Seq<char>> {
    cs.map_values(|c: ContinuityContract| c@.id)
}

/// The views of a list of prepared requests.
pub open spec fn requests_view(rs: Seq<ResolvedBoundaryContinuityRequest>) -> Seq<RequestView> {
    rs.map_values(|r: ResolvedBoundaryContinuityRequest| r@)
}

/// The contract identifiers of a list of prepared requests.
pub open spec fn request_ids(rs: Seq<ResolvedBoundaryContinuityRequest>) -> Seq<Seq<char>> {
    rs.map_values(|r: ResolvedBoundaryContinuityRequest| r@.contract_id)
}

/// The position of the least contract identifier that occurs twice.
fn least_repeated_contract_id(cs: &[ContinuityContract]) -> (r: Option<usize>)
    ensures
        match r {
            Some(i) => i < cs@.len() && has_repeat(contract_ids(cs@)) && contract_ids(cs@)[i as int]
                == least_repeat(contract_ids(cs@), text_order()),
            None => !has_repeat(contract_ids(cs@)),
        },
{
    let ghost s = contract_ids(cs@);
    proof {
        lemma_text_order_total();
    }
    let mut best: Option<usize> = None;
    let mut j: usize = 0;
    while j < cs.len()
        invariant
            s == contract_ids(cs@),
            strict_total(text_order()),
            j <= cs.len(),
            least_repeat_so_far(s, j as int, best, text_order()),
        decreases cs.len() - j,
    {
        let mut i: usize = 0;
        let mut found = false;
        while i < j
            invariant
                s == contract_ids(cs@),
                i <= j < cs.len(),
                found == exists|a: int| 0 <= a < i && s[a] == s[j as int],
            decreases j - i,
        {
            assert(s[i as int] == cs@[i as int]@.id && s[j as int] == cs@[j as int]@.id);
            if compare_text(cs[i].id().as_str(), cs[j].id().as_str()) == Precedence::Same {
                found = true;
            }
            i = i + 1;
        }
        let ghost prev = best;
        if found {
            match best {
                None => {
                    best = Some(j);
                },
                Some(b) => {
                    assert(s[b as int] == cs@[b as int]@.id && s[j as int] == cs@[j as int]@.id);
                    if compare_text(cs[j].id().as_str(), cs[b].id().as_str()) == Precedence::Before {
                        best = Some(j);
                    }
                },
            }
        }
        proof {
            lemma_least_repeat_step(s, j as int, prev, found, best, text_order());
        }
        j = j + 1;
    }
    proof {
        lemma_least_repeat_done(s, best, text_order());
    }
    best
}

/// The identifiers of the contracts that `order` lists.
pub open spec fn ids_in_order(ids: Seq<Seq<char>>, order: Seq<usize>) -> Seq<Seq<char>> {
    order.map_values(|k: usize| ids[k as int])
}

/// The positions of the contracts in canonical identifier order; the
/// contract identifiers must be distinct.
fn canonical_order(cs: &[ContinuityContract]) -> (order: Vec<usize>)
    requires
        !has_repeat(contract_ids(cs@)),
    ensures
        order.len() == cs@.len(),
        forall|m: int| 0 <= m < order.len() ==> order@[m] < cs@.len(),
        forall|i: usize| i < cs@.len() ==> #[trigger] order@.contains(i),
        strictly_ordered(ids_in_order(contract_ids(cs@), order@), text_order()),
{
    let ghost ids = contract_ids(cs@);
    proof {
        lemma_text_order_total();
    }
    let mut order: Vec<usize> = Vec::new();
    let mut k: usize = 0;
    assert(ids_in_order(ids, order@) =~= Seq::<Seq<char>>::empty());
    while k < cs.len()
        invariant
            ids == contract_ids(cs@),
            !has_repeat(ids),
            strict_total(text_order()),
            k <= cs.len(),
            order.len() == k,
            forall|m: int| 0 <= m < order.len() ==> order@[m] < k,
            forall|i: usize| i < k ==> #[trigger] order@.contains(i),
            strictly_ordered(ids_in_order(ids, order@), text_order()),
        decreases cs.len() - k,
    {
        let ghost sorted = ids_in_order(ids, order@);
        let ghost x = ids[k as int];
        assert(x == cs@[k as int]@.id);
        let key = cs[k].id().as_str();
        let mut lo: usize = 0;
        let mut hi: usize = order.len();
        while lo < hi
            invariant
                ids == contract_ids(cs@),
                !has_repeat(ids),
                strict_total(text_order()),
                sorted == ids_in_order(ids, order@),
                strictly_ordered(sorted, text_order()),
                key@ == x,
                x == ids[k as int],
                k < cs.len(),
                forall|m: int| 0 <= m < order.len() ==> order@[m] < k,
                0 <= lo <= hi <= order.len(),
                forall|i: int| 0 <= i < lo ==> #[trigger] text_order()(sorted[i], x),
                forall|i: int| hi <= i < order.len() ==> #[trigger] text_order()(x, sorted[i]),
            decreases hi - lo,
        {
            let mid = lo + (hi - lo) / 2;
            let at = order[mid];
            assert(sorted[mid as int] == ids[at as int]);
            assert(ids[at as int] == cs@[at as int]@.id);
            match compare_text(cs[at].id().as_str(), key) {
                Precedence::Same => {
                    proof {
                        assert(repeats_before(ids, ids.len() as int, x)) by {
                            assert(ids[at as int] == x && ids[k as int] == x && at < k);
                        }
                        assert(repeats(ids, x));
                        assert(has_repeat(ids));
                    }
                    lo = mid + 1;
                    hi = mid;
                    assert(false);
                },
                Precedence::Before => {
                    assert(text_order()(sorted[mid as int], x));
                    assert forall|i: int| 0 <= i < mid + 1 implies #[trigger] text_order()(
                        sorted[i],
                        x,
                    ) by {
                        if i < mid {
                            assert(text_order()(sorted[i], sorted[mid as int]));
                        }
                    }
                    lo = mid + 1;
                },
                Precedence::After => {
                    assert(text_order()(x, sorted[mid as int]));
                    assert forall|i: int| mid <= i < order.len() implies #[trigger] text_order()(
                        x,
                        sorted[i],
                    ) by {
                        if i > mid {
                            assert(text_order()(sorted[mid as int], sorted[i]));
                        }
                    }
                    hi = mid;
                },
            }
        }
        let ghost before = order@;
        proof {
            lemma_insert_at_slot(sorted, x, lo as int, text_order());
        }
        order.insert(lo, k);
        assert(ids_in_order(ids, order@) =~= sorted.insert(lo as int, x));
        assert forall|i: usize| i < k + 1 implies #[trigger] order@.contains(i) by {
            if i < k {
                assert(before.contains(i));
                let m = choose|m: int| 0 <= m < before.len() && before[m] == i;
                if m < lo {
                    assert(order@[m] == i);
                } else {
                    assert(order@[m + 1] == i);
                }
            } else {
                assert(order@[lo as int] == k);
            }
        }
        assert forall|m: int| 0 <= m < order.len() implies order@[m] < k + 1 by {
            if m < lo {
                assert(order@[m] == before[m]);
            } else if m > lo {
                assert(order@[m] == before[m - 1]);
            }
        }
        k = k + 1;
    }
    order
}

/// Whether the prepared request of contract `c` occurs in `out`.
pub open spec fn prepared_in(
    c: ContinuityContract,
    out: Seq<ResolvedBoundaryContinuityRequest>,
    s: SessionView,
    registry: Seq<IdView>,
) -> bool {
    exists|q: int| 0 <= q < out.len() && Some(out[q]@) == prepared(c@, s, registry)
}

/// Whether request `r` is the prepared request of some contract of `cs`.
pub open spec fn prepared_from(
    r: ResolvedBoundaryContinuityRequest,
    cs: Seq<ContinuityContract>,
    s: SessionView,
    registry: Seq<IdView>,
) -> bool {
    exists|i: int| 0 <= i < cs.len() && Some(r@) == prepared(cs[i]@, s, registry)
}

/// A batch prepared in canonical order is ordered by contract identifier and
/// holds exactly the prepared request of every contract.
proof fn lemma_prepared_batch(
    cs: Seq<ContinuityContract>,
    s: SessionView,
    registry: Seq<IdView>,
    order: Seq<usize>,
    out: Seq<ResolvedBoundaryContinuityRequest>,
)
    requires
        strict_total(text_order()),
        cs.len() <= usize::MAX,
        order.len() == cs.len(),
        out.len() == cs.len(),
        forall|q: int| 0 <= q < order.len() ==> order[q] < cs.len(),
        forall|i: usize| i < cs.len() ==> #[trigger] order.contains(i),
        strictly_ordered(ids_in_order(contract_ids(cs), order), text_order()),
        forall|q: int|
            0 <= q < out.len() ==> Some(#[trigger] out[q]@) == prepared(
                cs[order[q] as int]@,
                s,
                registry,
            ),
    ensures
        strictly_ordered(request_ids(out), text_order()),
        forall|i: int| 0 <= i < cs.len() ==> #[trigger] prepared_in(cs[i], out, s, registry),
        forall|q: int| 0 <= q < out.len() ==> #[trigger] prepared_from(out[q], cs, s, registry),
{
    let ids = contract_ids(cs);
    assert forall|q: int, p: int| 0 <= q < p < out.len() implies #[trigger] text_order()(
        request_ids(out)[q],
        request_ids(out)[p],
    ) by {
        assert(Some(out[q]@) == prepared(cs[order[q] as int]@, s, registry));
        assert(Some(out[p]@) == prepared(cs[order[p] as int]@, s, registry));
        assert(ids_in_order(ids, order)[q] == ids[order[q] as int]);
        assert(ids_in_order(ids, order)[p] == ids[order[p] as int]);
        assert(text_order()(ids_in_order(ids, order)[q], ids_in_order(ids, order)[p]));
    }
    assert forall|i: int| 0 <= i < cs.len() implies #[trigger] prepared_in(cs[i], out, s, registry) by {
        assert(order.contains(i as usize));
        let q = choose|q: int| 0 <= q < order.len() && order[q] == i as usize;
        assert(Some(out[q]@) == prepared(cs[order[q] as int]@, s, registry));
        assert(order[q] as int == i);
        assert(0 <= q < out.len() && Some(out[q]@) == prepared(cs[i]@, s, registry));
    }
    assert forall|q: int| 0 <= q < out.len() implies #[trigger] prepared_from(out[q], cs, s, registry) by {
        assert(Some(out[q]@) == prepared(cs[order[q] as int]@, s, registry));
        let i = order[q] as int;
        assert(0 <= i < cs.len() && Some(out[q]@) == prepared(cs[i]@, s, registry));
    }
}

/// Resolves and validates a complete continuity-contract batch.
///
/// Contracts are prepared in canonical [`ContractId`] order. The function is
/// transactional: it borrows all inputs immutably and returns no request
/// batch unless every contract resolves and both of its surface IDs occur in
/// `surfaces`. Fails with [`ContinuityReplayError::DuplicateContractId`] for
/// the least repeated contract ID, and otherwise with the error of the
/// failing contract whose ID comes first.
pub fn prepare_boundary_continuity_requests(
    session: &TrackingSession,
    surfaces: &TrackedSurfaceIdRegistry,
    contracts: &[ContinuityContract],
) -> (r: Result<Vec<ResolvedBoundaryContinuityRequest>, ContinuityReplayError>)
    requires
        session.wf(),
    ensures
        has_repeat(contract_ids(contracts@)) ==> (r matches Err(
            ContinuityReplayError::DuplicateContractId { contract_id },
        ) && contract_id@ == least_repeat(contract_ids(contracts@), text_order())),
        !has_repeat(contract_ids(contracts@)) && (forall|i: int|
            0 <= i < contracts@.len() ==> prepared(contracts@[i]@, session@, surfaces@) is Some)
            ==> r is Ok,
        r is Ok ==> ({
            let out = r->Ok_0@;
            &&& out.len() == contracts@.len()
            &&& strictly_ordered(request_ids(out), text_order())
            &&& forall|i: int|
                0 <= i < contracts@.len() ==> #[trigger] prepared_in(
                    contracts@[i],
                    out,
                    session@,
                    surfaces@,
                )
            &&& forall|m: int|
                0 <= m < out.len() ==> #[trigger] prepared_from(
                    out[m],
                    contracts@,
                    session@,
                    surfaces@,
                )
        }),
        !has_repeat(contract_ids(contracts@)) && r is Err ==> exists|i: int|
            0 <= i < contracts@.len() && prepared(contracts@[i]@, session@, surfaces@) is None
                && (forall|j: int|
                0 <= j < contracts@.len() && prepared(contracts@[j]@, session@, surfaces@) is None
                    ==> !text_lt(contracts@[j]@.id, contracts@[i]@.id)) && preparation_error(
                r->Err_0,
                contracts@[i]@,
                session@,
                surfaces@,
            ),
{
    if let Some(i) = least_repeated_contract_id(contracts) {
        assert(contract_ids(contracts@)[i as int] == contracts@[i as int]@.id);
        return Err(
            ContinuityReplayError::DuplicateContractId { contract_id: contracts[i].id().clone() },
        );
    }
    let ghost ids = contract_ids(contracts@);
    let order = canonical_order(contracts);
    proof {
        lemma_text_order_total();
    }
    let mut out: Vec<ResolvedBoundaryContinuityRequest> = Vec::new();
    let mut m: usize = 0;
    while m < order.len()
        invariant
            ids == contract_ids(contracts@),
            !has_repeat(ids),
            strict_total(text_order()),
            session.wf(),
            order.len() == contracts@.len(),
            forall|q: int| 0 <= q < order.len() ==> order@[q] < contracts@.len(),
            forall|i: usize| i < contracts@.len() ==> #[trigger] order@.contains(i),
            strictly_ordered(ids_in_order(ids, order@), text_order()),
            m <= order.len(),
            out.len() == m,
            forall|q: int|
                0 <= q < m ==> Some(#[trigger] out@[q]@) == prepared(
                    contracts@[order@[q] as int]@,
                    session@,
                    surfaces@,
                ),
        decreases order.len() - m,
    {
        let at = order[m];
        let ghost before = out@;
        match ResolvedBoundaryContinuityRequest::from_contract(&contracts[at], session, surfaces) {
            Ok(request) => {
                out.push(request);
                assert forall|q: int|
                    0 <= q < m + 1 implies Some(#[trigger] out@[q]@) == prepared(
                    contracts@[order@[q] as int]@,
                    session@,
                    surfaces@,
                ) by {
                    if q < m {
                        assert(out@[q] == before[q]);
                    }
                }
            },
            Err(e) => {
                proof {
                    let i = at as int;
                    assert forall|j: int|
                        0 <= j < contracts@.len() && prepared(contracts@[j]@, session@, surfaces@)
                            is None implies !text_lt(contracts@[j]@.id, contracts@[i]@.id) by {
                        assert(order@.contains(j as usize));
                        let q = choose|q: int| 0 <= q < order.len() && order@[q] == j as usize;
                        assert(ids_in_order(ids, order@)[q] == ids[j]);
                        assert(ids_in_order(ids, order@)[m as int] == ids[i]);
                        assert(ids[j] == contracts@[j]@.id);
                        assert(ids[i] == contracts@[i]@.id);
                        if q < m {
                            assert(Some(out@[q]@) == prepared(
                                contracts@[order@[q] as int]@,
                                session@,
                                surfaces@,
                            ));
                        } else if q > m {
                            assert(text_order()(ids_in_order(ids, order@)[m as int], ids_in_order(
                                ids,
                                order@,
                            )[q]));
                            assert(!text_order()(ids[i], ids[i]));
                            assert(!(text_order()(ids[j], ids[i]) && text_order()(ids[i], ids[j])))
                                by {
                                if text_order()(ids[j], ids[i]) && text_order()(ids[i], ids[j]) {
                                    assert(text_order()(ids[j], ids[j]));
                                }
                            }
                        }
                    }
                }
                return Err(e);
            },
        }
        m = m + 1;
    }
    proof {
        assert(contracts@.len() == contracts.len());
        lemma_prepared_batch(contracts@, session@, surfaces@, order@, out@);
    }
    Ok(out)
}

} // verus!
