//! Deterministic dependency order for executing prepared continuity
//! contracts.
//!
//! A contract reads its first surface and optimizes its second. When one
//! contract optimizes the surface that another reads, the first must run
//! before the second. Among the contracts whose inputs are settled, the one
//! with the least contract ID runs next (ties broken by position), so the
//! order depends only on the contracts. Contracts that read and optimize one
//! surface, two contracts that optimize the same surface, and dependency
//! cycles are refused.

use vstd::prelude::*;

use crate::continuity::BoundaryEndpoint;
use crate::contract::ContractId;
use crate::replay::{requests_view, ContinuityReplayError, RequestView, ResolvedBoundaryContinuityRequest};
use crate::text::{
    compare_text, lemma_text_lt_irreflexive, lemma_text_lt_transitive, lemma_text_lt_trichotomy,
    text_lt, Precedence,
};
use crate::tracking::model::{same_id, TrackingId};

verus! {

/// Failure to plan or execute a transactional continuity-contract replay.
#[derive(Clone, Debug, PartialEq, Eq)]
pub enum ContinuityReplayExecutionError {
    /// Contract preparation failed before geometry was touched.
    Preparation(ContinuityReplayError),
    /// One contract resolves both endpoints to the same surface.
    SameSurfaceContract {
        /// Persistent contract identifier.
        contract_id: ContractId,
        /// Repeated current-generation surface.
        tracking_id: TrackingId,
    },
    /// Independent solves would optimize the same surface more than once.
    CoupledOptimizedSurface {
        /// Shared optimized surface.
        tracking_id: TrackingId,
        /// First persistent contract.
        first_contract: ContractId,
        /// Second persistent contract.
        second_contract: ContractId,
    },
    /// A prepared endpoint was absent from the replay geometry.
    SurfaceGeometryMissing {
        /// Persistent contract identifier.
        contract_id: ContractId,
        /// Missing contract endpoint.
        endpoint: BoundaryEndpoint,
        /// Missing current-generation surface.
        tracking_id: TrackingId,
    },
    /// The directed master-to-optimized surface graph contains a cycle.
    DependencyCycle {
        /// Contracts participating in the remaining cyclic graph.
        contracts: Vec<ContractId>,
    },
}

impl From<ContinuityReplayError> for ContinuityReplayExecutionError {
    /// Wraps a preparation failure.
    fn from(source: ContinuityReplayError) -> (r: Self) {
        ContinuityReplayExecutionError::Preparation(source)
    }
}

impl vstd::std_specs::convert::FromSpecImpl<ContinuityReplayError> for ContinuityReplayExecutionError {
    open spec fn obeys_from_spec() -> bool {
        true
    }

    open spec fn from_spec(v: ContinuityReplayError) -> Self {
        ContinuityReplayExecutionError::Preparation(v)
    }
}

/// Contract `i` reads and optimizes the same surface.
pub open spec fn same_surface(v: Seq<RequestView>, i: int) -> bool {
    v[i].first_surface == v[i].second_surface
}

/// Contract `j`, placed before `i`, optimizes the surface that `i` optimizes.
pub open spec fn optimized_before(v: Seq<RequestView>, i: int, j: int) -> bool {
    0 <= j < i && v[j].second_surface == v[i].second_surface
}

/// Contract `i` cannot be scheduled on its own.
pub open spec fn conflict_at(v: Seq<RequestView>, i: int) -> bool {
    same_surface(v, i) || exists|j: int| #[trigger] optimized_before(v, i, j)
}

/// No contract conflicts.
pub open spec fn conflict_free(v: Seq<RequestView>) -> bool {
    forall|i: int| 0 <= i < v.len() ==> !#[trigger] conflict_at(v, i)
}

/// Contract `u` optimizes the surface that contract `d` reads.
pub open spec fn feeds(v: Seq<RequestView>, u: int, d: int) -> bool {
    v[u].second_surface == v[d].first_surface
}

/// Contract `d` is not yet placed and every contract that feeds it is.
pub open spec fn ready(v: Seq<RequestView>, placed: Seq<int>, d: int) -> bool {
    &&& 0 <= d < v.len()
    &&& !placed.contains(d)
    &&& forall|u: int| 0 <= u < v.len() && #[trigger] feeds(v, u, d) ==> placed.contains(u)
}

/// Contract `i` takes precedence over contract `j`: a lesser contract ID,
/// or the same ID at an earlier position.
pub open spec fn runs_before(v: Seq<RequestView>, i: int, j: int) -> bool {
    ||| text_lt(v[i].contract_id, v[j].contract_id)
    ||| (v[i].contract_id == v[j].contract_id && i < j)
}

/// The `k`-th contract of `p` is the first ready contract after `p`'s
/// first `k`.
pub open spec fn greedy_step(v: Seq<RequestView>, p: Seq<int>, k: int) -> bool {
    &&& ready(v, p.take(k), p[k])
    &&& forall|j: int| #[trigger] ready(v, p.take(k), j) && j != p[k] ==> runs_before(v, p[k], j)
}

/// Every contract of `p` is chosen as the order requires.
pub open spec fn greedy(v: Seq<RequestView>, p: Seq<int>) -> bool {
    forall|k: int| 0 <= k < p.len() ==> #[trigger] greedy_step(v, p, k)
}

/// After `p`, no contract is ready.
pub open spec fn stuck(v: Seq<RequestView>, p: Seq<int>) -> bool {
    forall|j: int| !#[trigger] ready(v, p, j)
}

/// The IDs of the contracts among the first `m` that `p` leaves out, in
/// their order.
pub open spec fn unplaced_ids(v: Seq<RequestView>, p: Seq<int>, m: int) -> Seq<Seq<char>>
    decreases m,
{
    if m <= 0 {
        seq![]
    } else if p.contains(m - 1) {
        unplaced_ids(v, p, m - 1)
    } else {
        unplaced_ids(v, p, m - 1).push(v[m - 1].contract_id)
    }
}

/// The views of a list of contract IDs.
pub open spec fn contract_id_texts(ids: Seq<ContractId>) -> Seq<Seq<char>> {
    ids.map_values(|c: ContractId| c@)
}

/// A list of positions as integers.
pub open spec fn positions(order: Seq<usize>) -> Seq<int> {
    order.map_values(|x: usize| x as int)
}

/// Whether `e` reports the first conflicting contract of `v`.
pub open spec fn conflict_error(e: ContinuityReplayExecutionError, v: Seq<RequestView>) -> bool {
    exists|i: int|
        #![trigger conflict_at(v, i)]
        0 <= i < v.len() && conflict_at(v, i) && (forall|k: int|
            0 <= k < i ==> !#[trigger] conflict_at(v, k)) && if same_surface(v, i) {
            e matches ContinuityReplayExecutionError::SameSurfaceContract {
                contract_id,
                tracking_id,
            } && contract_id@ == v[i].contract_id && tracking_id@ == v[i].first_surface
        } else {
            exists|j: int|
                #![trigger optimized_before(v, i, j)]
                optimized_before(v, i, j) && (e matches ContinuityReplayExecutionError::CoupledOptimizedSurface {
                    tracking_id,
                    first_contract,
                    second_contract,
                } && tracking_id@ == v[i].second_surface && first_contract@ == v[j].contract_id
                    && second_contract@ == v[i].contract_id)
        }
}

/// Precedence between contracts is asymmetric.
pub proof fn lemma_runs_before_asymmetric(v: Seq<RequestView>, i: int, j: int)
    requires
        runs_before(v, i, j),
    ensures
        !runs_before(v, j, i),
        i != j,
{
    lemma_text_lt_trichotomy(v[i].contract_id, v[j].contract_id);
    lemma_text_lt_irreflexive(v[i].contract_id);
}

/// Precedence between contracts is transitive.
pub proof fn lemma_runs_before_transitive(v: Seq<RequestView>, i: int, j: int, k: int)
    requires
        runs_before(v, i, j),
        runs_before(v, j, k),
    ensures
        runs_before(v, i, k),
{
    if text_lt(v[i].contract_id, v[j].contract_id) && text_lt(v[j].contract_id, v[k].contract_id) {
        lemma_text_lt_transitive(v[i].contract_id, v[j].contract_id, v[k].contract_id);
    }
}

/// The contracts of a greedy order are distinct, and each is a position of
/// `v`.
pub proof fn lemma_greedy_distinct(v: Seq<RequestView>, p: Seq<int>)
    requires
        greedy(v, p),
    ensures
        forall|a: int, b: int| 0 <= a < b < p.len() ==> p[a] != p[b],
        forall|a: int| 0 <= a < p.len() ==> 0 <= #[trigger] p[a] < v.len(),
{
    assert forall|a: int, b: int| 0 <= a < b < p.len() implies p[a] != p[b] by {
        assert(greedy_step(v, p, b));
        assert(p.take(b)[a] == p[a]);
    }
    assert forall|a: int| 0 <= a < p.len() implies 0 <= #[trigger] p[a] < v.len() by {
        assert(greedy_step(v, p, a));
    }
}

/// Two greedy orders agree on their first `k` contracts.
proof fn lemma_greedy_prefixes_agree(v: Seq<RequestView>, p: Seq<int>, q: Seq<int>, k: int)
    requires
        greedy(v, p),
        greedy(v, q),
        0 <= k <= p.len(),
        k <= q.len(),
    ensures
        p.take(k) == q.take(k),
    decreases k,
{
    if k == 0 {
        assert(p.take(0) =~= q.take(0));
    } else {
        let m = k - 1;
        lemma_greedy_prefixes_agree(v, p, q, m);
        assert(greedy_step(v, p, m));
        assert(greedy_step(v, q, m));
        if p[m] != q[m] {
            assert(ready(v, q.take(m), p[m]));
            assert(runs_before(v, p[m], q[m]));
            assert(runs_before(v, q[m], p[m]));
            lemma_runs_before_asymmetric(v, p[m], q[m]);
        }
        assert(p.take(k) =~= p.take(m).push(p[m]));
        assert(q.take(k) =~= q.take(m).push(q[m]));
    }
}

/// The execution order is deterministic: of two greedy orders the shorter
/// is a prefix of the longer, and an order that gets stuck cannot be
/// extended. So a batch either has one complete order or gets stuck after
/// one and the same sequence of contracts.
pub proof fn law_execution_order_is_deterministic(v: Seq<RequestView>, p: Seq<int>, q: Seq<int>)
    requires
        greedy(v, p),
        greedy(v, q),
        p.len() <= q.len(),
    ensures
        p == q.take(p.len() as int),
        stuck(v, p) ==> q.len() == p.len(),
{
    lemma_greedy_prefixes_agree(v, p, q, p.len() as int);
    assert(p =~= p.take(p.len() as int));
    if stuck(v, p) && q.len() > p.len() {
        assert(greedy_step(v, q, p.len() as int));
        assert(ready(v, p, q[p.len() as int]));
    }
}

/// A contract that optimizes the surface another contract reads runs
/// before it in every greedy order.
pub proof fn law_feeding_contract_runs_first(v: Seq<RequestView>, p: Seq<int>, a: int, b: int)
    requires
        greedy(v, p),
        0 <= a < p.len(),
        0 <= b < p.len(),
        feeds(v, p[a], p[b]),
    ensures
        a < b,
{
    lemma_greedy_distinct(v, p);
    assert(greedy_step(v, p, b));
    assert(p.take(b).contains(p[a]));
    let c = choose|c: int| 0 <= c < b && p.take(b)[c] == p[a];
    assert(p[c] == p[a]);
}

/// Whether contract `d` has every contract that feeds it placed.
fn inputs_settled(prepared: &[ResolvedBoundaryContinuityRequest], placed: &Vec<bool>, d: usize) -> (r:
    bool)
    requires
        placed.len() == prepared.len(),
        d < prepared.len(),
    ensures
        r == forall|u: int|
            0 <= u < prepared.len() && #[trigger] feeds(requests_view(prepared@), u, d as int)
                ==> placed@[u],
{
    let ghost v = requests_view(prepared@);
    let mut u: usize = 0;
    while u < prepared.len()
        invariant
            v == requests_view(prepared@),
            placed.len() == prepared.len(),
            d < prepared.len(),
            u <= prepared.len(),
            forall|w: int| 0 <= w < u && #[trigger] feeds(v, w, d as int) ==> placed@[w],
        decreases prepared.len() - u,
    {
        assert(v[u as int] == prepared@[u as int]@ && v[d as int] == prepared@[d as int]@);
        if !placed[u] && same_id(prepared[u].second_surface(), prepared[d].first_surface()) {
            assert(feeds(v, u as int, d as int));
            return false;
        }
        u = u + 1;
    }
    true
}

/// Finds the first contract that conflicts, and reports it.
fn find_conflict(prepared: &[ResolvedBoundaryContinuityRequest]) -> (r: Option<
    ContinuityReplayExecutionError,
>)
    ensures
        r is None <==> conflict_free(requests_view(prepared@)),
        r is Some ==> conflict_error(r->0, requests_view(prepared@)),
{
    let ghost v = requests_view(prepared@);
    let mut i: usize = 0;
    while i < prepared.len()
        invariant
            v == requests_view(prepared@),
            i <= prepared.len(),
            forall|k: int| 0 <= k < i ==> !#[trigger] conflict_at(v, k),
        decreases prepared.len() - i,
    {
        let current = &prepared[i];
        assert(v[i as int] == current@);
        if same_id(current.first_surface(), current.second_surface()) {
            let e = ContinuityReplayExecutionError::SameSurfaceContract {
                contract_id: current.contract_id().clone(),
                tracking_id: current.first_surface().clone(),
            };
            assert(conflict_at(v, i as int));
            return Some(e);
        }
        let mut j: usize = 0;
        while j < i
            invariant
                v == requests_view(prepared@),
                j <= i < prepared.len(),
                v[i as int] == prepared@[i as int]@,
                !same_surface(v, i as int),
                forall|k: int| 0 <= k < i ==> !#[trigger] conflict_at(v, k),
                forall|w: int| 0 <= w < j ==> v[w].second_surface != v[i as int].second_surface,
            decreases i - j,
        {
            assert(v[j as int] == prepared@[j as int]@);
            if same_id(prepared[j].second_surface(), prepared[i].second_surface()) {
                let e = ContinuityReplayExecutionError::CoupledOptimizedSurface {
                    tracking_id: prepared[i].second_surface().clone(),
                    first_contract: prepared[j].contract_id().clone(),
                    second_contract: prepared[i].contract_id().clone(),
                };
                assert(optimized_before(v, i as int, j as int));
                assert(conflict_at(v, i as int));
                return Some(e);
            }
            j = j + 1;
        }
        assert(!conflict_at(v, i as int)) by {
            if exists|w: int| #[trigger] optimized_before(v, i as int, w) {
                let w = choose|w: int| #[trigger] optimized_before(v, i as int, w);
                assert(v[w].second_surface != v[i as int].second_surface);
            }
        }
        i = i + 1;
    }
    None
}

/// The IDs of the contracts left unplaced, in their order.
fn unplaced_contract_ids(
    prepared: &[ResolvedBoundaryContinuityRequest],
    placed: &Vec<bool>,
    Ghost(p): Ghost<Seq<int>>,
) -> (r: Vec<ContractId>)
    requires
        placed.len() == prepared.len(),
        forall|d: int| 0 <= d < prepared.len() ==> (placed@[d] <==> p.contains(d)),
    ensures
        contract_id_texts(r@) == unplaced_ids(requests_view(prepared@), p, prepared.len() as int),
{
    let ghost v = requests_view(prepared@);
    let mut out: Vec<ContractId> = Vec::new();
    let mut i: usize = 0;
    while i < prepared.len()
        invariant
            v == requests_view(prepared@),
            placed.len() == prepared.len(),
            forall|d: int| 0 <= d < prepared.len() ==> (placed@[d] <==> p.contains(d)),
            i <= prepared.len(),
            contract_id_texts(out@) == unplaced_ids(v, p, i as int),
        decreases prepared.len() - i,
    {
        assert(v[i as int] == prepared@[i as int]@);
        if !placed[i] {
            let id = prepared[i].contract_id().clone();
            out.push(id);
            assert(contract_id_texts(out@) =~= unplaced_ids(v, p, i as int).push(v[i as int].contract_id));
        }
        i = i + 1;
    }
    out
}

/// Orders prepared contracts so that every contract runs after the contract
/// that optimizes the surface it reads, choosing the least contract ID among
/// the ready ones at each step.
///
/// Fails, for the first contract in batch order that has a conflict, with
/// [`ContinuityReplayExecutionError::SameSurfaceContract`] when it reads and
/// optimizes one surface, or with
/// [`ContinuityReplayExecutionError::CoupledOptimizedSurface`] when an
/// earlier contract optimizes the same surface. Fails with
/// [`ContinuityReplayExecutionError::DependencyCycle`], naming the contracts
/// that could not be placed in batch order, when no contract is ready before
/// all are placed.
pub fn contract_execution_order(prepared: &[ResolvedBoundaryContinuityRequest]) -> (r: Result<
    Vec<usize>,
    ContinuityReplayExecutionError,
>)
    ensures
        !conflict_free(requests_view(prepared@)) ==> r is Err && conflict_error(
            r->Err_0,
            requests_view(prepared@),
        ),
        conflict_free(requests_view(prepared@)) ==> match r {
            Ok(order) => order.len() == prepared.len() && greedy(
                requests_view(prepared@),
                positions(order@),
            ),
            Err(e) => exists|p: Seq<int>|
                #![trigger greedy(requests_view(prepared@), p)]
                greedy(requests_view(prepared@), p) && stuck(requests_view(prepared@), p) && p.len()
                    < prepared.len() && (e matches ContinuityReplayExecutionError::DependencyCycle {
                    contracts,
                } && contract_id_texts(contracts@) == unplaced_ids(
                    requests_view(prepared@),
                    p,
                    prepared.len() as int,
                )),
        },
{
    if let Some(e) = find_conflict(prepared) {
        return Err(e);
    }
    let ghost v = requests_view(prepared@);
    let n = prepared.len();
    let mut placed: Vec<bool> = Vec::new();
    let mut i: usize = 0;
    while i < n
        invariant
            i <= n,
            placed.len() == i,
            forall|d: int| 0 <= d < i ==> !placed@[d],
        decreases n - i,
    {
        placed.push(false);
        i = i + 1;
    }
    let mut order: Vec<usize> = Vec::new();
    while order.len() < n
        invariant
            v == requests_view(prepared@),
            conflict_free(v),
            n == prepared.len(),
            v.len() == n,
            placed.len() == n,
            order.len() <= n,
            forall|d: int| 0 <= d < n ==> (placed@[d] <==> positions(order@).contains(d)),
            greedy(v, positions(order@)),
        decreases n - order.len(),
    {
        let ghost p = positions(order@);
        let mut best: Option<usize> = None;
        let mut d: usize = 0;
        while d < n
            invariant
                v == requests_view(prepared@),
                n == prepared.len(),
                v.len() == n,
                placed.len() == n,
                p == positions(order@),
                forall|x: int| 0 <= x < n ==> (placed@[x] <==> p.contains(x)),
                d <= n,
                match best {
                    None => forall|x: int| 0 <= x < d ==> !#[trigger] ready(v, p, x),
                    Some(b) => b < d && ready(v, p, b as int) && forall|x: int|
                        0 <= x < d && #[trigger] ready(v, p, x) && x != b ==> runs_before(
                            v,
                            b as int,
                            x,
                        ),
                },
            decreases n - d,
        {
            let settled = if placed[d] {
                false
            } else {
                inputs_settled(prepared, &placed, d)
            };
            assert(settled == ready(v, p, d as int));
            if settled {
                match best {
                    None => {
                        best = Some(d);
                    },
                    Some(b) => {
                        assert(v[d as int] == prepared@[d as int]@ && v[b as int]
                            == prepared@[b as int]@);
                        let before = compare_text(
                            prepared[d].contract_id().as_str(),
                            prepared[b].contract_id().as_str(),
                        );
                        if before == Precedence::Before {
                            proof {
                                assert(runs_before(v, d as int, b as int));
                                assert forall|x: int|
                                    0 <= x < d + 1 && #[trigger] ready(v, p, x) && x != d implies runs_before(
                                    v,
                                    d as int,
                                    x,
                                ) by {
                                    if x != b {
                                        lemma_runs_before_transitive(v, d as int, b as int, x);
                                    }
                                }
                            }
                            best = Some(d);
                        } else {
                            proof {
                                lemma_text_lt_trichotomy(v[d as int].contract_id, v[b as int].contract_id);
                                assert(runs_before(v, b as int, d as int));
                            }
                        }
                    },
                }
            }
            d = d + 1;
        }
        match best {
            None => {
                proof {
                    assert forall|x: int| !#[trigger] ready(v, p, x) by {}
                }
                let contracts = unplaced_contract_ids(prepared, &placed, Ghost(p));
                return Err(ContinuityReplayExecutionError::DependencyCycle { contracts });
            },
            Some(b) => {
                order.push(b);
                placed.set(b, true);
                proof {
                    let q = positions(order@);
                    assert(q =~= p.push(b as int));
                    assert forall|k: int| 0 <= k < q.len() implies #[trigger] greedy_step(v, q, k) by {
                        if k < p.len() {
                            assert(q.take(k) =~= p.take(k));
                            assert(greedy_step(v, p, k));
                        } else {
                            assert(q.take(k) =~= p);
                        }
                    }
                    assert forall|x: int| 0 <= x < n implies (placed@[x] <==> q.contains(x)) by {
                        if x == b as int {
                            assert(q[p.len() as int] == x);
                        } else if p.contains(x) {
                            let c = choose|c: int| 0 <= c < p.len() && p[c] == x;
                            assert(q[c] == x);
                        } else if q.contains(x) {
                            let c = choose|c: int| 0 <= c < q.len() && q[c] == x;
                            if c < p.len() {
                                assert(p[c] == x);
                            }
                        }
                    }
                }
            },
        }
    }
    Ok(order)
}

} // verus!
