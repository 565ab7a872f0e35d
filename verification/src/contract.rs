//! Persistent continuity contracts for parametric replay.
//!
//! A [`ContinuityContract`] stores semantic face-boundary references rather
//! than generation-specific topology identifiers. After a feature graph is
//! replayed, [`ContinuityContract::resolve`] binds those references to the
//! current [`TrackingId`] values of a [`TrackingSession`]. No solver state,
//! cached geometry, or control-point data enters the contract.

use vstd::prelude::*;
use vstd::string::*;

use crate::continuity::{BoundaryAlignment, ContinuityOrder, SurfaceBoundary};
use crate::text::{is_white_space, white_space};
use crate::decimal::{decimal, push_decimal};
use crate::tracking::error::{error_message, kind_name, kind_text, TrackingError};
use crate::tracking::model::{
    compare_refs, IdView, RefView, SemanticTopologyRef, TopologyKind, TrackingId,
};
use crate::tracking::session::TrackingSession;
use crate::text::Precedence;

verus! {

/// Current serialized continuity-contract schema.
pub const CONTINUITY_CONTRACT_SCHEMA_VERSION: u16 = 1;

/// Whether `s` holds only white space.
pub open spec fn is_blank(s: Seq<char>) -> bool {
    forall|i: int| 0 <= i < s.len() ==> is_white_space(#[trigger] s[i])
}

/// Stable, non-blank identifier for a [`ContinuityContract`].
#[derive(Debug, Hash, PartialEq, Eq, PartialOrd, Ord)]
pub struct ContractId(String);

impl View for ContractId {
    type V = Seq<char>;

    closed spec fn view(&self) -> Seq<char> {
        self.0@
    }
}

impl ContractId {
    #[verifier::type_invariant]
    spec fn valid(self) -> bool {
        !is_blank(self.0@)
    }

    /// Creates a validated contract identifier.
    ///
    /// Fails with [`ContractError::InvalidId`] when `value` is empty or
    /// contains only whitespace.
    pub fn new(value: &str) -> (r: Result<Self, ContractError>)
        ensures
            is_blank(value@) ==> r matches Err(ContractError::InvalidId),
            !is_blank(value@) ==> r is Ok && r->Ok_0@ == value@,
    {
        let n = value.unicode_len();
        let mut i: usize = 0;
        while i < n
            invariant
                n == value@.len(),
                i <= n,
                forall|j: int| 0 <= j < i ==> is_white_space(#[trigger] value@[j]),
            decreases n - i,
        {
            if !white_space(value.get_char(i)) {
                assert(!is_white_space(value@[i as int]));
                return Ok(ContractId(value.to_owned()));
            }
            i = i + 1;
        }
        Err(ContractError::InvalidId)
    }

    /// Returns the identifier text.
    pub fn as_str(&self) -> (r: &str)
        ensures
            r@ == self@,
            !is_blank(self@),
    {
        proof {
            use_type_invariant(self);
        }
        self.0.as_str()
    }
}

impl Clone for ContractId {
    fn clone(&self) -> (r: Self)
        ensures
            r == *self,
    {
        proof {
            use_type_invariant(self);
        }
        ContractId(self.0.clone())
    }
}

/// Mathematical value of a [`SurfaceBoundaryRef`].
pub struct BoundaryRefView {
    pub topology: RefView,
    pub boundary: SurfaceBoundary,
}

/// Persistent reference to one boundary of a semantic surface face.
#[derive(Debug, Hash, PartialEq, Eq)]
pub struct SurfaceBoundaryRef {
    topology: SemanticTopologyRef,
    boundary: SurfaceBoundary,
}

impl View for SurfaceBoundaryRef {
    type V = BoundaryRefView;

    closed spec fn view(&self) -> BoundaryRefView {
        BoundaryRefView { topology: self.topology@, boundary: self.boundary }
    }
}

impl Clone for SurfaceBoundaryRef {
    fn clone(&self) -> (r: Self)
        ensures
            r@ == self@,
    {
        proof {
            use_type_invariant(self);
        }
        SurfaceBoundaryRef { topology: self.topology.clone(), boundary: self.boundary }
    }
}

impl SurfaceBoundaryRef {
    #[verifier::type_invariant]
    spec fn valid(self) -> bool {
        self.topology@.kind == TopologyKind::Face
    }

    /// Creates a face-boundary reference.
    ///
    /// Fails with [`ContractError::WrongTopologyKind`] when `topology` does
    /// not identify a face.
    pub fn new(topology: SemanticTopologyRef, boundary: SurfaceBoundary) -> (r: Result<
        Self,
        ContractError,
    >)
        ensures
            topology@.kind == TopologyKind::Face ==> r is Ok && r->Ok_0@ == (BoundaryRefView {
                topology: topology@,
                boundary,
            }),
            topology@.kind != TopologyKind::Face ==> r == Err::<Self, ContractError>(
                ContractError::WrongTopologyKind { actual: topology@.kind },
            ),
    {
        match topology.kind() {
            TopologyKind::Face => Ok(Self { topology, boundary }),
            actual => Err(ContractError::WrongTopologyKind { actual }),
        }
    }

    /// Returns the semantic face reference.
    pub fn topology(&self) -> (r: &SemanticTopologyRef)
        ensures
            r@ == self@.topology,
            r@.kind == TopologyKind::Face,
    {
        proof {
            use_type_invariant(self);
        }
        &self.topology
    }

    /// Returns the selected parametric boundary.
    pub fn boundary(&self) -> (r: SurfaceBoundary)
        ensures
            r == self@.boundary,
    {
        self.boundary
    }

    /// Whether two references select the same face boundary.
    pub fn same_as(&self, other: &SurfaceBoundaryRef) -> (r: bool)
        ensures
            r == (self@ == other@),
    {
        let same_boundary = match (self.boundary, other.boundary) {
            (SurfaceBoundary::UStart, SurfaceBoundary::UStart) => true,
            (SurfaceBoundary::UEnd, SurfaceBoundary::UEnd) => true,
            (SurfaceBoundary::VStart, SurfaceBoundary::VStart) => true,
            (SurfaceBoundary::VEnd, SurfaceBoundary::VEnd) => true,
            _ => false,
        };
        if !same_boundary {
            return false;
        }
        match compare_refs(&self.topology, &other.topology) {
            Precedence::Same => true,
            _ => false,
        }
    }

    fn resolve(&self, session: &TrackingSession) -> (r: Result<
        ResolvedSurfaceBoundaryRef,
        ContractError,
    >)
        requires
            session.wf(),
        ensures
            session@.resolved(self@.topology) is Some ==> r is Ok && r->Ok_0@ == (
            ResolvedBoundaryView {
                tracking_id: session@.resolved(self@.topology)->0,
                boundary: self@.boundary,
            }),
            session@.resolved(self@.topology) is None ==> r is Err && unresolved_error(
                r->Err_0,
                self@.topology,
            ),
    {
        match session.resolve(&self.topology) {
            Ok(t) => Ok(ResolvedSurfaceBoundaryRef { tracking_id: t.clone(), boundary: self.boundary }),
            Err(e) => Err(ContractError::Tracking(e)),
        }
    }
}

/// Whether `e` reports that reference `r` has no current binding.
pub open spec fn unresolved_error(e: ContractError, r: RefView) -> bool {
    e matches ContractError::Tracking(TrackingError::UnknownSemanticReference(x)) && x@ == r
}

/// Mathematical value of a [`ContinuityContract`].
pub struct ContractView {
    pub schema_version: u16,
    pub id: Seq<char>,
    pub first: BoundaryRefView,
    pub second: BoundaryRefView,
    pub alignment: BoundaryAlignment,
    pub order: ContinuityOrder,
}

/// Persistent high-order continuity request between two surface boundaries.
#[derive(Debug, Hash, PartialEq, Eq)]
pub struct ContinuityContract {
    schema_version: u16,
    id: ContractId,
    first: SurfaceBoundaryRef,
    second: SurfaceBoundaryRef,
    alignment: BoundaryAlignment,
    order: ContinuityOrder,
}

impl View for ContinuityContract {
    type V = ContractView;

    closed spec fn view(&self) -> ContractView {
        ContractView {
            schema_version: self.schema_version,
            id: self.id@,
            first: self.first@,
            second: self.second@,
            alignment: self.alignment,
            order: self.order,
        }
    }
}

impl Clone for ContinuityContract {
    fn clone(&self) -> (r: Self)
        ensures
            r@ == self@,
    {
        proof {
            use_type_invariant(self);
        }
        ContinuityContract {
            schema_version: self.schema_version,
            id: self.id.clone(),
            first: self.first.clone(),
            second: self.second.clone(),
            alignment: self.alignment,
            order: self.order,
        }
    }
}

impl ContinuityContract {
    #[verifier::type_invariant]
    spec fn valid(self) -> bool {
        &&& self.schema_version == CONTINUITY_CONTRACT_SCHEMA_VERSION
        &&& self.first@ != self.second@
    }

    /// Creates a version-one continuity contract.
    ///
    /// Fails with [`ContractError::IdenticalEndpoints`] when both endpoint
    /// references select the same semantic face boundary.
    pub fn new(
        id: ContractId,
        first: SurfaceBoundaryRef,
        second: SurfaceBoundaryRef,
        alignment: BoundaryAlignment,
        order: ContinuityOrder,
    ) -> (r: Result<Self, ContractError>)
        ensures
            first@ == second@ ==> r matches Err(ContractError::IdenticalEndpoints),
            first@ != second@ ==> r is Ok && r->Ok_0@ == (ContractView {
                schema_version: CONTINUITY_CONTRACT_SCHEMA_VERSION,
                id: id@,
                first: first@,
                second: second@,
                alignment,
                order,
            }),
    {
        if first.same_as(&second) {
            Err(ContractError::IdenticalEndpoints)
        } else {
            Ok(
                Self {
                    schema_version: CONTINUITY_CONTRACT_SCHEMA_VERSION,
                    id,
                    first,
                    second,
                    alignment,
                    order,
                },
            )
        }
    }

    /// Restores a contract from its serialized parts.
    ///
    /// Fails with [`ContractError::UnsupportedSchemaVersion`] for any schema
    /// other than the current one, and otherwise as [`Self::new`] does.
    pub fn restore(
        schema_version: u16,
        id: ContractId,
        first: SurfaceBoundaryRef,
        second: SurfaceBoundaryRef,
        alignment: BoundaryAlignment,
        order: ContinuityOrder,
    ) -> (r: Result<Self, ContractError>)
        ensures
            schema_version != CONTINUITY_CONTRACT_SCHEMA_VERSION ==> r == Err::<
                Self,
                ContractError,
            >(ContractError::UnsupportedSchemaVersion(schema_version)),
            schema_version == CONTINUITY_CONTRACT_SCHEMA_VERSION && first@ == second@ ==> r matches Err(
                ContractError::IdenticalEndpoints,
            ),
            schema_version == CONTINUITY_CONTRACT_SCHEMA_VERSION && first@ != second@ ==> r is Ok
                && r->Ok_0@ == (ContractView {
                schema_version,
                id: id@,
                first: first@,
                second: second@,
                alignment,
                order,
            }),
    {
        if schema_version != CONTINUITY_CONTRACT_SCHEMA_VERSION {
            Err(ContractError::UnsupportedSchemaVersion(schema_version))
        } else {
            Self::new(id, first, second, alignment, order)
        }
    }

    /// Returns the serialized schema version.
    pub fn schema_version(&self) -> (r: u16)
        ensures
            r == self@.schema_version,
            r == CONTINUITY_CONTRACT_SCHEMA_VERSION,
    {
        proof {
            use_type_invariant(self);
        }
        self.schema_version
    }

    /// Returns the stable contract identifier.
    pub fn id(&self) -> (r: &ContractId)
        ensures
            r@ == self@.id,
    {
        &self.id
    }

    /// Returns the first persistent boundary reference.
    pub fn first(&self) -> (r: &SurfaceBoundaryRef)
        ensures
            r@ == self@.first,
    {
        &self.first
    }

    /// Returns the second persistent boundary reference.
    pub fn second(&self) -> (r: &SurfaceBoundaryRef)
        ensures
            r@ == self@.second,
    {
        &self.second
    }

    /// Returns the endpoint orientation relationship.
    pub fn alignment(&self) -> (r: BoundaryAlignment)
        ensures
            r == self@.alignment,
    {
        self.alignment
    }

    /// Returns the requested geometric-continuity order.
    pub fn order(&self) -> (r: ContinuityOrder)
        ensures
            r == self@.order,
    {
        self.order
    }

    /// Resolves both semantic endpoints in the current tracking generation.
    ///
    /// Fails with [`ContractError::Tracking`] when either semantic endpoint
    /// is unbound in `session`, the first endpoint being tried first.
    pub fn resolve(&self, session: &TrackingSession) -> (r: Result<
        ResolvedContinuityContract,
        ContractError,
    >)
        requires
            session.wf(),
        ensures
            r is Ok <==> resolution(self@, session@) is Some,
            r is Ok ==> r->Ok_0@ == resolution(self@, session@)->0,
            r is Err ==> resolution_error(r->Err_0, self@, session@),
    {
        let first = self.first.resolve(session)?;
        let second = self.second.resolve(session)?;
        Ok(
            ResolvedContinuityContract {
                id: self.id.clone(),
                first,
                second,
                alignment: self.alignment,
                order: self.order,
            },
        )
    }
}

/// The current-generation resolution of contract `c` in session `s`, or
/// `None` when an endpoint is unbound.
pub open spec fn resolution(
    c: ContractView,
    s: crate::tracking::session::SessionView,
) -> Option<ResolvedContractView> {
    if s.resolved(c.first.topology) is Some && s.resolved(c.second.topology) is Some {
        Some(
            ResolvedContractView {
                id: c.id,
                first: ResolvedBoundaryView {
                    tracking_id: s.resolved(c.first.topology)->0,
                    boundary: c.first.boundary,
                },
                second: ResolvedBoundaryView {
                    tracking_id: s.resolved(c.second.topology)->0,
                    boundary: c.second.boundary,
                },
                alignment: c.alignment,
                order: c.order,
            },
        )
    } else {
        None
    }
}

/// Whether `e` is the error that resolving contract `c` in `s` reports:
/// the first unbound endpoint's reference.
pub open spec fn resolution_error(
    e: ContractError,
    c: ContractView,
    s: crate::tracking::session::SessionView,
) -> bool {
    if s.resolved(c.first.topology) is None {
        unresolved_error(e, c.first.topology)
    } else {
        unresolved_error(e, c.second.topology)
    }
}

/// Mathematical value of a [`ResolvedSurfaceBoundaryRef`].
pub struct ResolvedBoundaryView {
    pub tracking_id: IdView,
    pub boundary: SurfaceBoundary,
}

/// Current-generation resolution of one surface boundary.
#[derive(Debug, Hash, PartialEq, Eq)]
pub struct ResolvedSurfaceBoundaryRef {
    tracking_id: TrackingId,
    boundary: SurfaceBoundary,
}

impl View for ResolvedSurfaceBoundaryRef {
    type V = ResolvedBoundaryView;

    closed spec fn view(&self) -> ResolvedBoundaryView {
        ResolvedBoundaryView { tracking_id: self.tracking_id@, boundary: self.boundary }
    }
}

impl Clone for ResolvedSurfaceBoundaryRef {
    fn clone(&self) -> (r: Self)
        ensures
            r@ == self@,
    {
        ResolvedSurfaceBoundaryRef { tracking_id: self.tracking_id.clone(), boundary: self.boundary }
    }
}

impl ResolvedSurfaceBoundaryRef {
    /// Returns the current generation-specific topology identifier.
    pub fn tracking_id(&self) -> (r: &TrackingId)
        ensures
            r@ == self@.tracking_id,
    {
        &self.tracking_id
    }

    /// Returns the selected parametric boundary.
    pub fn boundary(&self) -> (r: SurfaceBoundary)
        ensures
            r == self@.boundary,
    {
        self.boundary
    }
}

/// Mathematical value of a [`ResolvedContinuityContract`].
pub struct ResolvedContractView {
    pub id: Seq<char>,
    pub first: ResolvedBoundaryView,
    pub second: ResolvedBoundaryView,
    pub alignment: BoundaryAlignment,
    pub order: ContinuityOrder,
}

/// Current-generation resolution of a [`ContinuityContract`].
///
/// This value holds generation-scoped identifiers; persist the source
/// contract so that replay never stores stale tracking identifiers.
#[derive(Debug, Hash, PartialEq, Eq)]
pub struct ResolvedContinuityContract {
    id: ContractId,
    first: ResolvedSurfaceBoundaryRef,
    second: ResolvedSurfaceBoundaryRef,
    alignment: BoundaryAlignment,
    order: ContinuityOrder,
}

impl View for ResolvedContinuityContract {
    type V = ResolvedContractView;

    closed spec fn view(&self) -> ResolvedContractView {
        ResolvedContractView {
            id: self.id@,
            first: self.first@,
            second: self.second@,
            alignment: self.alignment,
            order: self.order,
        }
    }
}

impl ResolvedContinuityContract {
    /// Returns the stable contract identifier.
    pub fn id(&self) -> (r: &ContractId)
        ensures
            r@ == self@.id,
    {
        &self.id
    }

    /// Returns the first current-generation boundary.
    pub fn first(&self) -> (r: &ResolvedSurfaceBoundaryRef)
        ensures
            r@ == self@.first,
    {
        &self.first
    }

    /// Returns the second current-generation boundary.
    pub fn second(&self) -> (r: &ResolvedSurfaceBoundaryRef)
        ensures
            r@ == self@.second,
    {
        &self.second
    }

    /// Returns the endpoint orientation relationship.
    pub fn alignment(&self) -> (r: BoundaryAlignment)
        ensures
            r == self@.alignment,
    {
        self.alignment
    }

    /// Returns the requested geometric-continuity order.
    pub fn order(&self) -> (r: ContinuityOrder)
        ensures
            r == self@.order,
    {
        self.order
    }
}

/// Failure to create, restore, or resolve a continuity contract.
#[derive(Clone, Debug, PartialEq, Eq)]
pub enum ContractError {
    /// A contract identifier was empty or contained only whitespace.
    InvalidId,
    /// A boundary reference identified topology other than a face.
    WrongTopologyKind {
        /// Actual topology kind supplied by the caller.
        actual: TopologyKind,
    },
    /// Both contract endpoints selected the same semantic face boundary.
    IdenticalEndpoints,
    /// The serialized contract uses an unsupported schema.
    UnsupportedSchemaVersion(u16),
    /// A persistent semantic reference could not be resolved.
    Tracking(TrackingError),
}

impl From<TrackingError> for ContractError {
    /// Wraps a tracking failure met while resolving a contract.
    fn from(source: TrackingError) -> (r: Self) {
        ContractError::Tracking(source)
    }
}

impl vstd::std_specs::convert::FromSpecImpl<TrackingError> for ContractError {
    open spec fn obeys_from_spec() -> bool {
        true
    }

    open spec fn from_spec(v: TrackingError) -> Self {
        ContractError::Tracking(v)
    }
}

/// The human-readable message of a contract error.
pub open spec fn contract_error_message(e: ContractError) -> Seq<char> {
    match e {
        ContractError::InvalidId => "continuity contract id must not be empty"@,
        ContractError::WrongTopologyKind { actual } =>
            "surface boundary reference requires Face topology, got "@ + kind_name(actual),
        ContractError::IdenticalEndpoints => "continuity contract endpoints must be distinct"@,
        ContractError::UnsupportedSchemaVersion(v) => "unsupported continuity contract schema version "@
            + decimal(v as nat),
        ContractError::Tracking(t) => error_message(t),
    }
}

impl ContractError {
    /// The human-readable message of this error.
    pub fn message(&self) -> (r: String)
        ensures
            r@ == contract_error_message(*self),
    {
        match self {
            ContractError::InvalidId => {
                let mut out = String::new();
                out.append("continuity contract id must not be empty");
                out
            },
            ContractError::WrongTopologyKind { actual } => {
                let mut out = String::new();
                out.append("surface boundary reference requires Face topology, got ");
                out.append(kind_text(*actual));
                out
            },
            ContractError::IdenticalEndpoints => {
                let mut out = String::new();
                out.append("continuity contract endpoints must be distinct");
                out
            },
            ContractError::UnsupportedSchemaVersion(v) => {
                let mut out = String::new();
                out.append("unsupported continuity contract schema version ");
                push_decimal(&mut out, *v as u64);
                out
            },
            ContractError::Tracking(t) => t.message(),
        }
    }
}

} // verus!
