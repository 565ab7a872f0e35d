//! Vocabulary of boundary-continuity requests: orders, boundaries,
//! alignments, endpoints and solver resources.

use vstd::prelude::*;

verus! {

/// Highest geometric-continuity order that requests can name.
pub const MAX_CONTINUITY_ORDER: usize = 4;

/// Requested geometric-continuity order across a boundary.
#[derive(Clone, Copy, Debug, Hash, PartialEq, Eq, PartialOrd, Ord, Structural)]
pub enum ContinuityOrder {
    /// Positional continuity.
    G0,
    /// Tangent-plane continuity.
    G1,
    /// Curvature continuity.
    G2,
    /// Continuity of the curvature variation.
    G3,
    /// Fourth-order geometric continuity.
    G4,
}

/// Evidence behind a continuity order.
#[derive(Clone, Copy, Debug, Hash, PartialEq, Eq, Structural)]
pub enum ContinuityMaturity {
    /// The established solver target.
    Established,
    /// Backed by procedural evidence, with independent certification pending.
    Procedural,
    /// An experimental target.
    Experimental,
}

/// The number of derivative orders that `order` constrains beyond position.
pub open spec fn order_value(order: ContinuityOrder) -> nat {
    match order {
        ContinuityOrder::G0 => 0,
        ContinuityOrder::G1 => 1,
        ContinuityOrder::G2 => 2,
        ContinuityOrder::G3 => 3,
        ContinuityOrder::G4 => 4,
    }
}

impl ContinuityOrder {
    /// Returns the order as a number, `0` for G0 through `4` for G4.
    pub fn as_usize(self) -> (r: usize)
        ensures
            r == order_value(self),
            r <= MAX_CONTINUITY_ORDER,
    {
        match self {
            ContinuityOrder::G0 => 0,
            ContinuityOrder::G1 => 1,
            ContinuityOrder::G2 => 2,
            ContinuityOrder::G3 => 3,
            ContinuityOrder::G4 => 4,
        }
    }

    /// The order with numeric value `value`, if it is at most
    /// [`MAX_CONTINUITY_ORDER`].
    pub fn from_usize(value: usize) -> (r: Option<Self>)
        ensures
            value <= MAX_CONTINUITY_ORDER ==> r is Some && order_value(r->0) == value,
            value > MAX_CONTINUITY_ORDER ==> r is None,
    {
        match value {
            0 => Some(ContinuityOrder::G0),
            1 => Some(ContinuityOrder::G1),
            2 => Some(ContinuityOrder::G2),
            3 => Some(ContinuityOrder::G3),
            4 => Some(ContinuityOrder::G4),
            _ => None,
        }
    }

    /// G0 is the established target, G1 through G3 have procedural
    /// evidence, and G4 is experimental.
    pub fn maturity(self) -> (r: ContinuityMaturity)
        ensures
            r == (match self {
                ContinuityOrder::G0 => ContinuityMaturity::Established,
                ContinuityOrder::G4 => ContinuityMaturity::Experimental,
                _ => ContinuityMaturity::Procedural,
            }),
    {
        match self {
            ContinuityOrder::G0 => ContinuityMaturity::Established,
            ContinuityOrder::G4 => ContinuityMaturity::Experimental,
            _ => ContinuityMaturity::Procedural,
        }
    }
}

/// One boundary of a tensor-product surface's parameter rectangle.
#[derive(Clone, Copy, Debug, Hash, PartialEq, Eq, PartialOrd, Ord, Structural)]
pub enum SurfaceBoundary {
    /// The boundary at the start of the `u` range.
    UStart,
    /// The boundary at the end of the `u` range.
    UEnd,
    /// The boundary at the start of the `v` range.
    VStart,
    /// The boundary at the end of the `v` range.
    VEnd,
}

/// A parameter axis of a surface.
#[derive(Clone, Copy, Debug, Hash, PartialEq, Eq, Structural)]
pub enum SurfaceAxis {
    /// The first parameter.
    U,
    /// The second parameter.
    V,
}

/// The axis that crosses `side`: `u` for the `u`-boundaries.
pub open spec fn crossing_axis(side: SurfaceBoundary) -> SurfaceAxis {
    match side {
        SurfaceBoundary::UStart | SurfaceBoundary::UEnd => SurfaceAxis::U,
        _ => SurfaceAxis::V,
    }
}

/// The axis that crosses `side`: `u` for the `u`-boundaries.
pub fn cross_axis(side: SurfaceBoundary) -> (r: SurfaceAxis)
    ensures
        r == crossing_axis(side),
{
    match side {
        SurfaceBoundary::UStart | SurfaceBoundary::UEnd => SurfaceAxis::U,
        SurfaceBoundary::VStart | SurfaceBoundary::VEnd => SurfaceAxis::V,
    }
}

/// The axis that runs along `side`: the other axis than the crossing one.
pub fn boundary_axis(side: SurfaceBoundary) -> (r: SurfaceAxis)
    ensures
        r != crossing_axis(side),
{
    match cross_axis(side) {
        SurfaceAxis::U => SurfaceAxis::V,
        SurfaceAxis::V => SurfaceAxis::U,
    }
}

/// Parameter axis used by an analytic surface identity.
#[derive(Clone, Copy, Debug, PartialEq, Eq, Structural)]
pub enum SurfaceParameterAxis {
    /// The first surface parameter.
    U,
    /// The second surface parameter.
    V,
}

/// Orientation of the second boundary relative to the first.
#[derive(Clone, Copy, Debug, Hash, PartialEq, Eq, Structural)]
pub enum BoundaryAlignment {
    /// Both boundaries use the same traversal direction.
    Aligned,
    /// The second boundary uses the opposite traversal direction.
    Reversed,
}

/// Identifies one endpoint of a boundary-continuity problem.
#[derive(Clone, Copy, Debug, Hash, PartialEq, Eq, Structural)]
pub enum BoundaryEndpoint {
    /// The fixed reference surface.
    First,
    /// The surface whose boundary strip is optimized.
    Second,
}

/// Caller-controlled dimension constrained by a continuity work budget.
#[derive(Clone, Copy, Debug, Hash, PartialEq, Eq, Structural)]
pub enum ContinuityResource {
    /// Nonlinear solver iterations.
    Iterations,
    /// Combined input-surface control points.
    ControlPoints,
    /// Combined nonzero seam knot spans.
    Spans,
    /// Optimizer and independent validation samples.
    Samples,
    /// Dense automatic-differentiation variables.
    Variables,
    /// Optimizer and independent validation residuals.
    Residuals,
    /// Dense optimizer Jacobian elements.
    JacobianElements,
    /// Dense augmented QR matrix elements.
    QrElements,
}

/// Solver termination state.
#[derive(Clone, Copy, Debug, Hash, PartialEq, Eq, Structural)]
pub enum ContinuityTermination {
    /// Every requested derivative-order residual met its tolerance.
    Converged,
    /// The maximum iteration count was reached.
    MaximumIterations,
    /// No finite descent step could be accepted.
    NoDescent,
}

/// Typed failure from evaluating a solved boundary transition.
#[derive(Clone, Copy, Debug, Hash, PartialEq, Eq, Structural)]
#[non_exhaustive]
pub enum BoundaryTransitionEvaluationError {
    /// The normalized master seam coordinate is non-finite.
    NonFiniteSeam,
    /// The signed common cross-seam coordinate is non-finite.
    NonFiniteCross,
    /// A `G0` solve establishes only the on-seam correspondence.
    CrossCoordinateUnavailable,
    /// The accepted transition could not produce finite mapped coordinates.
    NonFiniteOutput,
}

impl BoundaryTransitionEvaluationError {
    /// The human-readable message of this error.
    pub fn message(self) -> (r: &'static str)
        ensures
            r@ == (match self {
                BoundaryTransitionEvaluationError::NonFiniteSeam =>
                    "the normalized master seam coordinate is non-finite"@,
                BoundaryTransitionEvaluationError::NonFiniteCross =>
                    "the signed common cross-seam coordinate is non-finite"@,
                BoundaryTransitionEvaluationError::CrossCoordinateUnavailable =>
                    "a G0 transition has no solved off-seam cross coordinate"@,
                BoundaryTransitionEvaluationError::NonFiniteOutput =>
                    "the solved boundary transition produced a non-finite coordinate"@,
            }),
    {
        match self {
            BoundaryTransitionEvaluationError::NonFiniteSeam =>
                "the normalized master seam coordinate is non-finite",
            BoundaryTransitionEvaluationError::NonFiniteCross =>
                "the signed common cross-seam coordinate is non-finite",
            BoundaryTransitionEvaluationError::CrossCoordinateUnavailable =>
                "a G0 transition has no solved off-seam cross coordinate",
            BoundaryTransitionEvaluationError::NonFiniteOutput =>
                "the solved boundary transition produced a non-finite coordinate",
        }
    }
}

/// Geometric-continuity request between two tensor-product surface
/// boundaries.
#[derive(Clone, Copy, Debug, Hash, PartialEq, Eq, Structural)]
pub struct BoundaryContinuityRequest {
    first_side: SurfaceBoundary,
    second_side: SurfaceBoundary,
    alignment: BoundaryAlignment,
    order: ContinuityOrder,
}

impl BoundaryContinuityRequest {
    /// Creates a geometric-continuity request.
    pub fn new(
        first_side: SurfaceBoundary,
        second_side: SurfaceBoundary,
        alignment: BoundaryAlignment,
        order: ContinuityOrder,
    ) -> (r: Self)
        ensures
            r == Self::spec_new(first_side, second_side, alignment, order),
            r.first_side() == first_side,
            r.second_side() == second_side,
            r.alignment() == alignment,
            r.order() == order,
    {
        Self { first_side, second_side, alignment, order }
    }

    /// Returns the boundary on the fixed reference surface.
    #[verifier::when_used_as_spec(spec_first_side)]
    pub fn first_side(self) -> (r: SurfaceBoundary)
        ensures
            r == self.spec_first_side(),
    {
        self.first_side
    }

    /// Returns the boundary on the optimized surface.
    #[verifier::when_used_as_spec(spec_second_side)]
    pub fn second_side(self) -> (r: SurfaceBoundary)
        ensures
            r == self.spec_second_side(),
    {
        self.second_side
    }

    /// Returns the seam-parameter alignment.
    #[verifier::when_used_as_spec(spec_alignment)]
    pub fn alignment(self) -> (r: BoundaryAlignment)
        ensures
            r == self.spec_alignment(),
    {
        self.alignment
    }

    /// Returns the requested geometric-continuity order.
    #[verifier::when_used_as_spec(spec_order)]
    pub fn order(self) -> (r: ContinuityOrder)
        ensures
            r == self.spec_order(),
    {
        self.order
    }

    /// The request with the given sides, alignment and order.
    pub closed spec fn spec_new(
        first_side: SurfaceBoundary,
        second_side: SurfaceBoundary,
        alignment: BoundaryAlignment,
        order: ContinuityOrder,
    ) -> Self {
        Self { first_side, second_side, alignment, order }
    }

    /// The boundary on the fixed reference surface.
    pub closed spec fn spec_first_side(self) -> SurfaceBoundary {
        self.first_side
    }

    /// The boundary on the optimized surface.
    pub closed spec fn spec_second_side(self) -> SurfaceBoundary {
        self.second_side
    }

    /// The seam-parameter alignment.
    pub closed spec fn spec_alignment(self) -> BoundaryAlignment {
        self.alignment
    }

    /// The requested geometric-continuity order.
    pub closed spec fn spec_order(self) -> ContinuityOrder {
        self.order
    }
}

} // verus!
