//! Whether a tensor-product surface side can carry a requested continuity
//! order, judged from the degree and the number of control rows across the
//! side.
//!
//! Order `Gk` needs a degree of at least `k` and at least `k + 1` control
//! rows normal to the side. The highest order a side supports is the least
//! of its degree, its control rows less one, and the highest order that
//! requests can name.

use vstd::prelude::*;

use crate::continuity::{
    crossing_axis, order_value, ContinuityOrder, SurfaceAxis, SurfaceBoundary,
    MAX_CONTINUITY_ORDER,
};

verus! {

/// Why a representation cannot carry a requested continuity order.
#[derive(Clone, Copy, Debug, Hash, PartialEq, Eq, Structural)]
pub enum UnsupportedContinuityCapability {
    /// The control net is empty or ragged.
    InvalidControlNet,
    /// A knot vector is malformed or spans an empty domain.
    InvalidKnotVector,
    /// The knot vector is not clamped at the inspected side.
    UnclampedBoundary,
    /// A rational weight is not finite.
    NonFiniteWeight,
    /// A rational weight is not positive.
    NonPositiveWeight,
    /// The degree across the side is too low.
    InsufficientDegree {
        /// Degree across the side.
        available: usize,
        /// Degree the order needs.
        required: usize,
    },
    /// There are too few control rows across the side.
    InsufficientControlRows {
        /// Control rows across the side.
        available: usize,
        /// Control rows the order needs.
        required: usize,
    },
    /// Both the degree and the control rows across the side are too low.
    InsufficientDegreeAndControlRows {
        /// Degree across the side.
        available_degree: usize,
        /// Degree the order needs.
        required_degree: usize,
        /// Control rows across the side.
        available_rows: usize,
        /// Control rows the order needs.
        required_rows: usize,
    },
    /// The representation cannot carry the order for another reason.
    UnsupportedRepresentation,
}

/// Mathematical value of a [`SurfaceContinuityCapability`].
pub struct CapabilityView {
    pub side: SurfaceBoundary,
    pub requested: ContinuityOrder,
    pub maximum_supported_order: Option<ContinuityOrder>,
    pub unsupported_reason: Option<UnsupportedContinuityCapability>,
}

/// The order whose value is `v`, for `v` up to the highest order.
pub open spec fn order_with_value(v: nat) -> ContinuityOrder {
    if v == 0 {
        ContinuityOrder::G0
    } else if v == 1 {
        ContinuityOrder::G1
    } else if v == 2 {
        ContinuityOrder::G2
    } else if v == 3 {
        ContinuityOrder::G3
    } else {
        ContinuityOrder::G4
    }
}

/// The highest order value a side supports: the least of its degree, its
/// control rows less one, and the highest order.
pub open spec fn maximum_value(degree: nat, rows: nat) -> nat {
    let by_rows: nat = if rows == 0 {
        0
    } else {
        (rows - 1) as nat
    };
    let m: nat = if degree <= by_rows {
        degree
    } else {
        by_rows
    };
    if m <= MAX_CONTINUITY_ORDER {
        m
    } else {
        MAX_CONTINUITY_ORDER as nat
    }
}

/// What a side of the given degree and rows lacks for `requested`, if
/// anything.
pub open spec fn shortfall(degree: usize, rows: usize, requested: ContinuityOrder) -> Option<
    UnsupportedContinuityCapability,
> {
    let required_degree = order_value(requested) as usize;
    let required_rows = (order_value(requested) + 1) as usize;
    if degree < required_degree && rows < required_rows {
        Some(
            UnsupportedContinuityCapability::InsufficientDegreeAndControlRows {
                available_degree: degree,
                required_degree,
                available_rows: rows,
                required_rows,
            },
        )
    } else if degree < required_degree {
        Some(
            UnsupportedContinuityCapability::InsufficientDegree {
                available: degree,
                required: required_degree,
            },
        )
    } else if rows < required_rows {
        Some(
            UnsupportedContinuityCapability::InsufficientControlRows {
                available: rows,
                required: required_rows,
            },
        )
    } else {
        None
    }
}

/// The capability report of a side of the given degree and rows.
pub open spec fn degree_rows_capability(
    degree: usize,
    rows: usize,
    side: SurfaceBoundary,
    requested: ContinuityOrder,
) -> CapabilityView {
    CapabilityView {
        side,
        requested,
        maximum_supported_order: Some(order_with_value(maximum_value(degree as nat, rows as nat))),
        unsupported_reason: shortfall(degree, rows, requested),
    }
}

/// Whether a report is consistent: a supported request lies within a
/// known maximum order, and a known maximum of an unsupported request lies
/// below it.
pub open spec fn consistent(c: CapabilityView) -> bool {
    match c.unsupported_reason {
        None => c.maximum_supported_order matches Some(m) && order_value(c.requested)
            <= order_value(m),
        Some(_) => c.maximum_supported_order matches Some(m) ==> order_value(m) < order_value(
            c.requested,
        ),
    }
}

/// Whether a surface side can carry a requested continuity order.
#[derive(Clone, Copy, Debug, Hash, PartialEq, Eq, Structural)]
pub struct SurfaceContinuityCapability {
    side: SurfaceBoundary,
    requested: ContinuityOrder,
    maximum_supported_order: Option<ContinuityOrder>,
    unsupported_reason: Option<UnsupportedContinuityCapability>,
}

impl View for SurfaceContinuityCapability {
    type V = CapabilityView;

    closed spec fn view(&self) -> CapabilityView {
        CapabilityView {
            side: self.side,
            requested: self.requested,
            maximum_supported_order: self.maximum_supported_order,
            unsupported_reason: self.unsupported_reason,
        }
    }
}

/// A side with control rows supports the requested order exactly when the
/// order lies within the side's highest supported order.
pub proof fn law_supported_exactly_within_maximum(
    degree: usize,
    rows: usize,
    requested: ContinuityOrder,
)
    requires
        rows >= 1,
    ensures
        shortfall(degree, rows, requested) is None <==> order_value(requested) <= maximum_value(
            degree as nat,
            rows as nat,
        ),
        order_value(order_with_value(maximum_value(degree as nat, rows as nat))) == maximum_value(
            degree as nat,
            rows as nat,
        ),
{
    let rd = order_value(requested);
    assert(rd <= 4);
    assert((rd as usize) as nat == rd);
    assert(((rd + 1) as usize) as nat == rd + 1);
}

/// Every report that a degree and a positive row count give is consistent.
pub proof fn law_capability_reports_are_consistent(
    degree: usize,
    rows: usize,
    side: SurfaceBoundary,
    requested: ContinuityOrder,
)
    requires
        rows >= 1,
    ensures
        consistent(degree_rows_capability(degree, rows, side, requested)),
{
    law_supported_exactly_within_maximum(degree, rows, requested);
}

impl SurfaceContinuityCapability {
    /// Returns the inspected side.
    pub fn side(self) -> (r: SurfaceBoundary)
        ensures
            r == self@.side,
    {
        self.side
    }

    /// Returns the requested continuity order.
    pub fn requested(self) -> (r: ContinuityOrder)
        ensures
            r == self@.requested,
    {
        self.requested
    }

    /// Returns the highest supported order when inspection established it.
    pub fn maximum_supported_order(self) -> (r: Option<ContinuityOrder>)
        ensures
            r == self@.maximum_supported_order,
    {
        self.maximum_supported_order
    }

    /// Returns the reason the request is unsupported, if it is.
    pub fn unsupported_reason(self) -> (r: Option<UnsupportedContinuityCapability>)
        ensures
            r == self@.unsupported_reason,
    {
        self.unsupported_reason
    }

    /// Whether the representation supports the request.
    pub fn is_supported(self) -> (r: bool)
        ensures
            r == self@.unsupported_reason is None,
    {
        self.unsupported_reason.is_none()
    }

    /// Requires the representation to support the request, and otherwise
    /// returns the reason it does not.
    pub fn require_supported(self) -> (r: Result<Self, UnsupportedContinuityCapability>)
        ensures
            self@.unsupported_reason is None ==> r == Ok::<
                Self,
                UnsupportedContinuityCapability,
            >(self),
            self@.unsupported_reason matches Some(reason) ==> r == Err::<
                Self,
                UnsupportedContinuityCapability,
            >(reason),
    {
        match self.unsupported_reason {
            None => Ok(self),
            Some(reason) => Err(reason),
        }
    }
}

/// Judges a side of `degree` with `control_count` control rows across it.
pub fn capability_for_degree_and_rows(
    degree: usize,
    control_count: usize,
    side: SurfaceBoundary,
    requested: ContinuityOrder,
) -> (r: SurfaceContinuityCapability)
    ensures
        r@ == degree_rows_capability(degree, control_count, side, requested),
{
    let required_degree = requested.as_usize();
    let required_rows = required_degree + 1;
    let insufficient_degree = degree < required_degree;
    let insufficient_rows = control_count < required_rows;
    let by_rows = control_count.saturating_sub(1);
    let mut maximum_value = if degree <= by_rows {
        degree
    } else {
        by_rows
    };
    if maximum_value > MAX_CONTINUITY_ORDER {
        maximum_value = MAX_CONTINUITY_ORDER;
    }
    let maximum_order = match maximum_value {
        0 => ContinuityOrder::G0,
        1 => ContinuityOrder::G1,
        2 => ContinuityOrder::G2,
        3 => ContinuityOrder::G3,
        _ => ContinuityOrder::G4,
    };
    let reason = if insufficient_degree && insufficient_rows {
        Some(
            UnsupportedContinuityCapability::InsufficientDegreeAndControlRows {
                available_degree: degree,
                required_degree,
                available_rows: control_count,
                required_rows,
            },
        )
    } else if insufficient_degree {
        Some(
            UnsupportedContinuityCapability::InsufficientDegree {
                available: degree,
                required: required_degree,
            },
        )
    } else if insufficient_rows {
        Some(
            UnsupportedContinuityCapability::InsufficientControlRows {
                available: control_count,
                required: required_rows,
            },
        )
    } else {
        None
    };
    SurfaceContinuityCapability {
        side,
        requested,
        maximum_supported_order: Some(maximum_order),
        unsupported_reason: reason,
    }
}

/// Mathematical value of an [`InspectedSurfaceContinuityCapability`].
pub struct InspectedView {
    pub report: CapabilityView,
    pub cross_degree: usize,
    pub cross_control_rows: usize,
}

/// A capability report paired with the degree and control rows across the
/// inspected side.
#[derive(Clone, Copy, Debug, Hash, PartialEq, Eq, Structural)]
pub struct InspectedSurfaceContinuityCapability {
    report: SurfaceContinuityCapability,
    cross_degree: usize,
    cross_control_rows: usize,
}

impl View for InspectedSurfaceContinuityCapability {
    type V = InspectedView;

    closed spec fn view(&self) -> InspectedView {
        InspectedView {
            report: self.report@,
            cross_degree: self.cross_degree,
            cross_control_rows: self.cross_control_rows,
        }
    }
}

/// The degree and control rows across `side`, out of the degrees and
/// control counts along `u` and `v`.
pub open spec fn across(degrees: (usize, usize), dimensions: (usize, usize), side: SurfaceBoundary) -> (
    usize,
    usize,
) {
    match crossing_axis(side) {
        SurfaceAxis::U => (degrees.0, dimensions.0),
        SurfaceAxis::V => (degrees.1, dimensions.1),
    }
}

/// A side is judged by the axis that crosses it: the `u`-boundaries by the
/// degree and control count along `u`, the `v`-boundaries by those along
/// `v`.
pub proof fn law_side_is_judged_across_it(degrees: (usize, usize), dimensions: (usize, usize))
    ensures
        across(degrees, dimensions, SurfaceBoundary::UStart) == (degrees.0, dimensions.0),
        across(degrees, dimensions, SurfaceBoundary::UEnd) == (degrees.0, dimensions.0),
        across(degrees, dimensions, SurfaceBoundary::VStart) == (degrees.1, dimensions.1),
        across(degrees, dimensions, SurfaceBoundary::VEnd) == (degrees.1, dimensions.1),
{
}

/// Judges `side` of a surface with the given degrees and control counts
/// along `u` and `v`.
pub fn capability_from_facts(
    degrees: (usize, usize),
    dimensions: (usize, usize),
    side: SurfaceBoundary,
    requested: ContinuityOrder,
) -> (r: InspectedSurfaceContinuityCapability)
    ensures
        r@.cross_degree == across(degrees, dimensions, side).0,
        r@.cross_control_rows == across(degrees, dimensions, side).1,
        r@.report == degree_rows_capability(
            across(degrees, dimensions, side).0,
            across(degrees, dimensions, side).1,
            side,
            requested,
        ),
{
    let (cross_degree, cross_control_rows) = match crate::continuity::cross_axis(side) {
        SurfaceAxis::U => (degrees.0, dimensions.0),
        SurfaceAxis::V => (degrees.1, dimensions.1),
    };
    let report = capability_for_degree_and_rows(cross_degree, cross_control_rows, side, requested);
    InspectedSurfaceContinuityCapability { report, cross_degree, cross_control_rows }
}

impl InspectedSurfaceContinuityCapability {
    /// Returns the capability report.
    pub fn report(self) -> (r: SurfaceContinuityCapability)
        ensures
            r@ == self@.report,
    {
        self.report
    }

    /// Returns the inspected side.
    pub fn side(self) -> (r: SurfaceBoundary)
        ensures
            r == self@.report.side,
    {
        self.report.side()
    }

    /// Returns the requested continuity order.
    pub fn requested(self) -> (r: ContinuityOrder)
        ensures
            r == self@.report.requested,
    {
        self.report.requested()
    }

    /// Returns the degree normal to the inspected side.
    pub fn cross_degree(self) -> (r: usize)
        ensures
            r == self@.cross_degree,
    {
        self.cross_degree
    }

    /// Returns the number of control rows normal to the inspected side.
    pub fn cross_control_rows(self) -> (r: usize)
        ensures
            r == self@.cross_control_rows,
    {
        self.cross_control_rows
    }

    /// Returns the highest supported order when inspection established it.
    pub fn maximum_supported_order(self) -> (r: Option<ContinuityOrder>)
        ensures
            r == self@.report.maximum_supported_order,
    {
        self.report.maximum_supported_order()
    }

    /// Returns the reason the request is unsupported, if it is.
    pub fn unsupported_reason(self) -> (r: Option<UnsupportedContinuityCapability>)
        ensures
            r == self@.report.unsupported_reason,
    {
        self.report.unsupported_reason()
    }

    /// Requires the representation to support the request, and otherwise
    /// returns the reason it does not.
    pub fn require_supported(self) -> (r: Result<Self, UnsupportedContinuityCapability>)
        ensures
            self@.report.unsupported_reason is None ==> r == Ok::<
                Self,
                UnsupportedContinuityCapability,
            >(self),
            self@.report.unsupported_reason matches Some(reason) ==> r == Err::<
                Self,
                UnsupportedContinuityCapability,
            >(reason),
    {
        match self.report.require_supported() {
            Ok(_) => Ok(self),
            Err(reason) => Err(reason),
        }
    }
}

} // verus!
