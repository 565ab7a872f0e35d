//! Human-readable messages of the replay, planning and frame errors, and
//! the display text of stable identifiers.

use vstd::prelude::*;
use vstd::string::*;

use crate::continuity::{BoundaryEndpoint, ContinuityResource, SurfaceAxis};
use crate::decimal::{decimal, push_decimal};
use crate::execution::ContinuityReplayExecutionError;
use crate::frame::BoundaryFrameError;
use crate::id::StableId;
use crate::replay::ContinuityReplayError;
use crate::resource::{ContinuitySolveError, ContinuityTruncated};
use crate::tracking::model::{compact_text, TrackingId};

verus! {

/// The debug name of a contract endpoint.
pub open spec fn endpoint_name(e: BoundaryEndpoint) -> Seq<char> {
    match e {
        BoundaryEndpoint::First => "First"@,
        BoundaryEndpoint::Second => "Second"@,
    }
}

/// The debug name of a contract endpoint.
pub fn endpoint_text(e: BoundaryEndpoint) -> (r: &'static str)
    ensures
        r@ == endpoint_name(e),
{
    match e {
        BoundaryEndpoint::First => "First",
        BoundaryEndpoint::Second => "Second",
    }
}

/// The debug name of a budgeted resource.
pub open spec fn resource_name(r: ContinuityResource) -> Seq<char> {
    match r {
        ContinuityResource::Iterations => "Iterations"@,
        ContinuityResource::ControlPoints => "ControlPoints"@,
        ContinuityResource::Spans => "Spans"@,
        ContinuityResource::Samples => "Samples"@,
        ContinuityResource::Variables => "Variables"@,
        ContinuityResource::Residuals => "Residuals"@,
        ContinuityResource::JacobianElements => "JacobianElements"@,
        ContinuityResource::QrElements => "QrElements"@,
    }
}

/// The debug name of a budgeted resource.
pub fn resource_text(r: ContinuityResource) -> (t: &'static str)
    ensures
        t@ == resource_name(r),
{
    match r {
        ContinuityResource::Iterations => "Iterations",
        ContinuityResource::ControlPoints => "ControlPoints",
        ContinuityResource::Spans => "Spans",
        ContinuityResource::Samples => "Samples",
        ContinuityResource::Variables => "Variables",
        ContinuityResource::Residuals => "Residuals",
        ContinuityResource::JacobianElements => "JacobianElements",
        ContinuityResource::QrElements => "QrElements",
    }
}

/// The debug name of a parameter axis.
pub open spec fn axis_name(a: SurfaceAxis) -> Seq<char> {
    match a {
        SurfaceAxis::U => "U"@,
        SurfaceAxis::V => "V"@,
    }
}

/// The debug name of a parameter axis.
pub fn axis_text(a: SurfaceAxis) -> (r: &'static str)
    ensures
        r@ == axis_name(a),
{
    match a {
        SurfaceAxis::U => "U",
        SurfaceAxis::V => "V",
    }
}

/// Appends the compact text of an identifier.
fn push_tracking_id(out: &mut String, t: &TrackingId)
    ensures
        final(out)@ == old(out)@ + compact_text(t@),
{
    let text = t.to_compact_string();
    out.append(text.as_str());
}

/// The message of a replay-preparation error.
pub open spec fn replay_error_message(e: ContinuityReplayError) -> Seq<char> {
    match e {
        ContinuityReplayError::InvalidSurfaceId { tracking_id, .. } => "surface tracking ID `"@
            + compact_text(tracking_id@) + "` is invalid for the current replay generation"@,
        ContinuityReplayError::DuplicateSurfaceId { tracking_id } => "surface tracking ID `"@
            + compact_text(tracking_id@) + "` occurs more than once in the replayed topology"@,
        ContinuityReplayError::DuplicateContractId { contract_id } => "continuity contract ID `"@
            + contract_id@ + "` occurs more than once"@,
        ContinuityReplayError::ContractResolution { contract_id, .. } => "continuity contract `"@
            + contract_id@ + "` could not be resolved"@,
        ContinuityReplayError::ResolvedSurfaceIdInvalid { contract_id, endpoint, tracking_id, .. } =>
            endpoint_name(endpoint) + " surface `"@ + compact_text(tracking_id@)
            + "` for continuity contract `"@ + contract_id@
            + "` is invalid for the current replay generation"@,
        ContinuityReplayError::SurfaceNotRegistered { contract_id, endpoint, tracking_id } =>
            endpoint_name(endpoint) + " surface `"@ + compact_text(tracking_id@)
            + "` for continuity contract `"@ + contract_id@ + "` is absent from the replayed topology"@,
    }
}

impl ContinuityReplayError {
    /// The human-readable message of this error.
    pub fn message(&self) -> (r: String)
        ensures
            r@ == replay_error_message(*self),
    {
        let mut out = String::new();
        match self {
            ContinuityReplayError::InvalidSurfaceId { tracking_id, .. } => {
                out.append("surface tracking ID `");
                push_tracking_id(&mut out, tracking_id);
                out.append("` is invalid for the current replay generation");
            },
            ContinuityReplayError::DuplicateSurfaceId { tracking_id } => {
                out.append("surface tracking ID `");
                push_tracking_id(&mut out, tracking_id);
                out.append("` occurs more than once in the replayed topology");
            },
            ContinuityReplayError::DuplicateContractId { contract_id } => {
                out.append("continuity contract ID `");
                out.append(contract_id.as_str());
                out.append("` occurs more than once");
            },
            ContinuityReplayError::ContractResolution { contract_id, .. } => {
                out.append("continuity contract `");
                out.append(contract_id.as_str());
                out.append("` could not be resolved");
            },
            ContinuityReplayError::ResolvedSurfaceIdInvalid {
                contract_id,
                endpoint,
                tracking_id,
                ..
            } => {
                out.append(endpoint_text(*endpoint));
                out.append(" surface `");
                push_tracking_id(&mut out, tracking_id);
                out.append("` for continuity contract `");
                out.append(contract_id.as_str());
                out.append("` is invalid for the current replay generation");
            },
            ContinuityReplayError::SurfaceNotRegistered { contract_id, endpoint, tracking_id } => {
                out.append(endpoint_text(*endpoint));
                out.append(" surface `");
                push_tracking_id(&mut out, tracking_id);
                out.append("` for continuity contract `");
                out.append(contract_id.as_str());
                out.append("` is absent from the replayed topology");
            },
        }
        assert(out@ =~= replay_error_message(*self));
        out
    }
}

/// The message of a replay-execution error.
pub open spec fn execution_error_message(e: ContinuityReplayExecutionError) -> Seq<char> {
    match e {
        ContinuityReplayExecutionError::Preparation(p) => replay_error_message(p),
        ContinuityReplayExecutionError::SameSurfaceContract { contract_id, tracking_id } =>
            "continuity contract `"@ + contract_id@ + "` targets surface `"@ + compact_text(
            tracking_id@,
        ) + "` twice"@,
        ContinuityReplayExecutionError::CoupledOptimizedSurface {
            tracking_id,
            first_contract,
            second_contract,
        } => "surface `"@ + compact_text(tracking_id@) + "` is optimized by both `"@
            + first_contract@ + "` and `"@ + second_contract@ + "`"@,
        ContinuityReplayExecutionError::SurfaceGeometryMissing {
            contract_id,
            endpoint,
            tracking_id,
        } => endpoint_name(endpoint) + " surface `"@ + compact_text(tracking_id@)
            + "` for continuity contract `"@ + contract_id@ + "` has no replay geometry"@,
        ContinuityReplayExecutionError::DependencyCycle { .. } =>
            "continuity contract dependency graph contains a cycle"@,
    }
}

impl ContinuityReplayExecutionError {
    /// The human-readable message of this error.
    pub fn message(&self) -> (r: String)
        ensures
            r@ == execution_error_message(*self),
    {
        let mut out = String::new();
        match self {
            ContinuityReplayExecutionError::Preparation(p) => {
                return p.message();
            },
            ContinuityReplayExecutionError::SameSurfaceContract { contract_id, tracking_id } => {
                out.append("continuity contract `");
                out.append(contract_id.as_str());
                out.append("` targets surface `");
                push_tracking_id(&mut out, tracking_id);
                out.append("` twice");
            },
            ContinuityReplayExecutionError::CoupledOptimizedSurface {
                tracking_id,
                first_contract,
                second_contract,
            } => {
                out.append("surface `");
                push_tracking_id(&mut out, tracking_id);
                out.append("` is optimized by both `");
                out.append(first_contract.as_str());
                out.append("` and `");
                out.append(second_contract.as_str());
                out.append("`");
            },
            ContinuityReplayExecutionError::SurfaceGeometryMissing {
                contract_id,
                endpoint,
                tracking_id,
            } => {
                out.append(endpoint_text(*endpoint));
                out.append(" surface `");
                push_tracking_id(&mut out, tracking_id);
                out.append("` for continuity contract `");
                out.append(contract_id.as_str());
                out.append("` has no replay geometry");
            },
            ContinuityReplayExecutionError::DependencyCycle { .. } => {
                out.append("continuity contract dependency graph contains a cycle");
            },
        }
        assert(out@ =~= execution_error_message(*self));
        out
    }
}

/// The message of a budget refusal.
pub open spec fn truncated_message(t: ContinuityTruncated) -> Seq<char> {
    "continuity solver "@ + resource_name(t.resource) + " budget exhausted: requested "@ + decimal(
        t.requested as nat,
    ) + ", budget "@ + decimal(t.budget as nat)
}

impl ContinuityTruncated {
    /// The human-readable message of this refusal.
    pub fn message(&self) -> (r: String)
        ensures
            r@ == truncated_message(*self),
    {
        let mut out = String::new();
        out.append("continuity solver ");
        out.append(resource_text(self.resource));
        out.append(" budget exhausted: requested ");
        push_decimal(&mut out, self.requested as u64);
        out.append(", budget ");
        push_decimal(&mut out, self.budget as u64);
        assert(out@ =~= truncated_message(*self));
        out
    }
}

/// The message of a frame error.
pub open spec fn frame_error_message(e: BoundaryFrameError) -> Seq<char> {
    match e {
        BoundaryFrameError::EmptyControlNet => "NURBS surface control net must be nonempty"@,
        BoundaryFrameError::NonRectangularControlNet =>
            "NURBS surface control net must be rectangular"@,
        BoundaryFrameError::InvalidKnotCount { axis, knots, controls } => axis_name(axis)
            + " knot count "@ + decimal(knots as nat) + " cannot represent "@ + decimal(
            controls as nat,
        ) + " control points"@,
        BoundaryFrameError::NonFiniteKnotDomain { axis } => axis_name(axis)
            + " knot domain contains a non-finite value"@,
        BoundaryFrameError::NonMonotonicKnotVector { axis } => axis_name(axis)
            + " knot vector must be nondecreasing"@,
        BoundaryFrameError::UnclampedKnotVector { axis } => axis_name(axis)
            + " knot vector must be clamped"@,
        BoundaryFrameError::NonPositiveParameterDomain { axis } => axis_name(axis)
            + " parameter domain must have positive span"@,
        BoundaryFrameError::StripExceedsControlNet { requested, available } => "requested "@
            + decimal(requested as nat) + " boundary rows, but only "@ + decimal(available as nat)
            + " are available"@,
    }
}

impl BoundaryFrameError {
    /// The human-readable message of this error.
    pub fn message(&self) -> (r: String)
        ensures
            r@ == frame_error_message(*self),
    {
        let mut out = String::new();
        match *self {
            BoundaryFrameError::EmptyControlNet => {
                out.append("NURBS surface control net must be nonempty");
            },
            BoundaryFrameError::NonRectangularControlNet => {
                out.append("NURBS surface control net must be rectangular");
            },
            BoundaryFrameError::InvalidKnotCount { axis, knots, controls } => {
                out.append(axis_text(axis));
                out.append(" knot count ");
                push_decimal(&mut out, knots as u64);
                out.append(" cannot represent ");
                push_decimal(&mut out, controls as u64);
                out.append(" control points");
            },
            BoundaryFrameError::NonFiniteKnotDomain { axis } => {
                out.append(axis_text(axis));
                out.append(" knot domain contains a non-finite value");
            },
            BoundaryFrameError::NonMonotonicKnotVector { axis } => {
                out.append(axis_text(axis));
                out.append(" knot vector must be nondecreasing");
            },
            BoundaryFrameError::UnclampedKnotVector { axis } => {
                out.append(axis_text(axis));
                out.append(" knot vector must be clamped");
            },
            BoundaryFrameError::NonPositiveParameterDomain { axis } => {
                out.append(axis_text(axis));
                out.append(" parameter domain must have positive span");
            },
            BoundaryFrameError::StripExceedsControlNet { requested, available } => {
                out.append("requested ");
                push_decimal(&mut out, requested as u64);
                out.append(" boundary rows, but only ");
                push_decimal(&mut out, available as u64);
                out.append(" are available");
            },
        }
        assert(out@ =~= frame_error_message(*self));
        out
    }
}

impl ContinuitySolveError {
    /// The human-readable message of this error.
    pub fn message(&self) -> (r: String)
        ensures
            r@ == (match *self {
                ContinuitySolveError::InvalidConfig(reason) =>
                    "invalid continuity solver configuration: "@ + reason@,
                ContinuitySolveError::Truncated(t) => truncated_message(t),
            }),
    {
        match *self {
            ContinuitySolveError::InvalidConfig(reason) => {
                let mut out = String::new();
                out.append("invalid continuity solver configuration: ");
                out.append(reason);
                out
            },
            ContinuitySolveError::Truncated(t) => t.message(),
        }
    }
}

impl StableId {
    /// The display text `#n` of this identifier.
    pub fn to_text(self) -> (r: String)
        ensures
            r@ == "#"@ + decimal(self@ as nat),
    {
        let mut out = String::new();
        out.append("#");
        push_decimal(&mut out, self.raw());
        out
    }
}

} // verus!
