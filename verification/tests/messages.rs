use monstertruck_tracking::continuity::{BoundaryEndpoint, ContinuityResource, SurfaceAxis};
use monstertruck_tracking::contract::ContractId;
use monstertruck_tracking::execution::ContinuityReplayExecutionError;
use monstertruck_tracking::frame::BoundaryFrameError;
use monstertruck_tracking::id::StableId;
use monstertruck_tracking::replay::ContinuityReplayError;
use monstertruck_tracking::resource::{ContinuitySolveError, ContinuityTruncated};
use monstertruck_tracking::tracking::model::TrackingId;

fn id(text: &str) -> TrackingId {
    TrackingId::parse(text).expect("the compact tracking ID is valid")
}

fn contract(text: &str) -> ContractId {
    ContractId::new(text).expect("the contract ID is valid")
}

#[test]
fn replay_errors_read_as_messages() {
    assert_eq!(
        ContinuityReplayError::DuplicateSurfaceId { tracking_id: id("s@0:3") }.message(),
        "surface tracking ID `s@0:3` occurs more than once in the replayed topology"
    );
    assert_eq!(
        ContinuityReplayError::SurfaceNotRegistered {
            contract_id: contract("blend"),
            endpoint: BoundaryEndpoint::Second,
            tracking_id: id("s@1:2"),
        }
        .message(),
        "Second surface `s@1:2` for continuity contract `blend` is absent from the replayed topology"
    );
    assert_eq!(
        ContinuityReplayError::DuplicateContractId { contract_id: contract("x") }.message(),
        "continuity contract ID `x` occurs more than once"
    );
}

#[test]
fn execution_errors_read_as_messages() {
    assert_eq!(
        ContinuityReplayExecutionError::CoupledOptimizedSurface {
            tracking_id: id("s@0:1"),
            first_contract: contract("a"),
            second_contract: contract("b"),
        }
        .message(),
        "surface `s@0:1` is optimized by both `a` and `b`"
    );
    assert_eq!(
        ContinuityReplayExecutionError::DependencyCycle { contracts: vec![] }.message(),
        "continuity contract dependency graph contains a cycle"
    );
    assert_eq!(
        ContinuityReplayExecutionError::Preparation(ContinuityReplayError::DuplicateContractId {
            contract_id: contract("y"),
        })
        .message(),
        "continuity contract ID `y` occurs more than once"
    );
}

#[test]
fn budget_and_frame_errors_read_as_messages() {
    assert_eq!(
        ContinuityTruncated {
            resource: ContinuityResource::Variables,
            requested: 4,
            budget: 3,
        }
        .message(),
        "continuity solver Variables budget exhausted: requested 4, budget 3"
    );
    assert_eq!(
        BoundaryFrameError::InvalidKnotCount {
            axis: SurfaceAxis::U,
            knots: 3,
            controls: 4,
        }
        .message(),
        "U knot count 3 cannot represent 4 control points"
    );
    assert_eq!(
        BoundaryFrameError::StripExceedsControlNet {
            requested: 4,
            available: 3,
        }
        .message(),
        "requested 4 boundary rows, but only 3 are available"
    );
    assert_eq!(
        ContinuitySolveError::InvalidConfig("transition field dimension overflowed").message(),
        "invalid continuity solver configuration: transition field dimension overflowed"
    );
    assert_eq!(StableId::new(42).to_text(), "#42");
}
