use monstertruck_tracking::continuity::{BoundaryAlignment, ContinuityOrder, SurfaceBoundary};
use monstertruck_tracking::contract::{ContinuityContract, ContractId, SurfaceBoundaryRef};
use monstertruck_tracking::execution::{contract_execution_order, ContinuityReplayExecutionError};
use monstertruck_tracking::replay::{
    prepare_boundary_continuity_requests, ResolvedBoundaryContinuityRequest,
    TrackedSurfaceIdRegistry,
};
use monstertruck_tracking::tracking::model::{
    FeatureId, SemanticLabel, SemanticTopologyRef, TopologyKind, TrackingId, TrackingSessionId,
};
use monstertruck_tracking::tracking::session::TrackingSession;

fn face(label: &str) -> SemanticTopologyRef {
    SemanticTopologyRef::new(
        FeatureId::new("loft").expect("the test feature ID is valid"),
        TopologyKind::Face,
        SemanticLabel::new(label).expect("the test label is valid"),
    )
}

fn contract(id: &str, first: &str, first_side: SurfaceBoundary, second: &str) -> ContinuityContract {
    ContinuityContract::new(
        ContractId::new(id).expect("the test contract ID is valid"),
        SurfaceBoundaryRef::new(face(first), first_side).expect("a face"),
        SurfaceBoundaryRef::new(face(second), SurfaceBoundary::VStart).expect("a face"),
        BoundaryAlignment::Aligned,
        ContinuityOrder::G1,
    )
    .expect("the endpoints are distinct")
}

fn prepared(labels: &[&str], contracts: &[ContinuityContract]) -> Vec<ResolvedBoundaryContinuityRequest> {
    let mut session = TrackingSession::new(
        TrackingSessionId::new("execution").expect("the test session ID is valid"),
    );
    let mut ids: Vec<TrackingId> = Vec::new();
    for label in labels {
        let id = session.allocate().expect("the serial range is available");
        session.bind(face(label), id.clone()).expect("the binding is unique");
        ids.push(id);
    }
    let registry = TrackedSurfaceIdRegistry::try_new(&session, ids).expect("current IDs register");
    prepare_boundary_continuity_requests(&session, &registry, contracts)
        .expect("every endpoint is registered")
}

#[test]
fn execution_runs_the_optimizing_contract_first() {
    let requests = prepared(
        &["s1", "s2", "s3"],
        &[
            contract("a-contract", "s3", SurfaceBoundary::UEnd, "s1"),
            contract("z-contract", "s2", SurfaceBoundary::UEnd, "s3"),
        ],
    );
    assert_eq!(requests[0].contract_id().as_str(), "a-contract");
    assert_eq!(contract_execution_order(&requests), Ok(vec![1, 0]));
}

#[test]
fn independent_contracts_run_in_id_order() {
    let requests = prepared(
        &["s1", "s2", "s3", "s4"],
        &[
            contract("b", "s1", SurfaceBoundary::UEnd, "s2"),
            contract("a", "s3", SurfaceBoundary::UEnd, "s4"),
        ],
    );
    assert_eq!(contract_execution_order(&requests), Ok(vec![0, 1]));
    assert_eq!(contract_execution_order(&[]), Ok(vec![]));
}

#[test]
fn dependency_cycles_name_every_unplaced_contract() {
    let requests = prepared(
        &["s1", "s2", "s3", "s4"],
        &[
            contract("a", "s2", SurfaceBoundary::UEnd, "s1"),
            contract("b", "s1", SurfaceBoundary::UEnd, "s2"),
            contract("c", "s3", SurfaceBoundary::UEnd, "s4"),
        ],
    );
    assert_eq!(
        contract_execution_order(&requests),
        Err(ContinuityReplayExecutionError::DependencyCycle {
            contracts: vec![
                ContractId::new("a").expect("valid"),
                ContractId::new("b").expect("valid"),
            ],
        })
    );
}

#[test]
fn same_surface_and_coupled_contracts_are_refused() {
    let requests = prepared(
        &["s1", "s2"],
        &[
            contract("a", "s1", SurfaceBoundary::UEnd, "s1"),
            contract("b", "s2", SurfaceBoundary::UEnd, "s1"),
        ],
    );
    assert!(matches!(
        contract_execution_order(&requests),
        Err(ContinuityReplayExecutionError::SameSurfaceContract { contract_id, .. })
            if contract_id.as_str() == "a"
    ));

    let requests = prepared(
        &["s1", "s2", "s3"],
        &[
            contract("a", "s1", SurfaceBoundary::UEnd, "s3"),
            contract("b", "s2", SurfaceBoundary::UEnd, "s3"),
        ],
    );
    assert!(matches!(
        contract_execution_order(&requests),
        Err(ContinuityReplayExecutionError::CoupledOptimizedSurface {
            first_contract,
            second_contract,
            ..
        }) if first_contract.as_str() == "a" && second_contract.as_str() == "b"
    ));
}

#[test]
fn preparation_failures_convert_into_execution_errors() {
    let source = monstertruck_tracking::replay::ContinuityReplayError::DuplicateContractId {
        contract_id: ContractId::new("x").expect("valid"),
    };
    assert_eq!(
        ContinuityReplayExecutionError::from(source.clone()),
        ContinuityReplayExecutionError::Preparation(source)
    );
}
