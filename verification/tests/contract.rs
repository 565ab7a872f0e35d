use monstertruck_tracking::continuity::{
    BoundaryAlignment, ContinuityMaturity, ContinuityOrder, SurfaceBoundary,
};
use monstertruck_tracking::contract::{
    ContinuityContract, ContractError, ContractId, SurfaceBoundaryRef,
    CONTINUITY_CONTRACT_SCHEMA_VERSION,
};
use monstertruck_tracking::tracking::error::TrackingError;
use monstertruck_tracking::tracking::model::{
    FeatureId, SemanticLabel, SemanticTopologyRef, TopologyKind, TrackingGeneration, TrackingId,
    TrackingSessionId,
};
use monstertruck_tracking::tracking::session::TrackingSession;

fn semantic(kind: TopologyKind, label: &str) -> SemanticTopologyRef {
    SemanticTopologyRef::new(
        FeatureId::new("blend-feature").expect("the test feature identifier is valid"),
        kind,
        SemanticLabel::new(label).expect("the test semantic label is valid"),
    )
}

fn boundary(label: &str, boundary: SurfaceBoundary) -> SurfaceBoundaryRef {
    SurfaceBoundaryRef::new(semantic(TopologyKind::Face, label), boundary)
        .expect("the test semantic reference identifies a face")
}

fn contract(order: ContinuityOrder) -> ContinuityContract {
    ContinuityContract::new(
        ContractId::new("hood-to-fender").expect("the test contract identifier is valid"),
        boundary("hood", SurfaceBoundary::UEnd),
        boundary("fender", SurfaceBoundary::UStart),
        BoundaryAlignment::Reversed,
        order,
    )
    .expect("the test endpoints are distinct")
}

fn session() -> TrackingSession {
    TrackingSession::new(
        TrackingSessionId::new("styling-session").expect("the test session identifier is valid"),
    )
}

fn bind_contract_endpoints(
    session: &mut TrackingSession,
    contract: &ContinuityContract,
) -> (TrackingId, TrackingId) {
    let first = session.allocate().expect("the serial range is available");
    let second = session.allocate().expect("the serial range is available");
    session
        .bind(contract.first().topology().clone(), first.clone())
        .expect("the first semantic binding is valid");
    session
        .bind(contract.second().topology().clone(), second.clone())
        .expect("the second semantic binding is valid");
    (first, second)
}

#[test]
fn construction_rejects_invalid_ids_wrong_kinds_and_identical_endpoints() {
    assert_eq!(ContractId::new(" \t "), Err(ContractError::InvalidId));
    assert_eq!(
        SurfaceBoundaryRef::new(
            semantic(TopologyKind::Edge, "seam"),
            SurfaceBoundary::VStart,
        ),
        Err(ContractError::WrongTopologyKind {
            actual: TopologyKind::Edge,
        }),
    );

    let endpoint = boundary("shared", SurfaceBoundary::VEnd);
    assert_eq!(
        ContinuityContract::new(
            ContractId::new("invalid-pair").expect("the test contract identifier is valid"),
            endpoint.clone(),
            endpoint,
            BoundaryAlignment::Aligned,
            ContinuityOrder::G3,
        ),
        Err(ContractError::IdenticalEndpoints),
    );
}

#[test]
fn resolution_preserves_typed_tracking_failures() {
    let error = contract(ContinuityOrder::G3)
        .resolve(&session())
        .expect_err("unbound semantic endpoints must not resolve");

    assert!(matches!(
        error,
        ContractError::Tracking(TrackingError::UnknownSemanticReference(_)),
    ));
}

#[test]
fn replay_resolves_semantic_endpoints_to_the_new_generation() {
    let contract = contract(ContinuityOrder::G3);
    let mut session = session();
    let (old_first, old_second) = bind_contract_endpoints(&mut session, &contract);
    let old_resolved = contract
        .resolve(&session)
        .expect("the initial semantic bindings resolve");

    session
        .advance_generation()
        .expect("the generation range is available");
    let (new_first, new_second) = bind_contract_endpoints(&mut session, &contract);
    let replayed = contract
        .resolve(&session)
        .expect("the replayed semantic bindings resolve");

    assert_eq!(
        old_resolved.first().tracking_id().generation(),
        TrackingGeneration::initial(),
    );
    assert_eq!(
        replayed.first().tracking_id().generation(),
        TrackingGeneration::new(1),
    );
    assert_eq!(old_first.serial(), new_first.serial());
    assert_eq!(old_second.serial(), new_second.serial());
    assert_ne!(old_first, new_first);
    assert_ne!(old_second, new_second);
    assert_eq!(replayed.first().tracking_id(), &new_first);
    assert_eq!(replayed.second().tracking_id(), &new_second);
}

#[test]
fn g4_contract_resolution_remains_experimental() {
    let contract = contract(ContinuityOrder::G4);
    let mut session = session();
    let (first, second) = bind_contract_endpoints(&mut session, &contract);
    let resolved = contract
        .resolve(&session)
        .expect("both semantic endpoints are bound");

    assert_eq!(
        contract.order().maturity(),
        ContinuityMaturity::Experimental
    );
    assert_eq!(resolved.first().tracking_id(), &first);
    assert_eq!(resolved.second().tracking_id(), &second);
    assert_eq!(resolved.order(), ContinuityOrder::G4);
    assert_eq!(resolved.alignment(), BoundaryAlignment::Reversed);
    assert_eq!(resolved.first().boundary(), SurfaceBoundary::UEnd);
    assert_eq!(resolved.second().boundary(), SurfaceBoundary::UStart);
    assert_eq!(resolved.id().as_str(), "hood-to-fender");
}

#[test]
fn restore_accepts_only_the_current_schema() {
    let restored = ContinuityContract::restore(
        CONTINUITY_CONTRACT_SCHEMA_VERSION,
        ContractId::new("hood-to-fender").expect("the test contract identifier is valid"),
        boundary("hood", SurfaceBoundary::UEnd),
        boundary("fender", SurfaceBoundary::UStart),
        BoundaryAlignment::Reversed,
        ContinuityOrder::G3,
    )
    .expect("the current schema restores");
    assert_eq!(restored, contract(ContinuityOrder::G3));
    assert_eq!(restored.schema_version(), 1);

    assert_eq!(
        ContinuityContract::restore(
            2,
            ContractId::new("hood-to-fender").expect("the test contract identifier is valid"),
            boundary("hood", SurfaceBoundary::UEnd),
            boundary("fender", SurfaceBoundary::UStart),
            BoundaryAlignment::Reversed,
            ContinuityOrder::G3,
        ),
        Err(ContractError::UnsupportedSchemaVersion(2)),
    );
}

#[test]
fn contract_errors_read_as_messages() {
    assert_eq!(
        ContractError::InvalidId.message(),
        "continuity contract id must not be empty"
    );
    assert_eq!(
        ContractError::WrongTopologyKind {
            actual: TopologyKind::Edge
        }
        .message(),
        "surface boundary reference requires Face topology, got Edge"
    );
    assert_eq!(
        ContractError::UnsupportedSchemaVersion(7).message(),
        "unsupported continuity contract schema version 7"
    );
}

#[test]
fn contract_ids_keep_their_text() {
    let id = ContractId::new(" padded ").expect("a non-blank identifier is valid");
    assert_eq!(id.as_str(), " padded ");
    assert_eq!(ContractId::new(""), Err(ContractError::InvalidId));
}

#[test]
fn tracking_failures_convert_into_contract_errors() {
    assert_eq!(
        ContractError::from(TrackingError::EmptyLineage),
        ContractError::Tracking(TrackingError::EmptyLineage)
    );
}
