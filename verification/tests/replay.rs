use monstertruck_tracking::continuity::{
    BoundaryAlignment, BoundaryContinuityRequest, BoundaryEndpoint, ContinuityOrder,
    SurfaceBoundary,
};
use monstertruck_tracking::contract::{
    ContinuityContract, ContractError, ContractId, SurfaceBoundaryRef,
};
use monstertruck_tracking::replay::{
    prepare_boundary_continuity_requests, ContinuityReplayError, TrackedSurfaceIdRegistry,
};
use monstertruck_tracking::tracking::error::TrackingError;
use monstertruck_tracking::tracking::model::{
    FeatureId, SemanticLabel, SemanticTopologyRef, TopologyKind, TrackingId, TrackingSessionId,
};
use monstertruck_tracking::tracking::session::TrackingSession;

fn semantic(feature: &str, label: &str) -> SemanticTopologyRef {
    SemanticTopologyRef::new(
        FeatureId::new(feature).expect("the test feature ID is valid"),
        TopologyKind::Face,
        SemanticLabel::new(label).expect("the test semantic label is valid"),
    )
}

fn contract(
    id: &str,
    first: SemanticTopologyRef,
    second: SemanticTopologyRef,
    alignment: BoundaryAlignment,
    order: ContinuityOrder,
) -> ContinuityContract {
    ContinuityContract::new(
        ContractId::new(id).expect("the test contract ID is valid"),
        SurfaceBoundaryRef::new(first, SurfaceBoundary::UEnd)
            .expect("the first endpoint identifies a face"),
        SurfaceBoundaryRef::new(second, SurfaceBoundary::VStart)
            .expect("the second endpoint identifies a face"),
        alignment,
        order,
    )
    .expect("the test contract endpoints are distinct")
}

fn session() -> TrackingSession {
    TrackingSession::new(
        TrackingSessionId::new("continuity-replay").expect("the test tracking-session ID is valid"),
    )
}

fn bind(session: &mut TrackingSession, reference: SemanticTopologyRef) -> TrackingId {
    let tracking_id = session
        .allocate()
        .expect("the test tracking serial is available");
    session
        .bind(reference, tracking_id.clone())
        .expect("the test semantic binding is unique");
    tracking_id
}

#[test]
fn batch_maps_contracts_in_canonical_id_order() {
    let first_a = semantic("loft", "first-a");
    let second_a = semantic("loft", "second-a");
    let first_b = semantic("blend", "first-b");
    let second_b = semantic("blend", "second-b");
    let contract_b = contract(
        "b-contract",
        first_b.clone(),
        second_b.clone(),
        BoundaryAlignment::Aligned,
        ContinuityOrder::G2,
    );
    let contract_a = contract(
        "a-contract",
        first_a.clone(),
        second_a.clone(),
        BoundaryAlignment::Reversed,
        ContinuityOrder::G3,
    );
    let mut session = session();
    let ids = [
        bind(&mut session, first_a),
        bind(&mut session, second_a),
        bind(&mut session, first_b),
        bind(&mut session, second_b),
    ];
    let surfaces = TrackedSurfaceIdRegistry::try_new(&session, ids.to_vec())
        .expect("all surface IDs are current and unique");

    let prepared =
        prepare_boundary_continuity_requests(&session, &surfaces, &[contract_b, contract_a])
            .expect("every contract endpoint is registered");

    assert_eq!(prepared[0].contract_id().as_str(), "a-contract");
    assert_eq!(
        prepared[0].request(),
        BoundaryContinuityRequest::new(
            SurfaceBoundary::UEnd,
            SurfaceBoundary::VStart,
            BoundaryAlignment::Reversed,
            ContinuityOrder::G3,
        ),
    );
    assert_eq!(prepared[0].first_surface(), &ids[0]);
    assert_eq!(prepared[0].second_surface(), &ids[1]);
    assert_eq!(prepared[1].contract_id().as_str(), "b-contract");
}

#[test]
fn missing_surface_rejects_the_entire_batch() {
    let first = semantic("loft", "first");
    let second = semantic("loft", "second");
    let contract = contract(
        "missing-second",
        first.clone(),
        second.clone(),
        BoundaryAlignment::Aligned,
        ContinuityOrder::G1,
    );
    let mut session = session();
    let first_id = bind(&mut session, first);
    let second_id = bind(&mut session, second);
    let surfaces = TrackedSurfaceIdRegistry::try_new(&session, vec![first_id])
        .expect("the registered surface ID is current");

    let error = prepare_boundary_continuity_requests(&session, &surfaces, &[contract])
        .expect_err("an absent endpoint must reject the batch");

    assert!(matches!(
        error,
        ContinuityReplayError::SurfaceNotRegistered {
            endpoint: BoundaryEndpoint::Second,
            tracking_id,
            ..
        } if tracking_id == second_id
    ));
}

#[test]
fn registry_rejects_duplicate_and_stale_surface_ids() {
    let mut session = session();
    let tracking_id = session
        .allocate()
        .expect("the test tracking serial is available");
    assert_eq!(
        TrackedSurfaceIdRegistry::try_new(&session, vec![tracking_id.clone(), tracking_id.clone()]),
        Err(ContinuityReplayError::DuplicateSurfaceId {
            tracking_id: tracking_id.clone(),
        }),
    );

    session
        .advance_generation()
        .expect("the test tracking generation is available");
    assert!(matches!(
        TrackedSurfaceIdRegistry::try_new(&session, vec![tracking_id]),
        Err(ContinuityReplayError::InvalidSurfaceId {
            source,
            ..
        }) if matches!(*source, TrackingError::StaleGeneration { .. }),
    ));
}

#[test]
fn duplicate_contract_ids_are_rejected_before_resolution() {
    let first = semantic("loft", "first");
    let second = semantic("loft", "second");
    let first_contract = contract(
        "duplicate",
        first.clone(),
        second.clone(),
        BoundaryAlignment::Aligned,
        ContinuityOrder::G1,
    );
    let second_contract = contract(
        "duplicate",
        first,
        second,
        BoundaryAlignment::Reversed,
        ContinuityOrder::G3,
    );
    let session = session();
    let surfaces =
        TrackedSurfaceIdRegistry::try_new(&session, vec![]).expect("an empty registry is valid");

    assert_eq!(
        prepare_boundary_continuity_requests(
            &session,
            &surfaces,
            &[first_contract, second_contract],
        ),
        Err(ContinuityReplayError::DuplicateContractId {
            contract_id: ContractId::new("duplicate").expect("the test contract ID is valid"),
        }),
    );
}

#[test]
fn registry_keeps_ids_sorted_and_answers_membership() {
    let mut session = session();
    let a = session.allocate().expect("the serial range is available");
    let b = session.allocate().expect("the serial range is available");
    let c = session.allocate().expect("the serial range is available");
    let registry = TrackedSurfaceIdRegistry::try_new(&session, vec![c.clone(), a.clone()])
        .expect("current unique IDs register");

    assert_eq!(registry.len(), 2);
    assert!(!registry.is_empty());
    assert_eq!(registry.iter(), &[a.clone(), c.clone()]);
    assert!(registry.contains(&a));
    assert!(!registry.contains(&b));
    assert!(registry.contains(&c));
    let empty = TrackedSurfaceIdRegistry::try_new(&session, vec![]).expect("empty registers");
    assert!(empty.is_empty());
}

#[test]
fn unbound_endpoint_fails_with_the_contract_resolution_error() {
    let contract = contract(
        "unbound",
        semantic("loft", "first"),
        semantic("loft", "second"),
        BoundaryAlignment::Aligned,
        ContinuityOrder::G0,
    );
    let session = session();
    let surfaces = TrackedSurfaceIdRegistry::try_new(&session, vec![]).expect("empty registers");
    assert!(matches!(
        prepare_boundary_continuity_requests(&session, &surfaces, &[contract]),
        Err(ContinuityReplayError::ContractResolution { contract_id, source })
            if contract_id.as_str() == "unbound"
                && matches!(*source, ContractError::Tracking(TrackingError::UnknownSemanticReference(_)))
    ));
}

#[test]
fn failing_contract_with_least_id_is_reported() {
    let mut session = session();
    let registered = bind(&mut session, semantic("loft", "registered"));
    let missing_a = bind(&mut session, semantic("loft", "missing-a"));
    let _missing_z = bind(&mut session, semantic("loft", "missing-z"));
    let surfaces = TrackedSurfaceIdRegistry::try_new(&session, vec![registered])
        .expect("current IDs register");
    let z = contract(
        "z-contract",
        semantic("loft", "registered"),
        semantic("loft", "missing-z"),
        BoundaryAlignment::Aligned,
        ContinuityOrder::G1,
    );
    let a = contract(
        "a-contract",
        semantic("loft", "missing-a"),
        semantic("loft", "registered"),
        BoundaryAlignment::Aligned,
        ContinuityOrder::G1,
    );
    let error = prepare_boundary_continuity_requests(&session, &surfaces, &[z, a])
        .expect_err("both contracts miss a surface");
    assert!(matches!(
        error,
        ContinuityReplayError::SurfaceNotRegistered {
            contract_id,
            endpoint: BoundaryEndpoint::First,
            tracking_id,
        } if contract_id.as_str() == "a-contract" && tracking_id == missing_a
    ));
}
