use monstertruck_tracking::tracking::error::TrackingError;
use monstertruck_tracking::tracking::model::{
    FeatureId, LineageRelation, OperationKind, SemanticLabel, SemanticTopologyRef, TopologyKind,
    TrackingGeneration, TrackingId, TrackingSessionId,
};
use monstertruck_tracking::tracking::session::TrackingSession;

fn session(name: &str) -> TrackingSession {
    TrackingSession::new(TrackingSessionId::new(name).expect("valid session ID"))
}

fn semantic(label: &str) -> SemanticTopologyRef {
    SemanticTopologyRef::new(
        FeatureId::new("feature-1").expect("valid feature ID"),
        TopologyKind::Face,
        SemanticLabel::new(label).expect("valid label"),
    )
}

#[test]
fn descendants_follow_split_and_generated_lineage() {
    let mut session = session("lineage");
    let a = session.allocate().expect("serial available");
    let b = session.allocate().expect("serial available");
    let c = session.allocate().expect("serial available");
    let d = session.allocate().expect("serial available");
    session
        .record_lineage(OperationKind::Split, LineageRelation::Split, a.clone(), vec![b.clone(), c.clone()])
        .expect("the split is valid");
    session
        .record_lineage(OperationKind::Extrude, LineageRelation::Generated, b.clone(), vec![d.clone()])
        .expect("the generation is valid");

    assert_eq!(
        session.descendants(&a),
        Ok(vec![b.clone(), d.clone(), c.clone()])
    );
    assert_eq!(session.descendants(&c), Ok(vec![c.clone()]));
    session.bind(semantic("top"), a.clone()).expect("binding is valid");
    assert_eq!(
        session.resolve_descendants(&semantic("top")),
        Ok(vec![b, d, c])
    );
    assert!(matches!(
        session.resolve_descendants(&semantic("bottom")),
        Err(TrackingError::UnknownSemanticReference(_))
    ));
}

#[test]
fn deleted_lineage_removes_the_parent() {
    let mut session = session("deleted");
    let a = session.allocate().expect("serial available");
    session
        .record_lineage(OperationKind::Cut, LineageRelation::Deleted, a.clone(), vec![])
        .expect("a deletion has no children");
    assert_eq!(session.descendants(&a), Ok(vec![]));
}

#[test]
fn malformed_lineage_is_refused_without_change() {
    let mut session = session("refusals");
    let a = session.allocate().expect("serial available");
    let b = session.allocate().expect("serial available");
    assert_eq!(
        session
            .record_lineage(OperationKind::Split, LineageRelation::Split, a.clone(), vec![])
            .map(|_| ()),
        Err(TrackingError::EmptyLineage)
    );
    assert_eq!(
        session
            .record_lineage(OperationKind::Cut, LineageRelation::Deleted, a.clone(), vec![b.clone()])
            .map(|_| ()),
        Err(TrackingError::DeletedLineageHasChildren)
    );
    assert_eq!(
        session
            .record_lineage(
                OperationKind::Split,
                LineageRelation::Split,
                a.clone(),
                vec![b.clone(), b.clone()]
            )
            .map(|_| ()),
        Err(TrackingError::DuplicateLineageChild)
    );
    let unknown: TrackingId = "refusals@0:9".parse().expect("valid compact ID");
    assert_eq!(
        session
            .record_lineage(OperationKind::Split, LineageRelation::Split, a, vec![unknown.clone()])
            .map(|_| ()),
        Err(TrackingError::UnknownTrackingId(unknown))
    );
    assert!(session.lineage().is_empty());
}

#[test]
fn conflicting_bindings_are_refused() {
    let mut session = session("conflicts");
    let a = session.allocate().expect("serial available");
    let b = session.allocate().expect("serial available");
    session.bind(semantic("top"), a.clone()).expect("binding is valid");
    assert!(matches!(
        session.bind(semantic("top"), b.clone()),
        Err(TrackingError::SemanticReferenceAlreadyBound { .. })
    ));
    assert!(matches!(
        session.bind(semantic("side"), a.clone()),
        Err(TrackingError::TrackingIdAlreadyBound { .. })
    ));
    assert_eq!(session.bindings().len(), 1);
    assert_eq!(
        session
            .binding_for_tracking_id(&a)
            .map(|binding| binding.map(|binding| binding.reference().clone())),
        Ok(Some(semantic("top")))
    );
    assert_eq!(
        session.binding_for_tracking_id(&b).map(|binding| binding.is_none()),
        Ok(true)
    );
}

#[test]
fn session_state_is_checked_when_restored() {
    let mut live = session("restored");
    let a = live.allocate().expect("serial available");
    live.bind(semantic("top"), a.clone()).expect("binding is valid");
    let restored = TrackingSession::from_parts(
        live.id().clone(),
        live.generation(),
        live.next_serial(),
        live.bindings().to_vec(),
        live.lineage().to_vec(),
    )
    .expect("a live session's parts are valid");
    assert_eq!(restored, live);

    assert!(matches!(
        TrackingSession::from_parts(
            live.id().clone(),
            live.generation(),
            0,
            vec![],
            vec![],
        ),
        Err(TrackingError::InvalidSessionState(_))
    ));
    assert!(matches!(
        TrackingSession::from_parts(
            live.id().clone(),
            TrackingGeneration::new(1),
            live.next_serial(),
            live.bindings().to_vec(),
            vec![],
        ),
        Err(TrackingError::StaleGeneration { .. })
    ));
}
