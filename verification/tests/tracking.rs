use monstertruck_tracking::tracking::error::TrackingError;
use monstertruck_tracking::tracking::model::{
    FeatureId, LineageRelation, OperationKind, SemanticLabel, SemanticTopologyRef, TopologyKind,
    TrackingGeneration, TrackingId, TrackingSessionId,
};
use monstertruck_tracking::tracking::session::TrackingSession;
use std::collections::BTreeSet;

fn session_id(value: &str) -> TrackingSessionId {
    TrackingSessionId::new(value).expect("the test session identifier is valid")
}

fn semantic(label: &str) -> SemanticTopologyRef {
    SemanticTopologyRef::new(
        FeatureId::new("feature-1").expect("the test feature identifier is valid"),
        TopologyKind::Face,
        SemanticLabel::new(label).expect("the test semantic label is valid"),
    )
}

#[test]
fn allocation_uses_one_serial_namespace_for_all_topology() {
    let mut session = TrackingSession::new(session_id("browser-session"));
    let vertex = session.allocate().expect("the serial range is available");
    let edge = session.allocate().expect("the serial range is available");
    let face = session.allocate().expect("the serial range is available");

    assert_eq!([vertex.serial(), edge.serial(), face.serial()], [1, 2, 3]);
    assert_eq!(BTreeSet::from([vertex, edge, face]).len(), 3);
}

#[test]
fn session_qualification_makes_equal_serials_globally_unique() {
    let mut first = TrackingSession::new(session_id("first"));
    let mut second = TrackingSession::new(session_id("second"));
    let first_id = first.allocate().expect("the serial range is available");
    let second_id = second.allocate().expect("the serial range is available");

    assert_eq!(first_id.serial(), second_id.serial());
    assert_ne!(first_id, second_id);
}

#[test]
fn replay_resets_serials_but_invalidates_old_ids() {
    let mut session = TrackingSession::new(session_id("replay"));
    let reference = semantic("top");
    let old_id = session.allocate().expect("the serial range is available");
    session
        .bind(reference.clone(), old_id.clone())
        .expect("the binding is valid");
    session
        .record_lineage(
            OperationKind::Mapping,
            LineageRelation::Preserved,
            old_id.clone(),
            vec![old_id.clone()],
        )
        .expect("the lineage is valid");

    let generation = session
        .advance_generation()
        .expect("the generation range is available");
    let replayed_id = session.allocate().expect("the serial range is available");

    assert_eq!(generation, TrackingGeneration::new(1));
    assert_eq!(old_id.serial(), replayed_id.serial());
    assert_ne!(old_id, replayed_id);
    assert!(session.bindings().is_empty());
    assert!(session.lineage().is_empty());
    assert!(matches!(
        session.validate_current(&old_id),
        Err(TrackingError::StaleGeneration { .. }),
    ));
}

#[test]
fn validation_rejects_cross_session_and_unknown_ids() {
    let mut first = TrackingSession::new(session_id("first"));
    let second = TrackingSession::new(session_id("second"));
    let allocated = first.allocate().expect("the serial range is available");
    let unknown: TrackingId = "first@0:2"
        .parse()
        .expect("the compact tracking ID is valid");

    assert!(matches!(
        second.validate_current(&allocated),
        Err(TrackingError::WrongSession { .. }),
    ));
    assert_eq!(
        first.validate_current(&unknown),
        Err(TrackingError::UnknownTrackingId(unknown)),
    );
}

#[test]
fn binding_is_idempotent_and_resolves_current_id() {
    let mut session = TrackingSession::new(session_id("binding"));
    let reference = semantic("top");
    let tracking_id = session.allocate().expect("the serial range is available");

    session
        .bind(reference.clone(), tracking_id.clone())
        .expect("the binding is valid");
    session
        .bind(reference.clone(), tracking_id.clone())
        .expect("repeating the binding is idempotent");

    assert_eq!(session.bindings().len(), 1);
    assert_eq!(session.resolve(&reference), Ok(&tracking_id));
}

#[test]
fn tracking_id_content_hash_covers_every_identity_component() {
    let first: TrackingId = "first@0:1"
        .parse()
        .expect("the compact tracking ID is valid");
    let other_session: TrackingId = "second@0:1"
        .parse()
        .expect("the compact tracking ID is valid");
    let other_generation: TrackingId = "first@1:1"
        .parse()
        .expect("the compact tracking ID is valid");
    let other_serial: TrackingId = "first@0:2"
        .parse()
        .expect("the compact tracking ID is valid");

    assert_ne!(first.content_hash64(), other_session.content_hash64());
    assert_ne!(first.content_hash64(), other_generation.content_hash64());
    assert_ne!(first.content_hash64(), other_serial.content_hash64());
}

#[test]
fn validated_strings_reject_ambiguous_or_unstable_values() {
    assert!(TrackingSessionId::new("contains:separator").is_err());
    assert!(TrackingSessionId::new("contains@separator").is_err());
    assert!(FeatureId::new(" feature").is_err());
    assert!(SemanticLabel::new("").is_err());
}

#[test]
fn tracking_id_compact_text_round_trips() {
    let mut session = TrackingSession::new(session_id("cad-session"));
    session
        .advance_generation()
        .expect("the generation range is available");
    let tracking_id = session.allocate().expect("the serial range is available");

    let text = tracking_id.to_compact_string();
    assert_eq!(text, "cad-session@1:1");
    assert_eq!(TrackingId::parse(&text), Ok(tracking_id));
}

#[test]
fn compact_text_parse_rejects_malformed_values() {
    assert_eq!(
        TrackingId::parse("first@0:0"),
        Err(TrackingError::InvalidTrackingId {
            value: "first@0:0".to_string()
        }),
    );
    assert!(matches!(
        TrackingId::parse("first0:1"),
        Err(TrackingError::InvalidTrackingId { .. })
    ));
    assert!(matches!(
        TrackingId::parse("first@x:1"),
        Err(TrackingError::InvalidTrackingId { .. })
    ));
    assert!(matches!(
        TrackingId::parse(" first@0:1"),
        Err(TrackingError::InvalidIdentifier { .. })
    ));
    assert_eq!(
        TrackingId::parse("first@+2:18446744073709551615")
            .expect("a plus sign and the largest serial are accepted")
            .serial(),
        u64::MAX
    );
    assert!(TrackingId::parse("first@0:18446744073709551616").is_err());
}

#[test]
fn content_bytes_spell_each_component() {
    let id: TrackingId = "ab@1:2".parse().expect("the compact tracking ID is valid");
    assert_eq!(
        id.content_bytes(),
        vec![
            0x61, 0, 0, 0, 0x62, 0, 0, 0, 0xff, 0xff, 0xff, 0xff, 1, 0, 0, 0, 0, 0, 0, 0, 2, 0,
            0, 0, 0, 0, 0, 0
        ]
    );
}

#[test]
fn content_hash_is_fnv1a_of_the_content_bytes() {
    let id: TrackingId = "ab@1:2".parse().expect("the compact tracking ID is valid");
    let mut hash: u64 = 0xcbf2_9ce4_8422_2325;
    for byte in id.content_bytes() {
        hash = (hash ^ u64::from(byte)).wrapping_mul(0x0000_0100_0000_01b3);
    }
    assert_eq!(id.content_hash64(), hash);
    assert_eq!(monstertruck_tracking::content::fnv1a_64(&[]), 0xcbf2_9ce4_8422_2325);
    assert_eq!(
        monstertruck_tracking::content::fnv1a_64(b"a"),
        0xaf63_dc4c_8601_ec8c
    );
}
