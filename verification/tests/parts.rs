use monstertruck_tracking::continuity::{
    boundary_axis, cross_axis, BoundaryAlignment, BoundaryContinuityRequest,
    BoundaryTransitionEvaluationError, ContinuityMaturity, ContinuityOrder, SurfaceAxis,
    SurfaceBoundary,
};
use monstertruck_tracking::decimal::{parse_u64, push_decimal};
use monstertruck_tracking::decorators::{
    EdgeBlendSurface, HomotopySurface, NormalOffsetField, OffsetCurve, OffsetSurface,
    ParameterCurve, RollingBallFilletSurface,
};
use monstertruck_tracking::text::{
    check_text, compare_text, control_char, reason_text, white_space, Precedence, TextIssue,
};
use monstertruck_tracking::tracking::error::TrackingError;
use monstertruck_tracking::tracking::model::{TopologyKind, TrackingGeneration};

#[test]
fn white_space_matches_the_standard_library_for_every_char() {
    for code in 0u32..=0x10ffff {
        if let Some(c) = char::from_u32(code) {
            assert_eq!(white_space(c), c.is_whitespace(), "{code:#x}");
            assert_eq!(control_char(c), c.is_control(), "{code:#x}");
        }
    }
}

#[test]
fn identifier_rules_report_the_first_issue() {
    assert_eq!(check_text(""), Some(TextIssue::Empty));
    assert_eq!(check_text(" a"), Some(TextIssue::SurroundingWhitespace));
    assert_eq!(check_text("a\u{3000}"), Some(TextIssue::SurroundingWhitespace));
    assert_eq!(check_text("a\u{7}b"), Some(TextIssue::ControlCharacter));
    assert_eq!(check_text("a b"), None);
    assert_eq!(reason_text(TextIssue::Empty), "the value is empty");
    assert_eq!(
        reason_text(TextIssue::ControlCharacter),
        "control characters are not allowed"
    );
}

#[test]
fn text_order_is_the_string_order() {
    let words = ["", "a", "ab", "b", "B", "é", "aa", "a\u{0}"];
    for x in words {
        for y in words {
            let expected = match x.cmp(y) {
                std::cmp::Ordering::Less => Precedence::Before,
                std::cmp::Ordering::Equal => Precedence::Same,
                std::cmp::Ordering::Greater => Precedence::After,
            };
            assert_eq!(compare_text(x, y), expected, "{x:?} {y:?}");
        }
    }
}

#[test]
fn decimal_text_round_trips() {
    for n in [0u64, 7, 10, 99, 100, 123456789, u64::MAX] {
        let mut out = String::from("n=");
        push_decimal(&mut out, n);
        assert_eq!(out, format!("n={n}"));
        assert_eq!(parse_u64(&n.to_string()), Some(n));
    }
    assert_eq!(parse_u64("+5"), Some(5));
    assert_eq!(parse_u64("007"), Some(7));
    assert_eq!(parse_u64(""), None);
    assert_eq!(parse_u64("+"), None);
    assert_eq!(parse_u64("-1"), None);
    assert_eq!(parse_u64("1a"), None);
    assert_eq!(parse_u64("18446744073709551616"), None);
}

#[test]
fn continuity_orders_number_and_mature() {
    assert_eq!(ContinuityOrder::G3.as_usize(), 3);
    assert_eq!(ContinuityOrder::from_usize(2), Some(ContinuityOrder::G2));
    assert_eq!(ContinuityOrder::from_usize(5), None);
    assert_eq!(ContinuityOrder::G0.maturity(), ContinuityMaturity::Established);
    assert_eq!(ContinuityOrder::G2.maturity(), ContinuityMaturity::Procedural);
    assert_eq!(ContinuityOrder::G4.maturity(), ContinuityMaturity::Experimental);
    assert_eq!(cross_axis(SurfaceBoundary::UEnd), SurfaceAxis::U);
    assert_eq!(boundary_axis(SurfaceBoundary::UEnd), SurfaceAxis::V);
    assert_eq!(cross_axis(SurfaceBoundary::VStart), SurfaceAxis::V);
    assert_eq!(boundary_axis(SurfaceBoundary::VStart), SurfaceAxis::U);
}

#[test]
fn continuity_requests_keep_their_parts() {
    let request = BoundaryContinuityRequest::new(
        SurfaceBoundary::UStart,
        SurfaceBoundary::VEnd,
        BoundaryAlignment::Reversed,
        ContinuityOrder::G1,
    );
    assert_eq!(request.first_side(), SurfaceBoundary::UStart);
    assert_eq!(request.second_side(), SurfaceBoundary::VEnd);
    assert_eq!(request.alignment(), BoundaryAlignment::Reversed);
    assert_eq!(request.order(), ContinuityOrder::G1);
    assert_eq!(
        BoundaryTransitionEvaluationError::CrossCoordinateUnavailable.message(),
        "a G0 transition has no solved off-seam cross coordinate"
    );
}

#[test]
fn tracking_errors_read_as_messages() {
    assert_eq!(
        TrackingError::StaleGeneration {
            current: TrackingGeneration::new(2),
            actual: TrackingGeneration::new(1),
        }
        .message(),
        "tracking ID belongs to generation `1`, current generation is `2`"
    );
    assert_eq!(
        TrackingError::UntrackedTopology(TopologyKind::Vertex).message(),
        "the Vertex topology is not tracked"
    );
    assert_eq!(
        TrackingError::SerialOverflow.message(),
        "the tracking serial counter is exhausted"
    );
}

#[test]
fn decorators_hand_back_their_parts() {
    let mut blend = EdgeBlendSurface::new(
        ParameterCurve::new(1u8, 2u16),
        3u32,
        ParameterCurve::new(4u8, 5u16),
        6u64,
    );
    assert_eq!(blend.pcurve0().curve(), &1);
    assert_eq!(blend.pcurve0().surface(), &2);
    assert_eq!(blend.pcurve1().curve(), &4);
    assert_eq!(blend.magnitude0(), &3);
    assert_eq!(blend.magnitude1(), &6);
    *blend.magnitude1_mut() = 60;
    *blend.pcurve0_mut() = ParameterCurve::new(10, 20);
    *blend.magnitude0_mut() = 30;
    *blend.pcurve1_mut() = ParameterCurve::new(40, 50);
    assert_eq!(
        blend,
        EdgeBlendSurface::new(
            ParameterCurve::new(10, 20),
            30,
            ParameterCurve::new(40, 50),
            60
        )
    );

    let mut homotopy = HomotopySurface::new("first", "second");
    assert_eq!(homotopy.first_curve(), &"first");
    *homotopy.second_curve_mut() = "other";
    *homotopy.first_curve_mut() = "one";
    assert_eq!(homotopy, HomotopySurface::new("one", "other"));

    let offset = OffsetCurve::new(1, 2);
    assert_eq!((offset.entity(), offset.offset()), (&1, &2));
    let offset = OffsetSurface::new(3, 4);
    assert_eq!((offset.entity(), offset.offset()), (&3, &4));
    let field = NormalOffsetField::new(5, 6);
    assert_eq!((field.entity(), field.scalar()), (&5, &6));

    let fillet = RollingBallFilletSurface::new('c', 's', 't', 9);
    assert_eq!(fillet.edge_curve(), &'c');
    assert_eq!(fillet.surface0(), &'s');
    assert_eq!(fillet.surface1(), &'t');
    assert_eq!(fillet.radius(), &9);
    let contact0 = fillet.contact_curve0();
    let contact1 = fillet.contact_curve1();
    assert_eq!((contact0.index(), contact1.index()), (0, 1));
    assert_eq!(contact0.fillet_surface(), &fillet);
    assert_eq!(contact1.fillet_surface(), &fillet);
}
