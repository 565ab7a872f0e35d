use monstertruck_tracking::capability::{
    capability_for_degree_and_rows, capability_from_facts, UnsupportedContinuityCapability,
};
use monstertruck_tracking::continuity::{ContinuityOrder, SurfaceBoundary};

#[test]
fn quadratic_side_supports_curvature_continuity() {
    let capability =
        capability_from_facts((1, 2), (2, 3), SurfaceBoundary::VStart, ContinuityOrder::G2);
    assert_eq!(capability.unsupported_reason(), None);
    assert_eq!(capability.maximum_supported_order(), Some(ContinuityOrder::G2));
    assert_eq!(capability.cross_degree(), 2);
    assert_eq!(capability.cross_control_rows(), 3);
    assert_eq!(capability.side(), SurfaceBoundary::VStart);
    assert_eq!(capability.requested(), ContinuityOrder::G2);
    assert_eq!(capability.require_supported(), Ok(capability));
    assert!(capability.report().is_supported());
}

#[test]
fn shortfalls_name_what_is_missing() {
    let both = capability_for_degree_and_rows(1, 2, SurfaceBoundary::UEnd, ContinuityOrder::G3);
    assert_eq!(
        both.unsupported_reason(),
        Some(UnsupportedContinuityCapability::InsufficientDegreeAndControlRows {
            available_degree: 1,
            required_degree: 3,
            available_rows: 2,
            required_rows: 4,
        })
    );
    assert_eq!(both.maximum_supported_order(), Some(ContinuityOrder::G1));

    let degree = capability_for_degree_and_rows(1, 5, SurfaceBoundary::UEnd, ContinuityOrder::G2);
    assert_eq!(
        degree.require_supported(),
        Err(UnsupportedContinuityCapability::InsufficientDegree {
            available: 1,
            required: 2,
        })
    );

    let rows = capability_for_degree_and_rows(7, 3, SurfaceBoundary::UStart, ContinuityOrder::G3);
    assert_eq!(
        rows.unsupported_reason(),
        Some(UnsupportedContinuityCapability::InsufficientControlRows {
            available: 3,
            required: 4,
        })
    );
    assert_eq!(rows.maximum_supported_order(), Some(ContinuityOrder::G2));
}

#[test]
fn maximum_order_is_capped_at_the_highest_order() {
    let capability =
        capability_for_degree_and_rows(9, 12, SurfaceBoundary::VEnd, ContinuityOrder::G4);
    assert_eq!(capability.unsupported_reason(), None);
    assert_eq!(capability.maximum_supported_order(), Some(ContinuityOrder::G4));
    let picked =
        capability_from_facts((3, 1), (4, 2), SurfaceBoundary::UStart, ContinuityOrder::G3);
    assert_eq!((picked.cross_degree(), picked.cross_control_rows()), (3, 4));
    assert_eq!(picked.unsupported_reason(), None);
}
