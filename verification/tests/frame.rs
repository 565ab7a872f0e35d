use monstertruck_tracking::continuity::{
    BoundaryAlignment, BoundaryContinuityRequest, ContinuityOrder, SurfaceAxis, SurfaceBoundary,
};
use monstertruck_tracking::layout::validation_density;
use monstertruck_tracking::resource::ContinuitySolveError;
use monstertruck_tracking::frame::{axis_degree, control_net_shape, BoundaryFrame, BoundaryFrameError};

fn frame(boundary: SurfaceBoundary) -> BoundaryFrame {
    let (u_count, v_count) = control_net_shape(&[3, 3, 3, 3]).expect("the net is rectangular");
    let u_degree = axis_degree(7, u_count, SurfaceAxis::U).expect("enough u knots");
    let v_degree = axis_degree(5, v_count, SurfaceAxis::V).expect("enough v knots");
    BoundaryFrame::from_axes(boundary, (u_degree, u_count), (v_degree, v_count))
}

#[test]
fn frames_expose_axis_degree_and_control_layout() {
    let u_boundary = frame(SurfaceBoundary::UStart);
    assert_eq!(u_boundary.boundary(), SurfaceBoundary::UStart);
    assert_eq!(u_boundary.along_axis(), SurfaceAxis::V);
    assert_eq!(u_boundary.cross_axis(), SurfaceAxis::U);
    assert_eq!(u_boundary.along_degree(), 1);
    assert_eq!(u_boundary.cross_degree(), 2);
    assert_eq!(u_boundary.along_control_count(), 3);
    assert_eq!(u_boundary.cross_control_count(), 4);

    let v_boundary = frame(SurfaceBoundary::VStart);
    assert_eq!(v_boundary.along_axis(), SurfaceAxis::U);
    assert_eq!(v_boundary.cross_axis(), SurfaceAxis::V);
    assert_eq!(v_boundary.along_degree(), 2);
    assert_eq!(v_boundary.cross_degree(), 1);
    assert_eq!(v_boundary.along_control_count(), 4);
    assert_eq!(v_boundary.cross_control_count(), 3);
    assert_eq!((v_boundary.control_count_u(), v_boundary.control_count_v()), (4, 3));
}

#[test]
fn strip_indices_use_boundary_distance_then_seam_order() {
    assert_eq!(
        frame(SurfaceBoundary::UStart)
            .control_strip_indices(2)
            .expect("two rows fit"),
        vec![(0, 0), (0, 1), (0, 2), (1, 0), (1, 1), (1, 2)],
    );
    assert_eq!(
        frame(SurfaceBoundary::UEnd)
            .control_strip_indices(2)
            .expect("two rows fit"),
        vec![(3, 0), (3, 1), (3, 2), (2, 0), (2, 1), (2, 2)],
    );
    assert_eq!(
        frame(SurfaceBoundary::VStart)
            .control_strip_indices(2)
            .expect("two rows fit"),
        vec![(0, 0), (1, 0), (2, 0), (3, 0), (0, 1), (1, 1), (2, 1), (3, 1)],
    );
    assert_eq!(
        frame(SurfaceBoundary::VEnd)
            .control_strip_indices(2)
            .expect("two rows fit"),
        vec![(0, 2), (1, 2), (2, 2), (3, 2), (0, 1), (1, 1), (2, 1), (3, 1)],
    );
}

#[test]
fn oversized_strips_return_a_typed_error() {
    assert_eq!(
        frame(SurfaceBoundary::VStart).control_strip_indices(4),
        Err(BoundaryFrameError::StripExceedsControlNet {
            requested: 4,
            available: 3,
        }),
    );
    assert_eq!(frame(SurfaceBoundary::VStart).control_strip_indices(0), Ok(vec![]));
}

#[test]
fn control_point_lookup_stays_inside_the_net() {
    let frame = frame(SurfaceBoundary::UEnd);
    assert_eq!(frame.control_point_index(0, 2), Some((3, 2)));
    assert_eq!(frame.control_point_index(4, 0), None);
    assert_eq!(frame.control_point_index(0, 3), None);
}

#[test]
fn invalid_control_nets_and_knot_counts_are_refused() {
    assert_eq!(control_net_shape(&[]), Err(BoundaryFrameError::EmptyControlNet));
    assert_eq!(control_net_shape(&[0, 0]), Err(BoundaryFrameError::EmptyControlNet));
    assert_eq!(
        control_net_shape(&[2, 1]),
        Err(BoundaryFrameError::NonRectangularControlNet)
    );
    assert_eq!(
        axis_degree(3, 3, SurfaceAxis::V),
        Err(BoundaryFrameError::InvalidKnotCount {
            axis: SurfaceAxis::V,
            knots: 3,
            controls: 3,
        })
    );
    assert_eq!(
        axis_degree(5, usize::MAX, SurfaceAxis::U),
        Err(BoundaryFrameError::InvalidKnotCount {
            axis: SurfaceAxis::U,
            knots: 5,
            controls: usize::MAX,
        })
    );
    assert_eq!(axis_degree(4, 2, SurfaceAxis::U), Ok(1));
}

#[test]
fn validation_density_doubles_the_degree_sum_within_bounds() {
    let request = BoundaryContinuityRequest::new(
        SurfaceBoundary::UStart,
        SurfaceBoundary::VStart,
        BoundaryAlignment::Aligned,
        ContinuityOrder::G3,
    );
    let first = frame(SurfaceBoundary::UStart);
    let second = frame(SurfaceBoundary::VStart);
    assert_eq!(validation_density(first, second, request, 5), Ok(22));
    assert_eq!(validation_density(first, second, request, 100), Ok(64));
    let flat = BoundaryFrame::from_axes(SurfaceBoundary::UStart, (0, 1), (0, 1));
    let g0 = BoundaryContinuityRequest::new(
        SurfaceBoundary::UStart,
        SurfaceBoundary::UEnd,
        BoundaryAlignment::Aligned,
        ContinuityOrder::G0,
    );
    assert_eq!(validation_density(flat, flat, g0, 0), Ok(8));
    assert_eq!(
        validation_density(first, second, request, usize::MAX / 2),
        Err(ContinuitySolveError::InvalidConfig(
            "validation sample density overflowed"
        ))
    );
}
