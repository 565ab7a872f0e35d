use monstertruck_tracking::layout::{
    coefficient_index, optimizer_frame_sample_count, TransitionLayout, COEFFICIENT_COUNT,
};
use monstertruck_tracking::resource::ContinuitySolveError;

#[test]
fn transition_layout_partitions_every_order_without_overlap() {
    (0..=4).for_each(|order| {
        let start = 7;
        let field_count = 4;
        let layout = TransitionLayout::try_new(order, field_count, start)
            .expect("small transition layouts are representable");
        let variables = (0..start + layout.variable_count()).collect::<Vec<usize>>();

        assert_eq!(layout.seam_map(&variables).len(), field_count - 1);
        assert_eq!(layout.seam_map(&variables)[0], start);
        if order > 0 {
            assert_eq!(layout.alpha(&variables, 1)[0], start + field_count - 1);
            assert_eq!(
                layout.log_beta(&variables)[0],
                start + field_count - 1 + order * field_count
            );
            if order > 1 {
                assert_eq!(
                    layout.beta(&variables, order)[field_count - 1],
                    start + layout.variable_count() - 1
                );
            }
        }
    });
}

#[test]
fn transition_layout_refuses_overflowing_dimensions() {
    let overflow = Err(ContinuitySolveError::InvalidConfig(
        "transition field dimension overflowed",
    ));
    assert_eq!(TransitionLayout::try_new(1, 2, usize::MAX), overflow);
    assert_eq!(TransitionLayout::try_new(usize::MAX, 2, 0), overflow);
    assert_eq!(TransitionLayout::try_new(usize::MAX / 2 + 1, 1, 0), overflow);
    assert_eq!(
        TransitionLayout::try_new(0, 5, 3).map(|layout| layout.variable_count()),
        Ok(4)
    );
    assert_eq!(
        TransitionLayout::try_new(3, 0, 9).map(|layout| layout.variable_count()),
        Ok(0)
    );
}

#[test]
fn optimizer_sample_count_closes_every_span() {
    assert_eq!(optimizer_frame_sample_count(3, 4), Ok(16));
    assert_eq!(optimizer_frame_sample_count(0, 9), Ok(1));
    assert_eq!(
        optimizer_frame_sample_count(1, usize::MAX),
        Err(ContinuitySolveError::InvalidConfig(
            "optimizer sample density overflowed"
        ))
    );
    assert_eq!(
        optimizer_frame_sample_count(usize::MAX, 1),
        Err(ContinuitySolveError::InvalidConfig(
            "optimizer sample count overflowed"
        ))
    );
}

#[test]
fn jet_coefficients_fill_every_slot_once() {
    let mut slots = Vec::new();
    for i in 0..=4 {
        for j in 0..=(4 - i) {
            slots.push(coefficient_index(i, j));
        }
    }
    assert_eq!(slots, (0..COEFFICIENT_COUNT).collect::<Vec<_>>());
    assert_eq!(coefficient_index(1, 1), 6);
    assert_eq!(coefficient_index(0, 2), 2);
}
