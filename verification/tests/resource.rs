use monstertruck_tracking::continuity::ContinuityResource;
use monstertruck_tracking::resource::{
    ContinuityMaxWork, ContinuitySolveError, ContinuityTotals, ContinuityTruncated,
    ContinuityWork, ContinuityWorkBudget, ContinuityWorkMeter,
};

fn work(iterations: u64, jacobian_elements: u64, qr_elements: u64, truncated: bool) -> ContinuityWork {
    ContinuityWork {
        iterations,
        jacobian_elements,
        qr_elements,
        truncated,
    }
}

fn meter_round(meter: &mut ContinuityWorkMeter) {
    meter.take();
    meter.charge(ContinuityWork {
        iterations: 2,
        jacobian_elements: 12,
        qr_elements: 20,
        truncated: false,
    });

    assert_eq!(
        meter.take(),
        ContinuityWork {
            iterations: 2,
            jacobian_elements: 12,
            qr_elements: 20,
            truncated: false,
        }
    );
    assert_eq!(meter.current(), ContinuityWork::default());
}

#[test]
fn resource_work_meter_accumulates_and_clears_on_the_current_thread() {
    let mut meter = ContinuityWorkMeter::new();
    meter_round(&mut meter);
}

#[test]
fn tests_work_meter_accumulates_and_clears_on_the_current_thread() {
    let mut meter = ContinuityWorkMeter::new();
    meter.charge(work(5, 5, 5, true));
    meter_round(&mut meter);
}

#[test]
fn budget_refusal_is_typed_and_marks_the_work_meter() {
    let mut meter = ContinuityWorkMeter::new();
    meter.take();
    let error = ContinuityWorkBudget::unbounded()
        .with_max_variables(3)
        .ensure(ContinuityResource::Variables, 4, &mut meter)
        .expect_err("the checked dimension exceeds its budget");

    assert_eq!(
        error,
        ContinuitySolveError::Truncated(ContinuityTruncated {
            resource: ContinuityResource::Variables,
            requested: 4,
            budget: 3,
        })
    );
    assert!(meter.take().truncated);
    assert_eq!(
        ContinuityWorkBudget::unbounded()
            .with_max_variables(3)
            .ensure(ContinuityResource::Variables, 3, &mut meter),
        Ok(())
    );
    assert_eq!(meter.current(), ContinuityWork::default());
    assert_eq!(
        ContinuitySolveError::from(ContinuityTruncated {
            resource: ContinuityResource::Spans,
            requested: 9,
            budget: 8,
        })
        .message(),
        "continuity solver Spans budget exhausted: requested 9, budget 8"
    );
}

#[test]
fn budget_limits_are_set_one_resource_at_a_time() {
    let budget = ContinuityWorkBudget::unbounded()
        .with_max_iterations(1)
        .with_max_control_points(2)
        .with_max_spans(3)
        .with_max_samples(4)
        .with_max_variables(5)
        .with_max_residuals(6)
        .with_max_jacobian_elements(7)
        .with_max_qr_elements(8);
    assert_eq!(budget.max_iterations(), 1);
    assert_eq!(budget.max_control_points(), 2);
    assert_eq!(budget.max_spans(), 3);
    assert_eq!(budget.max_samples(), 4);
    assert_eq!(budget.max_variables(), 5);
    assert_eq!(budget.max_residuals(), 6);
    assert_eq!(budget.max_jacobian_elements(), 7);
    assert_eq!(budget.max_qr_elements(), 8);
    assert_eq!(budget.limit(ContinuityResource::Spans), 3);
    assert_eq!(
        ContinuityWorkBudget::unbounded().limit(ContinuityResource::QrElements),
        usize::MAX
    );
}

#[test]
fn meter_saturates_and_keeps_truncation() {
    let mut meter = ContinuityWorkMeter::new();
    meter.charge(work(u64::MAX - 1, 1, 0, true));
    meter.charge(work(5, 2, 3, false));
    assert_eq!(meter.current(), work(u64::MAX, 3, 3, true));
}

#[test]
fn totals_wrap_and_count_truncations() {
    let mut totals = ContinuityTotals::new();
    totals.charge(work(u64::MAX, 1, 2, true));
    totals.charge(work(2, 1, 2, false));
    totals.charge(work(0, 0, 0, true));
    assert_eq!(totals.read(), (work(1, 2, 4, true), 2));
    assert_eq!(totals.take(), (work(1, 2, 4, true), 2));
    assert_eq!(totals.read(), (work(0, 0, 0, false), 0));
}

#[test]
fn max_work_keeps_the_largest_single_solve() {
    let mut max = ContinuityMaxWork::new();
    max.record_solve(work(1, 10, 10, false), work(4, 12, 30, false));
    max.record_solve(work(0, 0, 50, false), work(2, 9, 40, true));
    assert_eq!(max.read(), work(3, 9, 20, false));
    assert_eq!(max.take(), work(3, 9, 20, false));
    assert_eq!(max.read(), ContinuityWork::default());
}
