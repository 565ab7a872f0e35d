//! Bounded-work controls and meters for dense continuity solving.

use vstd::prelude::*;

use crate::continuity::ContinuityResource;

verus! {

/// Mathematical value of a [`ContinuityWorkBudget`]: the limit of each
/// resource.
pub struct BudgetView {
    pub max_iterations: usize,
    pub max_control_points: usize,
    pub max_spans: usize,
    pub max_samples: usize,
    pub max_variables: usize,
    pub max_residuals: usize,
    pub max_jacobian_elements: usize,
    pub max_qr_elements: usize,
}

impl BudgetView {
    /// The limit that applies to `resource`.
    pub open spec fn limit(self, resource: ContinuityResource) -> usize {
        match resource {
            ContinuityResource::Iterations => self.max_iterations,
            ContinuityResource::ControlPoints => self.max_control_points,
            ContinuityResource::Spans => self.max_spans,
            ContinuityResource::Samples => self.max_samples,
            ContinuityResource::Variables => self.max_variables,
            ContinuityResource::Residuals => self.max_residuals,
            ContinuityResource::JacobianElements => self.max_jacobian_elements,
            ContinuityResource::QrElements => self.max_qr_elements,
        }
    }
}

/// Each resource is limited by its own budget field: the limit of a
/// resource is the field named after it, and changing one field changes the
/// limit of that resource and of no other.
pub proof fn law_limit_is_the_resource_own_field(b: BudgetView, x: usize, r: ContinuityResource)
    ensures
        b.limit(ContinuityResource::Iterations) == b.max_iterations,
        b.limit(ContinuityResource::ControlPoints) == b.max_control_points,
        b.limit(ContinuityResource::Spans) == b.max_spans,
        b.limit(ContinuityResource::Samples) == b.max_samples,
        b.limit(ContinuityResource::Variables) == b.max_variables,
        b.limit(ContinuityResource::Residuals) == b.max_residuals,
        b.limit(ContinuityResource::JacobianElements) == b.max_jacobian_elements,
        b.limit(ContinuityResource::QrElements) == b.max_qr_elements,
        (BudgetView { max_samples: x, ..b }).limit(r) == if r == ContinuityResource::Samples {
            x
        } else {
            b.limit(r)
        },
        (BudgetView { max_residuals: x, ..b }).limit(r) == if r == ContinuityResource::Residuals {
            x
        } else {
            b.limit(r)
        },
        (BudgetView { max_iterations: x, ..b }).limit(r) == if r
            == ContinuityResource::Iterations {
            x
        } else {
            b.limit(r)
        },
        (BudgetView { max_variables: x, ..b }).limit(r) == if r == ContinuityResource::Variables {
            x
        } else {
            b.limit(r)
        },
{
}

/// Finite work limits applied by the boundary-continuity solver.
///
/// The defaults bound every caller-controlled dimension that contributes to
/// sampling or dense linear algebra. Use [`Self::unbounded`] only when a
/// trusted caller applies an equivalent external budget.
#[derive(Clone, Copy, Debug, Hash, PartialEq, Eq, Structural)]
pub struct ContinuityWorkBudget {
    max_iterations: usize,
    max_control_points: usize,
    max_spans: usize,
    max_samples: usize,
    max_variables: usize,
    max_residuals: usize,
    max_jacobian_elements: usize,
    max_qr_elements: usize,
}

impl View for ContinuityWorkBudget {
    type V = BudgetView;

    closed spec fn view(&self) -> BudgetView {
        BudgetView {
            max_iterations: self.max_iterations,
            max_control_points: self.max_control_points,
            max_spans: self.max_spans,
            max_samples: self.max_samples,
            max_variables: self.max_variables,
            max_residuals: self.max_residuals,
            max_jacobian_elements: self.max_jacobian_elements,
            max_qr_elements: self.max_qr_elements,
        }
    }
}

impl Default for ContinuityWorkBudget {
    fn default() -> (r: Self)
        ensures
            r@ == (BudgetView {
                max_iterations: 128,
                max_control_points: 1_048_576,
                max_spans: 4_096,
                max_samples: 32_768,
                max_variables: 2_048,
                max_residuals: 65_536,
                max_jacobian_elements: 4_194_304,
                max_qr_elements: 4_194_304,
            }),
    {
        Self {
            max_iterations: 128,
            max_control_points: 1_048_576,
            max_spans: 4_096,
            max_samples: 32_768,
            max_variables: 2_048,
            max_residuals: 65_536,
            max_jacobian_elements: 4_194_304,
            max_qr_elements: 4_194_304,
        }
    }
}

impl ContinuityWorkBudget {
    /// Returns a budget with no intentional finite limits.
    pub fn unbounded() -> (r: Self)
        ensures
            forall|resource: ContinuityResource| r@.limit(resource) == usize::MAX,
    {
        Self {
            max_iterations: usize::MAX,
            max_control_points: usize::MAX,
            max_spans: usize::MAX,
            max_samples: usize::MAX,
            max_variables: usize::MAX,
            max_residuals: usize::MAX,
            max_jacobian_elements: usize::MAX,
            max_qr_elements: usize::MAX,
        }
    }

    /// Returns the nonlinear iteration limit.
    pub fn max_iterations(self) -> (r: usize)
        ensures
            r == self@.max_iterations,
    {
        self.max_iterations
    }

    /// Returns the combined surface control-point limit.
    pub fn max_control_points(self) -> (r: usize)
        ensures
            r == self@.max_control_points,
    {
        self.max_control_points
    }

    /// Returns the combined nonzero seam-span limit.
    pub fn max_spans(self) -> (r: usize)
        ensures
            r == self@.max_spans,
    {
        self.max_spans
    }

    /// Returns the combined optimizer and certification sample limit.
    pub fn max_samples(self) -> (r: usize)
        ensures
            r == self@.max_samples,
    {
        self.max_samples
    }

    /// Returns the optimization-variable limit.
    pub fn max_variables(self) -> (r: usize)
        ensures
            r == self@.max_variables,
    {
        self.max_variables
    }

    /// Returns the combined optimizer and certification residual limit.
    pub fn max_residuals(self) -> (r: usize)
        ensures
            r == self@.max_residuals,
    {
        self.max_residuals
    }

    /// Returns the optimizer Jacobian element limit.
    pub fn max_jacobian_elements(self) -> (r: usize)
        ensures
            r == self@.max_jacobian_elements,
    {
        self.max_jacobian_elements
    }

    /// Returns the augmented QR matrix element limit.
    pub fn max_qr_elements(self) -> (r: usize)
        ensures
            r == self@.max_qr_elements,
    {
        self.max_qr_elements
    }

    /// Sets the nonlinear iteration limit.
    pub fn with_max_iterations(self, limit: usize) -> (r: Self)
        ensures
            r@ == (BudgetView { max_iterations: limit, ..self@ }),
    {
        Self { max_iterations: limit, ..self }
    }

    /// Sets the combined surface control-point limit.
    pub fn with_max_control_points(self, limit: usize) -> (r: Self)
        ensures
            r@ == (BudgetView { max_control_points: limit, ..self@ }),
    {
        Self { max_control_points: limit, ..self }
    }

    /// Sets the combined nonzero seam-span limit.
    pub fn with_max_spans(self, limit: usize) -> (r: Self)
        ensures
            r@ == (BudgetView { max_spans: limit, ..self@ }),
    {
        Self { max_spans: limit, ..self }
    }

    /// Sets the combined optimizer and certification sample limit.
    pub fn with_max_samples(self, limit: usize) -> (r: Self)
        ensures
            r@ == (BudgetView { max_samples: limit, ..self@ }),
    {
        Self { max_samples: limit, ..self }
    }

    /// Sets the optimization-variable limit.
    pub fn with_max_variables(self, limit: usize) -> (r: Self)
        ensures
            r@ == (BudgetView { max_variables: limit, ..self@ }),
    {
        Self { max_variables: limit, ..self }
    }

    /// Sets the combined optimizer and certification residual limit.
    pub fn with_max_residuals(self, limit: usize) -> (r: Self)
        ensures
            r@ == (BudgetView { max_residuals: limit, ..self@ }),
    {
        Self { max_residuals: limit, ..self }
    }

    /// Sets the optimizer Jacobian element limit.
    pub fn with_max_jacobian_elements(self, limit: usize) -> (r: Self)
        ensures
            r@ == (BudgetView { max_jacobian_elements: limit, ..self@ }),
    {
        Self { max_jacobian_elements: limit, ..self }
    }

    /// Sets the augmented QR matrix element limit.
    pub fn with_max_qr_elements(self, limit: usize) -> (r: Self)
        ensures
            r@ == (BudgetView { max_qr_elements: limit, ..self@ }),
    {
        Self { max_qr_elements: limit, ..self }
    }

    /// Returns the limit that applies to `resource`.
    pub fn limit(self, resource: ContinuityResource) -> (r: usize)
        ensures
            r == self@.limit(resource),
    {
        match resource {
            ContinuityResource::Iterations => self.max_iterations,
            ContinuityResource::ControlPoints => self.max_control_points,
            ContinuityResource::Spans => self.max_spans,
            ContinuityResource::Samples => self.max_samples,
            ContinuityResource::Variables => self.max_variables,
            ContinuityResource::Residuals => self.max_residuals,
            ContinuityResource::JacobianElements => self.max_jacobian_elements,
            ContinuityResource::QrElements => self.max_qr_elements,
        }
    }

    /// Checks a requested count against the limit for `resource`.
    ///
    /// Refuses with [`ContinuitySolveError::Truncated`], naming the resource,
    /// the request and the limit, exactly when the request exceeds the
    /// limit, and then marks `meter` as truncated; otherwise leaves `meter`
    /// unchanged.
    pub fn ensure(
        self,
        resource: ContinuityResource,
        requested: usize,
        meter: &mut ContinuityWorkMeter,
    ) -> (r: Result<(), ContinuitySolveError>)
        ensures
            requested <= self@.limit(resource) ==> r is Ok && final(meter)@ == old(meter)@,
            requested > self@.limit(resource) ==> r == Err::<(), ContinuitySolveError>(
                ContinuitySolveError::Truncated(
                    ContinuityTruncated { resource, requested, budget: self@.limit(resource) },
                ),
            ) && final(meter)@ == accumulate(old(meter)@, ContinuityWork { truncated: true, ..no_work() }),
    {
        let budget = self.limit(resource);
        if requested <= budget {
            Ok(())
        } else {
            meter.mark_truncated();
            Err(ContinuitySolveError::Truncated(ContinuityTruncated { resource, requested, budget }))
        }
    }
}

/// A failure of the continuity solver that its planning reports.
#[derive(Clone, Copy, Debug, PartialEq, Eq)]
pub enum ContinuitySolveError {
    /// A solver configuration invariant was violated.
    InvalidConfig(&'static str),
    /// A checked dimension exceeded its budget.
    Truncated(ContinuityTruncated),
}

impl From<ContinuityTruncated> for ContinuitySolveError {
    /// Wraps a budget refusal.
    fn from(source: ContinuityTruncated) -> (r: Self) {
        ContinuitySolveError::Truncated(source)
    }
}

impl vstd::std_specs::convert::FromSpecImpl<ContinuityTruncated> for ContinuitySolveError {
    open spec fn obeys_from_spec() -> bool {
        true
    }

    open spec fn from_spec(v: ContinuityTruncated) -> Self {
        ContinuitySolveError::Truncated(v)
    }
}

/// A checked continuity-work dimension exceeded its explicit budget.
#[derive(Clone, Copy, Debug, Hash, PartialEq, Eq, Structural)]
pub struct ContinuityTruncated {
    /// Dimension that exceeded the budget.
    pub resource: ContinuityResource,
    /// Checked required count.
    pub requested: usize,
    /// Configured maximum count.
    pub budget: usize,
}

/// What continuity solves cost since a meter was last cleared.
///
/// Counts are deterministic dense-work units rather than elapsed time.
#[derive(Clone, Copy, Debug, Hash, PartialEq, Eq, Structural)]
pub struct ContinuityWork {
    /// Nonlinear iterations attempted.
    pub iterations: u64,
    /// Dense Jacobian elements consumed by attempted iterations.
    pub jacobian_elements: u64,
    /// Dense augmented QR elements consumed by attempted iterations.
    pub qr_elements: u64,
    /// Whether a checked dimension exhausted its budget.
    pub truncated: bool,
}

/// No work at all.
pub open spec fn no_work() -> ContinuityWork {
    ContinuityWork { iterations: 0, jacobian_elements: 0, qr_elements: 0, truncated: false }
}

impl Default for ContinuityWork {
    fn default() -> (r: Self)
        ensures
            r == no_work(),
    {
        ContinuityWork { iterations: 0, jacobian_elements: 0, qr_elements: 0, truncated: false }
    }
}

/// `a + b`, or `u64::MAX` when the sum does not fit.
pub open spec fn saturating(a: u64, b: u64) -> u64 {
    if a + b > u64::MAX {
        u64::MAX
    } else {
        (a + b) as u64
    }
}

/// The work of `a` followed by `b`: counts add up, saturating at
/// `u64::MAX`, and truncation sticks.
pub open spec fn accumulate(a: ContinuityWork, b: ContinuityWork) -> ContinuityWork {
    ContinuityWork {
        iterations: saturating(a.iterations, b.iterations),
        jacobian_elements: saturating(a.jacobian_elements, b.jacobian_elements),
        qr_elements: saturating(a.qr_elements, b.qr_elements),
        truncated: a.truncated || b.truncated,
    }
}

/// Adds two counts, saturating at `u64::MAX`.
fn add_saturating(a: u64, b: u64) -> (r: u64)
    ensures
        r == saturating(a, b),
{
    a.saturating_add(b)
}

/// Running tally of the work charged to one thread of continuity solving.
#[derive(Clone, Copy, Debug, PartialEq, Eq, Structural)]
pub struct ContinuityWorkMeter {
    work: ContinuityWork,
}

impl View for ContinuityWorkMeter {
    type V = ContinuityWork;

    closed spec fn view(&self) -> ContinuityWork {
        self.work
    }
}

impl ContinuityWorkMeter {
    /// A meter that has charged no work.
    pub fn new() -> (r: Self)
        ensures
            r@ == no_work(),
    {
        ContinuityWorkMeter { work: ContinuityWork::default() }
    }

    /// Reads the charged work without clearing it.
    pub fn current(&self) -> (r: ContinuityWork)
        ensures
            r == self@,
    {
        self.work
    }

    /// Reads and clears the charged work.
    pub fn take(&mut self) -> (r: ContinuityWork)
        ensures
            r == old(self)@,
            final(self)@ == no_work(),
    {
        let r = self.work;
        self.work = ContinuityWork::default();
        r
    }

    /// Charges `work` to the meter.
    pub fn charge(&mut self, work: ContinuityWork)
        ensures
            final(self)@ == accumulate(old(self)@, work),
    {
        let current = self.work;
        self.work = ContinuityWork {
            iterations: add_saturating(current.iterations, work.iterations),
            jacobian_elements: add_saturating(current.jacobian_elements, work.jacobian_elements),
            qr_elements: add_saturating(current.qr_elements, work.qr_elements),
            truncated: current.truncated || work.truncated,
        };
    }

    /// Records that a checked dimension exhausted its budget.
    pub fn mark_truncated(&mut self)
        ensures
            final(self)@ == accumulate(
                old(self)@,
                ContinuityWork { truncated: true, ..no_work() },
            ),
    {
        self.charge(ContinuityWork { iterations: 0, jacobian_elements: 0, qr_elements: 0, truncated: true });
    }
}

/// Mathematical value of [`ContinuityTotals`].
pub struct TotalsView {
    pub iterations: u64,
    pub jacobian_elements: u64,
    pub qr_elements: u64,
    pub truncations: u64,
}

/// `a + b` modulo `2^64`, as an atomic `fetch_add` adds.
pub open spec fn wrapping(a: u64, b: u64) -> u64 {
    ((a + b) % 0x1_0000_0000_0000_0000) as u64
}

/// Adds two counts modulo `2^64`.
fn add_wrapping(a: u64, b: u64) -> (r: u64)
    ensures
        r == wrapping(a, b),
{
    if a <= u64::MAX - b {
        a + b
    } else {
        assert(a + b >= 0x1_0000_0000_0000_0000);
        assert(a + b < 2 * 0x1_0000_0000_0000_0000);
        let r = a - (u64::MAX - b) - 1;
        assert((a + b) % 0x1_0000_0000_0000_0000 == a + b - 0x1_0000_0000_0000_0000)
            by (nonlinear_arith)
            requires
                0x1_0000_0000_0000_0000 <= a + b < 2 * 0x1_0000_0000_0000_0000,
        ;
        r
    }
}

/// Work and refusal totals accumulated across every solve of a process.
#[derive(Clone, Copy, Debug, PartialEq, Eq, Structural)]
pub struct ContinuityTotals {
    iterations: u64,
    jacobian_elements: u64,
    qr_elements: u64,
    truncations: u64,
}

impl View for ContinuityTotals {
    type V = TotalsView;

    closed spec fn view(&self) -> TotalsView {
        TotalsView {
            iterations: self.iterations,
            jacobian_elements: self.jacobian_elements,
            qr_elements: self.qr_elements,
            truncations: self.truncations,
        }
    }
}

/// The totals as a work report with their refusal count; the report counts
/// as truncated when any refusal happened.
pub open spec fn totals_report(t: TotalsView) -> (ContinuityWork, u64) {
    (
        ContinuityWork {
            iterations: t.iterations,
            jacobian_elements: t.jacobian_elements,
            qr_elements: t.qr_elements,
            truncated: t.truncations != 0,
        },
        t.truncations,
    )
}

impl ContinuityTotals {
    /// Totals of no work.
    pub fn new() -> (r: Self)
        ensures
            r@ == (TotalsView { iterations: 0, jacobian_elements: 0, qr_elements: 0, truncations: 0 }),
    {
        ContinuityTotals { iterations: 0, jacobian_elements: 0, qr_elements: 0, truncations: 0 }
    }

    /// Adds `work` to the totals, wrapping as atomic counters do, and counts
    /// one refusal when the work was truncated.
    pub fn charge(&mut self, work: ContinuityWork)
        ensures
            final(self)@ == (TotalsView {
                iterations: wrapping(old(self)@.iterations, work.iterations),
                jacobian_elements: wrapping(old(self)@.jacobian_elements, work.jacobian_elements),
                qr_elements: wrapping(old(self)@.qr_elements, work.qr_elements),
                truncations: if work.truncated {
                    wrapping(old(self)@.truncations, 1)
                } else {
                    old(self)@.truncations
                },
            }),
    {
        self.iterations = add_wrapping(self.iterations, work.iterations);
        self.jacobian_elements = add_wrapping(self.jacobian_elements, work.jacobian_elements);
        self.qr_elements = add_wrapping(self.qr_elements, work.qr_elements);
        if work.truncated {
            self.truncations = add_wrapping(self.truncations, 1);
        }
    }

    /// Reads the totals and the refusal count.
    pub fn read(&self) -> (r: (ContinuityWork, u64))
        ensures
            r == totals_report(self@),
    {
        (
            ContinuityWork {
                iterations: self.iterations,
                jacobian_elements: self.jacobian_elements,
                qr_elements: self.qr_elements,
                truncated: self.truncations != 0,
            },
            self.truncations,
        )
    }

    /// Reads the totals and zeroes them.
    pub fn take(&mut self) -> (r: (ContinuityWork, u64))
        ensures
            r == totals_report(old(self)@),
            final(self)@ == (TotalsView {
                iterations: 0,
                jacobian_elements: 0,
                qr_elements: 0,
                truncations: 0,
            }),
    {
        let r = self.read();
        *self = ContinuityTotals::new();
        r
    }
}

/// `a - b`, or zero when `b` exceeds `a`.
pub open spec fn saturating_minus(a: u64, b: u64) -> u64 {
    if a >= b {
        (a - b) as u64
    } else {
        0
    }
}

/// The larger of two counts.
pub open spec fn larger(a: u64, b: u64) -> u64 {
    if a >= b {
        a
    } else {
        b
    }
}

/// High-water marks of the work of one complete continuity solve.
#[derive(Clone, Copy, Debug, PartialEq, Eq, Structural)]
pub struct ContinuityMaxWork {
    iterations: u64,
    jacobian_elements: u64,
    qr_elements: u64,
}

impl View for ContinuityMaxWork {
    type V = ContinuityWork;

    closed spec fn view(&self) -> ContinuityWork {
        ContinuityWork {
            iterations: self.iterations,
            jacobian_elements: self.jacobian_elements,
            qr_elements: self.qr_elements,
            truncated: false,
        }
    }
}

impl ContinuityMaxWork {
    /// High-water marks of no work.
    pub fn new() -> (r: Self)
        ensures
            r@ == no_work(),
    {
        ContinuityMaxWork { iterations: 0, jacobian_elements: 0, qr_elements: 0 }
    }

    /// Records one solve that began when the meter read `start` and ended
    /// when it read `end`: each mark rises to the solve's cost if larger.
    pub fn record_solve(&mut self, start: ContinuityWork, end: ContinuityWork)
        ensures
            final(self)@ == (ContinuityWork {
                iterations: larger(
                    old(self)@.iterations,
                    saturating_minus(end.iterations, start.iterations),
                ),
                jacobian_elements: larger(
                    old(self)@.jacobian_elements,
                    saturating_minus(end.jacobian_elements, start.jacobian_elements),
                ),
                qr_elements: larger(
                    old(self)@.qr_elements,
                    saturating_minus(end.qr_elements, start.qr_elements),
                ),
                truncated: false,
            }),
    {
        let it = end.iterations.saturating_sub(start.iterations);
        let ja = end.jacobian_elements.saturating_sub(start.jacobian_elements);
        let qr = end.qr_elements.saturating_sub(start.qr_elements);
        if it > self.iterations {
            self.iterations = it;
        }
        if ja > self.jacobian_elements {
            self.jacobian_elements = ja;
        }
        if qr > self.qr_elements {
            self.qr_elements = qr;
        }
    }

    /// Reads the high-water marks.
    pub fn read(&self) -> (r: ContinuityWork)
        ensures
            r == self@,
    {
        ContinuityWork {
            iterations: self.iterations,
            jacobian_elements: self.jacobian_elements,
            qr_elements: self.qr_elements,
            truncated: false,
        }
    }

    /// Reads the high-water marks and zeroes them.
    pub fn take(&mut self) -> (r: ContinuityWork)
        ensures
            r == old(self)@,
            final(self)@ == no_work(),
    {
        let r = self.read();
        *self = ContinuityMaxWork::new();
        r
    }
}

/// Taking a meter reading reports exactly the work charged since the last
/// reading: charging `a` then `b` to a cleared meter reads `a` followed by
/// `b`, and the meter is clear again afterwards.
pub proof fn law_meter_reports_charged_work(a: ContinuityWork, b: ContinuityWork)
    ensures
        accumulate(accumulate(no_work(), a), b) == accumulate(a, b),
        accumulate(no_work(), a) == a,
{
}

} // verus!
