//! The layout of a boundary-transition's solver variables, and the checked
//! size arithmetic of the solver's planning.
//!
//! The variables of a transition of order `n` over `f` fields start at some
//! offset and come in consecutive blocks: the seam map (`f - 1` values), one
//! block of `f` values for each `alpha` order `1..=n`, the `log beta` block,
//! then one block for each higher `beta` order `2..=n`.

use vstd::prelude::*;

use crate::continuity::{order_value, BoundaryContinuityRequest, MAX_CONTINUITY_ORDER};
use crate::frame::BoundaryFrame;
use crate::resource::ContinuitySolveError;

verus! {

/// The message of a transition layout that does not fit in `usize`.
pub const TRANSITION_OVERFLOW: &'static str = "transition field dimension overflowed";

/// The message of an optimizer sample density that does not fit in `usize`.
pub const SAMPLE_DENSITY_OVERFLOW: &'static str = "optimizer sample density overflowed";

/// The message of a validation sample density that does not fit in `usize`.
pub const VALIDATION_DENSITY_OVERFLOW: &'static str = "validation sample density overflowed";

/// The message of an optimizer sample count that does not fit in `usize`.
pub const SAMPLE_COUNT_OVERFLOW: &'static str = "optimizer sample count overflowed";

/// `a + b`, or the configuration error `message` when it overflows.
fn checked_add(a: usize, b: usize, message: &'static str) -> (r: Result<usize, ContinuitySolveError>)
    ensures
        a + b <= usize::MAX ==> r == Ok::<usize, ContinuitySolveError>((a + b) as usize),
        a + b > usize::MAX ==> r == Err::<usize, ContinuitySolveError>(
            ContinuitySolveError::InvalidConfig(message),
        ),
{
    match a.checked_add(b) {
        Some(sum) => Ok(sum),
        None => Err(ContinuitySolveError::InvalidConfig(message)),
    }
}

/// `a * b`, or the configuration error `message` when it overflows.
fn checked_mul(a: usize, b: usize, message: &'static str) -> (r: Result<usize, ContinuitySolveError>)
    ensures
        a * b <= usize::MAX ==> r == Ok::<usize, ContinuitySolveError>((a * b) as usize),
        a * b > usize::MAX ==> r == Err::<usize, ContinuitySolveError>(
            ContinuitySolveError::InvalidConfig(message),
        ),
{
    match a.checked_mul(b) {
        Some(product) => Ok(product),
        None => Err(ContinuitySolveError::InvalidConfig(message)),
    }
}

/// The number of optimizer samples along a frame: `samples_per_span + 1`
/// per span, plus the closing sample.
pub open spec fn frame_sample_count(spans: int, samples_per_span: int) -> int {
    spans * (samples_per_span + 1) + 1
}

/// Counts the optimizer samples along a frame of `spans` spans.
///
/// Fails with the density message when `samples_per_span + 1` overflows,
/// and with the count message when the count itself overflows.
pub fn optimizer_frame_sample_count(spans: usize, samples_per_span: usize) -> (r: Result<
    usize,
    ContinuitySolveError,
>)
    ensures
        samples_per_span + 1 > usize::MAX ==> r == Err::<usize, ContinuitySolveError>(
            ContinuitySolveError::InvalidConfig(SAMPLE_DENSITY_OVERFLOW),
        ),
        samples_per_span + 1 <= usize::MAX && frame_sample_count(spans as int, samples_per_span as int)
            > usize::MAX ==> r == Err::<usize, ContinuitySolveError>(
            ContinuitySolveError::InvalidConfig(SAMPLE_COUNT_OVERFLOW),
        ),
        samples_per_span + 1 <= usize::MAX && frame_sample_count(spans as int, samples_per_span as int)
            <= usize::MAX ==> r == Ok::<
            usize,
            ContinuitySolveError,
        >(frame_sample_count(spans as int, samples_per_span as int) as usize),
{
    let density = checked_add(samples_per_span, 1, SAMPLE_DENSITY_OVERFLOW)?;
    let per_frame = checked_mul(spans, density, SAMPLE_COUNT_OVERFLOW)?;
    assert(spans * density >= 0) by (nonlinear_arith)
        requires
            spans >= 0,
            density >= 0,
    ;
    checked_add(per_frame, 1, SAMPLE_COUNT_OVERFLOW)
}

/// The number of coefficients of a bivariate jet through the highest
/// continuity order: one for each `(i, j)` with `i + j <= 4`.
pub const COEFFICIENT_COUNT: usize = 15;

/// Where the coefficients `(i, _)` of a jet start: the rows for the lesser
/// first indices come before, row `k` holding `5 - k` coefficients.
pub open spec fn row_start(i: nat) -> int {
    i * (2 * MAX_CONTINUITY_ORDER + 3 - i) / 2
}

/// The storage slot of jet coefficient `(i, j)`: row by row in the first
/// index, then by the second.
pub fn coefficient_index(i: usize, j: usize) -> (r: usize)
    requires
        i + j <= MAX_CONTINUITY_ORDER,
    ensures
        r == row_start(i as nat) + j,
        r < COEFFICIENT_COUNT,
{
    assert(row_start(i as nat) + j < COEFFICIENT_COUNT) by {
        assert(row_start(0) == 0 && row_start(1) == 5 && row_start(2) == 9 && row_start(3) == 12
            && row_start(4) == 14);
    }
    let row_start = i * (2 * MAX_CONTINUITY_ORDER + 3 - i) / 2;
    row_start + j
}

/// Distinct jet coefficients have distinct storage slots, so the slots
/// `0..15` hold the coefficients `i + j <= 4` one each.
pub proof fn law_coefficient_slots_are_distinct(i1: nat, j1: nat, i2: nat, j2: nat)
    requires
        i1 + j1 <= MAX_CONTINUITY_ORDER,
        i2 + j2 <= MAX_CONTINUITY_ORDER,
        row_start(i1) + j1 == row_start(i2) + j2,
    ensures
        i1 == i2,
        j1 == j2,
{
    assert(row_start(0) == 0 && row_start(1) == 5 && row_start(2) == 9 && row_start(3) == 12
        && row_start(4) == 14);
}

/// The validation samples per span before clamping: twice the sum of the
/// larger seam degree, the continuity order, the transition degree and one.
pub open spec fn validation_density_raw(
    along_degree: int,
    other_along_degree: int,
    order: int,
    transition_degree: int,
) -> int {
    let larger = if along_degree >= other_along_degree {
        along_degree
    } else {
        other_along_degree
    };
    2 * (larger + order + transition_degree + 1)
}

/// The validation density treats the two frames alike and follows the
/// larger of their seam degrees: swapping the frames gives the same value,
/// the value is at least twice the sum for either degree, and it is twice
/// the sum for one of them.
pub proof fn law_validation_density_uses_the_larger_degree(
    a: int,
    b: int,
    order: int,
    transition_degree: int,
)
    ensures
        validation_density_raw(a, b, order, transition_degree) == validation_density_raw(
            b,
            a,
            order,
            transition_degree,
        ),
        validation_density_raw(a, b, order, transition_degree) >= 2 * (a + order
            + transition_degree + 1),
        validation_density_raw(a, b, order, transition_degree) >= 2 * (b + order
            + transition_degree + 1),
        validation_density_raw(a, b, order, transition_degree) == 2 * (a + order + transition_degree
            + 1) || validation_density_raw(a, b, order, transition_degree) == 2 * (b + order
            + transition_degree + 1),
{
}

/// `v` clamped to the range `8..=64`.
pub open spec fn clamp_density(v: int) -> int {
    if v < 8 {
        8
    } else if v > 64 {
        64
    } else {
        v
    }
}

/// The number of validation samples per seam span for a request between
/// two frames: twice the sum of the larger seam degree, the continuity
/// order, the transition degree and one, clamped to `8..=64`.
///
/// Fails with the density overflow configuration error when the doubled
/// sum does not fit in `usize`.
pub fn validation_density(
    first: BoundaryFrame,
    second: BoundaryFrame,
    request: BoundaryContinuityRequest,
    transition_degree: usize,
) -> (r: Result<usize, ContinuitySolveError>)
    ensures
        ({
            let raw = validation_density_raw(
                first@.along_degree() as int,
                second@.along_degree() as int,
                order_value(request.spec_order()) as int,
                transition_degree as int,
            );
            &&& raw <= usize::MAX ==> r == Ok::<usize, ContinuitySolveError>(
                clamp_density(raw) as usize,
            )
            &&& raw > usize::MAX ==> r == Err::<usize, ContinuitySolveError>(
                ContinuitySolveError::InvalidConfig(VALIDATION_DENSITY_OVERFLOW),
            )
        }),
{
    let a = first.along_degree();
    let b = second.along_degree();
    let larger = if a >= b {
        a
    } else {
        b
    };
    let order = request.order().as_usize();
    let total = checked_add(0, larger, VALIDATION_DENSITY_OVERFLOW)?;
    let total = checked_add(total, order, VALIDATION_DENSITY_OVERFLOW)?;
    let total = checked_add(total, transition_degree, VALIDATION_DENSITY_OVERFLOW)?;
    let total = checked_add(total, 1, VALIDATION_DENSITY_OVERFLOW)?;
    let density = checked_mul(total, 2, VALIDATION_DENSITY_OVERFLOW)?;
    if density < 8 {
        Ok(8)
    } else if density > 64 {
        Ok(64)
    } else {
        Ok(density)
    }
}

/// Mathematical value of a [`TransitionLayout`].
pub struct LayoutView {
    pub field_count: nat,
    pub seam_map_offset: nat,
    pub seam_map_variable_count: nat,
    pub alpha_offset: nat,
    pub log_beta_offset: nat,
    pub higher_beta_offset: nat,
    pub order: nat,
    pub variable_count: nat,
}

/// The layout of order `order` over `field_count` fields at `start`.
pub open spec fn layout(order: nat, field_count: nat, start: nat) -> LayoutView {
    let seam = if field_count == 0 {
        0
    } else {
        (field_count - 1) as nat
    };
    LayoutView {
        field_count,
        seam_map_offset: start,
        seam_map_variable_count: seam,
        alpha_offset: start + seam,
        log_beta_offset: start + seam + order * field_count,
        higher_beta_offset: start + seam + order * field_count + field_count,
        order,
        variable_count: if order == 0 {
            seam
        } else {
            seam + 2 * order * field_count
        },
    }
}

/// Whether every offset and count of the layout fits in `usize`, as the
/// checked arithmetic that builds it requires.
pub open spec fn layout_fits(order: nat, field_count: nat, start: nat) -> bool {
    let l = layout(order, field_count, start);
    &&& l.alpha_offset <= usize::MAX
    &&& order * field_count <= usize::MAX
    &&& l.log_beta_offset <= usize::MAX
    &&& l.higher_beta_offset <= usize::MAX
    &&& order > 0 ==> 2 * order <= usize::MAX && 2 * order * field_count <= usize::MAX
        && l.variable_count <= usize::MAX
}

/// Offsets of each block of transition variables.
#[derive(Clone, Copy, Debug, PartialEq, Eq, Structural)]
pub struct TransitionLayout {
    field_count: usize,
    seam_map_offset: usize,
    seam_map_variable_count: usize,
    alpha_offset: usize,
    log_beta_offset: usize,
    higher_beta_offset: usize,
    order: usize,
    variable_count: usize,
}

impl View for TransitionLayout {
    type V = LayoutView;

    closed spec fn view(&self) -> LayoutView {
        LayoutView {
            field_count: self.field_count as nat,
            seam_map_offset: self.seam_map_offset as nat,
            seam_map_variable_count: self.seam_map_variable_count as nat,
            alpha_offset: self.alpha_offset as nat,
            log_beta_offset: self.log_beta_offset as nat,
            higher_beta_offset: self.higher_beta_offset as nat,
            order: self.order as nat,
            variable_count: self.variable_count as nat,
        }
    }
}

/// The transition blocks lie back to back: the seam map starts the layout,
/// the `alpha` blocks follow it, `log beta` follows the last
/// `alpha` block, the first higher `beta` block follows `log beta`, and the
/// last `beta` block ends where the layout's variables end.
pub proof fn law_layout_blocks_are_consecutive(order: nat, field_count: nat, start: nat)
    ensures
        ({
            let l = layout(order, field_count, start);
            &&& l.alpha_offset == l.seam_map_offset + l.seam_map_variable_count
            &&& l.log_beta_offset == l.alpha_offset + order * field_count
            &&& l.higher_beta_offset == l.log_beta_offset + field_count
            &&& order >= 1 ==> l.higher_beta_offset + (order - 1) * field_count == start
                + l.variable_count
            &&& order == 0 ==> start + l.variable_count == l.alpha_offset
        }),
{
    let f = field_count as int;
    let n = order as int;
    assert(2 * n * f == n * f + n * f) by (nonlinear_arith);
    assert((n - 1) * f + f == n * f) by (nonlinear_arith);
}

impl TransitionLayout {
    /// Lays out a transition of `order` over `field_count` fields starting at
    /// variable `start`.
    ///
    /// Fails with the overflow configuration error exactly when an offset or
    /// the variable count does not fit in `usize`.
    pub fn try_new(order: usize, field_count: usize, start: usize) -> (r: Result<
        Self,
        ContinuitySolveError,
    >)
        ensures
            layout_fits(order as nat, field_count as nat, start as nat) ==> r is Ok && r->Ok_0@
                == layout(order as nat, field_count as nat, start as nat),
            !layout_fits(order as nat, field_count as nat, start as nat) ==> r == Err::<
                Self,
                ContinuitySolveError,
            >(ContinuitySolveError::InvalidConfig(TRANSITION_OVERFLOW)),
    {
        let ghost l = layout(order as nat, field_count as nat, start as nat);
        let seam_map_offset = start;
        let seam_map_variable_count = field_count.saturating_sub(1);
        let alpha_offset = checked_add(seam_map_offset, seam_map_variable_count, TRANSITION_OVERFLOW)?;
        let order_fields = checked_mul(order, field_count, TRANSITION_OVERFLOW)?;
        let log_beta_offset = checked_add(alpha_offset, order_fields, TRANSITION_OVERFLOW)?;
        let higher_beta_offset = checked_add(log_beta_offset, field_count, TRANSITION_OVERFLOW)?;
        let variable_count = if order == 0 {
            seam_map_variable_count
        } else {
            let twice = checked_mul(2, order, TRANSITION_OVERFLOW)?;
            let all_fields = checked_mul(twice, field_count, TRANSITION_OVERFLOW)?;
            proof {
                assert(2 * order * field_count == twice * field_count);
                assert(all_fields >= 0);
            }
            checked_add(seam_map_variable_count, all_fields, TRANSITION_OVERFLOW)?
        };
        proof {
            assert(order * field_count >= 0) by (nonlinear_arith)
                requires
                    order >= 0,
                    field_count >= 0,
            ;
        }
        Ok(
            TransitionLayout {
                field_count,
                seam_map_offset,
                seam_map_variable_count,
                alpha_offset,
                log_beta_offset,
                higher_beta_offset,
                order,
                variable_count,
            },
        )
    }

    /// Returns the number of transition variables.
    pub fn variable_count(self) -> (r: usize)
        ensures
            r == self@.variable_count,
    {
        self.variable_count
    }

    /// Returns the seam-map block of `variables`.
    pub fn seam_map<'a, T>(self, variables: &'a [T]) -> (r: &'a [T])
        requires
            self@.seam_map_offset + self@.seam_map_variable_count <= variables@.len(),
        ensures
            r@ == variables@.subrange(
                self@.seam_map_offset as int,
                (self@.seam_map_offset + self@.seam_map_variable_count) as int,
            ),
    {
        let _len = variables.len();
        &variables[self.seam_map_offset..self.seam_map_offset + self.seam_map_variable_count]
    }

    /// Returns the `alpha` block of order `order` of `variables`.
    pub fn alpha<'a, T>(self, variables: &'a [T], order: usize) -> (r: &'a [T])
        requires
            1 <= order,
            self@.alpha_offset + order * self@.field_count <= variables@.len(),
        ensures
            r@ == variables@.subrange(
                self@.alpha_offset + (order - 1) * self@.field_count,
                self@.alpha_offset + order * self@.field_count,
            ),
    {
        let _len = variables.len();
        let ghost f = self.field_count as int;
        proof {
            assert((order - 1) * f + f == order * f) by (nonlinear_arith);
            assert((order - 1) * f >= 0) by (nonlinear_arith)
                requires
                    order >= 1,
                    f >= 0,
            ;
        }
        let start = self.alpha_offset + (order - 1) * self.field_count;
        &variables[start..start + self.field_count]
    }

    /// Returns the `log beta` block of `variables`.
    pub fn log_beta<'a, T>(self, variables: &'a [T]) -> (r: &'a [T])
        requires
            self@.log_beta_offset + self@.field_count <= variables@.len(),
        ensures
            r@ == variables@.subrange(
                self@.log_beta_offset as int,
                (self@.log_beta_offset + self@.field_count) as int,
            ),
    {
        let _len = variables.len();
        &variables[self.log_beta_offset..self.log_beta_offset + self.field_count]
    }

    /// Returns the higher `beta` block of order `order` of `variables`.
    pub fn beta<'a, T>(self, variables: &'a [T], order: usize) -> (r: &'a [T])
        requires
            2 <= order,
            self@.higher_beta_offset + (order - 1) * self@.field_count <= variables@.len(),
        ensures
            r@ == variables@.subrange(
                self@.higher_beta_offset + (order - 2) * self@.field_count,
                self@.higher_beta_offset + (order - 1) * self@.field_count,
            ),
    {
        let _len = variables.len();
        let ghost f = self.field_count as int;
        proof {
            assert((order - 2) * f + f == (order - 1) * f) by (nonlinear_arith);
            assert((order - 2) * f >= 0) by (nonlinear_arith)
                requires
                    order >= 2,
                    f >= 0,
            ;
        }
        let start = self.higher_beta_offset + (order - 2) * self.field_count;
        &variables[start..start + self.field_count]
    }
}

} // verus!
