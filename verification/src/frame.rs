//! Canonical control-net layout of one boundary of a tensor-product
//! surface: which axis runs along the seam, which crosses it, and which
//! control point lies at a given distance from the boundary and position
//! along the seam.
//!
//! The parameter domains of a frame are floating-point values and are not
//! held here; a frame holds the degrees and control counts of both axes.

use vstd::prelude::*;

use crate::continuity::{crossing_axis, SurfaceAxis, SurfaceBoundary};

verus! {

/// Failure to construct or query a boundary frame.
#[derive(Clone, Copy, Debug, PartialEq, Eq, Structural)]
pub enum BoundaryFrameError {
    /// The surface has no rectangular control net.
    EmptyControlNet,
    /// Control-net rows do not share one length.
    NonRectangularControlNet,
    /// A knot count cannot represent the corresponding control axis.
    InvalidKnotCount {
        /// Invalid parameter axis.
        axis: SurfaceAxis,
        /// Actual knot count.
        knots: usize,
        /// Actual control-point count.
        controls: usize,
    },
    /// A knot domain contains a non-finite value.
    NonFiniteKnotDomain {
        /// Invalid parameter axis.
        axis: SurfaceAxis,
    },
    /// A knot vector decreases.
    NonMonotonicKnotVector {
        /// Invalid parameter axis.
        axis: SurfaceAxis,
    },
    /// A knot vector is not clamped at both ends.
    UnclampedKnotVector {
        /// Invalid parameter axis.
        axis: SurfaceAxis,
    },
    /// A surface parameter domain has zero or negative span.
    NonPositiveParameterDomain {
        /// Invalid parameter axis.
        axis: SurfaceAxis,
    },
    /// A requested boundary strip exceeds the control net.
    StripExceedsControlNet {
        /// Requested boundary-row count.
        requested: usize,
        /// Available cross-boundary control-point count.
        available: usize,
    },
}

/// Reads the shape of a control net from the lengths of its rows: the
/// number of rows (along `u`) and their common length (along `v`).
///
/// Fails with [`BoundaryFrameError::EmptyControlNet`] when there is no row
/// or the first row is empty, and with
/// [`BoundaryFrameError::NonRectangularControlNet`] when the rows differ in
/// length.
pub fn control_net_shape(row_lengths: &[usize]) -> (r: Result<(usize, usize), BoundaryFrameError>)
    ensures
        (row_lengths@.len() == 0 || row_lengths@[0] == 0) ==> r == Err::<
            (usize, usize),
            BoundaryFrameError,
        >(BoundaryFrameError::EmptyControlNet),
        row_lengths@.len() > 0 && row_lengths@[0] > 0 ==> if forall|i: int|
            0 <= i < row_lengths@.len() ==> #[trigger] row_lengths@[i] == row_lengths@[0] {
            r == Ok::<(usize, usize), BoundaryFrameError>((row_lengths@.len() as usize, row_lengths@[0]))
        } else {
            r == Err::<(usize, usize), BoundaryFrameError>(
                BoundaryFrameError::NonRectangularControlNet,
            )
        },
{
    if row_lengths.len() == 0 || row_lengths[0] == 0 {
        return Err(BoundaryFrameError::EmptyControlNet);
    }
    let v_count = row_lengths[0];
    let mut i: usize = 0;
    while i < row_lengths.len()
        invariant
            row_lengths@.len() > 0,
            v_count == row_lengths@[0],
            v_count > 0,
            i <= row_lengths@.len(),
            forall|j: int| 0 <= j < i ==> #[trigger] row_lengths@[j] == v_count,
        decreases row_lengths.len() - i,
    {
        if row_lengths[i] != v_count {
            return Err(BoundaryFrameError::NonRectangularControlNet);
        }
        i = i + 1;
    }
    Ok((row_lengths.len(), v_count))
}

/// The degree that `knot_count` knots give an axis of `control_count`
/// control points: the knots left over after one per control point and one
/// more.
///
/// Fails with [`BoundaryFrameError::InvalidKnotCount`] when there are too
/// few knots.
pub fn axis_degree(knot_count: usize, control_count: usize, axis: SurfaceAxis) -> (r: Result<
    usize,
    BoundaryFrameError,
>)
    ensures
        knot_count >= control_count + 1 ==> r == Ok::<usize, BoundaryFrameError>(
            (knot_count - control_count - 1) as usize,
        ),
        knot_count < control_count + 1 ==> r == Err::<usize, BoundaryFrameError>(
            BoundaryFrameError::InvalidKnotCount { axis, knots: knot_count, controls: control_count },
        ),
{
    let invalid = BoundaryFrameError::InvalidKnotCount {
        axis,
        knots: knot_count,
        controls: control_count,
    };
    match control_count.checked_add(1) {
        None => Err(invalid),
        Some(needed) => match knot_count.checked_sub(needed) {
            None => Err(invalid),
            Some(degree) => Ok(degree),
        },
    }
}

/// Mathematical value of a [`BoundaryFrame`].
pub struct FrameView {
    pub boundary: SurfaceBoundary,
    pub u_degree: nat,
    pub v_degree: nat,
    pub u_control_count: nat,
    pub v_control_count: nat,
}

impl FrameView {
    /// The axis that runs along the seam.
    pub open spec fn along_axis(self) -> SurfaceAxis {
        match crossing_axis(self.boundary) {
            SurfaceAxis::U => SurfaceAxis::V,
            SurfaceAxis::V => SurfaceAxis::U,
        }
    }

    /// The polynomial degree along the seam.
    pub open spec fn along_degree(self) -> nat {
        match crossing_axis(self.boundary) {
            SurfaceAxis::U => self.v_degree,
            SurfaceAxis::V => self.u_degree,
        }
    }

    /// The polynomial degree across the seam.
    pub open spec fn cross_degree(self) -> nat {
        match crossing_axis(self.boundary) {
            SurfaceAxis::U => self.u_degree,
            SurfaceAxis::V => self.v_degree,
        }
    }

    /// Control points along the seam.
    pub open spec fn along_count(self) -> nat {
        match crossing_axis(self.boundary) {
            SurfaceAxis::U => self.v_control_count,
            SurfaceAxis::V => self.u_control_count,
        }
    }

    /// Control points across the seam.
    pub open spec fn cross_count(self) -> nat {
        match crossing_axis(self.boundary) {
            SurfaceAxis::U => self.u_control_count,
            SurfaceAxis::V => self.v_control_count,
        }
    }

    /// The control point at `distance` rows from the boundary and at
    /// `seam` along it, for valid positions.
    pub open spec fn point(self, distance: int, seam: int) -> (int, int) {
        match self.boundary {
            SurfaceBoundary::UStart => (distance, seam),
            SurfaceBoundary::UEnd => (self.u_control_count - 1 - distance, seam),
            SurfaceBoundary::VStart => (seam, distance),
            SurfaceBoundary::VEnd => (seam, self.v_control_count - 1 - distance),
        }
    }

    /// Whether a position lies within the control net.
    pub open spec fn valid_position(self, distance: int, seam: int) -> bool {
        0 <= distance < self.cross_count() && 0 <= seam < self.along_count()
    }

    /// The points of the row at `distance` from the boundary, in seam order.
    pub open spec fn row(self, distance: int) -> Seq<(int, int)> {
        Seq::new(self.along_count(), |seam: int| self.point(distance, seam))
    }

    /// The points of the first `rows` rows, nearest row first.
    pub open spec fn strip(self, rows: nat) -> Seq<(int, int)>
        decreases rows,
    {
        if rows == 0 {
            seq![]
        } else {
            self.strip((rows - 1) as nat) + self.row(rows - 1)
        }
    }
}

/// The index pairs of a list of control points, as integers.
pub open spec fn index_pairs(v: Seq<(usize, usize)>) -> Seq<(int, int)> {
    v.map_values(|p: (usize, usize)| (p.0 as int, p.1 as int))
}

/// Canonical control-net layout for one surface boundary.
#[derive(Clone, Copy, Debug, PartialEq, Eq, Structural)]
pub struct BoundaryFrame {
    boundary: SurfaceBoundary,
    u_degree: usize,
    v_degree: usize,
    u_control_count: usize,
    v_control_count: usize,
}

impl View for BoundaryFrame {
    type V = FrameView;

    closed spec fn view(&self) -> FrameView {
        FrameView {
            boundary: self.boundary,
            u_degree: self.u_degree as nat,
            v_degree: self.v_degree as nat,
            u_control_count: self.u_control_count as nat,
            v_control_count: self.v_control_count as nat,
        }
    }
}

/// Each valid position names its own control point, inside the net: no
/// two positions of a frame share a point.
pub proof fn law_frame_points_are_distinct_and_inside(
    f: FrameView,
    d1: int,
    s1: int,
    d2: int,
    s2: int,
)
    requires
        f.valid_position(d1, s1),
        f.valid_position(d2, s2),
    ensures
        0 <= f.point(d1, s1).0 < f.u_control_count,
        0 <= f.point(d1, s1).1 < f.v_control_count,
        f.point(d1, s1) == f.point(d2, s2) ==> d1 == d2 && s1 == s2,
{
}

impl BoundaryFrame {
    /// A frame for `boundary` of a surface whose `u` axis has degree
    /// `u.0` and `u.1` control points, and likewise for `v`.
    pub fn from_axes(boundary: SurfaceBoundary, u: (usize, usize), v: (usize, usize)) -> (r: Self)
        ensures
            r@ == (FrameView {
                boundary,
                u_degree: u.0 as nat,
                v_degree: v.0 as nat,
                u_control_count: u.1 as nat,
                v_control_count: v.1 as nat,
            }),
    {
        BoundaryFrame {
            boundary,
            u_degree: u.0,
            v_degree: v.0,
            u_control_count: u.1,
            v_control_count: v.1,
        }
    }

    /// Returns the selected surface boundary.
    pub fn boundary(self) -> (r: SurfaceBoundary)
        ensures
            r == self@.boundary,
    {
        self.boundary
    }

    /// Returns the parameter axis running along the seam.
    pub fn along_axis(self) -> (r: SurfaceAxis)
        ensures
            r == self@.along_axis(),
    {
        crate::continuity::boundary_axis(self.boundary)
    }

    /// Returns the parameter axis pointing across the seam.
    pub fn cross_axis(self) -> (r: SurfaceAxis)
        ensures
            r == crossing_axis(self@.boundary),
    {
        crate::continuity::cross_axis(self.boundary)
    }

    /// Returns the polynomial degree along the seam.
    pub fn along_degree(self) -> (r: usize)
        ensures
            r == self@.along_degree(),
    {
        match self.along_axis() {
            SurfaceAxis::U => self.u_degree,
            SurfaceAxis::V => self.v_degree,
        }
    }

    /// Returns the polynomial degree across the seam.
    pub fn cross_degree(self) -> (r: usize)
        ensures
            r == self@.cross_degree(),
    {
        match self.cross_axis() {
            SurfaceAxis::U => self.u_degree,
            SurfaceAxis::V => self.v_degree,
        }
    }

    /// Returns the control-point count along the seam.
    pub fn along_control_count(self) -> (r: usize)
        ensures
            r == self@.along_count(),
    {
        match self.cross_axis() {
            SurfaceAxis::U => self.v_control_count,
            SurfaceAxis::V => self.u_control_count,
        }
    }

    /// Returns the control-point count across the seam.
    pub fn cross_control_count(self) -> (r: usize)
        ensures
            r == self@.cross_count(),
    {
        match self.cross_axis() {
            SurfaceAxis::U => self.u_control_count,
            SurfaceAxis::V => self.v_control_count,
        }
    }

    /// Returns the surface's `u` control-point count.
    pub fn control_count_u(self) -> (r: usize)
        ensures
            r == self@.u_control_count,
    {
        self.u_control_count
    }

    /// Returns the surface's `v` control-point count.
    pub fn control_count_v(self) -> (r: usize)
        ensures
            r == self@.v_control_count,
    {
        self.v_control_count
    }

    /// Selects one control point by boundary distance and seam index, or
    /// `None` when either lies outside the control net.
    pub fn control_point_index(self, boundary_distance: usize, seam_index: usize) -> (r: Option<
        (usize, usize),
    >)
        ensures
            self@.valid_position(boundary_distance as int, seam_index as int) ==> (r matches Some(p)
                && (p.0 as int, p.1 as int) == self@.point(boundary_distance as int, seam_index as int)),
            !self@.valid_position(boundary_distance as int, seam_index as int) ==> r is None,
    {
        if boundary_distance >= self.cross_control_count() || seam_index
            >= self.along_control_count() {
            None
        } else {
            Some(
                match self.boundary {
                    SurfaceBoundary::UStart => (boundary_distance, seam_index),
                    SurfaceBoundary::UEnd => (
                        self.u_control_count - 1 - boundary_distance,
                        seam_index,
                    ),
                    SurfaceBoundary::VStart => (seam_index, boundary_distance),
                    SurfaceBoundary::VEnd => (
                        seam_index,
                        self.v_control_count - 1 - boundary_distance,
                    ),
                },
            )
        }
    }

    /// Selects the first `boundary_rows` rows of control points, nearest
    /// row first and in seam order within a row.
    ///
    /// Fails with [`BoundaryFrameError::StripExceedsControlNet`] when the
    /// control net has fewer rows across the seam.
    pub fn control_strip_indices(self, boundary_rows: usize) -> (r: Result<
        Vec<(usize, usize)>,
        BoundaryFrameError,
    >)
        ensures
            boundary_rows > self@.cross_count() ==> r == Err::<
                Vec<(usize, usize)>,
                BoundaryFrameError,
            >(
                BoundaryFrameError::StripExceedsControlNet {
                    requested: boundary_rows,
                    available: self@.cross_count() as usize,
                },
            ),
            boundary_rows <= self@.cross_count() ==> (r matches Ok(points) && index_pairs(points@)
                == self@.strip(boundary_rows as nat)),
    {
        let available = self.cross_control_count();
        if boundary_rows > available {
            return Err(BoundaryFrameError::StripExceedsControlNet { requested: boundary_rows, available });
        }
        let along = self.along_control_count();
        let ghost f = self@;
        let mut out: Vec<(usize, usize)> = Vec::new();
        let mut distance: usize = 0;
        while distance < boundary_rows
            invariant
                f == self@,
                along == f.along_count(),
                boundary_rows <= f.cross_count(),
                distance <= boundary_rows,
                index_pairs(out@) == f.strip(distance as nat),
            decreases boundary_rows - distance,
        {
            let mut seam: usize = 0;
            while seam < along
                invariant
                    f == self@,
                    along == f.along_count(),
                    distance < boundary_rows <= f.cross_count(),
                    seam <= along,
                    index_pairs(out@) == f.strip(distance as nat) + f.row(distance as int).take(
                        seam as int,
                    ),
                decreases along - seam,
            {
                assert(f.valid_position(distance as int, seam as int));
                let ghost before = out@;
                match self.control_point_index(distance, seam) {
                    Some(p) => {
                        out.push(p);
                        proof {
                            let row = f.row(distance as int);
                            assert(row[seam as int] == f.point(distance as int, seam as int));
                            assert(row.take(seam + 1) =~= row.take(seam as int).push(row[seam as int]));
                            assert(index_pairs(out@) =~= index_pairs(before).push(
                                (p.0 as int, p.1 as int),
                            ));
                            assert(index_pairs(out@) =~= f.strip(distance as nat) + row.take(seam + 1));
                        }
                    },
                    None => {},
                }
                seam = seam + 1;
            }
            assert(f.row(distance as int).take(along as int) =~= f.row(distance as int));
            assert(f.strip((distance + 1) as nat) == f.strip(distance as nat) + f.row(distance as int));
            distance = distance + 1;
        }
        Ok(out)
    }
}

} // verus!
