//! Geometric decorators: containers that combine curves, surfaces and
//! scalar functions into new geometry.
//!
//! The evaluation of these decorators is floating-point geometry; what the
//! library states of them is how they hold their parts: every accessor hands
//! back exactly what was put in, and a mutable accessor changes only the part
//! it names.

use vstd::prelude::*;

verus! {

/// The composite of a parameter curve and a surface.
#[derive(Clone, Copy, Debug, PartialEq)]
pub struct ParameterCurve<C, S> {
    curve: C,
    surface: S,
}

impl<C, S> ParameterCurve<C, S> {
    /// The parameter curve held.
    pub closed spec fn spec_curve(&self) -> C {
        self.curve
    }

    /// The surface held.
    pub closed spec fn spec_surface(&self) -> S {
        self.surface
    }

    /// Composes the parameter `curve` with the `surface`.
    pub fn new(curve: C, surface: S) -> (r: Self)
        ensures
            r.spec_curve() == curve,
            r.spec_surface() == surface,
    {
        ParameterCurve { curve, surface }
    }

    /// Returns the parameter curve.
    pub fn curve(&self) -> (r: &C)
        ensures
            *r == self.spec_curve(),
    {
        &self.curve
    }

    /// Returns the surface.
    pub fn surface(&self) -> (r: &S)
        ensures
            *r == self.spec_surface(),
    {
        &self.surface
    }
}

/// A blend surface spanned between two boundary parameter curves, with one
/// tangent-magnitude function for each boundary.
#[derive(Clone, Copy, Debug, PartialEq)]
pub struct EdgeBlendSurface<C0, S0, F0, C1, S1, F1> {
    pcurve0: ParameterCurve<C0, S0>,
    magnitude0: F0,
    pcurve1: ParameterCurve<C1, S1>,
    magnitude1: F1,
}

impl<C0, S0, C1, S1, F0, F1> EdgeBlendSurface<C0, S0, F0, C1, S1, F1> {
    /// The first boundary parameter curve held.
    pub closed spec fn spec_pcurve0(&self) -> ParameterCurve<C0, S0> {
        self.pcurve0
    }

    /// The second boundary parameter curve held.
    pub closed spec fn spec_pcurve1(&self) -> ParameterCurve<C1, S1> {
        self.pcurve1
    }

    /// The first tangent-magnitude function held.
    pub closed spec fn spec_magnitude0(&self) -> F0 {
        self.magnitude0
    }

    /// The second tangent-magnitude function held.
    pub closed spec fn spec_magnitude1(&self) -> F1 {
        self.magnitude1
    }

    /// Builds the blend from its two boundaries and their magnitudes.
    pub fn new(
        pcurve0: ParameterCurve<C0, S0>,
        magnitude0: F0,
        pcurve1: ParameterCurve<C1, S1>,
        magnitude1: F1,
    ) -> (r: Self)
        ensures
            r.spec_pcurve0() == pcurve0,
            r.spec_magnitude0() == magnitude0,
            r.spec_pcurve1() == pcurve1,
            r.spec_magnitude1() == magnitude1,
    {
        EdgeBlendSurface { pcurve0, magnitude0, pcurve1, magnitude1 }
    }

    /// Returns the first boundary parameter curve.
    pub fn pcurve0(&self) -> (r: &ParameterCurve<C0, S0>)
        ensures
            *r == self.spec_pcurve0(),
    {
        &self.pcurve0
    }

    /// Returns the second boundary parameter curve.
    pub fn pcurve1(&self) -> (r: &ParameterCurve<C1, S1>)
        ensures
            *r == self.spec_pcurve1(),
    {
        &self.pcurve1
    }

    /// Returns a mutable reference to the first boundary parameter curve.
    pub fn pcurve0_mut(&mut self) -> (r: &mut ParameterCurve<C0, S0>)
        ensures
            *r == old(self).spec_pcurve0(),
            final(self).spec_pcurve0() == *final(r),
            final(self).spec_magnitude0() == old(self).spec_magnitude0(),
            final(self).spec_pcurve1() == old(self).spec_pcurve1(),
            final(self).spec_magnitude1() == old(self).spec_magnitude1(),
    {
        &mut self.pcurve0
    }

    /// Returns a mutable reference to the second boundary parameter curve.
    pub fn pcurve1_mut(&mut self) -> (r: &mut ParameterCurve<C1, S1>)
        ensures
            *r == old(self).spec_pcurve1(),
            final(self).spec_pcurve1() == *final(r),
            final(self).spec_pcurve0() == old(self).spec_pcurve0(),
            final(self).spec_magnitude0() == old(self).spec_magnitude0(),
            final(self).spec_magnitude1() == old(self).spec_magnitude1(),
    {
        &mut self.pcurve1
    }

    /// Returns the first tangent-magnitude function.
    pub fn magnitude0(&self) -> (r: &F0)
        ensures
            *r == self.spec_magnitude0(),
    {
        &self.magnitude0
    }

    /// Returns the second tangent-magnitude function.
    pub fn magnitude1(&self) -> (r: &F1)
        ensures
            *r == self.spec_magnitude1(),
    {
        &self.magnitude1
    }

    /// Returns a mutable reference to the first tangent-magnitude function.
    pub fn magnitude0_mut(&mut self) -> (r: &mut F0)
        ensures
            *r == old(self).spec_magnitude0(),
            final(self).spec_magnitude0() == *final(r),
            final(self).spec_pcurve0() == old(self).spec_pcurve0(),
            final(self).spec_pcurve1() == old(self).spec_pcurve1(),
            final(self).spec_magnitude1() == old(self).spec_magnitude1(),
    {
        &mut self.magnitude0
    }

    /// Returns a mutable reference to the second tangent-magnitude function.
    pub fn magnitude1_mut(&mut self) -> (r: &mut F1)
        ensures
            *r == old(self).spec_magnitude1(),
            final(self).spec_magnitude1() == *final(r),
            final(self).spec_pcurve0() == old(self).spec_pcurve0(),
            final(self).spec_magnitude0() == old(self).spec_magnitude0(),
            final(self).spec_pcurve1() == old(self).spec_pcurve1(),
    {
        &mut self.magnitude1
    }
}

/// Homotopy surface connecting two curves.
#[derive(Clone, Copy, Debug, PartialEq)]
pub struct HomotopySurface<C0, C1> {
    curve0: C0,
    curve1: C1,
}

impl<C0, C1> HomotopySurface<C0, C1> {
    /// The first curve held.
    pub closed spec fn spec_first_curve(&self) -> C0 {
        self.curve0
    }

    /// The second curve held.
    pub closed spec fn spec_second_curve(&self) -> C1 {
        self.curve1
    }

    /// Connects `curve0` to `curve1`.
    pub fn new(curve0: C0, curve1: C1) -> (r: Self)
        ensures
            r.spec_first_curve() == curve0,
            r.spec_second_curve() == curve1,
    {
        HomotopySurface { curve0, curve1 }
    }

    /// Returns the first curve.
    pub fn first_curve(&self) -> (r: &C0)
        ensures
            *r == self.spec_first_curve(),
    {
        &self.curve0
    }

    /// Returns the second curve.
    pub fn second_curve(&self) -> (r: &C1)
        ensures
            *r == self.spec_second_curve(),
    {
        &self.curve1
    }

    /// Returns a mutable reference to the first curve.
    pub fn first_curve_mut(&mut self) -> (r: &mut C0)
        ensures
            *r == old(self).spec_first_curve(),
            final(self).spec_first_curve() == *final(r),
            final(self).spec_second_curve() == old(self).spec_second_curve(),
    {
        &mut self.curve0
    }

    /// Returns a mutable reference to the second curve.
    pub fn second_curve_mut(&mut self) -> (r: &mut C1)
        ensures
            *r == old(self).spec_second_curve(),
            final(self).spec_second_curve() == *final(r),
            final(self).spec_first_curve() == old(self).spec_first_curve(),
    {
        &mut self.curve1
    }
}

/// Curve `entity` offset pointwise by another curve `offset`.
#[derive(Clone, Debug, PartialEq)]
pub struct OffsetCurve<C, N> {
    entity: C,
    offset: N,
}

impl<C, N> OffsetCurve<C, N> {
    /// The entity held.
    pub closed spec fn spec_entity(&self) -> C {
        self.entity
    }

    /// The offset held.
    pub closed spec fn spec_offset(&self) -> N {
        self.offset
    }

    /// Offsets `entity` by `offset`.
    pub fn new(entity: C, offset: N) -> (r: Self)
        ensures
            r.spec_entity() == entity,
            r.spec_offset() == offset,
    {
        OffsetCurve { entity, offset }
    }

    /// Returns a reference to the entity geometry.
    pub fn entity(&self) -> (r: &C)
        ensures
            *r == self.spec_entity(),
    {
        &self.entity
    }

    /// Returns a reference to the offset geometry.
    pub fn offset(&self) -> (r: &N)
        ensures
            *r == self.spec_offset(),
    {
        &self.offset
    }
}

/// Surface `entity` offset pointwise by another surface `offset`.
#[derive(Clone, Debug, PartialEq)]
pub struct OffsetSurface<S, N> {
    entity: S,
    offset: N,
}

impl<S, N> OffsetSurface<S, N> {
    /// The entity held.
    pub closed spec fn spec_entity(&self) -> S {
        self.entity
    }

    /// The offset held.
    pub closed spec fn spec_offset(&self) -> N {
        self.offset
    }

    /// Offsets `entity` by `offset`.
    pub fn new(entity: S, offset: N) -> (r: Self)
        ensures
            r.spec_entity() == entity,
            r.spec_offset() == offset,
    {
        OffsetSurface { entity, offset }
    }

    /// Returns a reference to the entity geometry.
    pub fn entity(&self) -> (r: &S)
        ensures
            *r == self.spec_entity(),
    {
        &self.entity
    }

    /// Returns a reference to the offset geometry.
    pub fn offset(&self) -> (r: &N)
        ensures
            *r == self.spec_offset(),
    {
        &self.offset
    }
}

/// Unit-normal field of `entity`, scaled by the magnitude function `scalar`.
#[derive(Clone, Debug, PartialEq)]
pub struct NormalOffsetField<T, F> {
    entity: T,
    scalar: F,
}

impl<T, F> NormalOffsetField<T, F> {
    /// The entity held.
    pub closed spec fn spec_entity(&self) -> T {
        self.entity
    }

    /// The magnitude function held.
    pub closed spec fn spec_scalar(&self) -> F {
        self.scalar
    }

    /// Builds the normal field of `entity` scaled by `scalar`.
    pub fn new(entity: T, scalar: F) -> (r: Self)
        ensures
            r.spec_entity() == entity,
            r.spec_scalar() == scalar,
    {
        NormalOffsetField { entity, scalar }
    }

    /// Returns a reference to the entity geometry.
    pub fn entity(&self) -> (r: &T)
        ensures
            *r == self.spec_entity(),
    {
        &self.entity
    }

    /// Returns a reference to the scalar magnitude function.
    pub fn scalar(&self) -> (r: &F)
        ensures
            *r == self.spec_scalar(),
    {
        &self.scalar
    }
}

/// Rolling ball fillet surface along one edge between two surfaces.
#[derive(Clone, Copy, Debug, PartialEq)]
pub struct RollingBallFilletSurface<C, S0, S1, R> {
    edge_curve: C,
    surface0: S0,
    surface1: S1,
    radius: R,
}

/// Orbit curve of a contact point of a rolling ball fillet: index 0 runs on
/// the first surface, index 1 on the second.
#[derive(Clone, Copy, Debug, PartialEq)]
pub struct RollingBallFilletContactCurve<C, S0, S1, R> {
    surface: RollingBallFilletSurface<C, S0, S1, R>,
    index: usize,
}

impl<C, S0, S1, R> RollingBallFilletSurface<C, S0, S1, R> {
    /// The edge curve held.
    pub closed spec fn spec_edge_curve(&self) -> C {
        self.edge_curve
    }

    /// The first surface held.
    pub closed spec fn spec_surface0(&self) -> S0 {
        self.surface0
    }

    /// The second surface held.
    pub closed spec fn spec_surface1(&self) -> S1 {
        self.surface1
    }

    /// The radius function held.
    pub closed spec fn spec_radius(&self) -> R {
        self.radius
    }

    /// Builds the fillet of `edge_curve` between the two surfaces.
    pub fn new(edge_curve: C, surface0: S0, surface1: S1, radius: R) -> (r: Self)
        ensures
            r.spec_edge_curve() == edge_curve,
            r.spec_surface0() == surface0,
            r.spec_surface1() == surface1,
            r.spec_radius() == radius,
    {
        RollingBallFilletSurface { edge_curve, surface0, surface1, radius }
    }

    /// Returns the edge curve.
    pub fn edge_curve(&self) -> (r: &C)
        ensures
            *r == self.spec_edge_curve(),
    {
        &self.edge_curve
    }

    /// Returns the first surface.
    pub fn surface0(&self) -> (r: &S0)
        ensures
            *r == self.spec_surface0(),
    {
        &self.surface0
    }

    /// Returns the second surface.
    pub fn surface1(&self) -> (r: &S1)
        ensures
            *r == self.spec_surface1(),
    {
        &self.surface1
    }

    /// Returns the radius function.
    pub fn radius(&self) -> (r: &R)
        ensures
            *r == self.spec_radius(),
    {
        &self.radius
    }

    /// Returns the orbit curve of the contact point with the first surface.
    pub fn contact_curve0(&self) -> (r: RollingBallFilletContactCurve<C, S0, S1, R>) where
        Self: Clone,

        ensures
            cloned(*self, r.spec_fillet_surface()),
            r.spec_index() == 0,
    {
        RollingBallFilletContactCurve { surface: self.clone(), index: 0 }
    }

    /// Returns the orbit curve of the contact point with the second surface.
    pub fn contact_curve1(&self) -> (r: RollingBallFilletContactCurve<C, S0, S1, R>) where
        Self: Clone,

        ensures
            cloned(*self, r.spec_fillet_surface()),
            r.spec_index() == 1,
    {
        RollingBallFilletContactCurve { surface: self.clone(), index: 1 }
    }
}

impl<C, S0, S1, R> RollingBallFilletContactCurve<C, S0, S1, R> {
    /// The fillet surface the curve runs on.
    pub closed spec fn spec_fillet_surface(&self) -> RollingBallFilletSurface<C, S0, S1, R> {
        self.surface
    }

    /// The side of the curve: 0 for the first surface, 1 for the second.
    pub closed spec fn spec_index(&self) -> usize {
        self.index
    }

    /// Returns the fillet surface the curve runs on.
    pub fn fillet_surface(&self) -> (r: &RollingBallFilletSurface<C, S0, S1, R>)
        ensures
            *r == self.spec_fillet_surface(),
    {
        &self.surface
    }

    /// Returns the curve index: 0 for the curve on the first surface, 1 for
    /// the curve on the second.
    pub fn index(&self) -> (r: usize)
        ensures
            r == self.spec_index(),
    {
        self.index
    }
}

} // verus!
