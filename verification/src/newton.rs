//! The record that Newton's method keeps of its iterations, and the value
//! and Jacobian that one step evaluates.
//!
//! The iteration itself runs on floating-point vectors and matrices; what
//! is held here is what it records.

use vstd::prelude::*;

verus! {

/// The value and Jacobian of a function at one parameter.
#[derive(Clone, Debug)]
pub struct CalcOutput<V, M> {
    /// The value of the function.
    pub value: V,
    /// The Jacobian of the function.
    pub derivation: M,
}

/// The log of a Newton iteration: the iterates tried, kept only when
/// logging is active, and whether the iteration stopped on a degenerate
/// Jacobian.
#[derive(Clone, Debug)]
pub struct NewtonLog<T> {
    log: Option<Vec<T>>,
    degenerate: bool,
}

impl<T> NewtonLog<T> {
    /// The iterates recorded, or `None` when logging is off.
    pub closed spec fn entries(&self) -> Option<Seq<T>> {
        match self.log {
            Some(v) => Some(v@),
            None => None,
        }
    }

    /// Whether the iteration stopped on a degenerate Jacobian.
    pub closed spec fn is_degenerate(&self) -> bool {
        self.degenerate
    }

    /// A log that records iterates when `activate` holds, with room for
    /// `trials` of them.
    pub fn new(activate: bool, trials: usize) -> (r: Self)
        ensures
            r.entries() == (if activate {
                Some(Seq::<T>::empty())
            } else {
                None
            }),
            !r.is_degenerate(),
    {
        if activate {
            NewtonLog { log: Some(Vec::with_capacity(trials)), degenerate: false }
        } else {
            NewtonLog { log: None, degenerate: false }
        }
    }

    /// Returns `true` iff the Newton method terminates due to Jacobian
    /// degeneracy.
    pub fn degenerate(&self) -> (r: bool)
        ensures
            r == self.is_degenerate(),
    {
        self.degenerate
    }

    /// Records an iterate when logging is active.
    pub fn push(&mut self, log: T)
        ensures
            final(self).entries() == (match old(self).entries() {
                Some(s) => Some(s.push(log)),
                None => None,
            }),
            final(self).is_degenerate() == old(self).is_degenerate(),
    {
        match &mut self.log {
            Some(v) => v.push(log),
            None => {},
        }
    }

    /// Records whether the Jacobian was degenerate.
    pub fn set_degenerate(&mut self, degenerate: bool)
        ensures
            final(self).entries() == old(self).entries(),
            final(self).is_degenerate() == degenerate,
    {
        self.degenerate = degenerate;
    }

    /// Returns the recorded iterates, or `None` when logging is off.
    pub fn log(&self) -> (r: Option<&Vec<T>>)
        ensures
            match r {
                Some(v) => self.entries() == Some(v@),
                None => self.entries() is None,
            },
    {
        match &self.log {
            Some(v) => Some(v),
            None => None,
        }
    }
}

} // verus!
