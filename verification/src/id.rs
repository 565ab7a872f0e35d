//! Persistent topology element identifiers and their allocator.

use vstd::prelude::*;

verus! {

/// Persistent topology element identifier.
///
/// Unlike pointer-derived identities, a `StableId` survives serialization
/// round-trips. Values are unique within a solid but not globally unique;
/// the value zero is reserved for unassigned identifiers.
#[derive(Clone, Copy, Debug, PartialEq, Eq, Hash, PartialOrd, Ord, Structural)]
pub struct StableId(u64);

impl View for StableId {
    type V = u64;

    closed spec fn view(&self) -> u64 {
        self.0
    }
}

impl StableId {
    /// The reserved sentinel for unassigned identifiers.
    pub fn unassigned() -> (r: Self)
        ensures
            r@ == 0,
    {
        StableId(0)
    }

    /// Creates a new [`StableId`]; zero is reserved for the unassigned
    /// sentinel.
    pub fn new(val: u64) -> (r: Self)
        requires
            val != 0,
        ensures
            r@ == val,
    {
        StableId(val)
    }

    /// Returns the raw `u64` value.
    pub fn raw(self) -> (r: u64)
        ensures
            r == self@,
    {
        self.0
    }

    /// Whether this identifier has been assigned.
    pub fn is_assigned(self) -> (r: bool)
        ensures
            r == (self@ != 0),
    {
        self.0 != 0
    }
}

impl Default for StableId {
    fn default() -> (r: Self)
        ensures
            r@ == 0,
    {
        Self::unassigned()
    }
}

/// Monotonic counter for assigning fresh [`StableId`]s within a solid.
#[derive(Clone, Debug, PartialEq, Structural)]
pub struct StableIdAllocator {
    next: u64,
}

impl View for StableIdAllocator {
    type V = u64;

    closed spec fn view(&self) -> u64 {
        self.next
    }
}

impl StableIdAllocator {
    /// Creates a new allocator whose first identifier is 1.
    pub fn new() -> (r: Self)
        ensures
            r@ == 1,
    {
        Self { next: 1 }
    }

    /// Restores an allocator whose next identifier is `next`.
    pub fn from_next(next: u64) -> (r: Self)
        ensures
            r@ == next,
    {
        Self { next }
    }

    /// Allocates a fresh [`StableId`]: the current counter, which then
    /// advances by one.
    pub fn allocate(&mut self) -> (id: StableId)
        requires
            1 <= old(self)@ < u64::MAX,
        ensures
            id@ == old(self)@,
            final(self)@ == old(self)@ + 1,
    {
        let id = StableId::new(self.next);
        self.next = self.next + 1;
        id
    }

    /// Advances the counter past `ceil` to avoid collisions with identifiers
    /// up to `ceil`.
    pub fn ensure_above(&mut self, ceil: u64)
        requires
            old(self)@ > ceil || ceil < u64::MAX,
        ensures
            final(self)@ == if old(self)@ <= ceil {
                (ceil + 1) as u64
            } else {
                old(self)@
            },
    {
        if self.next <= ceil {
            self.next = ceil + 1;
        }
    }

    /// Current counter value: the next identifier that will be allocated.
    pub fn peek(&self) -> (r: u64)
        ensures
            r == self@,
    {
        self.next
    }
}

impl Default for StableIdAllocator {
    fn default() -> (r: Self)
        ensures
            r@ == 1,
    {
        Self::new()
    }
}

/// Identifiers from one allocator never collide: successive allocations
/// strictly increase, and after `ensure_above(ceil)` every allocation lies
/// above `ceil`.
pub proof fn law_allocations_increase(before: u64, after: u64, ceil: u64)
    requires
        after == (if before <= ceil {
            (ceil + 1) as u64
        } else {
            before
        }),
        before > ceil || ceil < u64::MAX,
    ensures
        after > ceil,
        after >= before,
{
}

} // verus!
