use monstertruck_tracking::id::{StableId, StableIdAllocator};

#[test]
fn stable_id_basics() {
    let id = StableId::new(42);
    assert_eq!(id.raw(), 42);
    assert!(id.is_assigned());
    assert!(!StableId::unassigned().is_assigned());
}

#[test]
fn stable_id_allocator() {
    let mut alloc = StableIdAllocator::new();
    let a = alloc.allocate();
    let b = alloc.allocate();
    assert_ne!(a, b);
    assert_eq!(a.raw(), 1);
    assert_eq!(b.raw(), 2);
}

#[test]
fn stable_id_defaults_are_unassigned_and_start_at_one() {
    assert_eq!(StableId::default(), StableId::unassigned());
    assert_eq!(StableId::unassigned().raw(), 0);
    assert_eq!(StableIdAllocator::default().peek(), 1);
}

#[test]
fn ensure_above_skips_past_the_ceiling_only_when_needed() {
    let mut alloc = StableIdAllocator::new();
    alloc.ensure_above(10);
    assert_eq!(alloc.peek(), 11);
    assert_eq!(alloc.allocate().raw(), 11);
    alloc.ensure_above(5);
    assert_eq!(alloc.peek(), 12);
    let mut restored = StableIdAllocator::from_next(7);
    assert_eq!(restored.allocate().raw(), 7);
    assert_eq!(restored.peek(), 8);
}
