//! Strict total orders over sequences: ordered sequences, repeated entries
//! and their least element.

use vstd::prelude::*;

verus! {

/// Whether `lt` is a strict total order.
pub open spec fn strict_total<T>(lt: spec_fn(T, T) -> bool) -> bool {
    &&& forall|a: T| !#[trigger] lt(a, a)
    &&& forall|a: T, b: T| a != b ==> #[trigger] lt(a, b) || lt(b, a)
    &&& forall|a: T, b: T, c: T| #[trigger] lt(a, b) && #[trigger] lt(b, c) ==> lt(a, c)
}

/// Whether `s` is strictly increasing under `lt`.
pub open spec fn strictly_ordered<T>(s: Seq<T>, lt: spec_fn(T, T) -> bool) -> bool {
    forall|i: int, j: int| 0 <= i < j < s.len() ==> #[trigger] lt(s[i], s[j])
}

/// Whether `p` is the position at which inserting `x` keeps `s` ordered.
pub open spec fn is_slot<T>(s: Seq<T>, x: T, p: int, lt: spec_fn(T, T) -> bool) -> bool {
    &&& 0 <= p <= s.len()
    &&& forall|i: int| 0 <= i < p ==> #[trigger] lt(s[i], x)
    &&& forall|i: int| p <= i < s.len() ==> #[trigger] lt(x, s[i])
}

/// Inserting at its slot keeps a sequence strictly ordered.
pub proof fn lemma_insert_at_slot<T>(s: Seq<T>, x: T, p: int, lt: spec_fn(T, T) -> bool)
    requires
        strict_total(lt),
        strictly_ordered(s, lt),
        is_slot(s, x, p, lt),
    ensures
        strictly_ordered(s.insert(p, x), lt),
        forall|y: T| s.insert(p, x).contains(y) <==> (s.contains(y) || y == x),
{
    let n = s.insert(p, x);
    assert forall|i: int, j: int| 0 <= i < j < n.len() implies #[trigger] lt(n[i], n[j]) by {
        if j < p {
            assert(lt(s[i], s[j]));
        } else if j == p {
            assert(lt(s[i], x));
        } else if i < p {
            assert(lt(s[i], x) && lt(x, s[j - 1]));
        } else if i == p {
            assert(lt(x, s[j - 1]));
        } else {
            assert(lt(s[i - 1], s[j - 1]));
        }
    }
    assert forall|y: T| n.contains(y) <==> (s.contains(y) || y == x) by {
        if n.contains(y) {
            let i = choose|i: int| 0 <= i < n.len() && n[i] == y;
            if i < p {
                assert(s[i] == y);
            } else if i > p {
                assert(s[i - 1] == y);
            }
        }
        if s.contains(y) {
            let i = choose|i: int| 0 <= i < s.len() && s[i] == y;
            if i < p {
                assert(n[i] == y);
            } else {
                assert(n[i + 1] == y);
            }
        }
        if y == x {
            assert(n[p] == x);
        }
    }
}

/// A slot exists only for absent entries.
pub proof fn lemma_slot_absent<T>(s: Seq<T>, x: T, p: int, lt: spec_fn(T, T) -> bool)
    requires
        strict_total(lt),
        is_slot(s, x, p, lt),
    ensures
        !s.contains(x),
{
    if s.contains(x) {
        let i = choose|i: int| 0 <= i < s.len() && s[i] == x;
        if i < p {
            assert(lt(s[i], x));
        } else {
            assert(lt(x, s[i]));
        }
    }
}

/// Whether `x` occurs twice among the first `j` entries of `s`.
pub open spec fn repeats_before<T>(s: Seq<T>, j: int, x: T) -> bool {
    exists|a: int, c: int| 0 <= a < c < j && s[a] == x && s[c] == x
}

/// Whether `x` occurs at two positions of `s`.
pub open spec fn repeats<T>(s: Seq<T>, x: T) -> bool {
    repeats_before(s, s.len() as int, x)
}

/// Whether some entry occurs twice in `s`.
pub open spec fn has_repeat<T>(s: Seq<T>) -> bool {
    exists|x: T| repeats(s, x)
}

/// The least entry under `lt` that occurs twice in `s`.
pub open spec fn least_repeat<T>(s: Seq<T>, lt: spec_fn(T, T) -> bool) -> T {
    choose|x: T| repeats(s, x) && forall|y: T| repeats(s, y) ==> !lt(y, x)
}

/// Whether `best` is the position of the least repeat among the first `j`
/// entries of `s`.
pub open spec fn least_repeat_so_far<T>(
    s: Seq<T>,
    j: int,
    best: Option<usize>,
    lt: spec_fn(T, T) -> bool,
) -> bool {
    match best {
        Some(b) => b < s.len() && repeats_before(s, j, s[b as int]) && forall|x: T|
            #[trigger] repeats_before(s, j, x) ==> !lt(x, s[b as int]),
        None => forall|x: T| !#[trigger] repeats_before(s, j, x),
    }
}

/// Extending the scanned prefix by entry `j` keeps track of the least
/// repeat.
pub proof fn lemma_least_repeat_step<T>(
    s: Seq<T>,
    j: int,
    prev: Option<usize>,
    found: bool,
    next: Option<usize>,
    lt: spec_fn(T, T) -> bool,
)
    requires
        strict_total(lt),
        0 <= j < s.len(),
        s.len() <= usize::MAX,
        least_repeat_so_far(s, j, prev, lt),
        found == exists|a: int| 0 <= a < j && s[a] == s[j],
        !found ==> next == prev,
        found && prev is None ==> next == Some(j as usize),
        found && prev is Some ==> (if lt(s[j], s[prev->0 as int]) {
            next == Some(j as usize)
        } else {
            next == prev
        }),
    ensures
        least_repeat_so_far(s, j + 1, next, lt),
{
    assert(!lt(s[j], s[j]));
    assert forall|x: T| #[trigger] repeats_before(s, j, x) implies repeats_before(s, j + 1, x) by {
        let (a, c) = choose|a: int, c: int| 0 <= a < c < j && s[a] == x && s[c] == x;
    }
    if found {
        let a = choose|a: int| 0 <= a < j && s[a] == s[j];
        assert(repeats_before(s, j + 1, s[j]));
    }
    assert forall|x: T| #[trigger] repeats_before(s, j + 1, x) implies (repeats_before(s, j, x) || (
    found && x == s[j])) by {
        let (a, c) = choose|a: int, c: int| 0 <= a < c < j + 1 && s[a] == x && s[c] == x;
        if c < j {
            assert(repeats_before(s, j, x));
        }
    }
    match next {
        Some(b) => {
            assert forall|x: T| #[trigger] repeats_before(s, j + 1, x) implies !lt(x, s[b as int]) by {
                assert(!lt(x, x));
                assert(repeats_before(s, j, x) || (found && x == s[j]));
                if repeats_before(s, j, x) {
                    match prev {
                        Some(pb) => {
                            if b != pb {
                                if lt(x, s[j]) {
                                    assert(lt(s[j], s[pb as int]));
                                    assert(lt(x, s[pb as int]));
                                }
                            }
                        },
                        None => {},
                    }
                } else {
                    match prev {
                        Some(pb) => {
                            if b == pb && lt(s[j], s[pb as int]) {
                                assert(next == Some(j as usize));
                                assert(pb == j);
                            }
                        },
                        None => {},
                    }
                }
            }
            if b != j {
                assert(repeats_before(s, j, s[b as int]));
            }
        },
        None => {},
    }
}

/// The least repeat of a fully scanned sequence is its least repeated entry.
pub proof fn lemma_least_repeat_done<T>(s: Seq<T>, best: Option<usize>, lt: spec_fn(T, T) -> bool)
    requires
        strict_total(lt),
        least_repeat_so_far(s, s.len() as int, best, lt),
    ensures
        match best {
            Some(b) => has_repeat(s) && s[b as int] == least_repeat(s, lt),
            None => !has_repeat(s),
        },
{
    match best {
        Some(b) => {
            assert(repeats(s, s[b as int]));
            let m = least_repeat(s, lt);
            assert(repeats_before(s, s.len() as int, m));
            assert(!lt(m, s[b as int]));
            assert(!lt(s[b as int], m));
        },
        None => {
            assert forall|x: T| !repeats(s, x) by {
                assert(!repeats_before(s, s.len() as int, x));
            }
        },
    }
}

} // verus!
