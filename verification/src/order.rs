//! The deterministic processing order: positions sorted by a two-part key, ties by position.
use vstd::prelude::*;

verus! {

/// Position `a` comes before position `b`: by the first key part, then the second, then by
/// position (so the order is strict and total on distinct positions).
pub open spec fn before(keys: Seq<(u64, u64)>, a: int, b: int) -> bool {
    ||| keys[a].0 < keys[b].0
    ||| (keys[a].0 == keys[b].0 && keys[a].1 < keys[b].1)
    ||| (keys[a].0 == keys[b].0 && keys[a].1 == keys[b].1 && a < b)
}

fn is_before(keys: &Vec<(u64, u64)>, a: usize, b: usize) -> (r: bool)
    requires
        a < keys.len(),
        b < keys.len(),
    ensures
        r == before(keys@, a as int, b as int),
{
    let (ka0, ka1) = keys[a];
    let (kb0, kb1) = keys[b];
    ka0 < kb0 || (ka0 == kb0 && ka1 < kb1) || (ka0 == kb0 && ka1 == kb1 && a < b)
}

/// Every position of `keys`, each once, in [`before`] order.
pub fn sorted_order(keys: &Vec<(u64, u64)>) -> (r: Vec<usize>)
    ensures
        r.len() == keys.len(),
        forall|a: int| 0 <= a < r.len() ==> (#[trigger] r@[a]) < keys.len(),
        forall|a: int, b: int| 0 <= a < b < r.len() ==> before(keys@, #[trigger] r@[a] as int, #[trigger] r@[b] as int),
{
    let mut r: Vec<usize> = Vec::new();
    let mut i: usize = 0;
    while i < keys.len()
        invariant
            i <= keys.len(),
            r.len() == i,
            forall|a: int| 0 <= a < r.len() ==> (#[trigger] r@[a]) < i,
            forall|a: int, b: int| 0 <= a < b < r.len() ==> before(keys@, #[trigger] r@[a] as int, #[trigger] r@[b] as int),
        decreases keys.len() - i,
    {
        let mut p: usize = 0;
        while p < r.len() && !is_before(keys, i, r[p])
            invariant
                p <= r.len(),
                r.len() == i,
                i < keys.len(),
                forall|a: int| 0 <= a < r.len() ==> (#[trigger] r@[a]) < i,
                forall|q: int| 0 <= q < p ==> before(keys@, #[trigger] r@[q] as int, i as int),
            decreases r.len() - p,
        {
            proof {
                assert(r@[p as int] < i);
            }
            p += 1;
        }
        let ghost old_r = r@;
        proof {
            assert forall|q: int| p <= q < old_r.len() implies before(keys@, i as int, #[trigger] old_r[q] as int) by {
                if q > p {
                    assert(before(keys@, old_r[p as int] as int, old_r[q] as int));
                }
            }
        }
        r.insert(p, i);
        proof {
            assert forall|a: int| 0 <= a < r.len() implies (#[trigger] r@[a]) < i + 1 by {
                if a < p {
                    assert(r@[a] == old_r[a]);
                } else if a > p {
                    assert(r@[a] == old_r[a - 1]);
                }
            }
            assert forall|a: int, b: int| 0 <= a < b < r.len() implies before(keys@, #[trigger] r@[a] as int, #[trigger] r@[b] as int) by {
                if b < p {
                    assert(r@[a] == old_r[a] && r@[b] == old_r[b]);
                } else if b == p {
                    assert(r@[a] == old_r[a]);
                } else if a < p {
                    assert(r@[a] == old_r[a] && r@[b] == old_r[b - 1]);
                    assert(before(keys@, old_r[a] as int, i as int));
                } else if a == p {
                    assert(r@[b] == old_r[b - 1]);
                } else {
                    assert(r@[a] == old_r[a - 1] && r@[b] == old_r[b - 1]);
                }
            }
        }
        i += 1;
    }
    r
}

} // verus!
