use vstd::prelude::*;

verus! {

/// Whether `order` lists each index below `n` exactly once.
pub open spec fn is_permutation(order: Seq<usize>, n: nat) -> bool {
    &&& order.len() == n
    &&& forall|i: int| 0 <= i < order.len() ==> order[i] < n
    &&& forall|i: int, j: int| 0 <= i < j < order.len() ==> order[i] != order[j]
}

/// Whether the keys met along `order` never decrease.
pub open spec fn sorted_by_key(order: Seq<usize>, keys: Seq<i64>) -> bool {
    forall|i: int, j: int| 0 <= i < j < order.len() ==> keys[order[i] as int] <= keys[order[j] as int]
}

/// Whether indices with equal keys keep their original order along `order`.
pub open spec fn keeps_ties(order: Seq<usize>, keys: Seq<i64>) -> bool {
    forall|i: int, j: int|
        0 <= i < j < order.len() && keys[order[i] as int] == keys[order[j] as int] ==> order[i]
            < order[j]
}

/// The order in which to list items whose start keys are `keys`: every index
/// exactly once, by non-decreasing key, items with equal keys in their
/// original order (a stable sort).
pub fn order_by_start(keys: &Vec<i64>) -> (r: Vec<usize>)
    ensures
        is_permutation(r@, keys@.len()),
        sorted_by_key(r@, keys@),
        keeps_ties(r@, keys@),
{
    let n = keys.len();
    let mut r: Vec<usize> = Vec::new();
    let mut i: usize = 0;
    while i < n
        invariant
            n == keys@.len(),
            i <= n,
            is_permutation(r@, i as nat),
            sorted_by_key(r@, keys@),
            keeps_ties(r@, keys@),
        decreases n - i,
    {
        let k = keys[i];
        let mut p: usize = r.len();
        while p > 0 && keys[r[p - 1]] > k
            invariant
                n == keys@.len(),
                i < n,
                p <= r@.len(),
                is_permutation(r@, i as nat),
                forall|q: int| p <= q < r@.len() ==> keys@[r@[q] as int] > k,
            decreases p,
        {
            p = p - 1;
        }
        let ghost before = r@;
        proof {
            assert forall|q: int| 0 <= q < p implies keys@[before[q] as int] <= k by {
                assert(keys@[before[q] as int] <= keys@[before[p - 1] as int]);
            }
        }
        r.insert(p, i);
        proof {
            let after = r@;
            assert(after.len() == before.len() + 1);
            assert forall|q: int| 0 <= q < after.len() implies after[q] == (if q < p {
                before[q]
            } else if q == p {
                i
            } else {
                before[q - 1]
            }) by {}
            assert forall|a: int| 0 <= a < after.len() implies after[a] < i + 1 by {}
            assert forall|a: int, b: int| 0 <= a < b < after.len() implies after[a] != after[b] by {
                if a != p && b != p {
                    let a0 = if a < p { a } else { a - 1 };
                    let b0 = if b < p { b } else { b - 1 };
                    assert(before[a0] != before[b0]);
                }
            }
            assert forall|a: int, b: int| 0 <= a < b < after.len() implies keys@[after[a] as int]
                <= keys@[after[b] as int] by {
                let a0 = if a < p { a } else { a - 1 };
                let b0 = if b < p { b } else { b - 1 };
                if a != p && b != p {
                    assert(keys@[before[a0] as int] <= keys@[before[b0] as int]);
                } else if a == p {
                    assert(keys@[before[b0] as int] > k);
                } else {
                    assert(keys@[before[a0] as int] <= k);
                }
            }
            assert forall|a: int, b: int|
                0 <= a < b < after.len() && keys@[after[a] as int] == keys@[after[b] as int]
                implies after[a] < after[b] by {
                let a0 = if a < p { a } else { a - 1 };
                let b0 = if b < p { b } else { b - 1 };
                if a != p && b != p {
                    assert(before[a0] < before[b0]);
                } else if a == p {
                    assert(keys@[before[b0] as int] > k);
                }
            }
        }
        i = i + 1;
    }
    r
}

} // verus!
