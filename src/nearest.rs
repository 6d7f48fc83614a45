use vstd::prelude::*;

verus! {

/// `k` is the first index of `keys` that holds the smallest key present:
/// it holds a key, no key anywhere is smaller, and every earlier key is larger.
pub open spec fn is_first_nearest(keys: Seq<Option<u64>>, k: int) -> bool {
    &&& 0 <= k < keys.len()
    &&& keys[k] is Some
    &&& forall|m: int| 0 <= m < keys.len() && keys[m] is Some ==> keys[k]->0 <= keys[m]->0
    &&& forall|m: int| 0 <= m < k && keys[m] is Some ==> keys[k]->0 < keys[m]->0
}

/// Some index of `keys` holds a key.
pub open spec fn any_hit(keys: Seq<Option<u64>>) -> bool {
    exists|m: int| 0 <= m < keys.len() && keys[m] is Some
}

/// Nearest-hit selection over the figures of a scene, scanned in order.
///
/// `keys[m]` is `None` when figure `m` is missed, and otherwise a key of the
/// distance to its hit whose order is the order of the distances (for a
/// positive `f64` distance, its bit pattern). The result is the index of the
/// nearest hit, the first one on equal distances, and `None` exactly when no
/// figure is hit.
pub fn nearest_hit(keys: &Vec<Option<u64>>) -> (r: Option<usize>)
    ensures
        r is None <==> !any_hit(keys@),
        r is Some ==> is_first_nearest(keys@, r->0 as int),
{
    let mut best: Option<usize> = None;
    let mut m: usize = 0;
    while m < keys.len()
        invariant
            0 <= m <= keys.len(),
            best is None <==> !any_hit(keys@.subrange(0, m as int)),
            best is Some ==> is_first_nearest(keys@.subrange(0, m as int), best->0 as int),
        decreases keys.len() - m,
    {
        let ghost before = keys@.subrange(0, m as int);
        let ghost after = keys@.subrange(0, m + 1);
        assert(after =~= before.push(keys@[m as int]));
        if let Some(d) = keys[m] {
            let closer = match best {
                None => true,
                Some(b) => match keys[b] {
                    Some(bd) => d < bd,
                    None => false,
                },
            };
            if closer {
                best = Some(m);
            }
            assert(any_hit(after)) by {
                assert(after[m as int] is Some);
            }
        } else {
            if best.is_none() {
                assert(!any_hit(after)) by {
                    assert forall|k: int| 0 <= k < after.len() implies after[k] is None by {
                        if k < m {
                            assert(after[k] == before[k]);
                            assert(!(0 <= k < before.len() && before[k] is Some));
                        }
                    }
                }
            }
        }
        m = m + 1;
    }
    assert(keys@.subrange(0, keys.len() as int) =~= keys@);
    best
}

} // verus!
