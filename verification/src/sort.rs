//! Stable sorting by an integer key, largest first.
use vstd::prelude::*;

verus! {

/// `out` is `inp` rearranged by `perm`: `out[k] == inp[perm[k]]`, with
/// `perm` a permutation of the positions.
pub open spec fn permuted_by<T>(out: Seq<T>, inp: Seq<T>, perm: Seq<int>) -> bool {
    &&& perm.len() == out.len()
    &&& out.len() == inp.len()
    &&& forall|k: int| 0 <= k < perm.len() ==> 0 <= #[trigger] perm[k] < inp.len()
    &&& forall|k: int| 0 <= k < perm.len() ==> out[k] == inp[#[trigger] perm[k]]
    &&& forall|a: int, b: int|
        0 <= a < perm.len() && 0 <= b < perm.len() && a != b ==> #[trigger] perm[a]
            != #[trigger] perm[b]
}

/// The keys are in non-increasing order.
pub open spec fn sorted_desc(keys: Seq<i32>) -> bool {
    forall|a: int, b: int| 0 <= a < b < keys.len() ==> #[trigger] keys[a] >= #[trigger] keys[b]
}

/// Elements with equal keys keep their original relative order.
pub open spec fn stable(keys: Seq<i32>, perm: Seq<int>) -> bool {
    forall|a: int, b: int|
        0 <= a < b < keys.len() && #[trigger] keys[a] == #[trigger] keys[b] ==> perm[a] < perm[b]
}

/// `out` is a stable sort of `inp`, largest key first, where `key` gives
/// the key of each element.
pub open spec fn stable_sorted_desc<T>(out: Seq<T>, inp: Seq<T>, key: spec_fn(T) -> i32) -> bool {
    exists|perm: Seq<int>|
        permuted_by(out, inp, perm) && sorted_desc(out.map_values(key)) && stable(
            out.map_values(key),
            perm,
        )
}

/// Sorts `items` by `keys` (one key per item), largest first, keeping the
/// order of equal keys; answers the sorted items with their keys.
pub fn stable_sort_desc<T>(items: Vec<T>, keys: Vec<i32>) -> (r: (Vec<T>, Vec<i32>))
    requires
        items@.len() == keys@.len(),
    ensures
        exists|perm: Seq<int>|
            permuted_by(r.0@, items@, perm) && permuted_by(r.1@, keys@, perm) && sorted_desc(
                r.1@,
            ) && stable(r.1@, perm),
{
    let n = items.len();
    let ghost inp = items@;
    let ghost inkeys = keys@;
    let mut rest = items;
    let mut rest_keys = keys;
    let mut out: Vec<T> = Vec::new();
    let mut out_keys: Vec<i32> = Vec::new();
    let ghost mut perm: Seq<int> = Seq::empty();
    let mut m: usize = 0;
    while m < n
        invariant
            inp == items@,
            inkeys == keys@,
            n == inp.len(),
            inp.len() == inkeys.len(),
            0 <= m <= n,
            rest@ == inp.skip(m as int),
            rest_keys@ == inkeys.skip(m as int),
            perm.len() == m,
            out@.len() == m,
            out_keys@.len() == m,
            forall|k: int| 0 <= k < m ==> 0 <= #[trigger] perm[k] < m,
            forall|k: int| 0 <= k < m ==> out@[k] == inp[#[trigger] perm[k]],
            forall|k: int| 0 <= k < m ==> out_keys@[k] == inkeys[#[trigger] perm[k]],
            forall|a: int, b: int|
                0 <= a < m && 0 <= b < m && a != b ==> #[trigger] perm[a] != #[trigger] perm[b],
            sorted_desc(out_keys@),
            stable(out_keys@, perm),
        decreases n - m,
    {
        assert(rest@[0] == inp[m as int]);
        assert(rest_keys@[0] == inkeys[m as int]);
        let x = rest.remove(0);
        let kx = rest_keys.remove(0);
        assert(rest@ =~= inp.skip(m + 1));
        assert(rest_keys@ =~= inkeys.skip(m + 1));
        let mut j: usize = out.len();
        while j > 0 && out_keys[j - 1] < kx
            invariant
                j <= out_keys@.len(),
                out_keys@.len() == m,
                forall|k: int| j <= k < m ==> out_keys@[k] < kx,
            decreases j,
        {
            j = j - 1;
        }
        let ghost old_keys = out_keys@;
        let ghost old_perm = perm;
        out.insert(j, x);
        out_keys.insert(j, kx);
        proof {
            perm = old_perm.insert(j as int, m as int);
            assert forall|k: int| 0 <= k < m + 1 implies 0 <= #[trigger] perm[k] < m + 1 by {
                if k < j {
                    assert(perm[k] == old_perm[k]);
                } else if k > j {
                    assert(perm[k] == old_perm[k - 1]);
                }
            }
            assert forall|a: int, b: int|
                0 <= a < m + 1 && 0 <= b < m + 1 && a != b implies #[trigger] perm[a]
                != #[trigger] perm[b] by {
                if a != j && b != j {
                    let a2 = if a < j {
                        a
                    } else {
                        a - 1
                    };
                    let b2 = if b < j {
                        b
                    } else {
                        b - 1
                    };
                    assert(perm[a] == old_perm[a2]);
                    assert(perm[b] == old_perm[b2]);
                } else if a == j {
                    let b2 = if b < j {
                        b
                    } else {
                        b - 1
                    };
                    assert(perm[b] == old_perm[b2]);
                } else {
                    let a2 = if a < j {
                        a
                    } else {
                        a - 1
                    };
                    assert(perm[a] == old_perm[a2]);
                }
            }
            assert forall|k: int| 0 <= k < m + 1 implies out@[k] == inp[#[trigger] perm[k]] by {
                if k < j {
                    assert(perm[k] == old_perm[k]);
                } else if k > j {
                    assert(perm[k] == old_perm[k - 1]);
                }
            }
            assert forall|k: int| 0 <= k < m + 1 implies out_keys@[k] == inkeys[
                #[trigger] perm[k]
            ] by {
                if k < j {
                    assert(perm[k] == old_perm[k]);
                } else if k > j {
                    assert(perm[k] == old_perm[k - 1]);
                }
            }
            assert forall|a: int, b: int| 0 <= a < b < out_keys@.len() implies #[trigger] out_keys@[a]
                >= #[trigger] out_keys@[b] by {
                if a < j && b < j {
                    assert(out_keys@[a] == old_keys[a] && out_keys@[b] == old_keys[b]);
                } else if a < j && b == j {
                    assert(out_keys@[a] == old_keys[a]);
                    if j > 0 {
                        assert(old_keys[j - 1] >= kx);
                        if a < j - 1 {
                            assert(old_keys[a] >= old_keys[j - 1]);
                        }
                    }
                } else if a < j && b > j {
                    assert(out_keys@[a] == old_keys[a] && out_keys@[b] == old_keys[b - 1]);
                } else if a == j {
                    assert(out_keys@[b] == old_keys[b - 1]);
                } else {
                    assert(out_keys@[a] == old_keys[a - 1] && out_keys@[b] == old_keys[b - 1]);
                }
            }
            assert forall|a: int, b: int|
                0 <= a < b < out_keys@.len() && #[trigger] out_keys@[a]
                    == #[trigger] out_keys@[b] implies perm[a] < perm[b] by {
                if a < j && b < j {
                    assert(out_keys@[a] == old_keys[a] && out_keys@[b] == old_keys[b]);
                    assert(perm[a] == old_perm[a] && perm[b] == old_perm[b]);
                } else if a < j && b == j {
                    assert(perm[a] == old_perm[a]);
                } else if a < j && b > j {
                    assert(out_keys@[a] == old_keys[a] && out_keys@[b] == old_keys[b - 1]);
                    assert(perm[a] == old_perm[a] && perm[b] == old_perm[b - 1]);
                } else if a == j {
                    assert(out_keys@[b] == old_keys[b - 1]);
                    assert(old_keys[b - 1] < kx);
                } else {
                    assert(out_keys@[a] == old_keys[a - 1] && out_keys@[b] == old_keys[b - 1]);
                    assert(perm[a] == old_perm[a - 1] && perm[b] == old_perm[b - 1]);
                }
            }
        }
        m = m + 1;
    }
    assert(permuted_by(out@, inp, perm));
    assert(permuted_by(out_keys@, inkeys, perm));
    assert(permuted_by(out@, inp, perm) && permuted_by(out_keys@, inkeys, perm) && sorted_desc(
        out_keys@,
    ) && stable(out_keys@, perm));
    let r = (out, out_keys);
    assert(permuted_by(r.0@, items@, perm) && permuted_by(r.1@, keys@, perm) && sorted_desc(r.1@)
        && stable(r.1@, perm));
    r
}

} // verus!
