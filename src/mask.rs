use vstd::prelude::*;

verus! {

/// Whether query `i` of a step that follows `n_past` cached positions may attend to key
/// position `j`: only to positions up to its own, `n_past + i`.
pub open spec fn visible(n_past: nat, i: nat, j: nat) -> bool {
    j <= n_past + i
}

/// The causal mask over a score matrix of `n` queries with `n_kv` key positions each (one
/// run of `n_kv` scores per query). A hidden score becomes `None`: negative infinity, which
/// normalization turns into a weight of exactly zero.
pub fn diag_mask<T: Copy>(scores: &Vec<T>, n_kv: usize, n: usize, n_past: usize) -> (r: Vec<Option<T>>)
    requires
        scores@.len() == n as nat * n_kv as nat,
    ensures
        r@.len() == scores@.len(),
        forall|i: nat, j: nat|
            #![trigger r@[i * n_kv + j]]
            i < n && j < n_kv ==> r@[i * n_kv + j] == if visible(n_past as nat, i, j) {
                Some(scores@[i * n_kv + j])
            } else {
                None
            },
{
    let len = scores.len();
    let mut r: Vec<Option<T>> = Vec::new();
    let mut i: usize = 0;
    while i < n
        invariant
            len == scores@.len(),
            len == n as nat * n_kv as nat,
            i <= n,
            r@.len() == i as nat * n_kv as nat,
            forall|i2: nat, j: nat|
                #![trigger r@[i2 * n_kv + j]]
                i2 < i && j < n_kv ==> r@[i2 * n_kv + j] == if visible(n_past as nat, i2, j) {
                    Some(scores@[i2 * n_kv + j])
                } else {
                    None
                },
        decreases n - i,
    {
        proof {
            assert(i as nat * n_kv as nat + n_kv as nat <= n as nat * n_kv as nat) by (nonlinear_arith)
                requires
                    i < n,
            ;
        }
        let row = i * n_kv;
        let mut j: usize = 0;
        while j < n_kv
            invariant
                len == scores@.len(),
                len == n as nat * n_kv as nat,
                i < n,
                row == i as nat * n_kv as nat,
                row + n_kv <= len,
                j <= n_kv,
                r@.len() == row + j,
                forall|i2: nat, j2: nat|
                    #![trigger r@[i2 * n_kv + j2]]
                    i2 < i && j2 < n_kv ==> r@[i2 * n_kv + j2] == if visible(n_past as nat, i2, j2) {
                        Some(scores@[i2 * n_kv + j2])
                    } else {
                        None
                    },
                forall|j2: nat|
                    j2 < j ==> r@[row + j2] == if visible(n_past as nat, i as nat, j2) {
                        Some(scores@[row + j2])
                    } else {
                        None
                    },
            decreases n_kv - j,
        {
            let ghost prev = r@;
            if j <= i || j - i <= n_past {
                r.push(Some(scores[row + j]));
            } else {
                r.push(None);
            }
            proof {
                assert forall|i2: nat, j2: nat|
                    #![trigger r@[i2 * n_kv + j2]]
                    i2 < i && j2 < n_kv implies r@[i2 * n_kv + j2] == prev[i2 * n_kv + j2] by {
                    assert(i2 * n_kv + j2 < row) by (nonlinear_arith)
                        requires
                            i2 < i,
                            j2 < n_kv,
                            row == i as nat * n_kv as nat,
                    ;
                }
            }
            j = j + 1;
        }
        proof {
            assert forall|i2: nat, j2: nat|
                #![trigger r@[i2 * n_kv + j2]]
                i2 < i + 1 && j2 < n_kv implies r@[i2 * n_kv + j2] == if visible(n_past as nat, i2, j2) {
                    Some(scores@[i2 * n_kv + j2])
                } else {
                    None
                } by {
                if i2 == i {
                    assert(r@[row + j2] == r@[i2 * n_kv + j2]);
                }
            }
            assert((i + 1) as nat * n_kv as nat == row + n_kv) by (nonlinear_arith)
                requires
                    row == i as nat * n_kv as nat,
            ;
        }
        i = i + 1;
    }
    r
}

} // verus!
