//! The sampler: draws a requested number of words at pairwise distinct
//! positions from the corpus, by a partial Fisher–Yates selection over a
//! working copy of the token list.

use vstd::prelude::*;
use crate::options::GenerateError;
use crate::random::RandomSource;

verus! {

/// `v` consists of words read off `tokens` at the pairwise distinct
/// positions `p`: no token position is drawn twice.
pub open spec fn picked_from(v: Seq<Seq<char>>, tokens: Seq<Seq<char>>, p: Seq<int>) -> bool {
    &&& p.len() == v.len()
    &&& forall|a: int, b: int| 0 <= a < b < p.len() ==> p[a] != p[b]
    &&& forall|k: int|
        0 <= k < p.len() ==> 0 <= (#[trigger] p[k]) < tokens.len() && v[k] == tokens[p[k]]
}

/// `v` is a selection of words of `tokens` at pairwise distinct positions.
pub open spec fn distinct_sample(v: Seq<Seq<char>>, tokens: Seq<Seq<char>>) -> bool {
    exists|p: Seq<int>| picked_from(v, tokens, p)
}

/// The selection, as mathematics: starting from position `i`, each step
/// swaps the word at `i` with one at a drawn position at or after `i`, until
/// `count` positions are fixed. Returns the final pool and the final state
/// of the source; it pins the outcome where the source is deterministic.
pub open spec fn fy_select<R: RandomSource>(
    pool: Seq<Seq<char>>,
    i: nat,
    count: nat,
    rng: R,
) -> (Seq<Seq<char>>, R)
    decreases count - i,
{
    if i >= count || i >= pool.len() {
        (pool, rng)
    } else {
        let bound = (pool.len() - i) as usize;
        let r = rng.next_value(bound);
        let rng2 = rng.next_state(bound);
        let j = i + r;
        let pool2 = pool.update(i as int, pool[j as int]).update(j as int, pool[i as int]);
        fy_select(pool2, i + 1, count, rng2)
    }
}

/// The words a deterministic source in this state samples.
pub open spec fn sampled_words<R: RandomSource>(
    tokens: Seq<Seq<char>>,
    count: nat,
    rng: R,
) -> Seq<Seq<char>> {
    fy_select(tokens, 0, count, rng).0.take(count as int)
}

/// The state a deterministic source is left in after sampling.
pub open spec fn sampled_state<R: RandomSource>(tokens: Seq<Seq<char>>, count: nat, rng: R) -> R {
    fy_select(tokens, 0, count, rng).1
}

/// Draws exactly `count` words from `tokens` at pairwise distinct positions,
/// in an order derived from the randomness source. Rejects a count that
/// exceeds the population; a deterministic source pins the result exactly,
/// so a fixed seed reproduces the same words.
pub fn get_random_words<R: RandomSource>(
    tokens: &Vec<String>,
    count: usize,
    rng: &mut R,
) -> (r: Result<Vec<String>, GenerateError>)
    ensures
        r is Ok <==> count <= tokens@.len(),
        r matches Err(e) ==> e == GenerateError::InvalidCount && *final(rng) == *old(rng),
        r matches Ok(v) ==> v@.len() == count,
        r matches Ok(v) ==> distinct_sample(v.deep_view(), tokens.deep_view()),
        old(rng).deterministic() ==> (r matches Ok(v) ==> v.deep_view() == sampled_words(
            tokens.deep_view(),
            count as nat,
            *old(rng),
        ) && *final(rng) == sampled_state(tokens.deep_view(), count as nat, *old(rng))
            && final(rng).deterministic()),
{
    let n = tokens.len();
    if count > n {
        return Err(GenerateError::InvalidCount);
    }
    let mut pool: Vec<String> = Vec::new();
    let mut c: usize = 0;
    while c < n
        invariant
            n == tokens@.len(),
            c <= n,
            pool@ == tokens@.subrange(0, c as int),
        decreases n - c,
    {
        pool.push(tokens[c].clone());
        proof {
            assert(pool@ =~= tokens@.subrange(0, (c + 1) as int));
        }
        c += 1;
    }
    proof {
        assert(tokens@.subrange(0, n as int) =~= tokens@);
        assert(pool.deep_view() =~= tokens.deep_view());
    }
    let ghost mut perm: Seq<int> = Seq::new(n as nat, |k: int| k);
    let mut i: usize = 0;
    while i < count
        invariant
            count <= n,
            n == tokens@.len(),
            pool@.len() == n,
            perm.len() == n,
            i <= count,
            forall|a: int, b: int| 0 <= a < b < n ==> perm[a] != perm[b],
            forall|k: int|
                0 <= k < n ==> 0 <= (#[trigger] perm[k]) < n && pool.deep_view()[k]
                    == tokens.deep_view()[perm[k]],
            old(rng).deterministic() ==> rng.deterministic() && fy_select(
                tokens.deep_view(),
                0,
                count as nat,
                *old(rng),
            ) == fy_select(pool.deep_view(), i as nat, count as nat, *rng),
        decreases count - i,
    {
        let ghost pool_before = pool.deep_view();
        let ghost perm_before = perm;
        let ghost rng_before = *rng;
        let bound = n - i;
        let drawn = rng.pick(bound);
        let j = i + drawn;
        let wi = pool[i].clone();
        let wj = pool[j].clone();
        pool.set(i, wj);
        pool.set(j, wi);
        proof {
            let pool_after = pool.deep_view();
            assert(pool_after =~= pool_before.update(i as int, pool_before[j as int]).update(
                j as int,
                pool_before[i as int],
            ));
            perm = perm.update(i as int, perm_before[j as int]).update(
                j as int,
                perm_before[i as int],
            );
            assert forall|k: int|
                0 <= k < n implies 0 <= (#[trigger] perm[k]) < n && pool_after[k]
                == tokens.deep_view()[perm[k]] by {
                if k == i as int {
                    assert(pool_before[j as int] == tokens.deep_view()[perm_before[j as int]]);
                } else if k == j as int {
                    assert(pool_before[i as int] == tokens.deep_view()[perm_before[i as int]]);
                } else {
                    assert(pool_before[k] == tokens.deep_view()[perm_before[k]]);
                }
            }
            assert forall|a: int, b: int| 0 <= a < b < n implies perm[a] != perm[b] by {
                let a2: int = if a == i as int {
                    j as int
                } else if a == j as int {
                    i as int
                } else {
                    a
                };
                let b2: int = if b == i as int {
                    j as int
                } else if b == j as int {
                    i as int
                } else {
                    b
                };
                assert(perm[a] == perm_before[a2]);
                assert(perm[b] == perm_before[b2]);
                if a2 < b2 {
                    assert(perm_before[a2] != perm_before[b2]);
                } else {
                    assert(perm_before[b2] != perm_before[a2]);
                }
            }
            if old(rng).deterministic() {
                assert(fy_select(pool_before, i as nat, count as nat, rng_before) == fy_select(
                    pool_after,
                    (i + 1) as nat,
                    count as nat,
                    *rng,
                ));
            }
        }
        i += 1;
    }
    let mut picked: Vec<String> = Vec::new();
    let mut k: usize = 0;
    while k < count
        invariant
            count <= pool@.len(),
            k <= count,
            picked@ == pool@.subrange(0, k as int),
        decreases count - k,
    {
        picked.push(pool[k].clone());
        proof {
            assert(picked@ =~= pool@.subrange(0, (k + 1) as int));
        }
        k += 1;
    }
    proof {
        assert(picked.deep_view() =~= pool.deep_view().take(count as int));
        assert(picked_from(picked.deep_view(), tokens.deep_view(), perm.take(count as int)));
        assert(distinct_sample(picked.deep_view(), tokens.deep_view()));
        if old(rng).deterministic() {
            assert(fy_select(pool.deep_view(), count as nat, count as nat, *rng) == (
                pool.deep_view(),
                *rng,
            ));
            assert(picked.deep_view() == sampled_words(
                tokens.deep_view(),
                count as nat,
                *old(rng),
            ));
        }
    }
    Ok(picked)
}

} // verus!
