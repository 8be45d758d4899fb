//! Choosing the heaviest entries of a list.

use vstd::prelude::*;

verus! {

/// `chosen` lists `min(n, weights.len())` distinct positions of `weights`,
/// heaviest first, and no position left out is heavier than a chosen one.
pub open spec fn is_top_selection(weights: Seq<u64>, n: nat, chosen: Seq<usize>) -> bool {
    &&& chosen.len() == if n < weights.len() {
        n
    } else {
        weights.len()
    }
    &&& forall|k: int| 0 <= k < chosen.len() ==> #[trigger] chosen[k] < weights.len()
    &&& forall|k: int, l: int| 0 <= k < l < chosen.len() ==> chosen[k] != chosen[l]
    &&& forall|k: int, l: int|
        0 <= k < l < chosen.len() ==> weights[chosen[k] as int] >= weights[chosen[l] as int]
    &&& forall|j: int, k: int|
        #![trigger weights[j], chosen[k]]
        0 <= j < weights.len() && 0 <= k < chosen.len() && !chosen.contains(j as usize)
            ==> weights[j] <= weights[chosen[k] as int]
}

/// Positions of the `n` heaviest weights, heaviest first (ties in position order).
pub fn top_positions(weights: &Vec<u64>, n: usize) -> (chosen: Vec<usize>)
    ensures
        is_top_selection(weights@, n as nat, chosen@),
{
    let m = weights.len();
    let target = if n < m {
        n
    } else {
        m
    };
    let mut used: Vec<bool> = Vec::new();
    let mut i: usize = 0;
    while i < m
        invariant
            i <= m,
            used@.len() == i,
            forall|k: int| 0 <= k < i ==> !used@[k],
        decreases m - i,
    {
        used.push(false);
        i += 1;
    }
    let mut chosen: Vec<usize> = Vec::new();
    while chosen.len() < target
        invariant
            m == weights@.len(),
            target <= m,
            chosen@.len() <= target,
            used@.len() == m,
            forall|k: int| 0 <= k < chosen@.len() ==> #[trigger] chosen@[k] < m,
            forall|j: int| 0 <= j < m ==> (used@[j] <==> chosen@.contains(j as usize)),
            forall|k: int, l: int| 0 <= k < l < chosen@.len() ==> chosen@[k] != chosen@[l],
            forall|k: int, l: int|
                0 <= k < l < chosen@.len() ==> weights@[chosen@[k] as int]
                    >= weights@[chosen@[l] as int],
            forall|j: int, k: int|
                #![trigger used@[j], chosen@[k]]
                0 <= j < m && 0 <= k < chosen@.len() && !used@[j] ==> weights@[j]
                    <= weights@[chosen@[k] as int],
        decreases target - chosen@.len(),
    {
        // Some position is still unused: chosen positions are distinct and fewer than m.
        proof {
            lemma_unused_exists(chosen@, m as nat, used@);
        }
        let mut best: usize = 0;
        let mut found = false;
        let mut j: usize = 0;
        while j < m
            invariant
                m == weights@.len(),
                used@.len() == m,
                j <= m,
                found ==> best < m && !used@[best as int],
                found ==> forall|q: int| 0 <= q < j && !used@[q] ==> weights@[q] <= weights@[best as int],
                !found ==> forall|q: int| 0 <= q < j ==> used@[q],
            decreases m - j,
        {
            if !used[j] && (!found || weights[j] > weights[best]) {
                best = j;
                found = true;
            }
            j += 1;
        }
        proof {
            if !found {
                let w = choose|q: int| 0 <= q < m && !used@[q];
                assert(used@[w]);
            }
        }
        let ghost old_chosen = chosen@;
        let ghost old_used = used@;
        used.set(best, true);
        chosen.push(best);
        proof {
            assert forall|q: int| 0 <= q < m implies (used@[q] <==> chosen@.contains(q as usize)) by {
                if q == best as int {
                    assert(chosen@[chosen@.len() - 1] == best);
                } else {
                    if old_chosen.contains(q as usize) {
                        let k = choose|k: int| 0 <= k < old_chosen.len() && old_chosen[k] == q as usize;
                        assert(chosen@[k] == q as usize);
                    }
                    if chosen@.contains(q as usize) {
                        let k = choose|k: int| 0 <= k < chosen@.len() && chosen@[k] == q as usize;
                        assert(k < old_chosen.len());
                        assert(old_chosen[k] == q as usize);
                    }
                }
            }
            assert forall|k: int, l: int| 0 <= k < l < chosen@.len() implies chosen@[k] != chosen@[l] by {
                if l == chosen@.len() - 1 {
                    assert(old_used[old_chosen[k] as int]);
                }
            }
        }
    }
    proof {
        assert forall|j: int, k: int|
            #![trigger weights@[j], chosen@[k]]
            0 <= j < m && 0 <= k < chosen@.len() && !chosen@.contains(j as usize) implies weights@[j]
            <= weights@[chosen@[k] as int] by {
            assert(!used@[j]);
        }
    }
    chosen
}

proof fn lemma_unused_exists(chosen: Seq<usize>, m: nat, used: Seq<bool>)
    requires
        m <= usize::MAX,
        chosen.len() < m,
        used.len() == m,
        forall|k: int| 0 <= k < chosen.len() ==> #[trigger] chosen[k] < m,
        forall|j: int| 0 <= j < m ==> (used[j] <==> chosen.contains(j as usize)),
        forall|k: int, l: int| 0 <= k < l < chosen.len() ==> chosen[k] != chosen[l],
    ensures
        exists|q: int| 0 <= q < m && !used[q],
{
    if forall|q: int| 0 <= q < m ==> used[q] {
        // Every position below m is chosen, so chosen holds m distinct values below m.
        let s = Set::new(|x: usize| x < m);
        let cs = chosen.to_set();
        assert forall|x: usize| s.contains(x) implies cs.contains(x) by {
            assert(used[x as int]);
        }
        vstd::set_lib::lemma_int_range(0, m as int);
        lemma_set_usize_range(m);
        chosen.unique_seq_to_set();
        vstd::set_lib::lemma_len_subset(s, cs);
        chosen.lemma_cardinality_of_set();
        assert(false);
    }
}

proof fn lemma_set_usize_range(m: nat)
    requires
        m <= usize::MAX,
    ensures
        Set::new(|x: usize| x < m).finite(),
        Set::new(|x: usize| x < m).len() == m,
    decreases m,
{
    if m == 0 {
        assert(Set::new(|x: usize| x < m) =~= Set::<usize>::empty());
    } else {
        lemma_set_usize_range((m - 1) as nat);
        let prev = Set::new(|x: usize| x < (m - 1) as nat);
        assert(!prev.contains((m - 1) as usize));
        assert(Set::new(|x: usize| x < m) =~= prev.insert((m - 1) as usize));
    }
}

} // verus!
