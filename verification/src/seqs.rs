//! Sums and keyed positions over sequences, with the lemmas the statistics use.

use vstd::prelude::*;

verus! {

/// Sum of `f` over the elements of `s`.
pub open spec fn sum_of<T>(s: Seq<T>, f: spec_fn(T) -> int) -> int
    decreases s.len(),
{
    if s.len() == 0 {
        0
    } else {
        sum_of(s.drop_last(), f) + f(s.last())
    }
}

/// Position of the last element of `s` whose key is `k`, or -1.
pub open spec fn pos_of<T, K>(s: Seq<T>, key: spec_fn(T) -> K, k: K) -> int
    decreases s.len(),
{
    if s.len() == 0 {
        -1
    } else if key(s.last()) == k {
        s.len() - 1
    } else {
        pos_of(s.drop_last(), key, k)
    }
}

/// No two elements of `s` share a key.
pub open spec fn keys_unique<T, K>(s: Seq<T>, key: spec_fn(T) -> K) -> bool {
    forall|i: int, j: int| 0 <= i < j < s.len() ==> key(#[trigger] s[i]) != key(#[trigger] s[j])
}

pub proof fn lemma_sum_push<T>(s: Seq<T>, v: T, f: spec_fn(T) -> int)
    ensures
        sum_of(s.push(v), f) == sum_of(s, f) + f(v),
{
    assert(s.push(v).drop_last() =~= s);
}

pub proof fn lemma_sum_update<T>(s: Seq<T>, i: int, v: T, f: spec_fn(T) -> int)
    requires
        0 <= i < s.len(),
    ensures
        sum_of(s.update(i, v), f) == sum_of(s, f) - f(s[i]) + f(v),
    decreases s.len(),
{
    if i == s.len() - 1 {
        assert(s.update(i, v).drop_last() =~= s.drop_last());
    } else {
        lemma_sum_update(s.drop_last(), i, v, f);
        assert(s.update(i, v).drop_last() =~= s.drop_last().update(i, v));
    }
}

pub proof fn lemma_sum_nonneg_ge<T>(s: Seq<T>, i: int, f: spec_fn(T) -> int)
    requires
        0 <= i < s.len(),
        forall|j: int| 0 <= j < s.len() ==> f(#[trigger] s[j]) >= 0,
    ensures
        f(s[i]) <= sum_of(s, f),
        sum_of(s, f) >= 0,
    decreases s.len(),
{
    lemma_sum_nonneg(s.drop_last(), f);
    if i < s.len() - 1 {
        assert(s.drop_last()[i] == s[i]);
        assert forall|j: int| 0 <= j < s.drop_last().len() implies f(
            #[trigger] s.drop_last()[j],
        ) >= 0 by {
            assert(s.drop_last()[j] == s[j]);
        }
        lemma_sum_nonneg_ge(s.drop_last(), i, f);
    }
}

pub proof fn lemma_sum_nonneg<T>(s: Seq<T>, f: spec_fn(T) -> int)
    requires
        forall|j: int| 0 <= j < s.len() ==> f(#[trigger] s[j]) >= 0,
    ensures
        sum_of(s, f) >= 0,
    decreases s.len(),
{
    if s.len() > 0 {
        assert forall|j: int| 0 <= j < s.drop_last().len() implies f(
            #[trigger] s.drop_last()[j],
        ) >= 0 by {
            assert(s.drop_last()[j] == s[j]);
        }
        lemma_sum_nonneg(s.drop_last(), f);
    }
}

pub proof fn lemma_pos_of<T, K>(s: Seq<T>, key: spec_fn(T) -> K, k: K)
    ensures
        -1 <= pos_of(s, key, k) < s.len(),
        pos_of(s, key, k) >= 0 ==> key(s[pos_of(s, key, k)]) == k,
        pos_of(s, key, k) < 0 ==> forall|i: int| 0 <= i < s.len() ==> key(#[trigger] s[i]) != k,
    decreases s.len(),
{
    if s.len() > 0 && key(s.last()) != k {
        lemma_pos_of(s.drop_last(), key, k);
        assert forall|i: int| 0 <= i < s.len() - 1 implies s.drop_last()[i] == s[i] by {}
    }
}

pub proof fn lemma_pos_of_unique<T, K>(s: Seq<T>, key: spec_fn(T) -> K, k: K, i: int)
    requires
        keys_unique(s, key),
        0 <= i < s.len(),
        key(s[i]) == k,
    ensures
        pos_of(s, key, k) == i,
    decreases s.len(),
{
    if i < s.len() - 1 {
        assert(key(s[i]) != key(s[s.len() - 1]));
        assert(s.drop_last()[i] == s[i]);
        assert forall|a: int, b: int| 0 <= a < b < s.drop_last().len() implies key(
            #[trigger] s.drop_last()[a],
        ) != key(#[trigger] s.drop_last()[b]) by {
            assert(s.drop_last()[a] == s[a]);
            assert(s.drop_last()[b] == s[b]);
        }
        lemma_pos_of_unique(s.drop_last(), key, k, i);
    }
}

pub proof fn lemma_unique_push<T, K>(s: Seq<T>, key: spec_fn(T) -> K, v: T)
    requires
        keys_unique(s, key),
        forall|i: int| 0 <= i < s.len() ==> key(#[trigger] s[i]) != key(v),
    ensures
        keys_unique(s.push(v), key),
{
    assert forall|i: int, j: int| 0 <= i < j < s.push(v).len() implies key(
        #[trigger] s.push(v)[i],
    ) != key(#[trigger] s.push(v)[j]) by {
        if j == s.len() {
            assert(s.push(v)[i] == s[i]);
        } else {
            assert(s.push(v)[i] == s[i]);
            assert(s.push(v)[j] == s[j]);
        }
    }
}

pub proof fn lemma_unique_update<T, K>(s: Seq<T>, key: spec_fn(T) -> K, i: int, v: T)
    requires
        keys_unique(s, key),
        0 <= i < s.len(),
        key(v) == key(s[i]),
    ensures
        keys_unique(s.update(i, v), key),
{
    assert forall|a: int, b: int| 0 <= a < b < s.update(i, v).len() implies key(
        #[trigger] s.update(i, v)[a],
    ) != key(#[trigger] s.update(i, v)[b]) by {
        assert(key(s.update(i, v)[a]) == key(s[a]));
        assert(key(s.update(i, v)[b]) == key(s[b]));
    }
}

pub proof fn lemma_sum_drop_first<T>(s: Seq<T>, f: spec_fn(T) -> int)
    requires
        s.len() > 0,
    ensures
        sum_of(s, f) == f(s[0]) + sum_of(s.drop_first(), f),
    decreases s.len(),
{
    if s.len() > 1 {
        lemma_sum_drop_first(s.drop_last(), f);
        assert(s.drop_last()[0] == s[0]);
        assert(s.drop_last().drop_first() =~= s.drop_first().drop_last());
        assert(s.drop_first().last() == s.last());
        assert(sum_of(s.drop_first(), f) == sum_of(s.drop_first().drop_last(), f) + f(
            s.drop_first().last(),
        ));
    } else {
        assert(s.drop_first().len() == 0);
        assert(s.drop_last().len() == 0);
        assert(s.last() == s[0]);
        assert(sum_of(s.drop_last(), f) == 0);
        assert(sum_of(s.drop_first(), f) == 0);
    }
}

} // verus!
