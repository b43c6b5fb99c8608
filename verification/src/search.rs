//! Searching a sequence for the entries that meet a condition.

use vstd::prelude::*;

verus! {

/// The index of the first entry that meets `pred`.
pub open spec fn first_match<T>(s: Seq<T>, pred: spec_fn(T) -> bool) -> Option<int>
    decreases s.len(),
{
    if s.len() == 0 {
        None
    } else if pred(s.last()) && first_match(s.drop_last(), pred) is None {
        Some(s.len() - 1)
    } else {
        first_match(s.drop_last(), pred)
    }
}

/// The index of the last entry that meets `pred`.
pub open spec fn last_match<T>(s: Seq<T>, pred: spec_fn(T) -> bool) -> Option<int>
    decreases s.len(),
{
    if s.len() == 0 {
        None
    } else if pred(s.last()) {
        Some(s.len() - 1)
    } else {
        last_match(s.drop_last(), pred)
    }
}

/// The indices of the entries that meet `pred`, in ascending order.
pub open spec fn all_matches<T>(s: Seq<T>, pred: spec_fn(T) -> bool) -> Seq<int>
    decreases s.len(),
{
    if s.len() == 0 {
        seq![]
    } else if pred(s.last()) {
        all_matches(s.drop_last(), pred).push(s.len() - 1)
    } else {
        all_matches(s.drop_last(), pred)
    }
}

/// `first_match` is the least index that meets the condition, and `None`
/// exactly when no entry meets it.
pub proof fn lemma_first_match<T>(s: Seq<T>, pred: spec_fn(T) -> bool)
    ensures
        match first_match(s, pred) {
            Some(i) => 0 <= i < s.len() && pred(s[i]) && forall|j: int|
                0 <= j < i ==> !pred(#[trigger] s[j]),
            None => forall|j: int| 0 <= j < s.len() ==> !pred(#[trigger] s[j]),
        },
    decreases s.len(),
{
    if s.len() > 0 {
        lemma_first_match(s.drop_last(), pred);
        assert forall|j: int| 0 <= j < s.len() - 1 implies s.drop_last()[j] == s[j] by {}
        match first_match(s.drop_last(), pred) {
            Some(i) => {
                assert forall|j: int| 0 <= j < i implies !pred(#[trigger] s[j]) by {
                    assert(s.drop_last()[j] == s[j]);
                }
            },
            None => {
                assert forall|j: int| 0 <= j < s.len() - 1 implies !pred(#[trigger] s[j]) by {
                    assert(s.drop_last()[j] == s[j]);
                }
            },
        }
    }
}

/// `last_match` is the greatest index that meets the condition, and `None`
/// exactly when no entry meets it.
pub proof fn lemma_last_match<T>(s: Seq<T>, pred: spec_fn(T) -> bool)
    ensures
        match last_match(s, pred) {
            Some(i) => 0 <= i < s.len() && pred(s[i]) && forall|j: int|
                i < j < s.len() ==> !pred(#[trigger] s[j]),
            None => forall|j: int| 0 <= j < s.len() ==> !pred(#[trigger] s[j]),
        },
    decreases s.len(),
{
    if s.len() > 0 {
        lemma_last_match(s.drop_last(), pred);
        match last_match(s.drop_last(), pred) {
            Some(i) => {
                assert(s.drop_last()[i] == s[i]);
                assert forall|j: int| i < j < s.len() - 1 implies !pred(#[trigger] s[j]) by {
                    assert(s.drop_last()[j] == s[j]);
                }
            },
            None => {
                assert forall|j: int| 0 <= j < s.len() - 1 implies !pred(#[trigger] s[j]) by {
                    assert(s.drop_last()[j] == s[j]);
                }
            },
        }
    }
}

/// An index that meets the condition, with none before it, is the first
/// match.
pub proof fn lemma_first_match_is<T>(s: Seq<T>, pred: spec_fn(T) -> bool, i: int)
    requires
        0 <= i < s.len(),
        pred(s[i]),
        forall|j: int| 0 <= j < i ==> !pred(#[trigger] s[j]),
    ensures
        first_match(s, pred) == Some(i),
{
    lemma_first_match(s, pred);
}

/// Where no entry meets the condition there is no match.
pub proof fn lemma_no_match<T>(s: Seq<T>, pred: spec_fn(T) -> bool)
    requires
        forall|j: int| 0 <= j < s.len() ==> !pred(#[trigger] s[j]),
    ensures
        first_match(s, pred) is None,
        last_match(s, pred) is None,
        all_matches(s, pred) == Seq::<int>::empty(),
    decreases s.len(),
{
    lemma_first_match(s, pred);
    lemma_last_match(s, pred);
    if s.len() > 0 {
        assert forall|j: int| 0 <= j < s.len() - 1 implies !pred(#[trigger] s.drop_last()[j]) by {
            assert(s.drop_last()[j] == s[j]);
        }
        lemma_no_match(s.drop_last(), pred);
        assert(!pred(s[s.len() - 1]));
    }
}

/// An index that meets the condition, with none behind it, is the last
/// match.
pub proof fn lemma_last_match_is<T>(s: Seq<T>, pred: spec_fn(T) -> bool, i: int)
    requires
        0 <= i < s.len(),
        pred(s[i]),
        forall|j: int| i < j < s.len() ==> !pred(#[trigger] s[j]),
    ensures
        last_match(s, pred) == Some(i),
{
    lemma_last_match(s, pred);
}

/// The matches of a prefix that is one entry longer.
pub proof fn lemma_all_matches_step<T>(s: Seq<T>, pred: spec_fn(T) -> bool, n: int)
    requires
        0 <= n < s.len(),
    ensures
        all_matches(s.take(n + 1), pred) == if pred(s[n]) {
            all_matches(s.take(n), pred).push(n)
        } else {
            all_matches(s.take(n), pred)
        },
{
    assert(s.take(n + 1).drop_last() == s.take(n));
    assert(s.take(n + 1).last() == s[n]);
}

/// Every match is an index of the sequence that meets the condition, and
/// the matches ascend.
pub proof fn lemma_all_matches<T>(s: Seq<T>, pred: spec_fn(T) -> bool)
    ensures
        forall|t: int|
            0 <= t < all_matches(s, pred).len() ==> 0 <= (#[trigger] all_matches(s, pred)[t])
                < s.len() && pred(s[all_matches(s, pred)[t]]),
        forall|t: int, u: int|
            0 <= t < u < all_matches(s, pred).len() ==> all_matches(s, pred)[t] < all_matches(
                s,
                pred,
            )[u],
        forall|i: int|
            0 <= i < s.len() && pred(s[i]) ==> #[trigger] all_matches(s, pred).contains(i),
    decreases s.len(),
{
    if s.len() > 0 {
        let p = s.drop_last();
        lemma_all_matches(p, pred);
        let m = all_matches(s, pred);
        let mp = all_matches(p, pred);
        assert forall|t: int| 0 <= t < m.len() implies 0 <= (#[trigger] m[t]) < s.len() && pred(
            s[m[t]],
        ) by {
            if t < mp.len() {
                assert(m[t] == mp[t]);
                assert(p[mp[t]] == s[mp[t]]);
            }
        }
        assert forall|t: int, u: int| 0 <= t < u < m.len() implies m[t] < m[u] by {
            assert(m[t] == mp[t]);
            if u < mp.len() {
                assert(m[u] == mp[u]);
            }
        }
        assert forall|i: int| 0 <= i < s.len() && pred(s[i]) implies m.contains(i) by {
            if i < s.len() - 1 {
                assert(p[i] == s[i]);
                assert(mp.contains(i));
                let t = choose|t: int| 0 <= t < mp.len() && mp[t] == i;
                assert(m[t] == mp[t]);
            } else {
                assert(s.last() == s[i]);
                assert(m == mp.push(i));
                assert(m[m.len() - 1] == i);
            }
        }
    }
}

} // verus!
