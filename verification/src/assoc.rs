//! Association lists: sequences of (key, value) pairs read by first match.

use vstd::prelude::*;

verus! {

/// The value of the first pair with key `k` from position `i` on.
pub open spec fn assoc_from<K, V>(s: Seq<(K, V)>, k: K, i: int) -> Option<V>
    decreases s.len() - i,
{
    if i < 0 || i >= s.len() {
        None
    } else if s[i].0 == k {
        Some(s[i].1)
    } else {
        assoc_from(s, k, i + 1)
    }
}

/// The value of the first pair with key `k`, if any.
pub open spec fn assoc_get<K, V>(s: Seq<(K, V)>, k: K) -> Option<V> {
    assoc_from(s, k, 0)
}

/// Where the first `i` pairs are not of key `k`, the lookup from `i` on
/// gives the same answer.
pub proof fn lemma_assoc_skip<K, V>(s: Seq<(K, V)>, k: K, i: int)
    requires
        0 <= i <= s.len(),
        forall|m: int| 0 <= m < i ==> s[m].0 != k,
    ensures
        assoc_get(s, k) == assoc_from(s, k, i),
    decreases i,
{
    if i > 0 {
        lemma_assoc_skip_from(s, k, 0, i);
    }
}

proof fn lemma_assoc_skip_from<K, V>(s: Seq<(K, V)>, k: K, j: int, i: int)
    requires
        0 <= j <= i <= s.len(),
        forall|m: int| j <= m < i ==> s[m].0 != k,
    ensures
        assoc_from(s, k, j) == assoc_from(s, k, i),
    decreases i - j,
{
    if j < i {
        lemma_assoc_skip_from(s, k, j + 1, i);
    }
}

proof fn lemma_assoc_same_tail<K, V>(a: Seq<(K, V)>, b: Seq<(K, V)>, k: K, m: int)
    requires
        a.len() == b.len(),
        0 <= m,
        forall|x: int| m <= x < a.len() ==> a[x] == b[x],
    ensures
        assoc_from(a, k, m) == assoc_from(b, k, m),
    decreases a.len() - m,
{
    if m < a.len() {
        lemma_assoc_same_tail(a, b, k, m + 1);
    }
}

proof fn lemma_assoc_update_from<K, V>(s: Seq<(K, V)>, i: int, k: K, v: V, q: K, m: int)
    requires
        0 <= i < s.len(),
        s[i].0 == k,
        0 <= m <= i,
        forall|x: int| 0 <= x < i ==> s[x].0 != k,
    ensures
        q == k ==> assoc_from(s.update(i, (k, v)), q, m) == Some(v),
        q != k ==> assoc_from(s.update(i, (k, v)), q, m) == assoc_from(s, q, m),
    decreases i - m,
{
    if m < i {
        lemma_assoc_update_from(s, i, k, v, q, m + 1);
    } else if q != k {
        lemma_assoc_same_tail(s, s.update(i, (k, v)), q, i + 1);
    }
}

/// Replacing the first pair of key `k` (at `i`) changes the lookup of `k`
/// only.
pub proof fn lemma_assoc_update<K, V>(s: Seq<(K, V)>, i: int, k: K, v: V)
    requires
        0 <= i < s.len(),
        s[i].0 == k,
        forall|x: int| 0 <= x < i ==> s[x].0 != k,
    ensures
        assoc_get(s.update(i, (k, v)), k) == Some(v),
        assoc_get(s, k) == Some(s[i].1),
        forall|q: K| q != k ==> #[trigger] assoc_get(s.update(i, (k, v)), q) == assoc_get(s, q),
{
    lemma_assoc_update_from(s, i, k, v, k, 0);
    lemma_assoc_skip(s, k, i);
    assert forall|q: K| q != k implies #[trigger] assoc_get(s.update(i, (k, v)), q) == assoc_get(s, q) by {
        lemma_assoc_update_from(s, i, k, v, q, 0);
    }
}

proof fn lemma_assoc_push_from<K, V>(s: Seq<(K, V)>, k: K, v: V, q: K, m: int)
    requires
        0 <= m <= s.len(),
        forall|x: int| 0 <= x < s.len() ==> s[x].0 != k,
    ensures
        q == k ==> assoc_from(s.push((k, v)), q, m) == Some(v),
        q == k ==> assoc_from(s, q, m) is None,
        q != k ==> assoc_from(s.push((k, v)), q, m) == assoc_from(s, q, m),
    decreases s.len() - m,
{
    if m < s.len() {
        lemma_assoc_push_from(s, k, v, q, m + 1);
        assert(s.push((k, v))[m] == s[m]);
    } else {
        assert(s.push((k, v))[m] == (k, v));
        assert(assoc_from(s.push((k, v)), q, m + 1) is None);
    }
}

/// Appending a pair for a new key `k` changes the lookup of `k` only.
pub proof fn lemma_assoc_push<K, V>(s: Seq<(K, V)>, k: K, v: V)
    requires
        forall|x: int| 0 <= x < s.len() ==> s[x].0 != k,
    ensures
        assoc_get(s.push((k, v)), k) == Some(v),
        assoc_get(s, k) is None,
        forall|q: K| q != k ==> #[trigger] assoc_get(s.push((k, v)), q) == assoc_get(s, q),
{
    lemma_assoc_push_from(s, k, v, k, 0);
    assert forall|q: K| q != k implies #[trigger] assoc_get(s.push((k, v)), q) == assoc_get(s, q) by {
        lemma_assoc_push_from(s, k, v, q, 0);
    }
}

} // verus!
