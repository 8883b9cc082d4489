//! First-match lookup and replace-or-append update over sequences of keyed
//! entries, together with the lemmas the accumulators need.
//!
//! Every aggregate map in this crate is a sequence of entries with pairwise
//! distinct keys; a key is read out of an entry by a `spec_fn` extractor.
//! `find_first` is the pure lookup, `upsert_first` the write-back, and
//! `sum_by` the fold the zero-sum laws are stated over.

use vstd::prelude::*;

verus! {

/// The first entry of `s` whose key is `k`, if any.
pub open spec fn find_first<T, K>(s: Seq<T>, key: spec_fn(T) -> K, k: K) -> Option<T>
    decreases s.len(),
{
    if s.len() == 0 {
        None
    } else if key(s[0]) == k {
        Some(s[0])
    } else {
        find_first(s.skip(1), key, k)
    }
}

/// `s` with its first entry of `v`'s key replaced by `v`, or with `v`
/// appended when no entry has that key.
pub open spec fn upsert_first<T, K>(s: Seq<T>, key: spec_fn(T) -> K, v: T) -> Seq<T>
    decreases s.len(),
{
    if s.len() == 0 {
        seq![v]
    } else if key(s[0]) == key(v) {
        seq![v] + s.skip(1)
    } else {
        seq![s[0]] + upsert_first(s.skip(1), key, v)
    }
}

/// The sum of `f` over all entries of `s`.
pub open spec fn sum_by<T>(s: Seq<T>, f: spec_fn(T) -> int) -> int
    decreases s.len(),
{
    if s.len() == 0 {
        0
    } else {
        f(s[0]) + sum_by(s.skip(1), f)
    }
}

/// The keys of `s` are pairwise distinct: the sequence is a map.
pub open spec fn distinct_keys<T, K>(s: Seq<T>, key: spec_fn(T) -> K) -> bool {
    forall|i: int, j: int| 0 <= i < j < s.len() ==> key(#[trigger] s[i]) != key(#[trigger] s[j])
}

/// When the lookup comes back empty, no entry has key `k`.
pub proof fn lemma_find_first_absent<T, K>(s: Seq<T>, key: spec_fn(T) -> K, k: K)
    requires
        find_first(s, key, k) is None,
    ensures
        forall|j: int| 0 <= j < s.len() ==> key(#[trigger] s[j]) != k,
    decreases s.len(),
{
    if s.len() != 0 {
        lemma_find_first_absent(s.skip(1), key, k);
        assert forall|j: int| 0 <= j < s.len() implies key(#[trigger] s[j]) != k by {
            if j > 0 {
                assert(s[j] == s.skip(1)[j - 1]);
            }
        }
    }
}

/// An update never duplicates a key: a map stays a map.
pub proof fn lemma_upsert_first_distinct<T, K>(s: Seq<T>, key: spec_fn(T) -> K, v: T)
    requires
        distinct_keys(s, key),
    ensures
        distinct_keys(upsert_first(s, key, v), key),
    decreases s.len(),
{
    let u = upsert_first(s, key, v);
    if s.len() == 0 {
    } else if key(s[0]) == key(v) {
        assert forall|i: int, j: int| 0 <= i < j < u.len() implies key(#[trigger] u[i]) != key(
            #[trigger] u[j],
        ) by {
            assert(u[j] == s[j]);
            if i > 0 {
                assert(u[i] == s[i]);
            }
        }
    } else {
        assert(forall|i: int, j: int|
            0 <= i < j < s.skip(1).len() ==> key(#[trigger] s.skip(1)[i]) != key(
                #[trigger] s.skip(1)[j],
            ));
        lemma_upsert_first_distinct(s.skip(1), key, v);
        lemma_upsert_first_membership(s.skip(1), key, v);
        let rest = upsert_first(s.skip(1), key, v);
        assert forall|i: int, j: int| 0 <= i < j < u.len() implies key(#[trigger] u[i]) != key(
            #[trigger] u[j],
        ) by {
            if i > 0 {
                assert(u[i] == rest[i - 1] && u[j] == rest[j - 1]);
            } else {
                assert(u[0] == s[0] && u[j] == rest[j - 1]);
                if rest[j - 1] != v {
                    let w = choose|w: int|
                        0 <= w < s.skip(1).len() && rest[j - 1] == s.skip(1)[w];
                    assert(s.skip(1)[w] == s[w + 1]);
                    assert(key(s[0]) != key(s[w + 1]));
                }
            }
        }
    }
}

/// A found entry carries the key it was looked up under.
pub proof fn lemma_find_first_found<T, K>(s: Seq<T>, key: spec_fn(T) -> K, k: K)
    requires
        find_first(s, key, k) is Some,
    ensures
        key(find_first(s, key, k)->0) == k,
    decreases s.len(),
{
    if s.len() != 0 && key(s[0]) != k {
        lemma_find_first_found(s.skip(1), key, k);
    }
}

/// A found entry is one of the sequence's elements.
pub proof fn lemma_find_first_mem<T, K>(s: Seq<T>, key: spec_fn(T) -> K, k: K)
    requires
        find_first(s, key, k) is Some,
    ensures
        exists|j: int| 0 <= j < s.len() && find_first(s, key, k)->0 == s[j],
    decreases s.len(),
{
    if s.len() != 0 && key(s[0]) != k {
        lemma_find_first_mem(s.skip(1), key, k);
        let j = choose|j: int|
            0 <= j < s.skip(1).len() && find_first(s.skip(1), key, k)->0 == s.skip(1)[j];
        assert(find_first(s, key, k)->0 == s[j + 1]);
    }
}

/// When `s[i]` is the first entry with key `k`, the lookup returns it.
pub proof fn lemma_find_first_at<T, K>(s: Seq<T>, key: spec_fn(T) -> K, i: int)
    requires
        0 <= i < s.len(),
        forall|j: int| 0 <= j < i ==> key(#[trigger] s[j]) != key(s[i]),
    ensures
        find_first(s, key, key(s[i])) == Some(s[i]),
    decreases i,
{
    if i > 0 {
        lemma_find_first_at(s.skip(1), key, i - 1);
    }
}

/// When no entry has key `k`, the lookup comes back empty.
pub proof fn lemma_find_first_none<T, K>(s: Seq<T>, key: spec_fn(T) -> K, k: K)
    requires
        forall|j: int| 0 <= j < s.len() ==> key(#[trigger] s[j]) != k,
    ensures
        find_first(s, key, k) is None,
    decreases s.len(),
{
    if s.len() != 0 {
        lemma_find_first_none(s.skip(1), key, k);
    }
}

/// When `s[i]` is the first entry with `v`'s key, the update is a
/// point-wise replacement at `i`.
pub proof fn lemma_upsert_first_update<T, K>(s: Seq<T>, key: spec_fn(T) -> K, v: T, i: int)
    requires
        0 <= i < s.len(),
        key(s[i]) == key(v),
        forall|j: int| 0 <= j < i ==> key(#[trigger] s[j]) != key(v),
    ensures
        upsert_first(s, key, v) == s.update(i, v),
    decreases i,
{
    if i == 0 {
        assert(seq![v] + s.skip(1) =~= s.update(0, v));
    } else {
        lemma_upsert_first_update(s.skip(1), key, v, i - 1);
        assert(seq![s[0]] + s.skip(1).update(i - 1, v) =~= s.update(i, v));
    }
}

/// When no entry has `v`'s key, the update appends `v`.
pub proof fn lemma_upsert_first_push<T, K>(s: Seq<T>, key: spec_fn(T) -> K, v: T)
    requires
        forall|j: int| 0 <= j < s.len() ==> key(#[trigger] s[j]) != key(v),
    ensures
        upsert_first(s, key, v) == s.push(v),
    decreases s.len(),
{
    if s.len() == 0 {
        assert(seq![v] =~= s.push(v));
    } else {
        lemma_upsert_first_push(s.skip(1), key, v);
        assert(seq![s[0]] + s.skip(1).push(v) =~= s.push(v));
    }
}

/// Looking a key up after an update: `v`'s key now finds `v`, every other
/// key finds what it found before.
pub proof fn lemma_find_first_upsert<T, K>(s: Seq<T>, key: spec_fn(T) -> K, v: T, k: K)
    ensures
        find_first(upsert_first(s, key, v), key, k) == if k == key(v) {
            Some(v)
        } else {
            find_first(s, key, k)
        },
    decreases s.len(),
{
    if s.len() == 0 {
        let c = seq![v];
        assert(c.skip(1) =~= Seq::<T>::empty());
        assert(c[0] == v);
        assert(find_first(c, key, k) == if key(c[0]) == k {
            Some(c[0])
        } else {
            find_first(c.skip(1), key, k)
        });
        assert(find_first(Seq::<T>::empty(), key, k) is None);
    } else if key(s[0]) == key(v) {
        let c = seq![v] + s.skip(1);
        assert(upsert_first(s, key, v) == c);
        assert(c.skip(1) =~= s.skip(1));
        assert(c[0] == v);
        assert(find_first(c, key, k) == if key(c[0]) == k {
            Some(c[0])
        } else {
            find_first(c.skip(1), key, k)
        });
    } else {
        lemma_find_first_upsert(s.skip(1), key, v, k);
        let c = seq![s[0]] + upsert_first(s.skip(1), key, v);
        assert(upsert_first(s, key, v) == c);
        assert(c.skip(1) =~= upsert_first(s.skip(1), key, v));
        assert(c[0] == s[0]);
        assert(find_first(c, key, k) == if key(c[0]) == k {
            Some(c[0])
        } else {
            find_first(c.skip(1), key, k)
        });
    }
}

/// An update changes the sum by the new entry's contribution less the
/// replaced entry's, if one was replaced.
pub proof fn lemma_sum_by_upsert<T, K>(
    s: Seq<T>,
    key: spec_fn(T) -> K,
    f: spec_fn(T) -> int,
    v: T,
)
    ensures
        sum_by(upsert_first(s, key, v), f) == sum_by(s, f) + f(v) - (match find_first(
            s,
            key,
            key(v),
        ) {
            Some(e) => f(e),
            None => 0,
        }),
    decreases s.len(),
{
    if s.len() == 0 {
        let c = seq![v];
        assert(c.skip(1) =~= Seq::<T>::empty());
        assert(c[0] == v);
        assert(sum_by(c, f) == f(v) + sum_by(c.skip(1), f));
    } else if key(s[0]) == key(v) {
        let c = seq![v] + s.skip(1);
        assert(upsert_first(s, key, v) == c);
        assert(c.skip(1) =~= s.skip(1));
        assert(c[0] == v);
        assert(sum_by(c, f) == f(v) + sum_by(s.skip(1), f));
    } else {
        lemma_sum_by_upsert(s.skip(1), key, f, v);
        let c = seq![s[0]] + upsert_first(s.skip(1), key, v);
        assert(upsert_first(s, key, v) == c);
        assert(c.skip(1) =~= upsert_first(s.skip(1), key, v));
        assert(c[0] == s[0]);
        assert(sum_by(c, f) == f(s[0]) + sum_by(upsert_first(s.skip(1), key, v), f));
    }
}

/// Every entry of an updated sequence is either the written value or one of
/// the old entries; the length grows by at most one.
pub proof fn lemma_upsert_first_membership<T, K>(s: Seq<T>, key: spec_fn(T) -> K, v: T)
    ensures
        s.len() <= upsert_first(s, key, v).len() <= s.len() + 1,
        forall|i: int|
            0 <= i < upsert_first(s, key, v).len() ==> (#[trigger] upsert_first(s, key, v)[i] == v
                || exists|j: int| 0 <= j < s.len() && upsert_first(s, key, v)[i] == s[j]),
    decreases s.len(),
{
    if s.len() == 0 {
    } else if key(s[0]) == key(v) {
        assert forall|i: int| 0 <= i < upsert_first(s, key, v).len() implies (
        #[trigger] upsert_first(s, key, v)[i] == v || exists|j: int|
            0 <= j < s.len() && upsert_first(s, key, v)[i] == s[j]) by {
            if i > 0 {
                assert(upsert_first(s, key, v)[i] == s[i]);
            }
        }
    } else {
        lemma_upsert_first_membership(s.skip(1), key, v);
        assert forall|i: int| 0 <= i < upsert_first(s, key, v).len() implies (
        #[trigger] upsert_first(s, key, v)[i] == v || exists|j: int|
            0 <= j < s.len() && upsert_first(s, key, v)[i] == s[j]) by {
            if i == 0 {
                assert(upsert_first(s, key, v)[0] == s[0]);
            } else {
                let rest = upsert_first(s.skip(1), key, v);
                assert(upsert_first(s, key, v)[i] == rest[i - 1]);
                if rest[i - 1] != v {
                    let j = choose|j: int| 0 <= j < s.skip(1).len() && rest[i - 1] == s.skip(1)[j];
                    assert(upsert_first(s, key, v)[i] == s[j + 1]);
                }
            }
        }
    }
}

} // verus!
