//! The mathematical model shared by every keyed store of the proxy: an
//! association sequence kept strictly sorted by a total order on the keys.
//! The spec functions say what get, save, remove and paging mean; the
//! lemmas, proved once and instantiated per store, carry those meanings
//! through the stores' loops.
use vstd::prelude::*;

verus! {

/// A strict total order: irreflexive, transitive, and connected.
pub open spec fn total_order<K>(lt: spec_fn(K, K) -> bool) -> bool {
    (forall|a: K| !#[trigger] lt(a, a)) && (forall|a: K, b: K, c: K|
        #[trigger] lt(a, b) && #[trigger] lt(b, c) ==> lt(a, c)) && (forall|a: K, b: K|
        !#[trigger] lt(a, b) && !lt(b, a) ==> a == b)
}

/// Keys strictly ascend; no key repeats.
pub open spec fn strict_sorted<K, V>(s: Seq<(K, V)>, lt: spec_fn(K, K) -> bool) -> bool {
    forall|i: int, j: int| 0 <= i < j < s.len() ==> lt(#[trigger] s[i].0, #[trigger] s[j].0)
}

/// The value under the first occurrence of `k`.
pub open spec fn assoc_get<K, V>(s: Seq<(K, V)>, k: K) -> Option<V>
    decreases s.len(),
{
    if s.len() == 0 {
        None
    } else if s[0].0 == k {
        Some(s[0].1)
    } else {
        assoc_get(s.drop_first(), k)
    }
}

pub open spec fn assoc_contains<K, V>(s: Seq<(K, V)>, k: K) -> bool {
    assoc_get(s, k) is Some
}

/// Insertion in key order, replacing the entry if the key is present.
pub open spec fn assoc_save<K, V>(s: Seq<(K, V)>, k: K, v: V, lt: spec_fn(K, K) -> bool) -> Seq<
    (K, V),
>
    decreases s.len(),
{
    if s.len() == 0 {
        seq![(k, v)]
    } else if lt(s[0].0, k) {
        seq![s[0]] + assoc_save(s.drop_first(), k, v, lt)
    } else if s[0].0 == k {
        seq![(k, v)] + s.drop_first()
    } else {
        seq![(k, v)] + s
    }
}

/// Removal of the entry under `k`, if any; other entries keep their order.
pub open spec fn assoc_remove<K, V>(s: Seq<(K, V)>, k: K) -> Seq<(K, V)>
    decreases s.len(),
{
    if s.len() == 0 {
        s
    } else if s[0].0 == k {
        s.drop_first()
    } else {
        seq![s[0]] + assoc_remove(s.drop_first(), k)
    }
}

/// The entries whose key comes after `token`, in their stored order.
pub open spec fn assoc_after<K, V>(s: Seq<(K, V)>, token: K, lt: spec_fn(K, K) -> bool) -> Seq<
    (K, V),
>
    decreases s.len(),
{
    if s.len() == 0 {
        s
    } else if lt(token, s[0].0) {
        seq![s[0]] + assoc_after(s.drop_first(), token, lt)
    } else {
        assoc_after(s.drop_first(), token, lt)
    }
}

/// In a sorted sequence the stored key of any position is found there.
pub proof fn lemma_sorted_get_index<K, V>(s: Seq<(K, V)>, lt: spec_fn(K, K) -> bool, i: int)
    requires
        total_order(lt),
        strict_sorted(s, lt),
        0 <= i < s.len(),
    ensures
        assoc_get(s, s[i].0) == Some(s[i].1),
    decreases i,
{
    if i == 0 {
    } else {
        assert(lt(s[0].0, s[i].0));
        assert(s[0].0 != s[i].0);
        assert(strict_sorted(s.drop_first(), lt));
        assert(s.drop_first()[i - 1] == s[i]);
        lemma_sorted_get_index(s.drop_first(), lt, i - 1);
    }
}

/// An absent key matches no position; a present key names its entry.
pub proof fn lemma_get_means_contains<K, V>(s: Seq<(K, V)>, k: K)
    ensures
        assoc_get(s, k) is Some <==> (exists|i: int| 0 <= i < s.len() && s[i].0 == k),
        assoc_get(s, k) matches Some(v) ==> (exists|i: int|
            0 <= i < s.len() && s[i].0 == k && s[i].1 == v),
    decreases s.len(),
{
    if s.len() > 0 {
        lemma_get_means_contains(s.drop_first(), k);
        if s[0].0 == k {
        } else {
            if assoc_get(s.drop_first(), k) is Some {
                let i = choose|i: int| 0 <= i < s.drop_first().len() && s.drop_first()[i].0 == k;
                assert(s[i + 1].0 == k);
                {
                    let v = assoc_get(s.drop_first(), k)->Some_0;
                    let j = choose|j: int|
                        0 <= j < s.drop_first().len() && s.drop_first()[j].0 == k
                            && s.drop_first()[j].1 == v;
                    assert(s[j + 1].0 == k && s[j + 1].1 == v);
                }
            }
            if exists|i: int| 0 <= i < s.len() && s[i].0 == k {
                let i = choose|i: int| 0 <= i < s.len() && s[i].0 == k;
                assert(s.drop_first()[i - 1].0 == k);
            }
        }
    }
}

/// Scanning past smaller keys does not change what get returns.
pub proof fn lemma_get_skip<K, V>(s: Seq<(K, V)>, k: K, j: int)
    requires
        0 <= j <= s.len(),
        forall|i: int| 0 <= i < j ==> (#[trigger] s[i].0) != k,
    ensures
        assoc_get(s, k) == assoc_get(s.skip(j), k),
    decreases j,
{
    if j > 0 {
        assert(s.drop_first().skip(j - 1) =~= s.skip(j));
        lemma_get_skip(s.drop_first(), k, j - 1);
    } else {
        assert(s.skip(0) =~= s);
    }
}

/// Saving below larger keys only rewrites the tail.
pub proof fn lemma_save_skip<K, V>(s: Seq<(K, V)>, k: K, v: V, lt: spec_fn(K, K) -> bool, j: int)
    requires
        0 <= j <= s.len(),
        forall|i: int| 0 <= i < j ==> lt(#[trigger] s[i].0, k),
    ensures
        assoc_save(s, k, v, lt) == s.take(j) + assoc_save(s.skip(j), k, v, lt),
    decreases j,
{
    if j == 0 {
        assert(s.take(0) + assoc_save(s.skip(0), k, v, lt) =~= assoc_save(s, k, v, lt)) by {
            assert(s.skip(0) =~= s);
            assert(s.take(0) =~= Seq::<(K, V)>::empty());
        }
    } else {
        assert(s.drop_first().skip(j - 1) =~= s.skip(j));
        lemma_save_skip(s.drop_first(), k, v, lt, j - 1);
        assert(seq![s[0]] + (s.drop_first().take(j - 1) + assoc_save(s.skip(j), k, v, lt)) =~= (
        s.take(j) + assoc_save(s.skip(j), k, v, lt)));
    }
}

/// Removing past mismatching keys only rewrites the tail.
pub proof fn lemma_remove_skip<K, V>(s: Seq<(K, V)>, k: K, j: int)
    requires
        0 <= j <= s.len(),
        forall|i: int| 0 <= i < j ==> (#[trigger] s[i].0) != k,
    ensures
        assoc_remove(s, k) == s.take(j) + assoc_remove(s.skip(j)

, k),
    decreases j,
{
    if j == 0 {
        assert(s.take(0) + assoc_remove(s.skip(0), k) =~= assoc_remove(s, k)) by {
            assert(s.skip(0) =~= s);
            assert(s.take(0) =~= Seq::<(K, V)>::empty());
        }
    } else {
        assert(s.drop_first().skip(j - 1) =~= s.skip(j));
        lemma_remove_skip(s.drop_first(), k, j - 1);
        assert(seq![s[0]] + (s.drop_first().take(j - 1) + assoc_remove(s.skip(j), k)) =~= (s.take(
            j,
        ) + assoc_remove(s.skip(j), k)));
    }
}

/// What saving does to the sequence read back by key.
pub proof fn lemma_save_get<K, V>(s: Seq<(K, V)>, k: K, v: V, lt: spec_fn(K, K) -> bool, k2: K)
    requires
        total_order(lt),
        strict_sorted(s, lt),
    ensures
        assoc_get(assoc_save(s, k, v, lt), k2) == if k2 == k {
            Some(v)
        } else {
            assoc_get(s, k2)
        },
    decreases s.len(),
{
    let r = assoc_save(s, k, v, lt);
    if s.len() == 0 {
        assert(r =~= seq![(k, v)]);
        assert(r.drop_first() =~= Seq::<(K, V)>::empty());
    } else if lt(s[0].0, k) {
        assert(strict_sorted(s.drop_first(), lt));
        lemma_save_get(s.drop_first(), k, v, lt, k2);
        assert(r == seq![s[0]] + assoc_save(s.drop_first(), k, v, lt));
        assert(r[0] == s[0]);
        assert(r.drop_first() =~= assoc_save(s.drop_first(), k, v, lt));
        assert(s[0].0 != k);
        if k2 == s[0].0 {
            assert(assoc_get(r, k2) == Some(s[0].1));
            assert(assoc_get(s, k2) == Some(s[0].1));
        } else {
            assert(assoc_get(r, k2) == assoc_get(r.drop_first(), k2));
            assert(assoc_get(s, k2) == assoc_get(s.drop_first(), k2));
        }
    } else if s[0].0 == k {
        assert(r.drop_first() =~= s.drop_first());
        if k2 != k {
            lemma_get_skip(s, k2, 1);
            assert(s.skip(1) =~= s.drop_first());
        }
    } else {
        assert(r.drop_first() =~= s);
    }
    if k2 == k {
        assert(assoc_get(r, k2) == Some(v));
    } else {
        assert(assoc_get(r, k2) == assoc_get(s, k2));
    }
}

/// Saving keeps the keys strictly sorted.
pub proof fn lemma_save_sorted<K, V>(s: Seq<(K, V)>, k: K, v: V, lt: spec_fn(K, K) -> bool)
    requires
        total_order(lt),
        strict_sorted(s, lt),
    ensures
        strict_sorted(assoc_save(s, k, v, lt), lt),
        assoc_save(s, k, v, lt).len() == s.len() + (if assoc_contains(s, k) {
            0int
        } else {
            1int
        }),
        forall|i: int|
            0 <= i < assoc_save(s, k, v, lt).len() ==> ((#[trigger] assoc_save(s, k, v, lt)[i]).0
                == k || exists|j: int| 0 <= j < s.len() && assoc_save(s, k, v, lt)[i] == s[j]),
    decreases s.len(),
{
    let r = assoc_save(s, k, v, lt);
    if s.len() == 0 {
    } else if lt(s[0].0, k) {
        assert(strict_sorted(s.drop_first(), lt));
        lemma_save_sorted(s.drop_first(), k, v, lt);
        let rr = assoc_save(s.drop_first(), k, v, lt);
        assert(r =~= seq![s[0]] + rr);
        assert forall|i: int, j: int| 0 <= i < j < r.len() implies lt(r[i].0, r[j].0) by {
            if i == 0 {
                if r[j].0 == k {
                } else {
                    let jj = choose|jj: int|
                        0 <= jj < s.drop_first().len() && rr[j - 1] == s.drop_first()[jj];
                    assert(lt(s[0].0, s[jj + 1].0));
                }
            } else {
                assert(rr[i - 1] == r[i] && rr[j - 1] == r[j]);
            }
        }
        assert forall|i: int| 0 <= i < r.len() implies ((#[trigger] r[i]).0 == k || exists|j: int|
            0 <= j < s.len() && r[i] == s[j]) by {
            if i == 0 {
                assert(r[0] == s[0]);
            } else if rr[i - 1].0 == k {
            } else {
                let jj = choose|jj: int|
                    0 <= jj < s.drop_first().len() && rr[i - 1] == s.drop_first()[jj];
                assert(r[i] == s[jj + 1]);
            }
        }
    } else if s[0].0 == k {
        assert(r =~= seq![(k, v)] + s.drop_first());
        assert forall|i: int, j: int| 0 <= i < j < r.len() implies lt(r[i].0, r[j].0) by {
            if i == 0 {
                assert(r[j] == s[j]);
                assert(lt(s[0].0, s[j].0));
            } else {
                assert(r[i] == s[i] && r[j] == s[j]);
            }
        }
        assert forall|i: int| 0 <= i < r.len() implies ((#[trigger] r[i]).0 == k || exists|j: int|
            0 <= j < s.len() && r[i] == s[j]) by {
            if i > 0 {
                assert(r[i] == s[i]);
            }
        }
        lemma_get_means_contains(s, k);
    } else {
        assert(r =~= seq![(k, v)] + s);
        assert(!lt(s[0].0, k) && s[0].0 != k);
        assert(lt(k, s[0].0));
        assert forall|i: int, j: int| 0 <= i < j < r.len() implies lt(r[i].0, r[j].0) by {
            if i == 0 {
                assert(r[j] == s[j - 1]);
                if j > 1 {
                    assert(lt(s[0].0, s[j - 1].0));
                }
            } else {
                assert(r[i] == s[i - 1] && r[j] == s[j - 1]);
            }
        }
        assert(!assoc_contains(s, k)) by {
            lemma_get_means_contains(s, k);
            if exists|i: int| 0 <= i < s.len() && s[i].0 == k {
                let i = choose|i: int| 0 <= i < s.len() && s[i].0 == k;
                if i > 0 {
                    assert(lt(s[0].0, s[i].0));
                }
            }
        }
    }
}

/// Removing keeps the keys strictly sorted and drops exactly the key.
pub proof fn lemma_remove_props<K, V>(s: Seq<(K, V)>, k: K, lt: spec_fn(K, K) -> bool, k2: K)
    requires
        total_order(lt),
        strict_sorted(s, lt),
    ensures
        strict_sorted(assoc_remove(s, k), lt),
        assoc_get(assoc_remove(s, k), k2) == if k2 == k {
            None::<V>
        } else {
            assoc_get(s, k2)
        },
        assoc_remove(s, k).len() == s.len() - (if assoc_contains(s, k) {
            1int
        } else {
            0int
        }),
    decreases s.len(),
{
    let r = assoc_remove(s, k);
    if s.len() == 0 {
    } else if s[0].0 == k {
        assert(r =~= s.drop_first());
        assert(strict_sorted(r, lt));
        if k2 == k {
            lemma_get_means_contains(r, k);
            if exists|i: int| 0 <= i < r.len() && r[i].0 == k {
                let i = choose|i: int| 0 <= i < r.len() && r[i].0 == k;
                assert(lt(s[0].0, s[i + 1].0));
            }
        } else {
            lemma_get_skip(s, k2, 1);
            assert(s.skip(1) =~= s.drop_first());
        }
    } else {
        assert(strict_sorted(s.drop_first(), lt));
        lemma_remove_props(s.drop_first(), k, lt, k2);
        let rr = assoc_remove(s.drop_first(), k);
        assert(r =~= seq![s[0]] + rr);
        assert(r.drop_first() =~= rr);
        assert forall|i: int, j: int| 0 <= i < j < r.len() implies lt(r[i].0, r[j].0) by {
            if i == 0 {
                lemma_remove_members(s.drop_first(), k, j - 1);
                let jj = choose|jj: int|
                    0 <= jj < s.drop_first().len() && rr[j - 1] == s.drop_first()[jj];
                assert(lt(s[0].0, s[jj + 1].0));
            } else {
                assert(rr[i - 1] == r[i] && rr[j - 1] == r[j]);
            }
        }
    }
}

/// Every entry that removal keeps stood in the sequence before.
pub proof fn lemma_remove_members<K, V>(s: Seq<(K, V)>, k: K, i: int)
    requires
        0 <= i < assoc_remove(s, k).len(),
    ensures
        exists|j: int| 0 <= j < s.len() && assoc_remove(s, k)[i] == s[j],
    decreases s.len(),
{
    let r = assoc_remove(s, k);
    if s.len() == 0 {
    } else if s[0].0 == k {
        assert(r[i] == s[i + 1]);
    } else {
        assert(r =~= seq![s[0]] + assoc_remove(s.drop_first(), k));
        if i == 0 {
            assert(r[0] == s[0]);
        } else {
            lemma_remove_members(s.drop_first(), k, i - 1);
            let j = choose|j: int|
                0 <= j < s.drop_first().len() && assoc_remove(s.drop_first(), k)[i - 1]
                    == s.drop_first()[j];
            assert(r[i] == s[j + 1]);
        }
    }
}

/// In a sorted sequence, the entries after `token` are exactly the suffix
/// that starts at the first key past it.
pub proof fn lemma_after_is_suffix<K, V>(s: Seq<(K, V)>, token: K, lt: spec_fn(K, K) -> bool, j: int)
    requires
        total_order(lt),
        strict_sorted(s, lt),
        0 <= j <= s.len(),
        forall|i: int| 0 <= i < j ==> !lt(token, (#[trigger] s[i]).0),
        j < s.len() ==> lt(token, s[j].0),
    ensures
        assoc_after(s, token, lt) == s.skip(j),
    decreases s.len(),
{
    if s.len() == 0 {
        assert(s.skip(0) =~= s);
    } else if j == 0 {
        assert(lt(token, s[0].0));
        assert(strict_sorted(s.drop_first(), lt));
        assert(s.drop_first().len() > 0 ==> lt(token, s.drop_first()[0].0)) by {
            if s.drop_first().len() > 0 {
                assert(lt(s[0].0, s[1].0));
            }
        }
        lemma_after_is_suffix(s.drop_first(), token, lt, 0);
        assert(s.drop_first().skip(0) =~= s.drop_first());
        assert(seq![s[0]] + s.drop_first() =~= s);
        assert(s.skip(0) =~= s);
    } else {
        assert(!lt(token, s[0].0));
        assert(strict_sorted(s.drop_first(), lt));
        lemma_after_is_suffix(s.drop_first(), token, lt, j - 1);
        assert(s.drop_first().skip(j - 1) =~= s.skip(j));
    }
}

} // verus!
