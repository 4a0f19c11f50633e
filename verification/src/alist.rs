//! Address-keyed association lists.
//!
//! Each class of ledger records is a list of `(address, record)` pairs with
//! pairwise-distinct keys. [`alist_get`] is the mathematical reading of such a
//! list; the lemmas relate it to indexing, appending and in-place update.
use vstd::prelude::*;

use crate::util::bytes_eq;

verus! {

/// The first record stored under key `k`, if any.
pub open spec fn alist_get<V>(s: Seq<(Vec<u8>, V)>, k: Seq<u8>) -> Option<V>
    decreases s.len(),
{
    if s.len() == 0 {
        Option::None
    } else if s[0].0@ == k {
        Option::Some(s[0].1)
    } else {
        alist_get(s.skip(1), k)
    }
}

/// Whether any record is stored under key `k`.
pub open spec fn alist_has<V>(s: Seq<(Vec<u8>, V)>, k: Seq<u8>) -> bool {
    alist_get(s, k) is Some
}

/// Keys are pairwise distinct.
pub open spec fn alist_unique<V>(s: Seq<(Vec<u8>, V)>) -> bool {
    forall|i: int, j: int| 0 <= i < j < s.len() ==> s[i].0@ != s[j].0@
}

/// A key found at index `i`, and nowhere earlier, is what `alist_get` returns.
pub proof fn lemma_alist_get_at_index<V>(s: Seq<(Vec<u8>, V)>, k: Seq<u8>, i: int)
    requires
        0 <= i < s.len(),
        s[i].0@ == k,
        forall|j: int| 0 <= j < i ==> s[j].0@ != k,
    ensures
        alist_get(s, k) == Option::Some(s[i].1),
    decreases i,
{
    if i > 0 {
        let t = s.skip(1);
        assert forall|j: int| 0 <= j < i - 1 implies t[j].0@ != k by {
            assert(t[j] == s[j + 1]);
        }
        assert(t[i - 1] == s[i]);
        lemma_alist_get_at_index(t, k, i - 1);
    }
}

/// A key at no index is a key `alist_get` misses.
pub proof fn lemma_alist_get_none<V>(s: Seq<(Vec<u8>, V)>, k: Seq<u8>)
    requires
        forall|j: int| 0 <= j < s.len() ==> s[j].0@ != k,
    ensures
        alist_get(s, k) is None,
    decreases s.len(),
{
    if s.len() > 0 {
        let t = s.skip(1);
        assert forall|j: int| 0 <= j < t.len() implies t[j].0@ != k by {
            assert(t[j] == s[j + 1]);
        }
        lemma_alist_get_none(t, k);
    }
}

/// How appending one pair changes `alist_get`.
pub proof fn lemma_alist_get_push<V>(s: Seq<(Vec<u8>, V)>, p: (Vec<u8>, V), k: Seq<u8>)
    ensures
        alist_get(s.push(p), k) == (if alist_get(s, k) is Some {
            alist_get(s, k)
        } else if p.0@ == k {
            Option::Some(p.1)
        } else {
            Option::None::<V>
        }),
    decreases s.len(),
{
    let sp = s.push(p);
    if s.len() == 0 {
        assert(sp[0] == p);
        assert(sp.skip(1) =~= Seq::<(Vec<u8>, V)>::empty());
        if p.0@ == k {
            assert(alist_get(sp, k) == Option::Some(p.1));
        } else {
            assert(alist_get(sp.skip(1), k) is None);
            assert(alist_get(sp, k) is None);
        }
        assert(alist_get(s, k) is None);
    } else {
        assert(sp[0] == s[0]);
        assert(sp.skip(1) =~= s.skip(1).push(p));
        lemma_alist_get_push(s.skip(1), p, k);
        if s[0].0@ == k {
            assert(alist_get(sp, k) == Option::Some(s[0].1));
            assert(alist_get(s, k) == Option::Some(s[0].1));
        } else {
            assert(alist_get(sp, k) == alist_get(s.skip(1).push(p), k));
            assert(alist_get(s, k) == alist_get(s.skip(1), k));
        }
    }
}

/// How replacing the value under a key, at its first index, changes
/// `alist_get`.
pub proof fn lemma_alist_get_update<V>(s: Seq<(Vec<u8>, V)>, i: int, p: (Vec<u8>, V), k: Seq<u8>)
    requires
        0 <= i < s.len(),
        s[i].0@ == p.0@,
        forall|j: int| 0 <= j < i ==> s[j].0@ != p.0@,
    ensures
        alist_get(s.update(i, p), k) == (if k == p.0@ {
            Option::Some(p.1)
        } else {
            alist_get(s, k)
        }),
    decreases i,
{
    let u = s.update(i, p);
    if i == 0 {
        assert(u[0] == p);
        if k != p.0@ {
            assert(u.skip(1) =~= s.skip(1));
        }
    } else {
        assert(u[0] == s[0]);
        assert(s[0].0@ != p.0@);
        let t = s.skip(1);
        assert forall|j: int| 0 <= j < i - 1 implies t[j].0@ != p.0@ by {
            assert(t[j] == s[j + 1]);
        }
        assert(t[i - 1] == s[i]);
        assert(u.skip(1) =~= t.update(i - 1, p));
        lemma_alist_get_update(t, i - 1, p, k);
    }
}

/// Appending a fresh key keeps the keys distinct.
pub proof fn lemma_alist_unique_push<V>(s: Seq<(Vec<u8>, V)>, p: (Vec<u8>, V))
    requires
        alist_unique(s),
        forall|j: int| 0 <= j < s.len() ==> s[j].0@ != p.0@,
    ensures
        alist_unique(s.push(p)),
{
    assert forall|i: int, j: int| 0 <= i < j < s.len() + 1 implies s.push(p)[i].0@ != s.push(
        p,
    )[j].0@ by {
        assert(s.push(p)[i] == s[i]);
        if j < s.len() {
            assert(s.push(p)[j] == s[j]);
        } else {
            assert(s.push(p)[j] == p);
        }
    }
}

/// Replacing a value while keeping its key keeps the keys distinct.
pub proof fn lemma_alist_unique_update<V>(s: Seq<(Vec<u8>, V)>, i: int, p: (Vec<u8>, V))
    requires
        0 <= i < s.len(),
        s[i].0@ == p.0@,
        alist_unique(s),
    ensures
        alist_unique(s.update(i, p)),
{
    let u = s.update(i, p);
    assert forall|m: int, j: int| 0 <= m < j < u.len() implies u[m].0@ != u[j].0@ by {
        assert(u[m].0@ == s[m].0@);
        assert(u[j].0@ == s[j].0@);
    }
}

/// Finds the index of the record stored under key `k`.
pub fn alist_find<V>(s: &Vec<(Vec<u8>, V)>, k: &Vec<u8>) -> (r: Option<usize>)
    ensures
        r matches Some(i) ==> {
            &&& i < s@.len()
            &&& s@[i as int].0@ == k@
            &&& forall|j: int| 0 <= j < i ==> s@[j].0@ != k@
            &&& alist_get(s@, k@) == Option::Some(s@[i as int].1)
        },
        r is None ==> alist_get(s@, k@) is None && (forall|j: int|
            0 <= j < s@.len() ==> s@[j].0@ != k@),
{
    let mut i: usize = 0;
    while i < s.len()
        invariant
            i <= s@.len(),
            forall|j: int| 0 <= j < i ==> s@[j].0@ != k@,
        decreases s@.len() - i,
    {
        let entry = &s[i];
        if bytes_eq(&entry.0, k) {
            proof {
                lemma_alist_get_at_index(s@, k@, i as int);
            }
            return Some(i);
        }
        i += 1;
    }
    proof {
        lemma_alist_get_none(s@, k@);
    }
    None
}

/// Whether a record is stored under key `k`.
pub fn alist_has_key<V>(s: &Vec<(Vec<u8>, V)>, k: &Vec<u8>) -> (r: bool)
    ensures
        r == alist_has(s@, k@),
        !r ==> forall|j: int| 0 <= j < s@.len() ==> s@[j].0@ != k@,
{
    match alist_find(s, k) {
        Some(_) => true,
        None => false,
    }
}

/// Replaces the value at index `i`, keeping its key.
pub fn alist_set_value<V>(s: &mut Vec<(Vec<u8>, V)>, i: usize, v: V)
    requires
        i < old(s)@.len(),
    ensures
        final(s)@ == old(s)@.update(i as int, (old(s)@[i as int].0, v)),
{
    let entry = &mut s[i];
    entry.1 = v;
}

} // verus!
