//! Finite tables kept as sequences: entries keyed by their first component,
//! and lists of distinct ids, with the first-match lookups the tables use.
use vstd::prelude::*;

verus! {

/// No two entries share a first component.
pub open spec fn keys_unique<K, V>(s: Seq<(K, V)>) -> bool {
    forall|i: int, j: int| 0 <= i < j < s.len() ==> s[i].0 != s[j].0
}

/// No id occurs twice.
pub open spec fn ids_unique<K>(s: Seq<K>) -> bool {
    forall|i: int, j: int| 0 <= i < j < s.len() ==> s[i] != s[j]
}

/// The index of the first entry whose first component is `k`, or -1.
pub open spec fn key_index<K, V>(s: Seq<(K, V)>, k: K) -> int
    decreases s.len(),
{
    if s.len() == 0 {
        -1
    } else if s[0].0 == k {
        0
    } else {
        let r = key_index(s.drop_first(), k);
        if r < 0 { -1 } else { r + 1 }
    }
}

/// The index of the first occurrence of `k`, or -1.
pub open spec fn id_index<K>(s: Seq<K>, k: K) -> int
    decreases s.len(),
{
    if s.len() == 0 {
        -1
    } else if s[0] == k {
        0
    } else {
        let r = id_index(s.drop_first(), k);
        if r < 0 { -1 } else { r + 1 }
    }
}

/// Set the entry for `k`, adding it when absent.
pub open spec fn keyed_insert<K, V>(s: Seq<(K, V)>, k: K, v: V) -> Seq<(K, V)> {
    let i = key_index(s, k);
    if i >= 0 { s.update(i, (k, v)) } else { s.push((k, v)) }
}

/// Drop the entry for `k`, if present.
pub open spec fn keyed_remove<K, V>(s: Seq<(K, V)>, k: K) -> Seq<(K, V)> {
    let i = key_index(s, k);
    if i >= 0 { s.remove(i) } else { s }
}

/// The first index holding key `k` is exactly the first match.
pub proof fn lemma_key_index<K, V>(s: Seq<(K, V)>, k: K, i: int)
    requires
        0 <= i <= s.len(),
        forall|j: int| 0 <= j < i ==> s[j].0 != k,
    ensures
        i < s.len() && s[i].0 == k ==> key_index(s, k) == i,
        i == s.len() ==> key_index(s, k) == -1,
        -1 <= key_index(s, k) < s.len(),
    decreases s.len(),
{
    if s.len() > 0 {
        if i > 0 {
            assert forall|j: int| 0 <= j < i - 1 implies s.drop_first()[j].0 != k by {
                assert(s.drop_first()[j] == s[j + 1]);
            }
            lemma_key_index(s.drop_first(), k, i - 1);
        } else {
            lemma_key_index(s.drop_first(), k, 0);
        }
    }
}

/// The first index holding `k` is exactly the first match.
pub proof fn lemma_id_index<K>(s: Seq<K>, k: K, i: int)
    requires
        0 <= i <= s.len(),
        forall|j: int| 0 <= j < i ==> s[j] != k,
    ensures
        i < s.len() && s[i] == k ==> id_index(s, k) == i,
        i == s.len() ==> id_index(s, k) == -1,
        -1 <= id_index(s, k) < s.len(),
    decreases s.len(),
{
    if s.len() > 0 {
        if i > 0 {
            assert forall|j: int| 0 <= j < i - 1 implies s.drop_first()[j] != k by {
                assert(s.drop_first()[j] == s[j + 1]);
            }
            lemma_id_index(s.drop_first(), k, i - 1);
        } else {
            lemma_id_index(s.drop_first(), k, 0);
        }
    }
}

/// `key_index` finds the first entry with key `k`, or reports that none has it.
pub proof fn lemma_key_index_finds<K, V>(s: Seq<(K, V)>, k: K)
    ensures
        -1 <= key_index(s, k) < s.len(),
        key_index(s, k) >= 0 ==> s[key_index(s, k)].0 == k,
        key_index(s, k) < 0 ==> forall|j: int| 0 <= j < s.len() ==> s[j].0 != k,
    decreases s.len(),
{
    if s.len() > 0 && s[0].0 != k {
        lemma_key_index_finds(s.drop_first(), k);
        assert forall|j: int| 0 <= j < s.len() && key_index(s, k) < 0 implies s[j].0 != k by {
            if j > 0 {
                assert(s[j] == s.drop_first()[j - 1]);
            }
        }
    }
}

/// `id_index` finds the first occurrence of `k`, or reports that none is there.
pub proof fn lemma_id_index_finds<K>(s: Seq<K>, k: K)
    ensures
        -1 <= id_index(s, k) < s.len(),
        id_index(s, k) >= 0 ==> s[id_index(s, k)] == k,
        id_index(s, k) < 0 ==> forall|j: int| 0 <= j < s.len() ==> s[j] != k,
    decreases s.len(),
{
    if s.len() > 0 && s[0] != k {
        lemma_id_index_finds(s.drop_first(), k);
        assert forall|j: int| 0 <= j < s.len() && id_index(s, k) < 0 implies s[j] != k by {
            if j > 0 {
                assert(s[j] == s.drop_first()[j - 1]);
            }
        }
    }
}

/// Setting an entry keeps keys unique, and the entry is then found with its value.
pub proof fn lemma_keyed_insert<K, V>(s: Seq<(K, V)>, k: K, v: V)
    requires
        keys_unique(s),
    ensures
        keys_unique(keyed_insert(s, k, v)),
        key_index(keyed_insert(s, k, v), k) >= 0,
        keyed_insert(s, k, v)[key_index(keyed_insert(s, k, v), k)] == (k, v),
        keyed_insert(s, k, v).len() == s.len() + (if key_index(s, k) >= 0 { 0int } else { 1int }),
{
    lemma_key_index_finds(s, k);
    let t = keyed_insert(s, k, v);
    let i = key_index(s, k);
    if i >= 0 {
        assert forall|j: int| 0 <= j < i implies t[j].0 != k by {
            assert(s[j].0 != s[i].0);
        }
        lemma_key_index(t, k, i);
    } else {
        assert forall|j: int| 0 <= j < s.len() implies t[j].0 != k by {
            assert(t[j] == s[j]);
        }
        lemma_key_index(t, k, s.len() as int);
    }
}

/// Dropping an entry keeps keys unique and forgets the key.
pub proof fn lemma_keyed_remove<K, V>(s: Seq<(K, V)>, k: K)
    requires
        keys_unique(s),
    ensures
        keys_unique(keyed_remove(s, k)),
        key_index(keyed_remove(s, k), k) == -1,
        keyed_remove(s, k).len() <= s.len(),
{
    lemma_key_index_finds(s, k);
    let t = keyed_remove(s, k);
    lemma_key_index_finds(t, k);
    let i = key_index(s, k);
    if i >= 0 {
        assert forall|a: int, b: int| 0 <= a < b < t.len() implies t[a].0 != t[b].0 by {
            let a2 = if a < i { a } else { a + 1 };
            let b2 = if b < i { b } else { b + 1 };
            assert(t[a] == s[a2]);
            assert(t[b] == s[b2]);
        }
        if key_index(t, k) >= 0 {
            let j = key_index(t, k);
            let j2 = if j < i { j } else { j + 1 };
            assert(t[j] == s[j2]);
            if j2 < i {
                assert(s[j2].0 != s[i].0);
            } else {
                assert(s[i].0 != s[j2].0);
            }
        }
    }
}

/// Removing one occurrence keeps ids unique.
pub proof fn lemma_ids_remove<K>(s: Seq<K>, i: int)
    requires
        ids_unique(s),
        0 <= i < s.len(),
    ensures
        ids_unique(s.remove(i)),
{
    let t = s.remove(i);
    assert forall|a: int, b: int| 0 <= a < b < t.len() implies t[a] != t[b] by {
        let a2 = if a < i { a } else { a + 1 };
        let b2 = if b < i { b } else { b + 1 };
        assert(t[a] == s[a2]);
        assert(t[b] == s[b2]);
    }
}


/// Adding an absent id keeps ids unique.
pub proof fn lemma_ids_push<K>(s: Seq<K>, k: K)
    requires
        ids_unique(s),
        id_index(s, k) < 0,
    ensures
        ids_unique(s.push(k)),
{
    lemma_id_index_finds(s, k);
    let t = s.push(k);
    assert forall|a: int, b: int| 0 <= a < b < t.len() implies t[a] != t[b] by {
        if b == s.len() {
            assert(t[a] == s[a]);
        } else {
            assert(t[a] == s[a] && t[b] == s[b]);
        }
    }
}

/// Adding an entry with an absent key keeps keys unique.
pub proof fn lemma_keys_push<K, V>(s: Seq<(K, V)>, k: K, v: V)
    requires
        keys_unique(s),
        key_index(s, k) < 0,
    ensures
        keys_unique(s.push((k, v))),
{
    lemma_key_index_finds(s, k);
    let t = s.push((k, v));
    assert forall|a: int, b: int| 0 <= a < b < t.len() implies t[a].0 != t[b].0 by {
        if b == s.len() {
            assert(t[a] == s[a]);
        } else {
            assert(t[a] == s[a] && t[b] == s[b]);
        }
    }
}

/// Removing the entry at the first index of `k` is dropping the entry for `k`.
pub proof fn lemma_remove_at_key<K, V>(s: Seq<(K, V)>, k: K)
    requires
        key_index(s, k) >= 0,
    ensures
        s.remove(key_index(s, k)) == keyed_remove(s, k),
{
}


/// Removing the only occurrence of an id forgets it.
pub proof fn lemma_ids_remove_forgets<K>(s: Seq<K>, i: int)
    requires
        ids_unique(s),
        0 <= i < s.len(),
    ensures
        id_index(s.remove(i), s[i]) < 0,
{
    let t = s.remove(i);
    lemma_id_index_finds(t, s[i]);
    if id_index(t, s[i]) >= 0 {
        let j = id_index(t, s[i]);
        if j < i {
            assert(t[j] == s[j]);
        } else {
            assert(t[j] == s[j + 1]);
        }
    }
}

/// Strictly increasing values.
pub open spec fn increasing(s: Seq<u64>) -> bool {
    forall|i: int, j: int| 0 <= i < j < s.len() ==> s[i] < s[j]
}

/// Removing an entry keeps values increasing.
pub proof fn lemma_increasing_remove(s: Seq<u64>, i: int)
    requires
        increasing(s),
        0 <= i < s.len(),
    ensures
        increasing(s.remove(i)),
{
    let t = s.remove(i);
    assert forall|a: int, b: int| 0 <= a < b < t.len() implies t[a] < t[b] by {
        let a2 = if a < i { a } else { a + 1 };
        let b2 = if b < i { b } else { b + 1 };
        assert(t[a] == s[a2]);
        assert(t[b] == s[b2]);
    }
}

} // verus!
