//! Lists of named entries: a `Vec` of `(String, value)` pairs whose names
//! are distinct, read as a map from names to values. They keep the
//! key-value tables of the configuration and of the code generator.

use vstd::prelude::*;
use crate::strings::text_is;

verus! {

/// The entries of a list of pairs, as plain values.
pub open spec fn entries<V: View>(v: Seq<(String, V)>) -> Seq<(Seq<char>, V::V)> {
    v.map_values(|p: (String, V)| (p.0@, p.1@))
}

/// Whether no two entries have the same key.
pub open spec fn keys_distinct<W>(s: Seq<(Seq<char>, W)>) -> bool {
    forall|i: int, j: int| 0 <= i < j < s.len() ==> (#[trigger] s[i]).0 != (#[trigger] s[j]).0
}

/// The map the entries describe.
pub open spec fn entries_map<W>(s: Seq<(Seq<char>, W)>) -> Map<Seq<char>, W>
    decreases s.len(),
{
    if s.len() == 0 {
        Map::empty()
    } else {
        entries_map(s.drop_last()).insert(s.last().0, s.last().1)
    }
}

/// With distinct keys, the map holds a key exactly when an entry has it,
/// with that entry's value.
pub proof fn lemma_entries_map<W>(s: Seq<(Seq<char>, W)>, k: Seq<char>)
    requires
        keys_distinct(s),
    ensures
        entries_map(s).contains_key(k) <==> exists|i: int| 0 <= i < s.len() && (#[trigger] s[i]).0 == k,
        forall|i: int| 0 <= i < s.len() && (#[trigger] s[i]).0 == k ==> entries_map(s)[k] == s[i].1,
    decreases s.len(),
{
    if s.len() > 0 {
        let t = s.drop_last();
        assert(keys_distinct(t)) by {
            assert forall|i: int, j: int| 0 <= i < j < t.len() implies (#[trigger] t[i]).0 != (#[trigger] t[j]).0 by {
                assert(t[i] == s[i] && t[j] == s[j]);
            }
        }
        lemma_entries_map(t, k);
        if exists|i: int| 0 <= i < s.len() && (#[trigger] s[i]).0 == k {
            let i = choose|i: int| 0 <= i < s.len() && (#[trigger] s[i]).0 == k;
            if i < s.len() - 1 {
                assert(t[i] == s[i]);
            }
        }
        if exists|i: int| 0 <= i < t.len() && (#[trigger] t[i]).0 == k {
            let i = choose|i: int| 0 <= i < t.len() && (#[trigger] t[i]).0 == k;
            assert(s[i] == t[i]);
        }
        assert forall|i: int| 0 <= i < s.len() && (#[trigger] s[i]).0 == k implies entries_map(s)[k] == s[i].1 by {
            if i < s.len() - 1 {
                assert(t[i] == s[i]);
                assert(s[s.len() - 1].0 != k);
            }
        }
    }
}

/// The position of the entry with key `key`.
pub(crate) fn find_key<V: View>(v: &Vec<(String, V)>, key: &str) -> (r: Option<usize>)
    ensures
        match r {
            Some(i) => i < v@.len() && entries(v@)[i as int].0 == key@,
            None => forall|i: int| 0 <= i < v@.len() ==> (#[trigger] entries(v@)[i]).0 != key@,
        },
{
    let mut i: usize = 0;
    while i < v.len()
        invariant
            i <= v@.len(),
            forall|j: int| 0 <= j < i ==> (#[trigger] entries(v@)[j]).0 != key@,
        decreases v@.len() - i,
    {
        if text_is(v[i].0.as_str(), key) {
            return Some(i);
        }
        i = i + 1;
    }
    None
}

/// Sets the value of `key`, adding an entry if there is none.
pub(crate) fn set_entry<V: View>(v: &mut Vec<(String, V)>, key: String, val: V)
    requires
        keys_distinct(entries(old(v)@)),
    ensures
        keys_distinct(entries(final(v)@)),
        entries_map(entries(final(v)@)) == entries_map(entries(old(v)@)).insert(key@, val@),
{
    let ghost s0 = entries(v@);
    let ghost k = key@;
    let ghost w = val@;
    match find_key(v, key.as_str()) {
        Some(i) => {
            v.set(i, (key, val));
            proof {
                let s1 = entries(v@);
                assert(s1 =~= s0.update(i as int, (k, w)));
                assert(keys_distinct(s1)) by {
                    assert forall|a: int, b: int| 0 <= a < b < s1.len() implies (#[trigger] s1[a]).0 != (#[trigger] s1[b]).0 by {
                        if a != i as int && b != i as int {
                            assert(s1[a] == s0[a] && s1[b] == s0[b]);
                        } else if a == i as int {
                            assert(s1[b] == s0[b]);
                        } else {
                            assert(s1[a] == s0[a]);
                        }
                    }
                }
                assert forall|q: Seq<char>| #[trigger] entries_map(s1).contains_key(q) == entries_map(s0).insert(k, w).contains_key(q)
                    && (entries_map(s1).contains_key(q) ==> entries_map(s1)[q] == entries_map(s0).insert(k, w)[q]) by {
                    lemma_entries_map(s0, q);
                    lemma_entries_map(s1, q);
                    if q == k {
                        assert(s1[i as int].0 == q);
                    } else {
                        if entries_map(s0).contains_key(q) {
                            let j = choose|j: int| 0 <= j < s0.len() && (#[trigger] s0[j]).0 == q;
                            assert(s1[j] == s0[j]);
                        }
                        if entries_map(s1).contains_key(q) {
                            let j = choose|j: int| 0 <= j < s1.len() && (#[trigger] s1[j]).0 == q;
                            assert(s1[j] == s0[j]);
                        }
                    }
                }
                assert(entries_map(s1) =~= entries_map(s0).insert(k, w));
            }
        },
        None => {
            v.push((key, val));
            proof {
                let s1 = entries(v@);
                assert(s1 =~= s0.push((k, w)));
                assert(s1.drop_last() =~= s0);
                assert(keys_distinct(s1)) by {
                    assert forall|a: int, b: int| 0 <= a < b < s1.len() implies (#[trigger] s1[a]).0 != (#[trigger] s1[b]).0 by {
                        assert(s1[a] == s0[a]);
                        if b < s0.len() {
                            assert(s1[b] == s0[b]);
                        }
                    }
                }
            }
        },
    }
}

/// Takes out the entry at position `i`.
pub(crate) fn take_at<V: View>(v: &mut Vec<(String, V)>, i: usize) -> (e: (String, V))
    requires
        keys_distinct(entries(old(v)@)),
        i < old(v)@.len(),
    ensures
        e == old(v)@[i as int],
        keys_distinct(entries(final(v)@)),
        entries_map(entries(final(v)@)) == entries_map(entries(old(v)@)).remove(e.0@),
{
    let ghost s0 = entries(v@);
    let ghost key = v@[i as int].0@;
    assert(s0[i as int].0 == key);
    let e = v.remove(i);
    proof {
        let s1 = entries(v@);
        assert(s1 =~= s0.remove(i as int));
        assert(keys_distinct(s1)) by {
            assert forall|a: int, b: int| 0 <= a < b < s1.len() implies (#[trigger] s1[a]).0 != (#[trigger] s1[b]).0 by {
                let a0 = if a < i { a } else { a + 1 };
                let b0 = if b < i { b } else { b + 1 };
                assert(s1[a] == s0[a0] && s1[b] == s0[b0]);
            }
        }
        assert forall|q: Seq<char>| #[trigger] entries_map(s1).contains_key(q) == entries_map(s0).remove(key).contains_key(q)
            && (entries_map(s1).contains_key(q) ==> entries_map(s1)[q] == entries_map(s0).remove(key)[q]) by {
            lemma_entries_map(s0, q);
            lemma_entries_map(s1, q);
            if entries_map(s1).contains_key(q) {
                let j = choose|j: int| 0 <= j < s1.len() && (#[trigger] s1[j]).0 == q;
                let j0 = if j < i { j } else { j + 1 };
                assert(s1[j] == s0[j0]);
                assert(q != key) by {
                    if q == key {
                        assert(s0[i as int].0 == key);
                    }
                }
            }
            if entries_map(s0).contains_key(q) && q != key {
                let j = choose|j: int| 0 <= j < s0.len() && (#[trigger] s0[j]).0 == q;
                assert(j != i);
                let j1 = if j < i { j } else { j - 1 };
                assert(s1[j1] == s0[j]);
            }
        }
        assert(entries_map(s1) =~= entries_map(s0).remove(key));
    }
    e
}

/// Removes the entry with key `key`, if there is one.
pub(crate) fn remove_entry<V: View>(v: &mut Vec<(String, V)>, key: &str) -> (removed: bool)
    requires
        keys_distinct(entries(old(v)@)),
    ensures
        keys_distinct(entries(final(v)@)),
        removed == entries_map(entries(old(v)@)).contains_key(key@),
        entries_map(entries(final(v)@)) == entries_map(entries(old(v)@)).remove(key@),
{
    let ghost s0 = entries(v@);
    proof {
        lemma_entries_map(s0, key@);
    }
    match find_key(v, key) {
        Some(i) => {
            assert(s0[i as int].0 == key@);
            let _ = take_at(v, i);
            true
        },
        None => {
            proof {
                assert(entries_map(s0).remove(key@) =~= entries_map(s0));
            }
            false
        },
    }
}

/// Whether no two entries have the same key.
pub fn has_distinct_keys<V: View>(v: &Vec<(String, V)>) -> (r: bool)
    ensures
        r == keys_distinct(entries(v@)),
{
    let ghost s = entries(v@);
    let mut j: usize = 0;
    while j < v.len()
        invariant
            j <= v@.len(),
            s == entries(v@),
            forall|a: int, b: int| 0 <= a < b < j ==> (#[trigger] s[a]).0 != (#[trigger] s[b]).0,
        decreases v@.len() - j,
    {
        let mut i: usize = 0;
        while i < j
            invariant
                i <= j,
                j < v@.len(),
                s == entries(v@),
                forall|a: int, b: int| 0 <= a < b < j ==> (#[trigger] s[a]).0 != (#[trigger] s[b]).0,
                forall|a: int| 0 <= a < i ==> (#[trigger] s[a]).0 != s[j as int].0,
            decreases j - i,
        {
            if text_is(v[i].0.as_str(), v[j].0.as_str()) {
                assert(s[i as int].0 == s[j as int].0);
                return false;
            }
            i = i + 1;
        }
        j = j + 1;
    }
    true
}

} // verus!

