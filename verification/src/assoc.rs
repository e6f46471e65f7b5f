//! Association lists keyed by text, read the way a `HashMap` filled entry by entry
//! is read: a later entry for a key replaces an earlier one.
use crate::text::text_eq;
use vstd::prelude::*;

verus! {

/// The map that an association list stands for: later entries win.
pub open spec fn assoc_map<V>(s: Seq<(String, V)>) -> Map<Seq<char>, V>
    decreases s.len(),
{
    if s.len() == 0 {
        Map::empty()
    } else {
        assoc_map(s.drop_last()).insert(s.last().0@, s.last().1)
    }
}

/// The key set of an association list.
pub open spec fn assoc_keys<V>(s: Seq<(String, V)>) -> Set<Seq<char>> {
    assoc_map(s).dom()
}

/// Appending an entry is inserting it into the map.
pub proof fn lemma_assoc_push<V>(s: Seq<(String, V)>, e: (String, V))
    ensures
        assoc_map(s.push(e)) == assoc_map(s).insert(e.0@, e.1),
{
    assert(s.push(e).drop_last() =~= s);
}

/// A key that no entry carries is not in the map.
pub proof fn lemma_assoc_absent<V>(s: Seq<(String, V)>, k: Seq<char>)
    requires
        forall|j: int| 0 <= j < s.len() ==> (#[trigger] s[j]).0@ != k,
    ensures
        !assoc_map(s).contains_key(k),
    decreases s.len(),
{
    if s.len() > 0 {
        lemma_assoc_absent(s.drop_last(), k);
    }
}

/// The last entry that carries a key gives the key's value.
pub proof fn lemma_assoc_last<V>(s: Seq<(String, V)>, k: Seq<char>, i: int)
    requires
        0 <= i < s.len(),
        s[i].0@ == k,
        forall|j: int| i < j < s.len() ==> (#[trigger] s[j]).0@ != k,
    ensures
        assoc_map(s).contains_key(k),
        assoc_map(s)[k] == s[i].1,
    decreases s.len(),
{
    if i < s.len() - 1 {
        lemma_assoc_last(s.drop_last(), k, i);
    }
}

/// Position of the entry that gives `key` its value: the last one carrying it.
pub fn assoc_find<V>(s: &Vec<(String, V)>, key: &str) -> (r: Option<usize>)
    ensures
        match r {
            Some(i) => {
                &&& i < s@.len()
                &&& s@[i as int].0@ == key@
                &&& assoc_map(s@).contains_key(key@)
                &&& assoc_map(s@)[key@] == s@[i as int].1
            },
            None => !assoc_map(s@).contains_key(key@),
        },
{
    let mut i: usize = s.len();
    while i > 0
        invariant
            i <= s@.len(),
            forall|j: int| i <= j < s@.len() ==> (#[trigger] s@[j]).0@ != key@,
        decreases i,
    {
        i = i - 1;
        if text_eq(s[i].0.as_str(), key) {
            proof {
                lemma_assoc_last(s@, key@, i as int);
            }
            return Some(i);
        }
    }
    proof {
        lemma_assoc_absent(s@, key@);
    }
    None
}

/// The list with every entry for `key` left out: the map with `key` removed.
pub fn assoc_remove<V>(s: Vec<(String, V)>, key: &str) -> (r: Vec<(String, V)>)
    ensures
        assoc_map(r@) == assoc_map(s@).remove(key@),
        forall|j: int| 0 <= j < r@.len() ==> (#[trigger] r@[j]).0@ != key@,
{
    let mut out: Vec<(String, V)> = Vec::new();
    let mut rest = s;
    let ghost orig = rest@;
    proof {
        assert(orig.take(0) =~= Seq::<(String, V)>::empty());
    }
    // Walk the entries front to back, keeping those with another key.
    let n = rest.len();
    let mut i: usize = 0;
    while i < n
        invariant
            n == orig.len(),
            i <= n,
            rest@.len() == n - i,
            rest@ == orig.skip(i as int),
            assoc_map(out@) == assoc_map(orig.take(i as int)).remove(key@),
            forall|j: int| 0 <= j < out@.len() ==> (#[trigger] out@[j]).0@ != key@,
        decreases n - i,
    {
        let e = rest.remove(0);
        proof {
            assert(orig.skip(i as int + 1) =~= orig.skip(i as int).drop_first());
            assert(e == orig[i as int]);
            assert(orig.take(i as int + 1).drop_last() =~= orig.take(i as int));
        }
        if text_eq(e.0.as_str(), key) {
            proof {
                assert(assoc_map(orig.take(i as int + 1)).remove(key@) =~= assoc_map(
                    orig.take(i as int),
                ).remove(key@));
            }
        } else {
            proof {
                lemma_assoc_push(out@, e);
                assert(assoc_map(orig.take(i as int + 1)).remove(key@) =~= assoc_map(
                    orig.take(i as int),
                ).remove(key@).insert(e.0@, e.1));
            }
            out.push(e);
        }
        i = i + 1;
    }
    proof {
        assert(orig.take(n as int) =~= orig);
    }
    out
}


/// Position of the first entry with this key, or the length when none has it.
pub open spec fn first_key_index<V>(s: Seq<(String, V)>, k: Seq<char>) -> int
    decreases s.len(),
{
    if s.len() == 0 {
        0
    } else if s[0].0@ == k {
        0
    } else {
        1 + first_key_index(s.drop_first(), k)
    }
}

/// `first_key_index` points at the first entry with the key, or past the end.
pub proof fn lemma_first_key_index<V>(s: Seq<(String, V)>, k: Seq<char>)
    ensures
        0 <= first_key_index(s, k) <= s.len(),
        forall|j: int| 0 <= j < first_key_index(s, k) ==> (#[trigger] s[j]).0@ != k,
        first_key_index(s, k) < s.len() ==> s[first_key_index(s, k)].0@ == k,
    decreases s.len(),
{
    if s.len() > 0 && s[0].0@ != k {
        lemma_first_key_index(s.drop_first(), k);
        assert forall|j: int| 0 <= j < first_key_index(s, k) implies (#[trigger] s[j]).0@ != k by {
            if j > 0 {
                assert(s[j] == s.drop_first()[j - 1]);
            }
        }
    }
}

/// Position of the first entry with this key, as a search from the front finds it.
pub fn find_first<V>(s: &Vec<(String, V)>, key: &str) -> (r: Option<usize>)
    ensures
        match r {
            Some(i) => i as int == first_key_index(s@, key@) && i < s@.len(),
            None => first_key_index(s@, key@) == s@.len(),
        },
{
    proof {
        lemma_first_key_index(s@, key@);
    }
    let mut i: usize = 0;
    while i < s.len()
        invariant
            i <= s@.len(),
            forall|j: int| 0 <= j < i ==> (#[trigger] s@[j]).0@ != key@,
            0 <= first_key_index(s@, key@) <= s@.len(),
            forall|j: int| 0 <= j < first_key_index(s@, key@) ==> (#[trigger] s@[j]).0@ != key@,
            first_key_index(s@, key@) < s@.len() ==> s@[first_key_index(s@, key@)].0@ == key@,
        decreases s@.len() - i,
    {
        if text_eq(s[i].0.as_str(), key) {
            return Some(i);
        }
        i = i + 1;
    }
    None
}

} // verus!
