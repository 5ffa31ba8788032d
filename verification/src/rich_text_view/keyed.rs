//! A small map from text keys to values, kept as a list with distinct keys.
use vstd::prelude::*;

verus! {

/// Whether no two entries of `s` share a key.
pub open spec fn keys_unique<V>(s: Seq<(String, V)>) -> bool {
    forall|i: int, j: int| 0 <= i < j < s.len() ==> (#[trigger] s[i]).0@ != (#[trigger] s[j]).0@
}

/// The map that the entries of `s` describe, later entries taking precedence.
pub open spec fn map_of<V>(s: Seq<(String, V)>) -> Map<Seq<char>, V>
    decreases s.len(),
{
    if s.len() == 0 {
        Map::empty()
    } else {
        map_of(s.drop_last()).insert(s.last().0@, s.last().1)
    }
}

/// Each entry of a list with distinct keys is found in its map.
pub proof fn lemma_map_of_index<V>(s: Seq<(String, V)>, i: int)
    requires
        keys_unique(s),
        0 <= i < s.len(),
    ensures
        map_of(s).contains_key(s[i].0@),
        map_of(s)[s[i].0@] == s[i].1,
    decreases s.len(),
{
    if i < s.len() - 1 {
        let p = s.drop_last();
        assert(p[i] == s[i]);
        assert(s.last() == s[s.len() - 1]);
        lemma_map_of_index(p, i);
    }
}

/// Every key of the map is the key of an entry.
pub proof fn lemma_map_of_domain<V>(s: Seq<(String, V)>, k: Seq<char>)
    requires
        map_of(s).contains_key(k),
    ensures
        exists|i: int| 0 <= i < s.len() && (#[trigger] s[i]).0@ == k,
    decreases s.len(),
{
    if s.len() > 0 {
        let p = s.drop_last();
        if s.last().0@ == k {
            assert(s[s.len() - 1].0@ == k);
        } else {
            lemma_map_of_domain(p, k);
            let i = choose|i: int| 0 <= i < p.len() && (#[trigger] p[i]).0@ == k;
            assert(s[i] == p[i]);
        }
    }
}

/// Where `key` sits in `entries`, if anywhere.
pub fn find_key<V>(entries: &Vec<(String, V)>, key: &str) -> (found: Option<usize>)
    ensures
        match found {
            Some(i) => i < entries@.len() && entries@[i as int].0@ == key@,
            None => forall|i: int| 0 <= i < entries@.len() ==> (#[trigger] entries@[i]).0@ != key@,
        },
{
    let mut i: usize = 0;
    while i < entries.len()
        invariant
            i <= entries@.len(),
            forall|j: int| 0 <= j < i ==> (#[trigger] entries@[j]).0@ != key@,
        decreases entries.len() - i,
    {
        if crate::text::str_equals(entries[i].0.as_str(), key) {
            return Some(i);
        }
        i += 1;
    }
    None
}

/// Sets `key` to `value`, in place when the key is present, else as a new
/// last entry.
pub fn upsert<V>(entries: &mut Vec<(String, V)>, key: String, value: V)
    requires
        keys_unique(old(entries)@),
    ensures
        keys_unique(final(entries)@),
        map_of(final(entries)@) == map_of(old(entries)@).insert(key@, value),
{
    match find_key(entries, key.as_str()) {
        Some(i) => {
            let ghost before = entries@;
            let ghost k = key@;
            proof {
                lemma_map_of_update_key(before, i as int, key, value);
            }
            entries.set(i, (key, value));
            assert forall|a: int, b: int| 0 <= a < b < entries@.len() implies (#[trigger] entries@[a]).0@ != (#[trigger] entries@[b]).0@ by {
                assert(entries@[a].0@ == before[a].0@);
                assert(entries@[b].0@ == before[b].0@);
            }
        },
        None => {
            let ghost before = entries@;
            entries.push((key, value));
            assert(entries@.drop_last() =~= before);
            assert forall|a: int, b: int| 0 <= a < b < entries@.len() implies (#[trigger] entries@[a]).0@ != (#[trigger] entries@[b]).0@ by {
                assert(entries@[a] == before[a]);
                if b < before.len() {
                    assert(entries@[b] == before[b]);
                }
            }
        },
    }
}

/// Replacing an entry by one with an equal key updates the map at that key.
proof fn lemma_map_of_update_key<V>(s: Seq<(String, V)>, i: int, key: String, v: V)
    requires
        keys_unique(s),
        0 <= i < s.len(),
        s[i].0@ == key@,
    ensures
        map_of(s.update(i, (key, v))) == map_of(s).insert(key@, v),
    decreases s.len(),
{
    let t = s.update(i, (key, v));
    let p = s.drop_last();
    assert(keys_unique(p)) by {
        assert forall|a: int, b: int| 0 <= a < b < p.len() implies (#[trigger] p[a]).0@ != (#[trigger] p[b]).0@ by {
            assert(p[a] == s[a] && p[b] == s[b]);
        }
    }
    if i == s.len() - 1 {
        assert(t.drop_last() =~= p);
        assert(map_of(t) =~= map_of(s).insert(key@, v));
    } else {
        assert(t.drop_last() =~= p.update(i, (key, v)));
        lemma_map_of_update_key(p, i, key, v);
        assert(s.last() == s[s.len() - 1]);
        assert(map_of(t) =~= map_of(s).insert(key@, v));
    }
}

/// An entry put in front of a list counts only where no later entry has its
/// key.
pub proof fn lemma_map_of_prepend<V>(e: (String, V), s: Seq<(String, V)>)
    ensures
        map_of(seq![e] + s) == if map_of(s).contains_key(e.0@) {
            map_of(s)
        } else {
            map_of(s).insert(e.0@, e.1)
        },
    decreases s.len(),
{
    if s.len() == 0 {
        assert(seq![e] + s =~= seq![e]);
        let single = seq![e];
        assert(single.drop_last() =~= Seq::<(String, V)>::empty());
        assert(single.last() == e);
        assert(map_of(single.drop_last()) == Map::<Seq<char>, V>::empty());
        assert(map_of(single) == map_of(single.drop_last()).insert(e.0@, e.1));
    } else {
        let p = s.drop_last();
        lemma_map_of_prepend(e, p);
        assert((seq![e] + s).drop_last() =~= seq![e] + p);
        assert((seq![e] + s).last() == s.last());
        if map_of(s).contains_key(e.0@) {
            assert(map_of(seq![e] + s) =~= map_of(s));
        } else {
            assert(map_of(seq![e] + s) =~= map_of(s).insert(e.0@, e.1));
        }
    }
}

} // verus!
