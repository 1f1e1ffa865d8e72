//! Association lists with string keys, the crate's stand-in for hash maps:
//! a vector of key/value pairs with unique keys, modelled in specifications
//! as a `Map` from character sequences to value views.

use vstd::prelude::*;

use crate::util::text;

verus! {

/// The map that an association list denotes; a later binding of a key
/// shadows an earlier one.
pub open spec fn kv_map<V: View>(s: Seq<(String, V)>) -> Map<Seq<char>, V::V>
    decreases s.len(),
{
    if s.len() == 0 {
        Map::<Seq<char>, V::V>::empty()
    } else {
        kv_map(s.drop_last()).insert(s.last().0@, s.last().1@)
    }
}

/// No two entries bind the same key.
pub open spec fn kv_keys_unique<V>(s: Seq<(String, V)>) -> bool {
    forall|i: int, j: int| 0 <= i < j < s.len() ==> s[i].0@ != s[j].0@
}

/// A key is in the map exactly when some entry binds it.
pub proof fn lemma_kv_map_domain<V: View>(s: Seq<(String, V)>, k: Seq<char>)
    ensures
        kv_map(s).contains_key(k) <==> exists|i: int| 0 <= i < s.len() && s[i].0@ == k,
    decreases s.len(),
{
    if s.len() > 0 {
        lemma_kv_map_domain(s.drop_last(), k);
        if s.last().0@ == k {
            assert(s[s.len() - 1].0@ == k);
        } else if exists|i: int| 0 <= i < s.len() && s[i].0@ == k {
            let i = choose|i: int| 0 <= i < s.len() && s[i].0@ == k;
            assert(s.drop_last()[i] == s[i]);
        }
    }
}

/// With unique keys, the entry at `i` gives the key's value in the map.
pub proof fn lemma_kv_map_index<V: View>(s: Seq<(String, V)>, i: int)
    requires
        kv_keys_unique(s),
        0 <= i < s.len(),
    ensures
        kv_map(s).contains_key(s[i].0@),
        kv_map(s)[s[i].0@] == s[i].1@,
    decreases s.len(),
{
    if i == s.len() - 1 {
    } else {
        assert(kv_keys_unique(s.drop_last())) by {
            assert(forall|x: int, y: int|
                0 <= x < y < s.len() - 1 ==> s.drop_last()[x] == s[x] && s.drop_last()[y] == s[y]);
        }
        assert(s.drop_last()[i] == s[i]);
        lemma_kv_map_index(s.drop_last(), i);
        assert(s[i].0@ != s.last().0@);
    }
}

/// Appending an entry with a fresh key inserts it into the map.
pub proof fn lemma_kv_map_push<V: View>(s: Seq<(String, V)>, key: String, value: V)
    ensures
        kv_map(s.push((key, value))) == kv_map(s).insert(key@, value@),
{
    assert(s.push((key, value)).drop_last() =~= s);
    assert(s.push((key, value)).last() == (key, value));
}

/// With unique keys the map has exactly one member per entry.
pub proof fn lemma_kv_map_len<V: View>(s: Seq<(String, V)>)
    requires
        kv_keys_unique(s),
    ensures
        kv_map(s).dom().finite(),
        kv_map(s).dom().len() == s.len(),
    decreases s.len(),
{
    if s.len() == 0 {
    } else {
        assert(kv_keys_unique(s.drop_last())) by {
            assert(forall|x: int, y: int|
                0 <= x < y < s.len() - 1 ==> s.drop_last()[x] == s[x] && s.drop_last()[y] == s[y]);
        }
        lemma_kv_map_len(s.drop_last());
        lemma_kv_map_domain(s.drop_last(), s.last().0@);
        assert(forall|i: int| 0 <= i < s.len() - 1 ==> s.drop_last()[i] == s[i]);
        assert(!kv_map(s.drop_last()).contains_key(s.last().0@));
    }
}

/// Appending an entry with a fresh key keeps the keys unique.
pub proof fn lemma_kv_unique_push<V>(s: Seq<(String, V)>, key: String, value: V)
    requires
        kv_keys_unique(s),
        forall|i: int| 0 <= i < s.len() ==> s[i].0@ != key@,
    ensures
        kv_keys_unique(s.push((key, value))),
{
    let t = s.push((key, value));
    assert forall|i: int, j: int| 0 <= i < j < t.len() implies t[i].0@ != t[j].0@ by {
        if j < s.len() {
            assert(t[i] == s[i] && t[j] == s[j]);
        } else {
            assert(t[i] == s[i] && t[j] == (key, value));
        }
    }
}

/// Replacing the entry at `i` by one with the same key rebinds that key
/// and keeps the keys unique.
pub proof fn lemma_kv_map_update<V: View>(s: Seq<(String, V)>, i: int, key: String, value: V)
    requires
        kv_keys_unique(s),
        0 <= i < s.len(),
        key@ == s[i].0@,
    ensures
        kv_map(s.update(i, (key, value))) == kv_map(s).insert(key@, value@),
        kv_keys_unique(s.update(i, (key, value))),
    decreases s.len(),
{
    let t = s.update(i, (key, value));
    assert(kv_keys_unique(t)) by {
        assert(forall|x: int| 0 <= x < t.len() ==> t[x].0@ == s[x].0@);
    }
    if i == s.len() - 1 {
        assert(t.drop_last() =~= s.drop_last());
        assert(t.last() == (key, value));
        assert(kv_map(t) == kv_map(s.drop_last()).insert(key@, value@));
        assert(kv_map(s.drop_last()).insert(key@, value@) =~= kv_map(s).insert(key@, value@));
    } else {
        assert(kv_keys_unique(s.drop_last())) by {
            assert(forall|x: int, y: int|
                0 <= x < y < s.len() - 1 ==> s.drop_last()[x] == s[x] && s.drop_last()[y] == s[y]);
        }
        assert(s.drop_last()[i] == s[i]);
        lemma_kv_map_update(s.drop_last(), i, key, value);
        assert(t.drop_last() =~= s.drop_last().update(i, (key, value)));
        assert(t.last() == s.last());
        assert(s.last().0@ != key@);
        assert(kv_map(t) == kv_map(s.drop_last()).insert(key@, value@).insert(
            s.last().0@,
            s.last().1@,
        ));
        assert(kv_map(s.drop_last()).insert(key@, value@).insert(s.last().0@, s.last().1@)
            =~= kv_map(s).insert(key@, value@));
    }
}

/// Binds `key` to `value`: in place where the key is already bound, at
/// the end where it is new.
pub fn kv_set<V: View>(entries: &mut Vec<(String, V)>, key: String, value: V)
    requires
        kv_keys_unique(old(entries)@),
    ensures
        kv_keys_unique(final(entries)@),
        kv_map(final(entries)@) == kv_map(old(entries)@).insert(key@, value@),
{
    let n = entries.len();
    let mut i: usize = 0;
    while i < n
        invariant
            0 <= i <= n,
            n == entries@.len(),
            entries@ == old(entries)@,
            kv_keys_unique(entries@),
            forall|j: int| 0 <= j < i ==> entries@[j].0@ != key@,
        decreases n - i,
    {
        if text::str_eq(entries[i].0.as_str(), key.as_str()) {
            proof {
                lemma_kv_map_update(entries@, i as int, key, value);
            }
            let slot = &mut entries[i];
            *slot = (key, value);
            return ;
        }
        i = i + 1;
    }
    proof {
        lemma_kv_unique_push(entries@, key, value);
        lemma_kv_map_push(entries@, key, value);
    }
    entries.push((key, value));
}

/// The value bound to `key`, sought from the front of the list.
pub fn kv_lookup<'a, V: View>(entries: &'a Vec<(String, V)>, key: &str) -> (r: Option<&'a V>)
    requires
        kv_keys_unique(entries@),
    ensures
        match r {
            Some(v) => kv_map(entries@).contains_key(key@) && v@ == kv_map(entries@)[key@],
            None => !kv_map(entries@).contains_key(key@),
        },
{
    let n = entries.len();
    let mut i: usize = 0;
    while i < n
        invariant
            0 <= i <= n,
            n == entries@.len(),
            kv_keys_unique(entries@),
            forall|j: int| 0 <= j < i ==> entries@[j].0@ != key@,
        decreases n - i,
    {
        if text::str_eq(entries[i].0.as_str(), key) {
            proof {
                lemma_kv_map_index(entries@, i as int);
            }
            return Some(&entries[i].1);
        }
        i = i + 1;
    }
    proof {
        lemma_kv_map_domain(entries@, key@);
    }
    None
}

} // verus!
