//! Association vectors with byte-string keys, abstracted as maps.
//!
//! The cache tiers are held as vectors of key-value pairs with distinct
//! keys; their contracts speak of the map each vector stands for.

use vstd::prelude::*;
use crate::bytes_util::bytes_eq;

verus! {

/// The map an association vector stands for; a later entry would win, but
/// the vectors kept here never repeat a key.
pub open spec fn amap<V>(s: Seq<(Vec<u8>, V)>) -> Map<Seq<u8>, V>
    decreases s.len(),
{
    if s.len() == 0 {
        Map::empty()
    } else {
        amap(s.drop_last()).insert(s.last().0@, s.last().1)
    }
}

/// Whether no two entries share a key.
pub open spec fn distinct_keys<V>(s: Seq<(Vec<u8>, V)>) -> bool {
    forall|i: int, j: int|
        0 <= i < j < s.len() ==> (#[trigger] s[i]).0@ != (#[trigger] s[j]).0@
}

/// A key is in the map exactly when an entry holds it.
pub proof fn lemma_amap_contains<V>(s: Seq<(Vec<u8>, V)>, k: Seq<u8>)
    ensures
        amap(s).contains_key(k) <==> exists|i: int| 0 <= i < s.len() && (#[trigger] s[i]).0@ == k,
    decreases s.len(),
{
    if s.len() > 0 {
        lemma_amap_contains(s.drop_last(), k);
        if s.last().0@ != k {
            if amap(s).contains_key(k) {
                let d = s.drop_last();
                let i = choose|i: int| 0 <= i < d.len() && (#[trigger] d[i]).0@ == k;
                assert((s[i]).0@ == k);
            }
            if exists|i: int| 0 <= i < s.len() && (#[trigger] s[i]).0@ == k {
                let i = choose|i: int| 0 <= i < s.len() && (#[trigger] s[i]).0@ == k;
                assert((s.drop_last()[i]).0@ == k);
            }
        } else {
            assert((s[s.len() - 1]).0@ == k);
        }
    }
}

/// With distinct keys, the entry holding a key gives its mapped value.
pub proof fn lemma_amap_get<V>(s: Seq<(Vec<u8>, V)>, i: int)
    requires
        distinct_keys(s),
        0 <= i < s.len(),
    ensures
        amap(s).contains_key(s[i].0@),
        amap(s)[s[i].0@] == s[i].1,
    decreases s.len(),
{
    if i == s.len() - 1 {
        lemma_amap_contains(s, s[i].0@);
    } else {
        lemma_amap_get(s.drop_last(), i);
        assert(s.drop_last()[i] == s[i]);
    }
}

/// With distinct keys, each entry count is the map's size.
pub proof fn lemma_amap_len<V>(s: Seq<(Vec<u8>, V)>)
    requires
        distinct_keys(s),
    ensures
        amap(s).dom().finite(),
        amap(s).len() == s.len(),
    decreases s.len(),
{
    if s.len() == 0 {
        assert(amap(s).dom() =~= Set::<Seq<u8>>::empty());
    } else {
        lemma_amap_len(s.drop_last());
        lemma_amap_contains(s.drop_last(), s.last().0@);
        assert(forall|i: int|
            0 <= i < s.drop_last().len() ==> (#[trigger] s.drop_last()[i]).0@ == s[i].0@);
        assert(!amap(s.drop_last()).contains_key(s.last().0@));
    }
}

/// Appending a fresh entry inserts its pair into the map.
pub proof fn lemma_amap_push<V>(s: Seq<(Vec<u8>, V)>, k: Vec<u8>, v: V)
    ensures
        amap(s.push((k, v))) == amap(s).insert(k@, v),
{
    assert(s.push((k, v)).drop_last() =~= s);
    assert(s.push((k, v)).last() == (k, v));
}

/// Removing the entry holding a key removes the key from the map, when keys
/// are distinct.
pub proof fn lemma_amap_remove<V>(s: Seq<(Vec<u8>, V)>, i: int)
    requires
        distinct_keys(s),
        0 <= i < s.len(),
    ensures
        amap(s.remove(i)) =~= amap(s).remove(s[i].0@),
    decreases s.len(),
{
    let k = s[i].0@;
    if i == s.len() - 1 {
        assert(s.remove(i) =~= s.drop_last());
        lemma_amap_contains(s.drop_last(), k);
        assert(forall|j: int|
            0 <= j < s.drop_last().len() ==> (#[trigger] s.drop_last()[j]).0@ == s[j].0@);
        assert(!amap(s.drop_last()).contains_key(k));
        assert(amap(s).remove(k) =~= amap(s.drop_last()).insert(k, s.last().1).remove(k));
        assert(amap(s.drop_last()).insert(k, s.last().1).remove(k) =~= amap(s.drop_last()));
    } else {
        lemma_amap_remove(s.drop_last(), i);
        assert(s.remove(i).drop_last() =~= s.drop_last().remove(i));
        assert(s.remove(i).last() == s.last());
        assert(s.drop_last()[i] == s[i]);
        assert(amap(s.remove(i)) == amap(s.drop_last().remove(i)).insert(s.last().0@, s.last().1));
        assert(amap(s.remove(i)) =~= amap(s.drop_last()).remove(k).insert(s.last().0@, s.last().1));
        assert(s.last().0@ != k);
        assert(amap(s.drop_last()).remove(k).insert(s.last().0@, s.last().1) =~= amap(
            s.drop_last(),
        ).insert(s.last().0@, s.last().1).remove(k));
    }
}

/// Finds the entry holding `key`.
pub fn assoc_find<V>(s: &Vec<(Vec<u8>, V)>, key: &Vec<u8>) -> (r: Option<usize>)
    ensures
        (r matches Some(i) ==> i < s@.len() && (s@[i as int]).0@ == key@),
        (r is None ==> forall|i: int| 0 <= i < s@.len() ==> (#[trigger] s@[i]).0@ != key@),
{
    let n = s.len();
    let mut i: usize = 0;
    while i < n
        invariant
            n == s@.len(),
            0 <= i <= n,
            forall|j: int| 0 <= j < i ==> (#[trigger] s@[j]).0@ != key@,
        decreases n - i,
    {
        if bytes_eq(&s[i].0, key) {
            return Some(i);
        }
        i += 1;
    }
    None
}

} // verus!
