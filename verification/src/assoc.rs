//! Association lists keyed by names: the later of two entries with one name
//! hides the earlier.
use vstd::prelude::*;

verus! {

/// The map that an association list stands for: a later entry hides an earlier one.
pub open spec fn assoc_map<V: View>(s: Seq<(String, V)>) -> Map<Seq<char>, V::V>
    decreases s.len(),
{
    if s.len() == 0 {
        Map::empty()
    } else {
        assoc_map(s.drop_last()).insert(s.last().0@, s.last().1@)
    }
}

pub proof fn lemma_assoc_push<V: View>(s: Seq<(String, V)>, x: (String, V))
    ensures
        assoc_map(s.push(x)) == assoc_map(s).insert(x.0@, x.1@),
{
    assert(s.push(x).drop_last() =~= s);
}

pub proof fn lemma_assoc_absent<V: View>(s: Seq<(String, V)>, k: Seq<char>)
    requires
        forall|j: int| 0 <= j < s.len() ==> (#[trigger] s[j]).0@ != k,
    ensures
        !assoc_map(s).contains_key(k),
    decreases s.len(),
{
    if s.len() > 0 {
        assert forall|j: int| 0 <= j < s.drop_last().len() implies (#[trigger] s.drop_last()[j]).0@ != k by {
            assert(s.drop_last()[j] == s[j]);
        }
        lemma_assoc_absent::<V>(s.drop_last(), k);
        assert(s.last() == s[s.len() - 1]);
    }
}

pub proof fn lemma_assoc_found<V: View>(s: Seq<(String, V)>, j: int, k: Seq<char>)
    requires
        0 <= j < s.len(),
        s[j].0@ == k,
        forall|i: int| j < i < s.len() ==> (#[trigger] s[i]).0@ != k,
    ensures
        assoc_map(s).contains_key(k),
        assoc_map(s)[k] == s[j].1@,
    decreases s.len(),
{
    if j < s.len() - 1 {
        assert forall|i: int| j < i < s.drop_last().len() implies (#[trigger] s.drop_last()[i]).0@ != k by {
            assert(s.drop_last()[i] == s[i]);
        }
        assert(s.drop_last()[j] == s[j]);
        lemma_assoc_found::<V>(s.drop_last(), j, k);
        assert(s.last() == s[s.len() - 1]);
    }
}

pub proof fn lemma_assoc_update<V: View>(s: Seq<(String, V)>, j: int, x: (String, V))
    requires
        0 <= j < s.len(),
        s[j].0@ == x.0@,
        forall|i: int| j < i < s.len() ==> (#[trigger] s[i]).0@ != x.0@,
    ensures
        assoc_map(s.update(j, x)) == assoc_map(s).insert(x.0@, x.1@),
    decreases s.len(),
{
    let t = s.update(j, x);
    if j == s.len() - 1 {
        assert(t.drop_last() =~= s.drop_last());
        assert(assoc_map(t) =~= assoc_map(s).insert(x.0@, x.1@));
    } else {
        assert(t.drop_last() =~= s.drop_last().update(j, x));
        assert forall|i: int| j < i < s.drop_last().len() implies (#[trigger] s.drop_last()[i]).0@
            != x.0@ by {
            assert(s.drop_last()[i] == s[i]);
        }
        lemma_assoc_update::<V>(s.drop_last(), j, x);
        assert(t.last() == s.last());
        assert(s.last() == s[s.len() - 1]);
        assert(assoc_map(t) =~= assoc_map(s).insert(x.0@, x.1@));
    }
}

/// The index of the last entry with the given name.
pub fn find_last<V: View>(v: &Vec<(String, V)>, key: &String) -> (r: Option<usize>)
    ensures
        match r {
            Some(j) => j < v.len() && v@[j as int].0@ == key@ && forall|i: int|
                j < i < v.len() ==> (#[trigger] v@[i]).0@ != key@,
            None => forall|i: int| 0 <= i < v.len() ==> (#[trigger] v@[i]).0@ != key@,
        },
{
    let mut i = v.len();
    while i > 0
        invariant
            i <= v.len(),
            forall|k: int| i <= k < v.len() ==> (#[trigger] v@[k]).0@ != key@,
        decreases i,
    {
        i = i - 1;
        if v[i].0 == *key {
            return Some(i);
        }
    }
    None
}

/// Binds `key` to `val` in an association list.
pub fn assoc_insert<V: View>(v: &mut Vec<(String, V)>, key: String, val: V)
    ensures
        assoc_map(final(v)@) == assoc_map(old(v)@).insert(key@, val@),
{
    match find_last(v, &key) {
        Some(j) => {
            proof {
                lemma_assoc_update(v@, j as int, (key, val));
            }
            v.set(j, (key, val));
        },
        None => {
            proof {
                lemma_assoc_push(v@, (key, val));
            }
            v.push((key, val));
        },
    }
}

} // verus!
