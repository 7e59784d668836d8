//! Association maps: a `Vec` of key and value pairs with unique keys, seen as
//! a `Map` from the keys' views to the values.

use vstd::prelude::*;

verus! {

/// A key of an association map: two keys are the same when their views are.
pub trait MapKey: View + Sized {
    fn same_key(&self, other: &Self) -> (r: bool)
        ensures
            r == (self@ == other@),
    ;
}

impl MapKey for String {
    fn same_key(&self, other: &Self) -> (r: bool) {
        *self == *other
    }
}

/// The map that a list of pairs denotes: a later pair overrides an earlier one
/// with the same key.
pub open spec fn map_of<K: View, V>(s: Seq<(K, V)>) -> Map<K::V, V>
    decreases s.len(),
{
    if s.len() == 0 {
        Map::empty()
    } else {
        map_of(s.drop_last()).insert(s.last().0@, s.last().1)
    }
}

/// No two pairs of the list have the same key.
pub open spec fn unique_keys<K: View, V>(s: Seq<(K, V)>) -> bool {
    forall|i: int, j: int|
        0 <= i < s.len() && 0 <= j < s.len() && i != j ==> #[trigger] s[i].0@ != #[trigger] s[j].0@
}

/// A key that no pair of the list holds is not in its map.
pub proof fn lemma_map_of_absent<K: View, V>(s: Seq<(K, V)>, k: K::V)
    requires
        forall|i: int| 0 <= i < s.len() ==> #[trigger] s[i].0@ != k,
    ensures
        !map_of(s).contains_key(k),
    decreases s.len(),
{
    if s.len() > 0 {
        let d = s.drop_last();
        assert forall|i: int| 0 <= i < d.len() implies #[trigger] d[i].0@ != k by {
            assert(d[i] == s[i]);
        }
        lemma_map_of_absent(d, k);
    }
}

/// The pair at index `i` gives the value of its key.
pub proof fn lemma_map_of_index<K: View, V>(s: Seq<(K, V)>, i: int)
    requires
        unique_keys(s),
        0 <= i < s.len(),
    ensures
        map_of(s).contains_key(s[i].0@),
        map_of(s)[s[i].0@] == s[i].1,
    decreases s.len(),
{
    let d = s.drop_last();
    if i < s.len() - 1 {
        assert(d[i] == s[i]);
        assert(unique_keys(d)) by {
            assert forall|a: int, b: int|
                0 <= a < d.len() && 0 <= b < d.len() && a != b implies #[trigger] d[a].0@
                != #[trigger] d[b].0@ by {
                assert(d[a] == s[a] && d[b] == s[b]);
            }
        }
        lemma_map_of_index(d, i);
        assert(s[i].0@ != s[s.len() - 1].0@);
    }
}

/// Taking out the pair at index `i` takes its key out of the map.
pub proof fn lemma_map_of_remove<K: View, V>(s: Seq<(K, V)>, i: int)
    requires
        unique_keys(s),
        0 <= i < s.len(),
    ensures
        unique_keys(s.remove(i)),
        map_of(s.remove(i)) == map_of(s).remove(s[i].0@),
    decreases s.len(),
{
    let k = s[i].0@;
    let d = s.drop_last();
    let r = s.remove(i);
    assert(unique_keys(r)) by {
        assert forall|a: int, b: int|
            0 <= a < r.len() && 0 <= b < r.len() && a != b implies #[trigger] r[a].0@
            != #[trigger] r[b].0@ by {
            let sa = if a < i { a } else { a + 1 };
            let sb = if b < i { b } else { b + 1 };
            assert(r[a] == s[sa] && r[b] == s[sb]);
        }
    }
    assert(unique_keys(d)) by {
        assert forall|a: int, b: int|
            0 <= a < d.len() && 0 <= b < d.len() && a != b implies #[trigger] d[a].0@
            != #[trigger] d[b].0@ by {
            assert(d[a] == s[a] && d[b] == s[b]);
        }
    }
    if i == s.len() - 1 {
        assert(r =~= d);
        assert forall|j: int| 0 <= j < d.len() implies #[trigger] d[j].0@ != k by {
            assert(d[j] == s[j]);
        }
        lemma_map_of_absent(d, k);
        assert(map_of(r) =~= map_of(s).remove(k));
    } else {
        lemma_map_of_remove(d, i);
        assert(r.drop_last() =~= d.remove(i));
        assert(r.last() == s.last());
        assert(s.last().0@ != k);
        assert(d[i] == s[i]);
        assert(map_of(r) =~= map_of(s).remove(k));
    }
}

/// With unique keys, the map has as many keys as the list has pairs.
pub proof fn lemma_map_of_len<K: View, V>(s: Seq<(K, V)>)
    requires
        unique_keys(s),
    ensures
        map_of(s).dom().finite(),
        map_of(s).dom().len() == s.len(),
    decreases s.len(),
{
    if s.len() > 0 {
        let d = s.drop_last();
        let k = s.last().0@;
        assert(unique_keys(d)) by {
            assert forall|a: int, b: int|
                0 <= a < d.len() && 0 <= b < d.len() && a != b implies #[trigger] d[a].0@
                != #[trigger] d[b].0@ by {
                assert(d[a] == s[a] && d[b] == s[b]);
            }
        }
        assert forall|j: int| 0 <= j < d.len() implies #[trigger] d[j].0@ != k by {
            assert(d[j] == s[j]);
        }
        lemma_map_of_len(d);
        lemma_map_of_absent(d, k);
        assert(map_of(s).dom() =~= map_of(d).dom().insert(k));
    }
}

/// A map held as a list of pairs with unique keys, in order of first insertion.
pub struct AssocMap<K, V> {
    pub entries: Vec<(K, V)>,
}

impl<K: View, V> View for AssocMap<K, V> {
    type V = Map<K::V, V>;

    open spec fn view(&self) -> Map<K::V, V> {
        map_of(self.entries@)
    }
}

impl<K: MapKey, V> AssocMap<K, V> {
    /// The list holds each key once.
    pub open spec fn wf(&self) -> bool {
        unique_keys(self.entries@)
    }

    /// An empty map.
    pub fn new() -> (r: Self)
        ensures
            r.wf(),
            r@ == Map::<K::V, V>::empty(),
    {
        AssocMap { entries: Vec::new() }
    }

    /// The number of keys.
    pub fn len(&self) -> (r: usize)
        requires
            self.wf(),
        ensures
            r == self@.dom().len(),
    {
        proof {
            lemma_map_of_len(self.entries@);
        }
        self.entries.len()
    }

    /// The index of the pair with key `k`, if there is one.
    pub fn find(&self, k: &K) -> (r: Option<usize>)
        requires
            self.wf(),
        ensures
            r.is_none() ==> !self@.contains_key(k@),
            r.is_none() ==> forall|i: int|
                0 <= i < self.entries@.len() ==> #[trigger] self.entries@[i].0@ != k@,
            r.is_some() ==> r.unwrap() < self.entries@.len() && self.entries@[r.unwrap() as int].0@
                == k@,
            r.is_some() ==> self@.contains_key(k@),
    {
        let mut i: usize = 0;
        while i < self.entries.len()
            invariant
                self.wf(),
                i <= self.entries@.len(),
                forall|j: int| 0 <= j < i ==> #[trigger] self.entries@[j].0@ != k@,
            decreases self.entries@.len() - i,
        {
            if self.entries[i].0.same_key(k) {
                proof {
                    lemma_map_of_index(self.entries@, i as int);
                }
                return Some(i);
            }
            i = i + 1;
        }
        proof {
            lemma_map_of_absent(self.entries@, k@);
        }
        None
    }

    /// The value of key `k`, if it is in the map.
    pub fn get(&self, k: &K) -> (r: Option<&V>)
        requires
            self.wf(),
        ensures
            r.is_some() == self@.contains_key(k@),
            r.is_some() ==> *r.unwrap() == self@[k@],
    {
        match self.find(k) {
            Some(i) => {
                proof {
                    lemma_map_of_index(self.entries@, i as int);
                }
                Some(&self.entries[i].1)
            },
            None => None,
        }
    }

    /// Takes key `k` and its value out of the map.
    pub fn take(&mut self, k: &K) -> (r: Option<V>)
        requires
            old(self).wf(),
        ensures
            final(self).wf(),
            final(self)@ == old(self)@.remove(k@),
            r.is_some() == old(self)@.contains_key(k@),
            r.is_some() ==> r.unwrap() == old(self)@[k@],
    {
        match self.find(k) {
            Some(i) => {
                proof {
                    lemma_map_of_index(self.entries@, i as int);
                    lemma_map_of_remove(self.entries@, i as int);
                }
                let (_, v) = self.entries.remove(i);
                Some(v)
            },
            None => {
                assert(self@ =~= self@.remove(k@));
                None
            },
        }
    }

    /// Sets the value of key `k`, replacing the one it had.
    pub fn insert(&mut self, k: K, v: V)
        requires
            old(self).wf(),
        ensures
            final(self).wf(),
            final(self)@ == old(self)@.insert(k@, v),
    {
        let _ = self.take(&k);
        let ghost before = self.entries@;
        proof {
            assert forall|j: int| 0 <= j < before.len() implies #[trigger] before[j].0@ != k@ by {
                if before[j].0@ == k@ {
                    lemma_map_of_index(before, j);
                }
            }
        }
        self.entries.push((k, v));
        proof {
            let s = self.entries@;
            assert(s.drop_last() =~= before);
            assert forall|a: int, b: int|
                0 <= a < s.len() && 0 <= b < s.len() && a != b implies #[trigger] s[a].0@
                != #[trigger] s[b].0@ by {
                if a < before.len() {
                    assert(s[a] == before[a]);
                }
                if b < before.len() {
                    assert(s[b] == before[b]);
                }
            }
            assert(self@ =~= old(self)@.insert(k@, v));
        }
    }

    /// Adds every pair of `other` in its order: a later pair overrides an
    /// earlier value of the same key.
    pub fn extend(&mut self, other: Vec<(K, V)>)
        requires
            old(self).wf(),
        ensures
            final(self).wf(),
            final(self)@ == old(self)@.union_prefer_right(map_of(other@)),
    {
        let ghost orig = other@;
        let n: usize = other.len();
        let mut rest = other;
        let mut j: usize = 0;
        while rest.len() > 0
            invariant
                self.wf(),
                j <= orig.len(),
                orig.len() == n,
                j + rest@.len() == orig.len(),
                rest@ == orig.subrange(j as int, orig.len() as int),
                self@ == old(self)@.union_prefer_right(map_of(orig.subrange(0, j as int))),
            decreases rest@.len(),
        {
            let (k, v) = rest.remove(0);
            proof {
                assert(orig.subrange(0, j as int + 1).drop_last() =~= orig.subrange(0, j as int));
                assert(orig[j as int] == (k, v));
            }
            self.insert(k, v);
            j = j + 1;
            proof {
                assert(rest@ =~= orig.subrange(j as int, orig.len() as int));
                assert(self@ =~= old(self)@.union_prefer_right(map_of(orig.subrange(0, j as int))));
            }
        }
        proof {
            assert(orig.subrange(0, j as int) =~= orig);
        }
    }
}

} // verus!
