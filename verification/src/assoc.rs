//! A map keyed by text, kept as a list of pairs.

use crate::text::same_text;
use vstd::prelude::*;

verus! {

/// A map from text to values.
pub struct Assoc<V> {
    pairs: Vec<(String, V)>,
}

/// Whether `key` stands in `pairs`.
spec fn has_key<V>(pairs: Seq<(String, V)>, key: Seq<char>) -> bool {
    exists|i: int| 0 <= i < pairs.len() && (#[trigger] pairs[i]).0@ == key
}

/// The map that `pairs` lists.
spec fn map_of<V>(pairs: Seq<(String, V)>) -> Map<Seq<char>, V> {
    Map::new(
        |key: Seq<char>| has_key(pairs, key),
        |key: Seq<char>|
            pairs[choose|i: int| 0 <= i < pairs.len() && (#[trigger] pairs[i]).0@ == key].1,
    )
}

/// No key stands twice.
spec fn keys_distinct<V>(pairs: Seq<(String, V)>) -> bool {
    forall|i: int, j: int|
        0 <= i < j < pairs.len() ==> (#[trigger] pairs[i]).0@ != (#[trigger] pairs[j]).0@
}

proof fn lemma_maps_at<V>(pairs: Seq<(String, V)>, i: int)
    requires
        keys_distinct(pairs),
        0 <= i < pairs.len(),
    ensures
        map_of(pairs).contains_key(pairs[i].0@),
        map_of(pairs)[pairs[i].0@] == pairs[i].1,
{
    let key = pairs[i].0@;
    assert(has_key(pairs, key));
    let j = choose|j: int| 0 <= j < pairs.len() && (#[trigger] pairs[j]).0@ == key;
    assert(i == j);
}

proof fn lemma_update<V>(pairs: Seq<(String, V)>, i: int, key: String, v: V)
    requires
        keys_distinct(pairs),
        0 <= i < pairs.len(),
        pairs[i].0@ == key@,
    ensures
        keys_distinct(pairs.update(i, (key, v))),
        map_of(pairs.update(i, (key, v))) == map_of(pairs).insert(key@, v),
{
    let after = pairs.update(i, (key, v));
    let want = map_of(pairs).insert(key@, v);
    assert forall|a: int, b: int| 0 <= a < b < after.len() implies (#[trigger] after[a]).0@ != (
    #[trigger] after[b]).0@ by {
        assert(pairs[a].0@ != pairs[b].0@);
    }
    assert forall|k: Seq<char>| map_of(after).contains_key(k) == want.contains_key(k) by {
        if has_key(after, k) {
            let a = choose|a: int| 0 <= a < after.len() && (#[trigger] after[a]).0@ == k;
            lemma_maps_at(pairs, a);
        }
        if has_key(pairs, k) {
            let a = choose|a: int| 0 <= a < pairs.len() && (#[trigger] pairs[a]).0@ == k;
            lemma_maps_at(after, a);
        }
        lemma_maps_at(after, i);
    }
    assert forall|k: Seq<char>| map_of(after).contains_key(k) implies map_of(after)[k]
        == want[k] by {
        let a = choose|a: int| 0 <= a < after.len() && (#[trigger] after[a]).0@ == k;
        lemma_maps_at(after, a);
        lemma_maps_at(pairs, a);
        if a != i {
            assert(pairs[a].0@ != pairs[i].0@);
        }
    }
    assert(map_of(after) =~= want);
}

proof fn lemma_push<V>(pairs: Seq<(String, V)>, key: String, v: V)
    requires
        keys_distinct(pairs),
        !has_key(pairs, key@),
    ensures
        keys_distinct(pairs.push((key, v))),
        map_of(pairs.push((key, v))) == map_of(pairs).insert(key@, v),
{
    let after = pairs.push((key, v));
    assert forall|a: int, b: int| 0 <= a < b < after.len() implies (#[trigger] after[a]).0@ != (
    #[trigger] after[b]).0@ by {
        assert(after[a] == pairs[a]);
    }
    let want = map_of(pairs).insert(key@, v);
    assert forall|k: Seq<char>| map_of(after).contains_key(k) == want.contains_key(k) by {
        if has_key(after, k) {
            let a = choose|a: int| 0 <= a < after.len() && (#[trigger] after[a]).0@ == k;
            if a < pairs.len() {
                assert(pairs[a].0@ == k);
            }
        }
        if has_key(pairs, k) {
            let a = choose|a: int| 0 <= a < pairs.len() && (#[trigger] pairs[a]).0@ == k;
            assert(after[a].0@ == k);
        }
        assert(after[pairs.len() as int].0@ == key@);
    }
    assert forall|k: Seq<char>| map_of(after).contains_key(k) implies map_of(after)[k]
        == want[k] by {
        let a = choose|a: int| 0 <= a < after.len() && (#[trigger] after[a]).0@ == k;
        lemma_maps_at(after, a);
        if a < pairs.len() {
            assert(after[a] == pairs[a]);
            lemma_maps_at(pairs, a);
        }
    }
    assert(map_of(after) =~= want);
}

proof fn lemma_remove<V>(pairs: Seq<(String, V)>, i: int)
    requires
        keys_distinct(pairs),
        0 <= i < pairs.len(),
    ensures
        keys_distinct(pairs.remove(i)),
        map_of(pairs.remove(i)) == map_of(pairs).remove(pairs[i].0@),
{
    let after = pairs.remove(i);
    assert forall|a: int| 0 <= a < after.len() implies #[trigger] after[a] == pairs[if a < i {
        a
    } else {
        a + 1
    }] by {}
    assert forall|a: int, b: int| 0 <= a < b < after.len() implies (#[trigger] after[a]).0@ != (
    #[trigger] after[b]).0@ by {}
    let want = map_of(pairs).remove(pairs[i].0@);
    assert forall|k: Seq<char>| map_of(after).contains_key(k) == want.contains_key(k) by {
        if has_key(after, k) {
            let a = choose|a: int| 0 <= a < after.len() && (#[trigger] after[a]).0@ == k;
            let b = if a < i {
                a
            } else {
                a + 1
            };
            assert(pairs[b].0@ == k);
            assert(pairs[b].0@ != pairs[i].0@);
        }
        if has_key(pairs, k) && k != pairs[i].0@ {
            let b = choose|b: int| 0 <= b < pairs.len() && (#[trigger] pairs[b]).0@ == k;
            let a = if b < i {
                b
            } else {
                b - 1
            };
            assert(after[a] == pairs[b]);
        }
    }
    assert forall|k: Seq<char>| map_of(after).contains_key(k) implies map_of(after)[k]
        == want[k] by {
        let a = choose|a: int| 0 <= a < after.len() && (#[trigger] after[a]).0@ == k;
        lemma_maps_at(after, a);
        lemma_maps_at(
            pairs,
            if a < i {
                a
            } else {
                a + 1
            },
        );
    }
    assert(map_of(after) =~= want);
}

impl<V> View for Assoc<V> {
    type V = Map<Seq<char>, V>;

    closed spec fn view(&self) -> Map<Seq<char>, V> {
        map_of(self.pairs@)
    }
}

impl<V> Assoc<V> {
    #[verifier::type_invariant]
    spec fn wf(self) -> bool {
        keys_distinct(self.pairs@)
    }

    /// How many keys there are.
    pub closed spec fn count(self) -> nat {
        self.pairs@.len()
    }

    /// The empty map.
    pub fn new() -> (map: Assoc<V>)
        ensures
            map@ == Map::<Seq<char>, V>::empty(),
            map.count() == 0,
    {
        let map = Assoc { pairs: Vec::new() };
        assert(map@ =~= Map::<Seq<char>, V>::empty());
        map
    }

    /// Where `key` stands; the number of pairs when it does not.
    fn place(&self, key: &str) -> (at: usize)
        ensures
            at <= self.pairs@.len(),
            at < self.pairs@.len() ==> self.pairs@[at as int].0@ == key@,
            at == self.pairs@.len() ==> !has_key(self.pairs@, key@),
    {
        let mut i: usize = 0;
        while i < self.pairs.len()
            invariant
                i <= self.pairs@.len(),
                forall|j: int| 0 <= j < i ==> (#[trigger] self.pairs@[j]).0@ != key@,
            decreases self.pairs@.len() - i,
        {
            if same_text(self.pairs[i].0.as_str(), key) {
                return i;
            }
            i += 1;
        }
        i
    }

    /// The value for `key`.
    pub fn get(&self, key: &str) -> (out: Option<&V>)
        ensures
            match out {
                Some(v) => self@.contains_key(key@) && self@[key@] == *v,
                None => !self@.contains_key(key@),
            },
    {
        proof {
            use_type_invariant(self);
        }
        let at = self.place(key);
        if at < self.pairs.len() {
            proof {
                lemma_maps_at(self.pairs@, at as int);
            }
            Some(&self.pairs[at].1)
        } else {
            None
        }
    }

    /// Set the value for `key`.
    pub fn insert(&mut self, key: String, v: V)
        ensures
            final(self)@ == old(self)@.insert(key@, v),
    {
        proof {
            use_type_invariant(&*self);
        }
        let at = self.place(key.as_str());
        let ghost before = self.pairs@;
        let mut taken: Assoc<V> = Assoc::new();
        std::mem::swap(self, &mut taken);
        let mut pairs = taken.pairs;
        if at < pairs.len() {
            proof {
                lemma_update(before, at as int, key, v);
            }
            pairs.set(at, (key, v));
        } else {
            proof {
                lemma_push(before, key, v);
            }
            pairs.push((key, v));
        }
        *self = Assoc { pairs };
    }

    /// Take `key` out of the map, with its value.
    pub fn remove(&mut self, key: &str) -> (out: Option<V>)
        ensures
            match out {
                Some(v) => old(self)@.contains_key(key@) && old(self)@[key@] == v,
                None => !old(self)@.contains_key(key@),
            },
            final(self)@ == old(self)@.remove(key@),
    {
        proof {
            use_type_invariant(&*self);
        }
        let at = self.place(key);
        let ghost before = self.pairs@;
        let mut taken: Assoc<V> = Assoc::new();
        std::mem::swap(self, &mut taken);
        let mut pairs = taken.pairs;
        if at < pairs.len() {
            proof {
                lemma_maps_at(before, at as int);
                lemma_remove(before, at as int);
            }
            let (_, v) = pairs.remove(at);
            *self = Assoc { pairs };
            Some(v)
        } else {
            assert(map_of(before) =~= map_of(before).remove(key@));
            *self = Assoc { pairs };
            None
        }
    }

    /// Take some pair out of the map; `None` when it is empty.
    pub fn pop(&mut self) -> (out: Option<(String, V)>)
        ensures
            match out {
                Some((key, v)) => {
                    &&& old(self)@.contains_key(key@)
                    &&& old(self)@[key@] == v
                    &&& final(self)@ == old(self)@.remove(key@)
                    &&& final(self).count() + 1 == old(self).count()
                },
                None => {
                    &&& old(self)@ == Map::<Seq<char>, V>::empty()
                    &&& final(self)@ == old(self)@
                    &&& final(self).count() == old(self).count()
                },
            },
    {
        proof {
            use_type_invariant(&*self);
        }
        let ghost before = self.pairs@;
        let mut taken: Assoc<V> = Assoc::new();
        std::mem::swap(self, &mut taken);
        let mut pairs = taken.pairs;
        let out = pairs.pop();
        proof {
            if before.len() > 0 {
                lemma_maps_at(before, before.len() - 1);
                lemma_remove(before, before.len() - 1);
                assert(before.remove(before.len() - 1) =~= pairs@);
            } else {
                assert(map_of(before) =~= Map::<Seq<char>, V>::empty());
            }
        }
        *self = Assoc { pairs };
        out
    }
}

} // verus!
