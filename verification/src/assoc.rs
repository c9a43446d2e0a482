//! Small sets and maps that keep their keys in the order of insertion.

use vstd::prelude::*;

verus! {

/// What can be compared by its contents.
pub trait Key: View + Sized {
    fn same(&self, other: &Self) -> (same: bool)
        ensures
            same == (self@ == other@),
    ;
}

/// The contents of a list.
pub open spec fn views_of<K: View>(items: Seq<K>) -> Seq<K::V> {
    Seq::new(items.len(), |i: int| items[i]@)
}

/// The contents of a list of pairs.
pub open spec fn pairs_of<K: View, T: View>(items: Seq<(K, T)>) -> Seq<(K::V, T::V)> {
    Seq::new(items.len(), |i: int| (items[i].0@, items[i].1@))
}

/// A set after one more key was put in.
pub open spec fn set_with<A>(keys: Seq<A>, key: A) -> Seq<A> {
    if keys.contains(key) {
        keys
    } else {
        keys.push(key)
    }
}

/// A set after a key was taken out.
pub open spec fn set_without<A>(keys: Seq<A>, key: A) -> Seq<A> {
    keys.filter(|other: A| other != key)
}

/// Whether a map has a value for a key.
pub open spec fn map_has<A, B>(pairs: Seq<(A, B)>, key: A) -> bool {
    exists|i: int| 0 <= i < pairs.len() && (#[trigger] pairs[i]).0 == key
}

/// Whether the value of a key is at an index.
pub open spec fn map_at<A, B>(pairs: Seq<(A, B)>, key: A, index: int) -> bool {
    &&& 0 <= index < pairs.len()
    &&& pairs[index].0 == key
    &&& forall|i: int| 0 <= i < index ==> (#[trigger] pairs[i]).0 != key
}

/// The index of the value of a key.
pub open spec fn map_index<A, B>(pairs: Seq<(A, B)>, key: A) -> int {
    choose|index: int| map_at(pairs, key, index)
}

/// The value of a key.
pub open spec fn map_get<A, B>(pairs: Seq<(A, B)>, key: A) -> Option<B> {
    if map_has(pairs, key) {
        Some(pairs[map_index(pairs, key)].1)
    } else {
        None
    }
}

/// A map after the value of a key was set.
pub open spec fn map_with<A, B>(pairs: Seq<(A, B)>, key: A, value: B) -> Seq<(A, B)> {
    if map_has(pairs, key) {
        pairs.update(map_index(pairs, key), (key, value))
    } else {
        pairs.push((key, value))
    }
}

/// A map after a key was taken out.
pub open spec fn map_without<A, B>(pairs: Seq<(A, B)>, key: A) -> Seq<(A, B)> {
    pairs.filter(|pair: (A, B)| pair.0 != key)
}

/// A set of keys.
#[derive(Debug)]
pub struct KeySet<K> {
    pub keys: Vec<K>,
}

impl<K: View> View for KeySet<K> {
    type V = Seq<K::V>;

    open spec fn view(&self) -> Seq<K::V> {
        views_of(self.keys@)
    }
}

impl<K: Key> KeySet<K> {
    pub fn new() -> (set: KeySet<K>)
        ensures
            set@ == Seq::<K::V>::empty(),
    {
        let set = KeySet { keys: Vec::new() };
        assert(set@ =~= Seq::empty());
        set
    }

    pub fn len(&self) -> (len: usize)
        ensures
            len == self@.len(),
    {
        self.keys.len()
    }

    pub fn is_empty(&self) -> (empty: bool)
        ensures
            empty == (self@.len() == 0),
    {
        self.keys.len() == 0
    }

    pub fn contains(&self, key: &K) -> (found: bool)
        ensures
            found == self@.contains(key@),
    {
        let mut index: usize = 0;
        while index < self.keys.len()
            invariant
                index <= self@.len(),
                forall|i: int| 0 <= i < index ==> #[trigger] self@[i] != key@,
            decreases self@.len() - index,
        {
            if self.keys[index].same(key) {
                assert(self@[index as int] == key@);
                return true;
            }
            assert(self@[index as int] != key@);
            index += 1;
        }
        false
    }

    /// Puts a key in and reports whether it was not there before.
    pub fn insert(&mut self, key: K) -> (inserted: bool)
        ensures
            inserted == !old(self)@.contains(key@),
            final(self)@ == set_with(old(self)@, key@),
    {
        if self.contains(&key) {
            return false;
        }
        self.keys.push(key);
        assert(self@ =~= old(self)@.push(key@));
        true
    }

    /// Takes a key out.
    pub fn remove(&mut self, key: &K)
        ensures
            final(self)@ == set_without(old(self)@, key@),
    {
        let ghost all = self@;
        let ghost keep = |other: K::V| other != key@;
        let ghost mut done: int = 0;
        let mut index: usize = 0;
        proof {
            reveal(Seq::filter);
            assert(all.take(0).filter(keep) + all.skip(0) =~= all);
        }
        while index < self.keys.len()
            invariant
                keep == |other: K::V| other != key@,
                0 <= done <= all.len(),
                index == all.take(done).filter(keep).len(),
                self@ == all.take(done).filter(keep) + all.skip(done),
            decreases all.len() - done,
        {
            let ghost kept = all.take(done).filter(keep);
            let ghost before = self@;
            proof {
                assert(before.len() == self.keys@.len());
                assert(before[index as int] == all.skip(done)[0]);
                assert(all.take(done + 1).drop_last() =~= all.take(done));
                assert(all.take(done + 1).last() == all[done]);
                reveal(Seq::filter);
            }
            if self.keys[index].same(key) {
                self.keys.remove(index);
                assert(self@ =~= before.remove(index as int));
                assert(self@ =~= kept + all.skip(done + 1));
            } else {
                index += 1;
                assert(before =~= kept.push(all[done]) + all.skip(done + 1));
            }
            proof {
                done = done + 1;
            }
        }
        assert(self@.len() == self.keys@.len());
        assert(all.take(done) =~= all);
        assert(self@ =~= all.filter(keep));
    }

    /// Takes every key out.
    pub fn clear(&mut self)
        ensures
            final(self)@ == Seq::<K::V>::empty(),
    {
        self.keys.clear();
        assert(self@ =~= Seq::empty());
    }
}

/// A map from keys to values.
#[derive(Debug)]
pub struct KeyMap<K, T> {
    pub pairs: Vec<(K, T)>,
}

impl<K: View, T: View> View for KeyMap<K, T> {
    type V = Seq<(K::V, T::V)>;

    open spec fn view(&self) -> Seq<(K::V, T::V)> {
        pairs_of(self.pairs@)
    }
}

impl<K: Key, T: View> KeyMap<K, T> {
    pub fn new() -> (map: KeyMap<K, T>)
        ensures
            map@ == Seq::<(K::V, T::V)>::empty(),
    {
        let map = KeyMap { pairs: Vec::new() };
        assert(map@ =~= Seq::empty());
        map
    }

    pub fn is_empty(&self) -> (empty: bool)
        ensures
            empty == (self@.len() == 0),
    {
        self.pairs.len() == 0
    }

    fn find(&self, key: &K) -> (found: Option<usize>)
        ensures
            match found {
                Some(index) => map_has(self@, key@) && index == map_index(self@, key@) && index
                    < self@.len() && self@[index as int].0 == key@,
                None => !map_has(self@, key@),
            },
    {
        let mut index: usize = 0;
        while index < self.pairs.len()
            invariant
                index <= self@.len(),
                forall|i: int| 0 <= i < index ==> (#[trigger] self@[i]).0 != key@,
            decreases self@.len() - index,
        {
            assert(self@[index as int].0 == self.pairs@[index as int].0@);
            if self.pairs[index].0.same(key) {
                proof {
                    assert(map_at(self@, key@, index as int));
                    let found = map_index(self@, key@);
                    if found < index {
                        assert(self@[found].0 != key@);
                    }
                    if index < found {
                        assert(self@[index as int].0 != key@);
                    }
                }
                return Some(index);
            }
            index += 1;
        }
        None
    }

    pub fn contains_key(&self, key: &K) -> (found: bool)
        ensures
            found == map_has(self@, key@),
    {
        self.find(key).is_some()
    }

    /// The value of a key.
    pub fn get(&self, key: &K) -> (value: Option<&T>)
        ensures
            match value {
                Some(value) => map_get(self@, key@) == Some(value@),
                None => map_get(self@, key@) is None,
            },
    {
        match self.find(key) {
            Some(index) => Some(&self.pairs[index].1),
            None => None,
        }
    }

    /// Sets the value of a key.
    pub fn insert(&mut self, key: K, value: T)
        ensures
            final(self)@ == map_with(old(self)@, key@, value@),
    {
        match self.find(&key) {
            Some(index) => {
                self.pairs[index] = (key, value);
                assert(self@ =~= old(self)@.update(index as int, (key@, value@)));
            },
            None => {
                self.pairs.push((key, value));
                assert(self@ =~= old(self)@.push((key@, value@)));
            },
        }
    }

    /// Takes a key out.
    pub fn remove(&mut self, key: &K)
        ensures
            final(self)@ == map_without(old(self)@, key@),
    {
        let ghost all = self@;
        let ghost keep = |pair: (K::V, T::V)| pair.0 != key@;
        let ghost mut done: int = 0;
        let mut index: usize = 0;
        proof {
            reveal(Seq::filter);
            assert(all.take(0).filter(keep) + all.skip(0) =~= all);
        }
        while index < self.pairs.len()
            invariant
                keep == |pair: (K::V, T::V)| pair.0 != key@,
                0 <= done <= all.len(),
                index == all.take(done).filter(keep).len(),
                self@ == all.take(done).filter(keep) + all.skip(done),
            decreases all.len() - done,
        {
            let ghost kept = all.take(done).filter(keep);
            let ghost before = self@;
            proof {
                assert(before.len() == self.pairs@.len());
                assert(before[index as int] == all.skip(done)[0]);
                assert(before[index as int].0 == self.pairs@[index as int].0@);
                assert(all.take(done + 1).drop_last() =~= all.take(done));
                assert(all.take(done + 1).last() == all[done]);
                reveal(Seq::filter);
            }
            if self.pairs[index].0.same(key) {
                self.pairs.remove(index);
                assert(self@ =~= before.remove(index as int));
                assert(self@ =~= kept + all.skip(done + 1));
            } else {
                index += 1;
                assert(before =~= kept.push(all[done]) + all.skip(done + 1));
            }
            proof {
                done = done + 1;
            }
        }
        assert(self@.len() == self.pairs@.len());
        assert(all.take(done) =~= all);
        assert(self@ =~= all.filter(keep));
    }

    /// Takes every key out.
    pub fn clear(&mut self)
        ensures
            final(self)@ == Seq::<(K::V, T::V)>::empty(),
    {
        self.pairs.clear();
        assert(self@ =~= Seq::empty());
    }
}

/// A filtered list holds the accepted items of the list, each as often.
pub proof fn lemma_filter<A>(items: Seq<A>, keep: spec_fn(A) -> bool)
    ensures
        forall|item: A| #[trigger]
            items.filter(keep).contains(item) <==> items.contains(item) && keep(item),
        items.no_duplicates() ==> items.filter(keep).no_duplicates(),
        items.filter(keep).len() <= items.len(),
    decreases items.len(),
{
    reveal(Seq::filter);
    if items.len() > 0 {
        let front = items.drop_last();
        let kept = front.filter(keep);
        let all = items.filter(keep);
        lemma_filter(front, keep);
        assert forall|item: A| #[trigger] all.contains(item) <==> items.contains(item) && keep(
            item,
        ) by {
            if all.contains(item) {
                let i = all.index_of(item);
                if i < kept.len() {
                    assert(kept[i] == item);
                    assert(kept.contains(item));
                    let j = front.index_of(item);
                    assert(items[j] == item);
                } else {
                    assert(items[items.len() - 1] == item);
                }
            }
            if items.contains(item) && keep(item) {
                let i = items.index_of(item);
                if i < front.len() {
                    assert(front[i] == item);
                    assert(kept.contains(item));
                    let j = kept.index_of(item);
                    assert(all[j] == item);
                } else {
                    assert(all[kept.len() as int] == item);
                }
            }
        }
        if items.no_duplicates() {
            assert(front.no_duplicates());
            assert forall|i: int, j: int|
                0 <= i < all.len() && 0 <= j < all.len() && i != j implies all[i] != all[j] by {
                let last = items.last();
                assert forall|k: int| 0 <= k < kept.len() implies kept[k] != last by {
                    assert(kept.contains(kept[k]));
                    let m = front.index_of(kept[k]);
                    assert(items[m] == kept[k]);
                }
            }
        }
    }
}

/// A key that was put into a set is in it, and one that was taken out is not;
/// no other key is affected.
pub proof fn law_set_membership<A>(keys: Seq<A>, key: A, other: A)
    ensures
        set_with(keys, key).contains(other) == (other == key || keys.contains(other)),
        set_without(keys, key).contains(other) == (other != key && keys.contains(other)),
{
    lemma_filter(keys, |item: A| item != key);
    let with = set_with(keys, key);
    if keys.contains(other) {
        let i = keys.index_of(other);
        assert(with[i] == other);
    }
    if !keys.contains(key) {
        assert(with[keys.len() as int] == key);
    }
    if with.contains(other) {
        let i = with.index_of(other);
        if i < keys.len() {
            assert(keys[i] == other);
        }
    }
}

/// Setting the value of a key changes the value of that key alone.
pub proof fn law_map_lookup<A, B>(pairs: Seq<(A, B)>, key: A, value: B, other: A)
    ensures
        map_get(map_with(pairs, key, value), other) == if other == key {
            Some(value)
        } else {
            map_get(pairs, other)
        },
{
    let with = map_with(pairs, key, value);
    if map_has(pairs, key) {
        lemma_map_index(pairs, key);
        let at = map_index(pairs, key);
        assert(map_at(with, key, at)) by {
            assert forall|i: int| 0 <= i < at implies (#[trigger] with[i]).0 != key by {
                assert(with[i] == pairs[i]);
            }
        }
    } else {
        assert(map_at(with, key, pairs.len() as int)) by {
            assert forall|i: int| 0 <= i < pairs.len() implies (#[trigger] with[i]).0 != key by {
                assert(with[i] == pairs[i]);
            }
        }
    }
    lemma_map_index(with, key);
    if other != key {
        if map_has(pairs, other) {
            lemma_map_index(pairs, other);
            let at = map_index(pairs, other);
            assert(with[at] == pairs[at]);
            assert(map_at(with, other, at)) by {
                assert forall|i: int| 0 <= i < at implies (#[trigger] with[i]).0 != other by {
                    assert(pairs[i].0 != other);
                }
            }
            lemma_map_index(with, other);
        } else if map_has(with, other) {
            let i = choose|i: int| 0 <= i < with.len() && (#[trigger] with[i]).0 == other;
            assert(pairs[i].0 == other);
        }
    }
}

/// A key of a map has exactly one first index.
pub proof fn lemma_map_index<A, B>(pairs: Seq<(A, B)>, key: A)
    requires
        map_has(pairs, key),
    ensures
        map_at(pairs, key, map_index(pairs, key)),
        forall|index: int| #[trigger]
            map_at(pairs, key, index) ==> index == map_index(pairs, key),
{
    let some = choose|i: int| 0 <= i < pairs.len() && (#[trigger] pairs[i]).0 == key;
    lemma_first_index(pairs, key, some);
    let found = map_index(pairs, key);
    assert forall|index: int| #[trigger] map_at(pairs, key, index) implies index == found by {
        if found < index {
            assert(pairs[found].0 != key);
        }
        if index < found {
            assert(pairs[index].0 != key);
        }
    }
}

proof fn lemma_first_index<A, B>(pairs: Seq<(A, B)>, key: A, some: int)
    requires
        0 <= some < pairs.len(),
        pairs[some].0 == key,
    ensures
        exists|index: int| map_at(pairs, key, index),
    decreases some,
{
    if exists|i: int| 0 <= i < some && (#[trigger] pairs[i]).0 == key {
        let earlier = choose|i: int| 0 <= i < some && (#[trigger] pairs[i]).0 == key;
        lemma_first_index(pairs, key, earlier);
    } else {
        assert(map_at(pairs, key, some));
    }
}

/// Removing a key from a map removes that key alone.
pub proof fn law_map_removal<A, B>(pairs: Seq<(A, B)>, key: A, other: A)
    ensures
        map_has(map_without(pairs, key), other) <==> other != key && map_has(pairs, other),
    decreases pairs.len(),
{
    reveal(Seq::filter);
    let without = map_without(pairs, key);
    if pairs.len() > 0 {
        let front = pairs.drop_last();
        let kept = map_without(front, key);
        law_map_removal(front, key, other);
        assert(without == if pairs.last().0 != key {
            kept.push(pairs.last())
        } else {
            kept
        });
        if map_has(front, other) {
            let i = choose|i: int| 0 <= i < front.len() && (#[trigger] front[i]).0 == other;
            assert(pairs[i].0 == other);
        }
        if map_has(kept, other) {
            let i = choose|i: int| 0 <= i < kept.len() && (#[trigger] kept[i]).0 == other;
            assert(without[i].0 == other);
        }
        if pairs.last().0 == other && other != key {
            assert(without[without.len() - 1].0 == other);
        }
        if map_has(without, other) {
            let i = choose|i: int| 0 <= i < without.len() && (#[trigger] without[i]).0 == other;
            if i < kept.len() {
                assert(kept[i].0 == other);
            }
        }
        if map_has(pairs, other) {
            let i = choose|i: int| 0 <= i < pairs.len() && (#[trigger] pairs[i]).0 == other;
            if i < front.len() {
                assert(front[i].0 == other);
            }
        }
    }
}

} // verus!
