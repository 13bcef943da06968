//! A map with string keys.

use crate::text::str_eq;
use vstd::prelude::*;

verus! {

/// The map that a list of pairs describes; a later pair replaces an earlier one
/// of the same key.
pub open spec fn map_of<W>(pairs: Seq<(Seq<char>, W)>) -> Map<Seq<char>, W>
    decreases pairs.len(),
{
    if pairs.len() == 0 {
        Map::empty()
    } else {
        map_of(pairs.drop_last()).insert(pairs.last().0, pairs.last().1)
    }
}

/// No key occurs twice.
pub open spec fn keys_distinct<W>(pairs: Seq<(Seq<char>, W)>) -> bool {
    forall|i: int, j: int|
        0 <= i < j < pairs.len() ==> (#[trigger] pairs[i]).0 != (#[trigger] pairs[j]).0
}

/// A key is in the map exactly if a pair holds it.
pub proof fn lemma_map_of_dom<W>(pairs: Seq<(Seq<char>, W)>, key: Seq<char>)
    ensures
        map_of(pairs).dom().contains(key) <==> exists|i: int|
            0 <= i < pairs.len() && (#[trigger] pairs[i]).0 == key,
    decreases pairs.len(),
{
    if pairs.len() > 0 {
        let front = pairs.drop_last();
        lemma_map_of_dom(front, key);
        if map_of(front).dom().contains(key) {
            let i = choose|i: int| 0 <= i < front.len() && (#[trigger] front[i]).0 == key;
            assert(pairs[i].0 == key);
        }
        if exists|i: int| 0 <= i < pairs.len() && (#[trigger] pairs[i]).0 == key {
            let i = choose|i: int| 0 <= i < pairs.len() && (#[trigger] pairs[i]).0 == key;
            if i < front.len() {
                assert(front[i].0 == key);
            }
        }
    }
}

/// Where no key occurs twice, the map holds every pair.
pub proof fn lemma_map_of_index<W>(pairs: Seq<(Seq<char>, W)>, i: int)
    requires
        keys_distinct(pairs),
        0 <= i < pairs.len(),
    ensures
        map_of(pairs).dom().contains(pairs[i].0),
        map_of(pairs)[pairs[i].0] == pairs[i].1,
    decreases pairs.len(),
{
    let front = pairs.drop_last();
    if i < front.len() {
        assert(keys_distinct(front)) by {
            assert forall|a: int, b: int| 0 <= a < b < front.len() implies (#[trigger] front[a]).0
                != (#[trigger] front[b]).0 by {
                assert(pairs[a].0 != pairs[b].0);
            }
        }
        lemma_map_of_index(front, i);
        assert(front[i] == pairs[i]);
        assert(pairs[i].0 != pairs[pairs.len() - 1].0);
    }
}

/// The map has as many keys as there are pairs, where no key occurs twice.
pub proof fn lemma_map_of_len<W>(pairs: Seq<(Seq<char>, W)>)
    requires
        keys_distinct(pairs),
    ensures
        map_of(pairs).dom().finite(),
        map_of(pairs).len() == pairs.len(),
    decreases pairs.len(),
{
    if pairs.len() > 0 {
        let front = pairs.drop_last();
        assert forall|a: int, b: int| 0 <= a < b < front.len() implies (#[trigger] front[a]).0 != (
        #[trigger] front[b]).0 by {
            assert(pairs[a].0 != pairs[b].0);
        }
        lemma_map_of_len(front);
        lemma_map_of_dom(front, pairs.last().0);
        assert(!map_of(front).dom().contains(pairs.last().0)) by {
            if map_of(front).dom().contains(pairs.last().0) {
                let i = choose|i: int|
                    0 <= i < front.len() && (#[trigger] front[i]).0 == pairs.last().0;
                assert(pairs[i].0 != pairs[pairs.len() - 1].0);
            }
        }
    }
}

/// A map with string keys, held as a list of pairs.
pub struct StrMap<V: View> {
    entries: Vec<(String, V)>,
}

impl<V: View> View for StrMap<V> {
    type V = Map<Seq<char>, V::V>;

    closed spec fn view(&self) -> Map<Seq<char>, V::V> {
        map_of(self.pairs())
    }
}

spec fn pairs_of<V: View>(entries: Seq<(String, V)>) -> Seq<(Seq<char>, V::V)> {
    Seq::new(entries.len(), |i: int| (entries[i].0@, entries[i].1@))
}

impl<V: View> StrMap<V> {
    /// The pairs, in the order in which they are held.
    pub closed spec fn pairs(&self) -> Seq<(Seq<char>, V::V)> {
        pairs_of(self.entries@)
    }

    /// No key occurs twice.
    #[verifier::type_invariant]
    spec fn inv(self) -> bool {
        keys_distinct(self.pairs())
    }

    /// The pairs describe the map.
    pub proof fn lemma_pairs(&self)
        ensures
            self@ == map_of(self.pairs()),
    {
    }

    /// The empty map.
    pub fn new() -> (map: Self)
        ensures
            map@ == Map::<Seq<char>, V::V>::empty(),
            map.pairs().len() == 0,
    {
        StrMap { entries: Vec::new() }
    }

    /// The number of keys.
    pub fn len(&self) -> (n: usize)
        ensures
            n == self@.len(),
            n == self.pairs().len(),
            keys_distinct(self.pairs()),
    {
        proof {
            use_type_invariant(self);
            lemma_map_of_len(self.pairs());
        }
        self.entries.len()
    }

    /// The key at a position of the list.
    pub fn key_at(&self, i: usize) -> (key: &String)
        requires
            i < self.pairs().len(),
        ensures
            key@ == self.pairs()[i as int].0,
            self@.dom().contains(key@),
    {
        proof {
            use_type_invariant(self);
            lemma_map_of_index(self.pairs(), i as int);
        }
        &self.entries[i].0
    }

    /// The value at a position of the list.
    pub fn value_at(&self, i: usize) -> (value: &V)
        requires
            i < self.pairs().len(),
        ensures
            value@ == self.pairs()[i as int].1,
            value@ == self@[self.pairs()[i as int].0],
    {
        proof {
            use_type_invariant(self);
            lemma_map_of_index(self.pairs(), i as int);
        }
        &self.entries[i].1
    }

    /// The value of a key.
    pub fn get(&self, key: &str) -> (value: Option<&V>)
        ensures
            value is Some <==> self@.dom().contains(key@),
            value matches Some(v) ==> v@ == self@[key@],
    {
        proof {
            use_type_invariant(self);
            lemma_map_of_dom(self.pairs(), key@);
        }
        match position(&self.entries, key) {
            Some(i) => {
                proof {
                    lemma_map_of_index(self.pairs(), i as int);
                }
                Some(&self.entries[i].1)
            },
            None => None,
        }
    }

    /// Removes a key and its value.
    pub fn remove(&mut self, key: &str)
        ensures
            final(self)@ == old(self)@.remove(key@),
    {
        proof {
            use_type_invariant(&*self);
        }
        let mut entries: Vec<(String, V)> = Vec::new();
        std::mem::swap(&mut entries, &mut self.entries);
        let ghost before = pairs_of(entries@);
        match position(&entries, key) {
            Some(i) => {
                let _ = entries.remove(i);
                proof {
                    assert(pairs_of(entries@) =~= before.remove(i as int));
                    lemma_remove_pair(before, i as int);
                }
            },
            None => {
                proof {
                    lemma_map_of_dom(before, key@);
                    assert(map_of(before).remove(key@) =~= map_of(before));
                }
            },
        }
        self.entries = entries;
    }

    /// Gives a key a value, in place of the one it had.
    pub fn insert(&mut self, key: String, value: V)
        ensures
            final(self)@ == old(self)@.insert(key@, value@),
    {
        self.remove(key.as_str());
        proof {
            use_type_invariant(&*self);
        }
        let mut entries: Vec<(String, V)> = Vec::new();
        std::mem::swap(&mut entries, &mut self.entries);
        let ghost before = pairs_of(entries@);
        let ghost pair = (key@, value@);
        entries.push((key, value));
        proof {
            let after = pairs_of(entries@);
            assert(after =~= before.push(pair));
            assert(after.drop_last() =~= before);
            lemma_map_of_dom(before, pair.0);
            assert forall|a: int, b: int| 0 <= a < b < after.len() implies (#[trigger] after[a]).0
                != (#[trigger] after[b]).0 by {
                assert(before[a] == after[a]);
                if b < before.len() {
                    assert(before[b] == after[b]);
                }
            }
            assert(map_of(after) =~= old(self)@.insert(pair.0, pair.1));
        }
        self.entries = entries;
    }
}

impl Clone for StrMap<u64> {
    fn clone(&self) -> (copy: Self)
        ensures
            copy@ == self@,
    {
        let mut copy: StrMap<u64> = StrMap::new();
        let ghost pairs = self.pairs();
        let mut i: usize = 0;
        assert(pairs.take(0) =~= Seq::empty());
        while i < self.len()
            invariant
                i <= pairs.len(),
                pairs == self.pairs(),
                copy@ == map_of(pairs.take(i as int)),
            decreases pairs.len() - i,
        {
            copy.insert(self.key_at(i).clone(), *self.value_at(i));
            assert(pairs.take(i + 1).drop_last() == pairs.take(i as int));
            i = i + 1;
        }
        assert(pairs.take(i as int) == pairs);
        copy
    }
}

fn position<V: View>(entries: &Vec<(String, V)>, key: &str) -> (at: Option<usize>)
    ensures
        match at {
            Some(i) => i < entries@.len() && pairs_of(entries@)[i as int].0 == key@,
            None => forall|i: int|
                0 <= i < entries@.len() ==> (#[trigger] pairs_of(entries@)[i]).0 != key@,
        },
{
    let mut i: usize = 0;
    while i < entries.len()
        invariant
            i <= entries@.len(),
            forall|j: int| 0 <= j < i ==> (#[trigger] pairs_of(entries@)[j]).0 != key@,
        decreases entries@.len() - i,
    {
        if str_eq(entries[i].0.as_str(), key) {
            return Some(i);
        }
        i = i + 1;
    }
    None
}

/// Without its pair, a key is not in the map; the other keys keep their values.
proof fn lemma_remove_pair<W>(pairs: Seq<(Seq<char>, W)>, at: int)
    requires
        keys_distinct(pairs),
        0 <= at < pairs.len(),
    ensures
        keys_distinct(pairs.remove(at)),
        map_of(pairs.remove(at)) == map_of(pairs).remove(pairs[at].0),
{
    let left = pairs.remove(at);
    let key = pairs[at].0;
    assert forall|a: int, b: int| 0 <= a < b < left.len() implies (#[trigger] left[a]).0 != (
    #[trigger] left[b]).0 by {
        let x = if a < at {
            a
        } else {
            a + 1
        };
        let y = if b < at {
            b
        } else {
            b + 1
        };
        assert(left[a] == pairs[x] && left[b] == pairs[y]);
    }
    let small = map_of(left);
    let large = map_of(pairs).remove(key);
    assert forall|k: Seq<char>| small.dom().contains(k) implies #[trigger] large.dom().contains(k)
        && small[k] == large[k] by {
        lemma_map_of_dom(left, k);
        let i = choose|i: int| 0 <= i < left.len() && (#[trigger] left[i]).0 == k;
        lemma_map_of_index(left, i);
        let x = if i < at {
            i
        } else {
            i + 1
        };
        assert(left[i] == pairs[x]);
        lemma_map_of_index(pairs, x);
        if x < at {
            assert(pairs[x].0 != pairs[at].0);
        } else {
            assert(pairs[at].0 != pairs[x].0);
        }
    }
    assert forall|k: Seq<char>| large.dom().contains(k) implies #[trigger] small.dom().contains(
        k,
    ) by {
        lemma_map_of_dom(pairs, k);
        let x = choose|x: int| 0 <= x < pairs.len() && (#[trigger] pairs[x]).0 == k;
        let i = if x < at {
            x
        } else {
            x - 1
        };
        assert(left[i] == pairs[x]);
        lemma_map_of_dom(left, k);
    }
    assert(small =~= large);
}

} // verus!
