//! A small map from strings to strings that remembers the order in which its
//! keys first came.

use vstd::prelude::*;

verus! {

/// A key with its value, as plain sequences of characters.
pub type Pair = (Seq<char>, Seq<char>);

/// The map that a list of pairs describes when it is read from front to
/// back and a later pair replaces an earlier one with the same key.
pub open spec fn to_map(pairs: Seq<Pair>) -> Map<Seq<char>, Seq<char>>
    decreases pairs.len(),
{
    if pairs.len() == 0 {
        Map::empty()
    } else {
        to_map(pairs.drop_last()).insert(pairs.last().0, pairs.last().1)
    }
}

/// No two pairs of the list have the same key.
pub open spec fn distinct_keys(pairs: Seq<Pair>) -> bool {
    forall|i: int, j: int| 0 <= i < j < pairs.len() ==> (#[trigger] pairs[i]).0 != (
    #[trigger] pairs[j]).0
}

/// The index of the first pair with the key `key`, or the length of the list
/// where no pair has it.
pub open spec fn key_index(pairs: Seq<Pair>, key: Seq<char>) -> nat
    decreases pairs.len(),
{
    if pairs.len() > 0 && pairs[0].0 != key {
        1 + key_index(pairs.drop_first(), key)
    } else {
        0
    }
}

/// The list with `key` set to `value`: in the place of the pair that had the
/// key, or at the end where none had it.
pub open spec fn upsert(pairs: Seq<Pair>, key: Seq<char>, value: Seq<char>) -> Seq<Pair> {
    let at = key_index(pairs, key);
    if at < pairs.len() {
        pairs.update(at as int, (key, value))
    } else {
        pairs.push((key, value))
    }
}

/// `key_index` is the least index of a pair with the key, if there is one.
pub proof fn lemma_key_index(pairs: Seq<Pair>, key: Seq<char>)
    ensures
        key_index(pairs, key) <= pairs.len(),
        key_index(pairs, key) < pairs.len() ==> pairs[key_index(pairs, key) as int].0 == key,
        forall|i: int| 0 <= i < key_index(pairs, key) ==> (#[trigger] pairs[i]).0 != key,
    decreases pairs.len(),
{
    if pairs.len() > 0 && pairs[0].0 != key {
        let tail = pairs.drop_first();
        lemma_key_index(tail, key);
        assert forall|i: int| 0 <= i < key_index(pairs, key) implies (#[trigger] pairs[i]).0
            != key by {
            if i > 0 {
                assert(pairs[i] == tail[i - 1]);
            }
        }
        if key_index(pairs, key) < pairs.len() {
            assert(pairs[key_index(pairs, key) as int] == tail[key_index(tail, key) as int]);
        }
    }
}

/// A key is in the map exactly when some pair of the list has it.
pub proof fn lemma_to_map_keys(pairs: Seq<Pair>, key: Seq<char>)
    ensures
        to_map(pairs).contains_key(key) <==> exists|i: int|
            0 <= i < pairs.len() && (#[trigger] pairs[i]).0 == key,
    decreases pairs.len(),
{
    if pairs.len() > 0 {
        let front = pairs.drop_last();
        lemma_to_map_keys(front, key);
        if to_map(pairs).contains_key(key) {
            if pairs.last().0 == key {
                assert(pairs[pairs.len() - 1].0 == key);
            } else {
                let i = choose|i: int| 0 <= i < front.len() && (#[trigger] front[i]).0 == key;
                assert(pairs[i].0 == key);
            }
        }
        if exists|i: int| 0 <= i < pairs.len() && (#[trigger] pairs[i]).0 == key {
            let i = choose|i: int| 0 <= i < pairs.len() && (#[trigger] pairs[i]).0 == key;
            if i < pairs.len() - 1 {
                assert(front[i].0 == key);
            }
        }
    }
}

/// The last pair with a given key decides the value that the map holds for
/// that key.
pub proof fn lemma_last_wins(pairs: Seq<Pair>, at: int)
    requires
        0 <= at < pairs.len(),
        forall|j: int| at < j < pairs.len() ==> (#[trigger] pairs[j]).0 != pairs[at].0,
    ensures
        to_map(pairs).contains_key(pairs[at].0),
        to_map(pairs)[pairs[at].0] == pairs[at].1,
    decreases pairs.len(),
{
    if at < pairs.len() - 1 {
        let front = pairs.drop_last();
        assert(front[at] == pairs[at]);
        assert forall|j: int| at < j < front.len() implies (#[trigger] front[j]).0
            != front[at].0 by {
            assert(front[j] == pairs[j]);
        }
        lemma_last_wins(front, at);
        assert(pairs[pairs.len() - 1].0 != pairs[at].0);
    }
}

/// Setting a key in a list with distinct keys keeps the keys distinct and
/// sets the key in the map.
pub proof fn lemma_upsert(pairs: Seq<Pair>, key: Seq<char>, value: Seq<char>)
    requires
        distinct_keys(pairs),
    ensures
        distinct_keys(upsert(pairs, key, value)),
        to_map(upsert(pairs, key, value)) == to_map(pairs).insert(key, value),
{
    let after = upsert(pairs, key, value);
    let at = key_index(pairs, key) as int;
    lemma_key_index(pairs, key);
    assert(after[at] == (key, value));
    assert forall|i: int, j: int| 0 <= i < j < after.len() implies (#[trigger] after[i]).0 != (
    #[trigger] after[j]).0 by {
        if i != at && i < pairs.len() {
            assert(after[i] == pairs[i]);
        }
        if j != at && j < pairs.len() {
            assert(after[j] == pairs[j]);
        }
        if i == at && at < pairs.len() {
            assert(pairs[i].0 == key);
        }
        if j == at && at < pairs.len() {
            assert(pairs[j].0 == key);
        }
    }
    let left = to_map(after);
    let right = to_map(pairs).insert(key, value);
    assert forall|k: Seq<char>| left.contains_key(k) <==> right.contains_key(k) by {
        lemma_to_map_keys(after, k);
        lemma_to_map_keys(pairs, k);
        if left.contains_key(k) && k != key {
            let i = choose|i: int| 0 <= i < after.len() && (#[trigger] after[i]).0 == k;
            assert(i != at);
            assert(pairs[i].0 == k);
        }
        if right.contains_key(k) {
            if k == key {
                assert(after[at].0 == k);
            } else {
                let i = choose|i: int| 0 <= i < pairs.len() && (#[trigger] pairs[i]).0 == k;
                assert(i != at);
                assert(after[i].0 == k);
            }
        }
    }
    assert forall|k: Seq<char>| left.contains_key(k) implies left[k] == right[k] by {
        lemma_to_map_keys(after, k);
        let i = choose|i: int| 0 <= i < after.len() && (#[trigger] after[i]).0 == k;
        lemma_last_wins(after, i);
        if k != key {
            assert(i != at);
            assert(pairs[i] == after[i]);
            lemma_last_wins(pairs, i);
        }
    }
    assert(left =~= right);
}

/// The map of two lists joined is the map of the first, overridden by the
/// map of the second.
pub proof fn lemma_to_map_concat(first: Seq<Pair>, second: Seq<Pair>)
    ensures
        to_map(first + second) == to_map(first).union_prefer_right(to_map(second)),
    decreases second.len(),
{
    if second.len() == 0 {
        assert(first + second == first);
        assert(to_map(first).union_prefer_right(to_map(second)) =~= to_map(first));
    } else {
        lemma_to_map_concat(first, second.drop_last());
        assert((first + second).drop_last() == first + second.drop_last());
        assert((first + second).last() == second.last());
        assert(to_map(first + second) =~= to_map(first).union_prefer_right(to_map(second)));
    }
}

/// A map from strings to strings. Each key occurs once; the keys keep the
/// order in which they were first inserted.
pub struct StringMap {
    entries: Vec<(String, String)>,
}

impl View for StringMap {
    type V = Map<Seq<char>, Seq<char>>;

    open spec fn view(&self) -> Map<Seq<char>, Seq<char>> {
        to_map(self.pairs())
    }
}

impl StringMap {
    #[verifier::type_invariant]
    spec fn well_formed(self) -> bool {
        distinct_keys(self.pairs())
    }

    /// The keys with their values, in the order in which the keys first came.
    pub closed spec fn pairs(self) -> Seq<Pair> {
        Seq::new(self.entries@.len(), |i: int| (self.entries@[i].0@, self.entries@[i].1@))
    }

    /// An empty map.
    pub fn new() -> (map: StringMap)
        ensures
            map.pairs() == Seq::<Pair>::empty(),
            map@ == Map::<Seq<char>, Seq<char>>::empty(),
    {
        let map = StringMap { entries: Vec::new() };
        assert(map.pairs() =~= Seq::<Pair>::empty());
        map
    }

    /// The number of keys, none of which occurs twice.
    pub fn len(&self) -> (n: usize)
        ensures
            n == self.pairs().len(),
            distinct_keys(self.pairs()),
    {
        proof {
            use_type_invariant(self);
        }
        self.entries.len()
    }

    /// The key at position `at`.
    pub fn key_at(&self, at: usize) -> (key: &String)
        requires
            at < self.pairs().len(),
        ensures
            key@ == self.pairs()[at as int].0,
    {
        &self.entries[at].0
    }

    /// The value at position `at`.
    pub fn value_at(&self, at: usize) -> (value: &String)
        requires
            at < self.pairs().len(),
        ensures
            value@ == self.pairs()[at as int].1,
    {
        &self.entries[at].1
    }

    /// Sets `key` to `value`. A key that the map already holds keeps its
    /// place; a new key goes to the end.
    pub fn insert(&mut self, key: String, value: String)
        ensures
            final(self).pairs() == upsert(old(self).pairs(), key@, value@),
            final(self)@ == old(self)@.insert(key@, value@),
    {
        proof {
            use_type_invariant(&*self);
            lemma_upsert(self.pairs(), key@, value@);
            lemma_key_index(self.pairs(), key@);
        }
        let ghost before = self.pairs();
        let mut entries: Vec<(String, String)> = Vec::new();
        std::mem::swap(&mut entries, &mut self.entries);
        let n = entries.len();
        let mut at: usize = 0;
        while at < n && entries[at].0 != key
            invariant
                n == entries@.len(),
                at <= n,
                before == Seq::new(entries@.len(), |i: int| (entries@[i].0@, entries@[i].1@)),
                forall|i: int| 0 <= i < at ==> (#[trigger] before[i]).0 != key@,
            decreases n - at,
        {
            at += 1;
        }
        proof {
            if at < n {
                assert(before[at as int].0 == key@);
            }
            assert(key_index(before, key@) == at) by {
                if key_index(before, key@) < at {
                    assert(before[key_index(before, key@) as int].0 == key@);
                }
            }
        }
        if at < n {
            entries.set(at, (key, value));
        } else {
            entries.push((key, value));
        }
        proof {
            assert(Seq::new(entries@.len(), |i: int| (entries@[i].0@, entries@[i].1@)) =~= upsert(
                before,
                key@,
                value@,
            ));
        }
        self.entries = entries;
    }

    /// The value that the map holds for `key`, if any.
    pub fn get(&self, key: &str) -> (value: Option<&String>)
        ensures
            match value {
                Some(found) => self@.contains_key(key@) && found@ == self@[key@],
                None => !self@.contains_key(key@),
            },
    {
        proof {
            use_type_invariant(self);
            lemma_to_map_keys(self.pairs(), key@);
        }
        let wanted = key.to_owned();
        let n = self.entries.len();
        let mut at: usize = 0;
        while at < n
            invariant
                n == self.entries@.len(),
                at <= n,
                wanted@ == key@,
                distinct_keys(self.pairs()),
                forall|i: int| 0 <= i < at ==> (#[trigger] self.pairs()[i]).0 != key@,
            decreases n - at,
        {
            if self.entries[at].0 == wanted {
                proof {
                    assert(self.pairs()[at as int].0 == key@);
                    lemma_last_wins(self.pairs(), at as int);
                }
                return Some(&self.entries[at].1);
            }
            at += 1;
        }
        None
    }
}

} // verus!
