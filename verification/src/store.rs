use vstd::prelude::*;

use crate::raft::state::opt_string_view;

verus! {

/// The value stored under `key`, if any.
pub open spec fn kv_lookup(m: Map<Seq<char>, Seq<char>>, key: Seq<char>) -> Option<Seq<char>> {
    if m.contains_key(key) {
        Some(m[key])
    } else {
        None
    }
}

/// The store after a write of `value` under `key`: a key that is present keeps
/// its value, an absent one gets `value`.
pub open spec fn kv_after_set(m: Map<Seq<char>, Seq<char>>, key: Seq<char>, value: Seq<char>) -> Map<Seq<char>, Seq<char>> {
    if m.contains_key(key) {
        m
    } else {
        m.insert(key, value)
    }
}

/// A write is read back, unless the key already held a value, which is then
/// read back unchanged.
pub proof fn lemma_read_after_set(m: Map<Seq<char>, Seq<char>>, key: Seq<char>, value: Seq<char>)
    ensures
        kv_lookup(kv_after_set(m, key, value), key) == Some(
            if m.contains_key(key) { m[key] } else { value },
        ),
{
}

/// After a removal the key holds no value.
pub proof fn lemma_read_after_remove(m: Map<Seq<char>, Seq<char>>, key: Seq<char>)
    ensures
        kv_lookup(m.remove(key), key) is None,
{
}

/// Writing or removing one key leaves what every other key holds.
pub proof fn lemma_other_keys_unchanged(
    m: Map<Seq<char>, Seq<char>>,
    key: Seq<char>,
    value: Seq<char>,
    other: Seq<char>,
)
    requires
        other != key,
    ensures
        kv_lookup(kv_after_set(m, key, value), other) == kv_lookup(m, other),
        kv_lookup(m.remove(key), other) == kv_lookup(m, other),
{
}

/// The first write to a key wins: a second write to it changes nothing.
pub proof fn lemma_second_set_ignored(
    m: Map<Seq<char>, Seq<char>>,
    key: Seq<char>,
    first: Seq<char>,
    second: Seq<char>,
)
    ensures
        kv_after_set(kv_after_set(m, key, first), key, second) == kv_after_set(m, key, first),
{
}

/// Removing a key that a write has just added restores the store.
pub proof fn lemma_remove_undoes_set(m: Map<Seq<char>, Seq<char>>, key: Seq<char>, value: Seq<char>)
    requires
        !m.contains_key(key),
    ensures
        kv_after_set(m, key, value).remove(key) == m,
{
    assert(m.insert(key, value).remove(key) =~= m);
}

/// No two pairs of `pairs` have the same key.
pub open spec fn keys_distinct(pairs: Seq<(String, String)>) -> bool {
    forall|i: int, j: int| 0 <= i < j < pairs.len() ==> #[trigger] pairs[i].0@ != #[trigger] pairs[j].0@
}

/// `key` is the key of some pair of `pairs`.
pub open spec fn holds_key(pairs: Seq<(String, String)>, key: Seq<char>) -> bool {
    exists|i: int| 0 <= i < pairs.len() && #[trigger] pairs[i].0@ == key
}

/// The map that a sequence of key-value pairs stands for.
pub open spec fn pairs_map(pairs: Seq<(String, String)>) -> Map<Seq<char>, Seq<char>> {
    Map::new(
        |key: Seq<char>| holds_key(pairs, key),
        |key: Seq<char>| pairs[choose|i: int| 0 <= i < pairs.len() && #[trigger] pairs[i].0@ == key].1@,
    )
}

proof fn lemma_pairs_map_at(pairs: Seq<(String, String)>, i: int)
    requires
        keys_distinct(pairs),
        0 <= i < pairs.len(),
    ensures
        pairs_map(pairs).contains_key(pairs[i].0@),
        pairs_map(pairs)[pairs[i].0@] == pairs[i].1@,
{
    let key = pairs[i].0@;
    assert(holds_key(pairs, key));
    let j = choose|j: int| 0 <= j < pairs.len() && #[trigger] pairs[j].0@ == key;
    if j != i {
        if j < i {
            assert(pairs[j].0@ != pairs[i].0@);
        } else {
            assert(pairs[i].0@ != pairs[j].0@);
        }
    }
}

/// A string-keyed store: the state machine that the replicated log drives.
pub struct KvStore {
    pairs: Vec<(String, String)>,
}

impl View for KvStore {
    type V = Map<Seq<char>, Seq<char>>;

    closed spec fn view(&self) -> Map<Seq<char>, Seq<char>> {
        pairs_map(self.pairs@)
    }
}

impl KvStore {
    #[verifier::type_invariant]
    closed spec fn keys_are_distinct(self) -> bool {
        keys_distinct(self.pairs@)
    }

    pub fn new() -> (store: KvStore)
        ensures
            store@ == Map::<Seq<char>, Seq<char>>::empty(),
    {
        let store = KvStore { pairs: Vec::new() };
        assert(store@ =~= Map::<Seq<char>, Seq<char>>::empty());
        store
    }

    /// The position of the pair with key `key`.
    fn position(&self, key: &String) -> (pos: Option<usize>)
        ensures
            match pos {
                Some(i) => i < self.pairs@.len() && self.pairs@[i as int].0@ == key@,
                None => !holds_key(self.pairs@, key@),
            },
    {
        let mut i: usize = 0;
        while i < self.pairs.len()
            invariant
                i <= self.pairs@.len(),
                forall|j: int| 0 <= j < i ==> #[trigger] self.pairs@[j].0@ != key@,
            decreases self.pairs@.len() - i,
        {
            if self.pairs[i].0 == *key {
                return Some(i);
            }
            i = i + 1;
        }
        None
    }

    /// The value stored under `key`.
    pub fn get(&self, key: &String) -> (value: Option<String>)
        ensures
            opt_string_view(value) == kv_lookup(self@, key@),
    {
        proof {
            use_type_invariant(self);
        }
        match self.position(key) {
            Some(i) => {
                proof {
                    lemma_pairs_map_at(self.pairs@, i as int);
                }
                Some(self.pairs[i].1.clone())
            },
            None => None,
        }
    }

    /// Stores `value` under `key` unless `key` already holds a value, which is
    /// then kept.
    pub fn set(&mut self, key: String, value: String)
        ensures
            final(self)@ == kv_after_set(old(self)@, key@, value@),
    {
        proof {
            use_type_invariant(&*self);
        }
        if self.position(&key).is_none() {
            let ghost old_pairs = self.pairs@;
            let ghost k = key@;
            let ghost v = value@;
            let mut pairs = Vec::new();
            std::mem::swap(&mut pairs, &mut self.pairs);
            pairs.push((key, value));
            let ghost new_pairs = pairs@;
            proof {
                assert forall|i: int, j: int| 0 <= i < j < new_pairs.len() implies #[trigger] new_pairs[i].0@ != #[trigger] new_pairs[j].0@ by {
                    if j == old_pairs.len() {
                        assert(new_pairs[i] == old_pairs[i]);
                    } else {
                        assert(new_pairs[i] == old_pairs[i] && new_pairs[j] == old_pairs[j]);
                    }
                }
                let m0 = pairs_map(old_pairs);
                let m1 = pairs_map(new_pairs);
                assert forall|key2: Seq<char>| #[trigger] m1.contains_key(key2) <==> m0.insert(k, v).contains_key(key2) by {
                    if holds_key(new_pairs, key2) {
                        let i = choose|i: int| 0 <= i < new_pairs.len() && #[trigger] new_pairs[i].0@ == key2;
                        if i < old_pairs.len() {
                            assert(old_pairs[i] == new_pairs[i]);
                        }
                    }
                    if holds_key(old_pairs, key2) {
                        let i = choose|i: int| 0 <= i < old_pairs.len() && #[trigger] old_pairs[i].0@ == key2;
                        assert(new_pairs[i] == old_pairs[i]);
                    }
                    if key2 == k {
                        assert(new_pairs[old_pairs.len() as int].0@ == k);
                    }
                }
                assert forall|key2: Seq<char>| #[trigger] m1.contains_key(key2) implies m1[key2] == m0.insert(k, v)[key2] by {
                    if key2 == k {
                        lemma_pairs_map_at(new_pairs, old_pairs.len() as int);
                    } else {
                        let i = choose|i: int| 0 <= i < old_pairs.len() && #[trigger] old_pairs[i].0@ == key2;
                        assert(new_pairs[i] == old_pairs[i]);
                        lemma_pairs_map_at(old_pairs, i);
                        lemma_pairs_map_at(new_pairs, i);
                    }
                }
                assert(m1 =~= m0.insert(k, v));
            }
            self.pairs = pairs;
        }
    }

    /// Removes the value stored under `key` and returns it.
    pub fn remove(&mut self, key: &String) -> (removed: Option<String>)
        ensures
            opt_string_view(removed) == kv_lookup(old(self)@, key@),
            final(self)@ == old(self)@.remove(key@),
    {
        proof {
            use_type_invariant(&*self);
        }
        match self.position(key) {
            None => {
                proof {
                    assert(self@.remove(key@) =~= self@);
                }
                None
            },
            Some(p) => {
                let ghost old_pairs = self.pairs@;
                let ghost k = key@;
                proof {
                    lemma_pairs_map_at(old_pairs, p as int);
                }
                let mut pairs = Vec::new();
                std::mem::swap(&mut pairs, &mut self.pairs);
                let (_, value) = pairs.remove(p);
                let ghost new_pairs = pairs@;
                proof {
                    assert(new_pairs =~= old_pairs.remove(p as int));
                    assert forall|i: int, j: int| 0 <= i < j < new_pairs.len() implies #[trigger] new_pairs[i].0@ != #[trigger] new_pairs[j].0@ by {
                        let oi = if i < p { i } else { i + 1 };
                        let oj = if j < p { j } else { j + 1 };
                        assert(new_pairs[i] == old_pairs[oi] && new_pairs[j] == old_pairs[oj]);
                    }
                    let m0 = pairs_map(old_pairs);
                    let m1 = pairs_map(new_pairs);
                    assert forall|key2: Seq<char>| #[trigger] m1.contains_key(key2) <==> m0.remove(k).contains_key(key2) by {
                        if holds_key(new_pairs, key2) {
                            let i = choose|i: int| 0 <= i < new_pairs.len() && #[trigger] new_pairs[i].0@ == key2;
                            let oi = if i < p { i } else { i + 1 };
                            assert(new_pairs[i] == old_pairs[oi]);
                            assert(oi != p);
                            if oi < p {
                                assert(old_pairs[oi].0@ != old_pairs[p as int].0@);
                            } else {
                                assert(old_pairs[p as int].0@ != old_pairs[oi].0@);
                            }
                        }
                        if holds_key(old_pairs, key2) && key2 != k {
                            let i = choose|i: int| 0 <= i < old_pairs.len() && #[trigger] old_pairs[i].0@ == key2;
                            assert(i != p);
                            let ni = if i < p { i } else { i - 1 };
                            assert(new_pairs[ni] == old_pairs[i]);
                        }
                    }
                    assert forall|key2: Seq<char>| #[trigger] m1.contains_key(key2) implies m1[key2] == m0.remove(k)[key2] by {
                        let i = choose|i: int| 0 <= i < new_pairs.len() && #[trigger] new_pairs[i].0@ == key2;
                        let oi = if i < p { i } else { i + 1 };
                        assert(new_pairs[i] == old_pairs[oi]);
                        lemma_pairs_map_at(old_pairs, oi);
                        lemma_pairs_map_at(new_pairs, i);
                    }
                    assert(m1 =~= m0.remove(k));
                }
                self.pairs = pairs;
                Some(value)
            },
        }
    }
}

} // verus!
