//! A map from account ids to values that also knows how many entries it holds
//! and in which order they were stored.

use vstd::prelude::*;

verus! {

/// Entries keyed by account id. Storing under a new key appends it to the key order;
/// removing a key moves the last key into its place.
pub struct PersistentMap<V> {
    key_prefix: Vec<u8>,
    keys: Vec<String>,
    values: Vec<V>,
}

/// The key order after `key` was stored: unchanged where `key` was there, else `key` comes last.
pub open spec fn keys_after_insert(keys: Seq<Seq<char>>, key: Seq<char>) -> Seq<Seq<char>> {
    if keys.contains(key) {
        keys
    } else {
        keys.push(key)
    }
}

/// The key order after `key` was removed: the last key takes its place.
pub open spec fn keys_after_remove(keys: Seq<Seq<char>>, key: Seq<char>) -> Seq<Seq<char>> {
    if keys.contains(key) {
        keys.update(keys.index_of(key), keys.last()).drop_last()
    } else {
        keys
    }
}

/// The contents after each of `items` was stored in turn, later items replacing earlier ones.
pub open spec fn map_after_extend<V>(m: Map<Seq<char>, V>, items: Seq<(String, V)>) -> Map<
    Seq<char>,
    V,
>
    decreases items.len(),
{
    if items.len() == 0 {
        m
    } else {
        map_after_extend(m, items.drop_last()).insert(items.last().0@, items.last().1)
    }
}

/// The key order after each of `items` was stored in turn.
pub open spec fn keys_after_extend<V>(keys: Seq<Seq<char>>, items: Seq<(String, V)>) -> Seq<
    Seq<char>,
>
    decreases items.len(),
{
    if items.len() == 0 {
        keys
    } else {
        keys_after_insert(keys_after_extend(keys, items.drop_last()), items.last().0@)
    }
}

impl<V> View for PersistentMap<V> {
    type V = Map<Seq<char>, V>;

    closed spec fn view(&self) -> Map<Seq<char>, V> {
        Map::new(
            |k: Seq<char>| self.key_seq().contains(k),
            |k: Seq<char>| self.values@[self.key_seq().index_of(k)],
        )
    }
}

impl<V> PersistentMap<V> {
    /// The keys in the order in which the map holds them.
    pub closed spec fn key_seq(&self) -> Seq<Seq<char>> {
        Seq::new(self.keys@.len(), |i: int| self.keys@[i]@)
    }

    /// The prefix under which the entries are persisted.
    pub closed spec fn prefix(&self) -> Seq<u8> {
        self.key_prefix@
    }

    /// Every key is held once, with one value.
    pub closed spec fn wf(&self) -> bool {
        &&& self.keys@.len() == self.values@.len()
        &&& self.key_seq().no_duplicates()
    }

    /// The contents are exactly the keys of the key order.
    pub proof fn lemma_keys(&self)
        requires
            self.wf(),
        ensures
            self.key_seq().no_duplicates(),
            self@.dom().finite(),
            self@.dom().len() == self.key_seq().len(),
            forall|k: Seq<char>| self@.contains_key(k) <==> #[trigger] self.key_seq().contains(k),
    {
        self.key_seq().unique_seq_to_set();
        assert(self@.dom() =~= self.key_seq().to_set());
    }

    /// The value stored for the key at position `i` is the value at position `i`.
    proof fn lemma_value_at(&self, i: int)
        requires
            self.wf(),
            0 <= i < self.key_seq().len(),
        ensures
            self@.contains_key(self.key_seq()[i]),
            self@[self.key_seq()[i]] == self.values@[i],
    {
        let k = self.key_seq()[i];
        assert(self.key_seq().contains(k));
        let j = self.key_seq().index_of(k);
        assert(0 <= j < self.key_seq().len() && self.key_seq()[j] == k);
    }
}

impl<V: Copy> PersistentMap<V> {
    /// An empty map whose entries are persisted under `key_prefix`.
    pub fn new(key_prefix: Vec<u8>) -> (m: Self)
        ensures
            m.wf(),
            m@ == Map::<Seq<char>, V>::empty(),
            m.key_seq() == Seq::<Seq<char>>::empty(),
            m.prefix() == key_prefix@,
    {
        let m = PersistentMap { key_prefix, keys: Vec::new(), values: Vec::new() };
        assert(m.key_seq() =~= Seq::<Seq<char>>::empty());
        assert(m@ =~= Map::<Seq<char>, V>::empty());
        m
    }

    /// The number of entries.
    pub fn len(&self) -> (n: u64)
        requires
            self.wf(),
        ensures
            n == self@.dom().len(),
            n == self.key_seq().len(),
    {
        proof {
            self.lemma_keys();
        }
        self.keys.len() as u64
    }

    /// The key under which the entry of `raw_key` is persisted: the prefix, then `raw_key`.
    pub fn raw_key_to_storage_key(&self, raw_key: &[u8]) -> (storage_key: Vec<u8>)
        ensures
            storage_key@ == self.prefix() + raw_key@,
    {
        let mut out: Vec<u8> = Vec::new();
        let mut i: usize = 0;
        while i < self.key_prefix.len()
            invariant
                i <= self.key_prefix@.len(),
                out@ == self.key_prefix@.subrange(0, i as int),
            decreases self.key_prefix@.len() - i,
        {
            out.push(self.key_prefix[i]);
            i = i + 1;
            assert(out@ =~= self.key_prefix@.subrange(0, i as int));
        }
        assert(out@ =~= self.key_prefix@);
        let mut j: usize = 0;
        while j < raw_key.len()
            invariant
                j <= raw_key@.len(),
                out@ == self.key_prefix@ + raw_key@.subrange(0, j as int),
            decreases raw_key@.len() - j,
        {
            out.push(raw_key[j]);
            j = j + 1;
            assert(out@ =~= self.key_prefix@ + raw_key@.subrange(0, j as int));
        }
        assert(out@ =~= self.key_prefix@ + raw_key@);
        out
    }

    /// The position of `key` in the key order, if it is there.
    fn find(&self, key: &String) -> (pos: Option<usize>)
        requires
            self.wf(),
        ensures
            match pos {
                Some(i) => i < self.key_seq().len() && self.key_seq()[i as int] == key@
                    && self.key_seq().index_of(key@) == i,
                None => !self.key_seq().contains(key@),
            },
    {
        let mut i: usize = 0;
        while i < self.keys.len()
            invariant
                i <= self.keys@.len(),
                self.wf(),
                self.key_seq().len() == self.keys@.len(),
                forall|j: int| 0 <= j < i ==> self.key_seq()[j] != key@,
            decreases self.keys@.len() - i,
        {
            if self.keys[i] == *key {
                assert(self.key_seq()[i as int] == key@);
                assert(self.key_seq().contains(key@));
                let ghost j = self.key_seq().index_of(key@);
                assert(0 <= j < self.key_seq().len() && self.key_seq()[j] == key@);
                return Some(i);
            }
            i = i + 1;
        }
        None
    }

    /// Whether the map holds an entry for `key`.
    pub fn contains_key(&self, key: &String) -> (found: bool)
        requires
            self.wf(),
        ensures
            found == self@.contains_key(key@),
    {
        self.find(key).is_some()
    }

    /// The value stored for `key`, if there is one.
    pub fn get(&self, key: &String) -> (value: Option<V>)
        requires
            self.wf(),
        ensures
            value == if self@.contains_key(key@) {
                Some(self@[key@])
            } else {
                None
            },
    {
        match self.find(key) {
            Some(i) => Some(self.values[i]),
            None => None,
        }
    }

    /// The key at position `index` of the key order.
    pub fn key_at(&self, index: u64) -> (key: Option<String>)
        requires
            self.wf(),
        ensures
            match key {
                Some(k) => index < self.key_seq().len() && k@ == self.key_seq()[index as int],
                None => index >= self.key_seq().len(),
            },
    {
        if index < self.keys.len() as u64 {
            Some(self.keys[index as usize].clone())
        } else {
            None
        }
    }

    /// The value of the key at position `index` of the key order.
    pub fn value_at(&self, index: u64) -> (value: Option<V>)
        requires
            self.wf(),
        ensures
            match value {
                Some(v) => index < self.key_seq().len() && self@.contains_key(
                    self.key_seq()[index as int],
                ) && v == self@[self.key_seq()[index as int]],
                None => index >= self.key_seq().len(),
            },
    {
        if index < self.keys.len() as u64 {
            proof {
                self.lemma_value_at(index as int);
            }
            Some(self.values[index as usize])
        } else {
            None
        }
    }

    /// Stores `value` for `key` and returns the value it replaced, if any.
    pub fn insert(&mut self, key: &String, value: &V) -> (previous: Option<V>)
        requires
            old(self).wf(),
        ensures
            final(self).wf(),
            final(self)@ == old(self)@.insert(key@, *value),
            final(self).key_seq() == keys_after_insert(old(self).key_seq(), key@),
            final(self).prefix() == old(self).prefix(),
            previous == if old(self)@.contains_key(key@) {
                Some(old(self)@[key@])
            } else {
                None
            },
    {
        match self.find(key) {
            Some(i) => {
                let previous = self.values[i];
                self.values.set(i, *value);
                proof {
                    assert(final(self).key_seq() == old(self).key_seq());
                    assert forall|k: Seq<char>| #[trigger]
                        self@.contains_key(k) implies self@[k] == old(self)@.insert(key@, *value)[k] by {
                        let j = self.key_seq().index_of(k);
                        assert(0 <= j < self.key_seq().len() && self.key_seq()[j] == k);
                    }
                    assert(self@ =~= old(self)@.insert(key@, *value));
                }
                Some(previous)
            },
            None => {
                self.keys.push(key.clone());
                self.values.push(*value);
                proof {
                    let old_keys = old(self).key_seq();
                    assert(self.key_seq() =~= old_keys.push(key@));
                    assert forall|k: Seq<char>| #[trigger]
                        self@.contains_key(k) <==> old(self)@.insert(key@, *value).contains_key(
                            k,
                        ) by {
                        if self.key_seq().contains(k) {
                            let j = self.key_seq().index_of(k);
                            assert(0 <= j < self.key_seq().len() && self.key_seq()[j] == k);
                            if j < old_keys.len() {
                                assert(old_keys[j] == k);
                            }
                        }
                        if old_keys.contains(k) {
                            let j = old_keys.index_of(k);
                            assert(self.key_seq()[j] == k);
                        }
                        if k == key@ {
                            assert(self.key_seq()[old_keys.len() as int] == k);
                        }
                    }
                    assert forall|k: Seq<char>| #[trigger]
                        self@.contains_key(k) implies self@[k] == old(self)@.insert(key@, *value)[k] by {
                        let j = self.key_seq().index_of(k);
                        assert(0 <= j < self.key_seq().len() && self.key_seq()[j] == k);
                        if j < old_keys.len() {
                            assert(old_keys[j] == k);
                            old(self).lemma_value_at(j);
                        }
                    }
                    assert(self@ =~= old(self)@.insert(key@, *value));
                }
                None
            },
        }
    }

    /// Removes the entry of `key` and returns its value, if there was one.
    pub fn remove(&mut self, key: &String) -> (previous: Option<V>)
        requires
            old(self).wf(),
        ensures
            final(self).wf(),
            final(self)@ == old(self)@.remove(key@),
            final(self).key_seq() == keys_after_remove(old(self).key_seq(), key@),
            final(self).prefix() == old(self).prefix(),
            previous == if old(self)@.contains_key(key@) {
                Some(old(self)@[key@])
            } else {
                None
            },
    {
        match self.find(key) {
            Some(i) => {
                let ghost old_keys = old(self).key_seq();
                let ghost last = old_keys.len() - 1;
                self.keys.swap_remove(i);
                let previous = self.values.swap_remove(i);
                proof {
                    assert(self.key_seq() =~= old_keys.update(i as int, old_keys.last()).drop_last());
                    assert forall|a: int, b: int|
                        0 <= a < self.key_seq().len() && 0 <= b < self.key_seq().len() && a
                            != b implies self.key_seq()[a] != self.key_seq()[b] by {
                        let a0 = if a == i { last } else { a };
                        let b0 = if b == i { last } else { b };
                        assert(self.key_seq()[a] == old_keys[a0]);
                        assert(self.key_seq()[b] == old_keys[b0]);
                    }
                    assert forall|k: Seq<char>| #[trigger]
                        self@.contains_key(k) <==> old(self)@.remove(key@).contains_key(k) by {
                        if self.key_seq().contains(k) {
                            let j = self.key_seq().index_of(k);
                            assert(0 <= j < self.key_seq().len() && self.key_seq()[j] == k);
                            let j0 = if j == i { last } else { j };
                            assert(old_keys[j0] == k);
                        }
                        if old_keys.contains(k) && k != key@ {
                            let j0 = old_keys.index_of(k);
                            assert(0 <= j0 < old_keys.len() && old_keys[j0] == k);
                            let j = if j0 == last { i as int } else { j0 };
                            assert(self.key_seq()[j] == k);
                        }
                    }
                    assert forall|k: Seq<char>| #[trigger]
                        self@.contains_key(k) implies self@[k] == old(self)@.remove(key@)[k] by {
                        let j = self.key_seq().index_of(k);
                        assert(0 <= j < self.key_seq().len() && self.key_seq()[j] == k);
                        let j0 = if j == i { last } else { j };
                        assert(old_keys[j0] == k);
                        old(self).lemma_value_at(j0);
                    }
                    assert(self@ =~= old(self)@.remove(key@));
                }
                Some(previous)
            },
            None => {
                assert(self@ =~= old(self)@.remove(key@));
                None
            },
        }
    }

    /// Stores every item of `items` in turn.
    pub fn extend(&mut self, items: Vec<(String, V)>)
        requires
            old(self).wf(),
        ensures
            final(self).wf(),
            final(self)@ == map_after_extend(old(self)@, items@),
            final(self).key_seq() == keys_after_extend(old(self).key_seq(), items@),
            final(self).prefix() == old(self).prefix(),
    {
        let mut i: usize = 0;
        while i < items.len()
            invariant
                i <= items@.len(),
                self.wf(),
                self@ == map_after_extend(old(self)@, items@.subrange(0, i as int)),
                self.key_seq() == keys_after_extend(
                    old(self).key_seq(),
                    items@.subrange(0, i as int),
                ),
                self.prefix() == old(self).prefix(),
            decreases items@.len() - i,
        {
            let ghost done = items@.subrange(0, i as int);
            let ghost next = items@.subrange(0, i + 1);
            self.insert(&items[i].0, &items[i].1);
            i = i + 1;
            proof {
                assert(next.drop_last() =~= done);
                assert(next.last() == items@[i - 1]);
            }
        }
        assert(items@.subrange(0, i as int) =~= items@);
    }
}

} // verus!
