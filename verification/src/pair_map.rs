//! A map keyed by pool and recipient.
//!
//! The ledger and the engine's table of claims in flight are both keyed by
//! the pair of a pool and a recipient. `PairMap` holds such a mapping in a
//! vector and searches it linearly; its view is a `Map`.

use vstd::prelude::*;
use crate::identity::Identity;
use crate::pool::Pool;

verus! {

/// One entry of a `PairMap`.
pub struct Entry<V> {
    pub pool: Pool,
    pub recipient: Identity,
    pub value: V,
}

impl<V> Entry<V> {
    /// The pair that the entry is stored under.
    pub open spec fn key(self) -> (Pool, Identity) {
        (self.pool, self.recipient)
    }
}

/// A finite map from pairs of a pool and a recipient to values.
pub struct PairMap<V> {
    entries: Vec<Entry<V>>,
    model: Ghost<Map<(Pool, Identity), V>>,
}

impl<V> View for PairMap<V> {
    type V = Map<(Pool, Identity), V>;

    closed spec fn view(&self) -> Map<(Pool, Identity), V> {
        self.model@
    }
}

impl<V: Copy> PairMap<V> {
    /// The map's invariant: the entries hold each key of the view once,
    /// with its value, and nothing else.
    pub closed spec fn wf(&self) -> bool {
        let es = self.entries@;
        let m = self.model@;
        &&& forall|i: int|
            0 <= i < es.len() ==> m.contains_key((#[trigger] es[i]).key()) && m[es[i].key()]
                == es[i].value
        &&& forall|k: (Pool, Identity)| #[trigger]
            m.contains_key(k) ==> exists|i: int| 0 <= i < es.len() && (#[trigger] es[i]).key() == k
        &&& forall|i: int, j: int|
            0 <= i < j < es.len() ==> (#[trigger] es[i]).key() != (#[trigger] es[j]).key()
    }

    /// The entries in the order in which their keys were first stored.
    pub closed spec fn entries(&self) -> Seq<Entry<V>> {
        self.entries@
    }

    /// The entries are the view: every entry is in the view under its key,
    /// every key of the view has an entry, and no two entries share a key.
    pub proof fn lemma_entries(&self)
        requires
            self.wf(),
        ensures
            forall|i: int|
                0 <= i < self.entries().len() ==> self@.contains_key(
                    (#[trigger] self.entries()[i]).key(),
                ) && self@[self.entries()[i].key()] == self.entries()[i].value,
            forall|k: (Pool, Identity)| #[trigger]
                self@.contains_key(k) ==> exists|i: int|
                    0 <= i < self.entries().len() && (#[trigger] self.entries()[i]).key() == k,
            forall|i: int, j: int|
                0 <= i < j < self.entries().len() ==> (#[trigger] self.entries()[i]).key() != (
                #[trigger] self.entries()[j]).key(),
    {
    }

    /// The empty map.
    pub fn new() -> (r: PairMap<V>)
        ensures
            r.wf(),
            r@ == Map::<(Pool, Identity), V>::empty(),
            r.entries().len() == 0,
    {
        PairMap { entries: Vec::new(), model: Ghost(Map::empty()) }
    }

    /// Where the entry of a pair stands, if the map has one.
    fn find(&self, pool: Pool, recipient: &Identity) -> (r: Option<usize>)
        requires
            self.wf(),
        ensures
            r is Some <==> self@.contains_key((pool, *recipient)),
            r matches Some(i) ==> i < self.entries@.len() && self.entries@[i as int].key() == (
                pool,
                *recipient,
            ),
    {
        let mut i: usize = 0;
        while i < self.entries.len()
            invariant
                self.wf(),
                0 <= i <= self.entries.len(),
                forall|k: int| 0 <= k < i ==> (#[trigger] self.entries@[k]).key() != (pool, *recipient),
            decreases self.entries.len() - i,
        {
            if self.entries[i].pool == pool && self.entries[i].recipient.same(recipient) {
                return Some(i);
            }
            i += 1;
        }
        None
    }

    /// The value stored under a pair, if there is one.
    pub fn get(&self, pool: Pool, recipient: &Identity) -> (r: Option<V>)
        requires
            self.wf(),
        ensures
            r is Some <==> self@.contains_key((pool, *recipient)),
            r matches Some(v) ==> v == self@[(pool, *recipient)],
    {
        match self.find(pool, recipient) {
            Some(i) => Some(self.entries[i].value),
            None => None,
        }
    }

    /// Stores a value under a pair. It takes the place of the value that
    /// was there; a new pair goes to the end of the entries.
    pub fn put(&mut self, pool: Pool, recipient: Identity, value: V)
        requires
            old(self).wf(),
        ensures
            final(self).wf(),
            final(self)@ == old(self)@.insert((pool, recipient), value),
            !old(self)@.contains_key((pool, recipient)) ==> final(self).entries() == old(
                self,
            ).entries().push(Entry { pool, recipient, value }),
            old(self)@.contains_key((pool, recipient)) ==> final(self).entries().len() == old(
                self,
            ).entries().len() && forall|i: int|
                0 <= i < old(self).entries().len() ==> #[trigger] final(self).entries()[i]
                    == if old(self).entries()[i].key() == (pool, recipient) {
                    Entry { pool, recipient, value }
                } else {
                    old(self).entries()[i]
                },
    {
        let ghost before = self.entries@;
        match self.find(pool, &recipient) {
            Some(i) => {
                self.entries[i] = Entry { pool, recipient, value };
                assert(self.entries@ == before.update(i as int, Entry { pool, recipient, value }));
                assert forall|j: int| 0 <= j < before.len() implies #[trigger] self.entries@[j]
                    == if before[j].key() == (pool, recipient) {
                    Entry { pool, recipient, value }
                } else {
                    before[j]
                } by {
                    if j < i {
                        assert(before[j].key() != before[i as int].key());
                    } else if i < j {
                        assert(before[i as int].key() != before[j].key());
                    }
                }
            },
            None => {
                self.entries.push(Entry { pool, recipient, value });
                assert(self.entries@ == before.push(Entry { pool, recipient, value }));
            },
        }
        self.model = Ghost(self.model@.insert((pool, recipient), value));
        proof {
            let es = self.entries@;
            let m = self.model@;
            assert forall|k: (Pool, Identity)| #[trigger] m.contains_key(k) implies exists|i: int|
                0 <= i < es.len() && (#[trigger] es[i]).key() == k by {
                if k == (pool, recipient) {
                    if old(self)@.contains_key(k) {
                        let i = choose|i: int|
                            0 <= i < before.len() && (#[trigger] before[i]).key() == k;
                        assert(es[i].key() == k);
                    } else {
                        assert(es[before.len() as int].key() == k);
                    }
                } else {
                    let i = choose|i: int|
                        0 <= i < before.len() && (#[trigger] before[i]).key() == k;
                    assert(es[i].key() == k);
                }
            }
        }
    }

    /// Takes out the value stored under a pair, if there is one. The other
    /// entries keep their order.
    pub fn remove(&mut self, pool: Pool, recipient: &Identity) -> (r: Option<V>)
        requires
            old(self).wf(),
        ensures
            final(self).wf(),
            final(self)@ == old(self)@.remove((pool, *recipient)),
            r is Some <==> old(self)@.contains_key((pool, *recipient)),
            r matches Some(v) ==> v == old(self)@[(pool, *recipient)],
            r is None ==> final(self).entries() == old(self).entries(),
            r is Some ==> exists|i: int|
                0 <= i < old(self).entries().len() && (#[trigger] old(self).entries()[i]).key() == (
                    pool,
                    *recipient,
                ) && final(self).entries() == old(self).entries().remove(i),
    {
        let ghost before = self.entries@;
        match self.find(pool, recipient) {
            Some(i) => {
                let entry = self.entries.remove(i);
                self.model = Ghost(self.model@.remove((pool, *recipient)));
                proof {
                    let es = self.entries@;
                    let m = self.model@;
                    assert(es == before.remove(i as int));
                    assert(before[i as int].key() == (pool, *recipient));
                    assert forall|j: int| 0 <= j < es.len() implies m.contains_key(
                        (#[trigger] es[j]).key(),
                    ) && m[es[j].key()] == es[j].value by {
                        if j < i {
                            assert(es[j] == before[j]);
                        } else {
                            assert(es[j] == before[j + 1]);
                        }
                    }
                    assert forall|k: (Pool, Identity)| #[trigger] m.contains_key(k) implies exists|
                        j: int,
                    | 0 <= j < es.len() && (#[trigger] es[j]).key() == k by {
                        let b = choose|b: int|
                            0 <= b < before.len() && (#[trigger] before[b]).key() == k;
                        if b < i {
                            assert(es[b].key() == k);
                        } else {
                            assert(es[b - 1] == before[b]);
                            assert(es[b - 1].key() == k);
                        }
                    }
                    assert forall|a: int, b: int| 0 <= a < b < es.len() implies (
                    #[trigger] es[a]).key() != (#[trigger] es[b]).key() by {
                        let a0 = if a < i { a } else { a + 1 };
                        let b0 = if b < i { b } else { b + 1 };
                        assert(es[a] == before[a0] && es[b] == before[b0]);
                    }
                    assert(old(self).entries()[i as int].key() == (pool, *recipient)
                        && self.entries() == old(self).entries().remove(i as int));
                }
                Some(entry.value)
            },
            None => {
                assert(self.model@ =~= old(self)@.remove((pool, *recipient)));
                None
            },
        }
    }

    /// The number of entries.
    pub fn len(&self) -> (r: usize)
        ensures
            r == self.entries().len(),
    {
        self.entries.len()
    }

    /// The entry at a position, in the order in which the keys were first
    /// stored.
    pub fn entry_at(&self, index: usize) -> (r: Option<(Pool, Identity, V)>)
        ensures
            r is Some <==> index < self.entries().len(),
            r matches Some(e) ==> e == (
                self.entries()[index as int].pool,
                self.entries()[index as int].recipient,
                self.entries()[index as int].value,
            ),
    {
        if index < self.entries.len() {
            Some(
                (
                    self.entries[index].pool,
                    self.entries[index].recipient,
                    self.entries[index].value,
                ),
            )
        } else {
            None
        }
    }
}

} // verus!
