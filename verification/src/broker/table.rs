//! The dispatch table: pending delivery targets filed under correlation
//! keys, at most one under each key.

use vstd::prelude::*;
use crate::broker::model::{Entry, Key, Kind, Slot, Stream};
use crate::model::text::same_text;

verus! {

/// No two slots are filed under the same key.
pub open spec fn distinct<O, S, P>(slots: Seq<Slot<O, S, P>>) -> bool {
    forall|i: int, j: int|
        0 <= i < j < slots.len() ==> (#[trigger] slots[i]).key != (#[trigger] slots[j]).key
}

/// Some slot is filed under the key.
pub open spec fn filed<O, S, P>(slots: Seq<Slot<O, S, P>>, key: Key) -> bool {
    exists|i: int| 0 <= i < slots.len() && (#[trigger] slots[i]).key == key
}

/// The place of the first slot filed under the key, or the number of slots
/// if there is none.
pub open spec fn position<O, S, P>(slots: Seq<Slot<O, S, P>>, key: Key) -> int
    decreases slots.len(),
{
    if slots.len() == 0 {
        0
    } else {
        let p = position(slots.drop_last(), key);
        if p < slots.len() - 1 {
            p
        } else if slots.last().key == key {
            slots.len() - 1
        } else {
            slots.len() as int
        }
    }
}

/// The entry filed under the key, if any.
pub open spec fn lookup<O, S, P>(slots: Seq<Slot<O, S, P>>, key: Key) -> Option<Entry<O, S, P>> {
    let p = position(slots, key);
    if p < slots.len() {
        Some(slots[p].entry)
    } else {
        None
    }
}

/// `p` is where the first slot under the key stands.
pub open spec fn is_position<O, S, P>(slots: Seq<Slot<O, S, P>>, key: Key, p: int) -> bool {
    &&& 0 <= p <= slots.len()
    &&& forall|j: int| 0 <= j < p ==> (#[trigger] slots[j]).key != key
    &&& p < slots.len() ==> slots[p].key == key
}

/// `position` finds the first slot under the key.
pub proof fn lemma_position<O, S, P>(slots: Seq<Slot<O, S, P>>, key: Key)
    ensures
        is_position(slots, key, position(slots, key)),
        filed(slots, key) <==> position(slots, key) < slots.len(),
    decreases slots.len(),
{
    if slots.len() > 0 {
        let init = slots.drop_last();
        lemma_position(init, key);
        let p = position(init, key);
        assert forall|j: int| 0 <= j < position(slots, key) implies (#[trigger] slots[j]).key
            != key by {
            if j < init.len() {
                assert(slots[j] == init[j]);
            }
        }
        if p < init.len() {
            assert(slots[p] == init[p]);
        }
    }
    let q = position(slots, key);
    if filed(slots, key) {
        let i = choose|i: int| 0 <= i < slots.len() && (#[trigger] slots[i]).key == key;
        assert(q <= i);
    }
}

/// Only one place is the first under a key.
pub proof fn lemma_position_unique<O, S, P>(slots: Seq<Slot<O, S, P>>, key: Key, p: int)
    requires
        is_position(slots, key, p),
    ensures
        position(slots, key) == p,
{
    lemma_position(slots, key);
    let q = position(slots, key);
    if q < p {
        assert(slots[q].key == key);
    } else if p < q {
        assert(slots[p].key == key);
    }
}

/// The slot holds a broadcast subscription that listens for the topic.
pub open spec fn listens<O, S, P>(slot: Slot<O, S, P>, topic: Seq<char>) -> bool {
    &&& slot.key.kind == Kind::Broadcast
    &&& slot.entry matches Entry::Stream(stream)
    &&& stream.topic matches Some(t)
    &&& t@ == topic
}

/// The keys of the broadcast subscriptions that listen for the topic, oldest
/// first.
pub open spec fn listeners<O, S, P>(slots: Seq<Slot<O, S, P>>, topic: Seq<char>) -> Seq<Key>
    decreases slots.len(),
{
    if slots.len() == 0 {
        Seq::empty()
    } else if listens(slots.last(), topic) {
        listeners(slots.drop_last(), topic).push(slots.last().key)
    } else {
        listeners(slots.drop_last(), topic)
    }
}

/// The dispatch table. Its entries stand in the order in which they were
/// filed, and no key occurs twice.
pub struct DispatchTable<O, S, P> {
    slots: Vec<Slot<O, S, P>>,
}

impl<O, S, P> DispatchTable<O, S, P> {
    #[verifier::type_invariant]
    spec fn well_formed(self) -> bool {
        distinct(self.slots@)
    }

    /// The pending entries, oldest first.
    pub closed spec fn entries(self) -> Seq<Slot<O, S, P>> {
        self.slots@
    }

    /// An empty table.
    pub fn new() -> (t: Self)
        ensures
            t.entries() == Seq::<Slot<O, S, P>>::empty(),
    {
        DispatchTable { slots: Vec::new() }
    }

    /// The number of pending entries, no two of them under one key.
    pub fn len(&self) -> (n: usize)
        ensures
            n == self.entries().len(),
            distinct(self.entries()),
    {
        proof {
            use_type_invariant(self);
        }
        self.slots.len()
    }

    /// Where the entry under the key stands, or the number of entries.
    fn find(&self, key: Key) -> (p: usize)
        ensures
            p == position(self.entries(), key),
            p <= self.entries().len(),
    {
        let mut i: usize = 0;
        while i < self.slots.len()
            invariant
                i <= self.slots@.len(),
                forall|j: int| 0 <= j < i ==> (#[trigger] self.slots@[j]).key != key,
            decreases self.slots@.len() - i,
        {
            if self.slots[i].key == key {
                proof {
                    lemma_position_unique(self.slots@, key, i as int);
                }
                return i;
            }
            i = i + 1;
        }
        proof {
            lemma_position_unique(self.slots@, key, i as int);
        }
        i
    }

    /// Whether an entry is filed under the key.
    pub fn contains(&self, kind: Kind, id: u128) -> (b: bool)
        ensures
            b == filed(self.entries(), Key { kind, id }),
    {
        let key = Key { kind, id };
        let p = self.find(key);
        proof {
            lemma_position(self.slots@, key);
        }
        p < self.slots.len()
    }

    /// Takes the slots out, leaving the table empty.
    fn take_slots(&mut self) -> (slots: Vec<Slot<O, S, P>>)
        ensures
            slots@ == old(self).entries(),
            distinct(slots@),
            final(self).entries() == Seq::<Slot<O, S, P>>::empty(),
    {
        proof {
            use_type_invariant(&*self);
        }
        let mut owned = DispatchTable { slots: Vec::new() };
        std::mem::swap(self, &mut owned);
        owned.slots
    }

    /// Puts slots in place of those that the table holds.
    fn put_slots(&mut self, slots: Vec<Slot<O, S, P>>)
        requires
            distinct(slots@),
        ensures
            final(self).entries() == slots@,
    {
        *self = DispatchTable { slots };
    }

    /// Files an entry under a key that is free.
    fn insert(&mut self, key: Key, entry: Entry<O, S, P>)
        requires
            !filed(old(self).entries(), key),
        ensures
            final(self).entries() == old(self).entries().push(Slot { key, entry }),
    {
        let mut slots = self.take_slots();
        let ghost before = slots@;
        slots.push(Slot { key, entry });
        proof {
            let after = before.push(Slot { key, entry });
            assert forall|i: int, j: int| 0 <= i < j < after.len() implies (#[trigger] after[i]).key
                != (#[trigger] after[j]).key by {
                if j < before.len() {
                    assert(after[i] == before[i] && after[j] == before[j]);
                } else {
                    assert(after[i] == before[i]);
                }
            }
        }
        self.put_slots(slots);
    }

    /// Takes out the slot at a place.
    fn remove(&mut self, p: usize) -> (slot: Slot<O, S, P>)
        requires
            p < old(self).entries().len(),
        ensures
            slot == old(self).entries()[p as int],
            final(self).entries() == old(self).entries().remove(p as int),
    {
        let mut slots = self.take_slots();
        let ghost before = slots@;
        let slot = slots.remove(p);
        proof {
            let after = before.remove(p as int);
            assert forall|i: int, j: int| 0 <= i < j < after.len() implies (#[trigger] after[i]).key
                != (#[trigger] after[j]).key by {
                let a = if i < p { i } else { i + 1 };
                let b = if j < p { j } else { j + 1 };
                assert(after[i] == before[a] && after[j] == before[b]);
            }
        }
        self.put_slots(slots);
        slot
    }

    /// Files a one-shot target. A key that is taken is refused, and the
    /// target comes back.
    pub fn insert_one_shot(&mut self, kind: Kind, id: u128, target: O) -> (r: Result<(), O>)
        ensures
            match r {
                Ok(_) => {
                    &&& !filed(old(self).entries(), Key { kind, id })
                    &&& final(self).entries() == old(self).entries().push(
                        Slot { key: Key { kind, id }, entry: Entry::OneShot(target) },
                    )
                },
                Err(back) => {
                    &&& filed(old(self).entries(), Key { kind, id })
                    &&& back == target
                    &&& final(self).entries() == old(self).entries()
                },
            },
    {
        if self.contains(kind, id) {
            Err(target)
        } else {
            self.insert(Key { kind, id }, Entry::OneShot(target));
            Ok(())
        }
    }

    /// Files a stream target. A key that is taken is refused, and the target
    /// comes back.
    pub fn insert_stream(&mut self, kind: Kind, id: u128, stream: Stream<S, P>) -> (r: Result<
        (),
        Stream<S, P>,
    >)
        ensures
            match r {
                Ok(_) => {
                    &&& !filed(old(self).entries(), Key { kind, id })
                    &&& final(self).entries() == old(self).entries().push(
                        Slot { key: Key { kind, id }, entry: Entry::Stream(stream) },
                    )
                },
                Err(back) => {
                    &&& filed(old(self).entries(), Key { kind, id })
                    &&& back == stream
                    &&& final(self).entries() == old(self).entries()
                },
            },
    {
        if self.contains(kind, id) {
            Err(stream)
        } else {
            self.insert(Key { kind, id }, Entry::Stream(stream));
            Ok(())
        }
    }

    /// Removes the one-shot target under the key and hands it out. Without
    /// such an entry nothing changes.
    pub fn take_one_shot(&mut self, kind: Kind, id: u128) -> (r: Option<O>)
        ensures
            match lookup(old(self).entries(), Key { kind, id }) {
                Some(Entry::OneShot(target)) => {
                    &&& r == Some(target)
                    &&& final(self).entries() == old(self).entries().remove(
                        position(old(self).entries(), Key { kind, id }),
                    )
                },
                _ => r is None && final(self).entries() == old(self).entries(),
            },
    {
        let p = self.find(Key { kind, id });
        if p < self.slots.len() {
            if let Entry::OneShot(_) = &self.slots[p].entry {
                let slot = self.remove(p);
                if let Entry::OneShot(target) = slot.entry {
                    return Some(target);
                }
            }
        }
        None
    }

    /// The stream target under the key, which stays in the table.
    pub fn peek_stream(&self, kind: Kind, id: u128) -> (r: Option<&Stream<S, P>>)
        ensures
            match lookup(self.entries(), Key { kind, id }) {
                Some(Entry::Stream(stream)) => r == Some(&stream),
                _ => r is None,
            },
    {
        let p = self.find(Key { kind, id });
        if p < self.slots.len() {
            if let Entry::Stream(stream) = &self.slots[p].entry {
                return Some(stream);
            }
        }
        None
    }

    /// The keys of the broadcast subscriptions that listen for the topic,
    /// oldest first. They stay in the table.
    pub fn listeners(&self, topic: &str) -> (keys: Vec<Key>)
        ensures
            keys@ == listeners(self.entries(), topic@),
    {
        let mut keys: Vec<Key> = Vec::new();
        let mut i: usize = 0;
        while i < self.slots.len()
            invariant
                i <= self.slots@.len(),
                keys@ == listeners(self.slots@.take(i as int), topic@),
            decreases self.slots@.len() - i,
        {
            proof {
                assert(self.slots@.take(i + 1).drop_last() =~= self.slots@.take(i as int));
                assert(self.slots@.take(i + 1).last() == self.slots@[i as int]);
            }
            let slot = &self.slots[i];
            let hit = match (&slot.key.kind, &slot.entry) {
                (Kind::Broadcast, Entry::Stream(stream)) => match &stream.topic {
                    Some(t) => same_text(t.as_str(), topic),
                    None => false,
                },
                _ => false,
            };
            if hit {
                keys.push(slot.key);
            }
            i = i + 1;
        }
        proof {
            assert(self.slots@.take(i as int) =~= self.slots@);
        }
        keys
    }

    /// Removes the stream target under the key and hands it out. Without
    /// such an entry nothing changes.
    pub fn remove_stream(&mut self, kind: Kind, id: u128) -> (r: Option<Stream<S, P>>)
        ensures
            match lookup(old(self).entries(), Key { kind, id }) {
                Some(Entry::Stream(stream)) => {
                    &&& r == Some(stream)
                    &&& final(self).entries() == old(self).entries().remove(
                        position(old(self).entries(), Key { kind, id }),
                    )
                },
                _ => r is None && final(self).entries() == old(self).entries(),
            },
    {
        let p = self.find(Key { kind, id });
        if p < self.slots.len() {
            if let Entry::Stream(_) = &self.slots[p].entry {
                let slot = self.remove(p);
                if let Entry::Stream(stream) = slot.entry {
                    return Some(stream);
                }
            }
        }
        None
    }

    /// Empties the table and hands out everything that was pending, oldest
    /// first.
    pub fn drain_all(&mut self) -> (all: Vec<Slot<O, S, P>>)
        ensures
            all@ == old(self).entries(),
            final(self).entries() == Seq::<Slot<O, S, P>>::empty(),
    {
        self.take_slots()
    }
}

} // verus!
