//! A small table keyed by text, kept as a list of slots with distinct keys.
//! Its model is a map from the key's characters to the value.

use vstd::prelude::*;
use vstd::string::StringExecFns;

verus! {

/// One key with its value.
pub struct Slot<V> {
    pub key: String,
    pub value: V,
}

/// A table keyed by text. No key occurs twice.
pub struct Table<V> {
    slots: Vec<Slot<V>>,
}

/// The map that a list of slots stands for. Where a key occurs twice, the
/// later slot wins.
pub open spec fn model<V>(slots: Seq<Slot<V>>) -> Map<Seq<char>, V>
    decreases slots.len(),
{
    if slots.len() == 0 {
        Map::empty()
    } else {
        model(slots.drop_last()).insert(slots.last().key@, slots.last().value)
    }
}

/// No two slots share a key.
pub open spec fn distinct_keys<V>(slots: Seq<Slot<V>>) -> bool {
    forall|i: int, j: int|
        0 <= i < slots.len() && 0 <= j < slots.len() && i != j ==> slots[i].key@ != slots[j].key@
}

/// True where some slot has this key.
pub open spec fn has_key<V>(slots: Seq<Slot<V>>, key: Seq<char>) -> bool {
    exists|i: int| 0 <= i < slots.len() && slots[i].key@ == key
}

proof fn lemma_model_domain<V>(slots: Seq<Slot<V>>, key: Seq<char>)
    ensures
        model(slots).dom().contains(key) <==> has_key(slots, key),
    decreases slots.len(),
{
    if slots.len() > 0 {
        let front = slots.drop_last();
        lemma_model_domain(front, key);
        if has_key(front, key) {
            let i = choose|i: int| 0 <= i < front.len() && front[i].key@ == key;
            assert(slots[i].key@ == key);
        }
        if has_key(slots, key) && slots.last().key@ != key {
            let i = choose|i: int| 0 <= i < slots.len() && slots[i].key@ == key;
            assert(front[i].key@ == key);
        }
        if slots.last().key@ == key {
            assert(slots[slots.len() - 1].key@ == key);
        }
    }
}

proof fn lemma_model_value<V>(slots: Seq<Slot<V>>, i: int)
    requires
        distinct_keys(slots),
        0 <= i < slots.len(),
    ensures
        model(slots).dom().contains(slots[i].key@),
        model(slots)[slots[i].key@] == slots[i].value,
    decreases slots.len(),
{
    let front = slots.drop_last();
    if i < slots.len() - 1 {
        assert(distinct_keys(front)) by {
            assert forall|a: int, b: int|
                0 <= a < front.len() && 0 <= b < front.len() && a != b implies front[a].key@
                != front[b].key@ by {
                assert(slots[a].key@ != slots[b].key@);
            }
        }
        lemma_model_value(front, i);
        assert(slots[i].key@ != slots[slots.len() - 1].key@);
    }
}

proof fn lemma_model_push<V>(slots: Seq<Slot<V>>, slot: Slot<V>)
    ensures
        model(slots.push(slot)) == model(slots).insert(slot.key@, slot.value),
{
    assert(slots.push(slot).drop_last() =~= slots);
}

proof fn lemma_model_remove<V>(slots: Seq<Slot<V>>, i: int)
    requires
        distinct_keys(slots),
        0 <= i < slots.len(),
    ensures
        distinct_keys(slots.remove(i)),
        model(slots.remove(i)) == model(slots).remove(slots[i].key@),
    decreases slots.len(),
{
    let rest = slots.remove(i);
    let front = slots.drop_last();
    assert forall|a: int, b: int|
        0 <= a < rest.len() && 0 <= b < rest.len() && a != b implies rest[a].key@
        != rest[b].key@ by {
        let a0 = if a < i { a } else { a + 1 };
        let b0 = if b < i { b } else { b + 1 };
        assert(slots[a0].key@ != slots[b0].key@);
    }
    if i == slots.len() - 1 {
        assert(rest =~= front);
        lemma_model_domain(front, slots[i].key@);
        if has_key(front, slots[i].key@) {
            let j = choose|j: int| 0 <= j < front.len() && front[j].key@ == slots[i].key@;
            assert(slots[j].key@ != slots[i].key@);
        }
        assert(model(front) =~= model(slots).remove(slots[i].key@));
    } else {
        assert(distinct_keys(front)) by {
            assert forall|a: int, b: int|
                0 <= a < front.len() && 0 <= b < front.len() && a != b implies front[a].key@
                != front[b].key@ by {
                assert(slots[a].key@ != slots[b].key@);
            }
        }
        lemma_model_remove(front, i);
        assert(rest.drop_last() =~= front.remove(i));
        assert(rest.last() == slots.last());
        assert(slots[i].key@ != slots[slots.len() - 1].key@);
        assert(model(rest) =~= model(slots).remove(slots[i].key@));
    }
}

impl<V> View for Table<V> {
    type V = Map<Seq<char>, V>;

    closed spec fn view(&self) -> Map<Seq<char>, V> {
        model(self.slots@)
    }
}

impl<V> Table<V> {
    /// The representation is sound: no key occurs twice.
    pub closed spec fn wf(&self) -> bool {
        distinct_keys(self.slots@)
    }

    /// The number of slots in the representation.
    pub closed spec fn spec_len(&self) -> nat {
        self.slots@.len()
    }

    /// An empty table.
    pub fn new() -> (t: Table<V>)
        ensures
            t.wf(),
            t@ == Map::<Seq<char>, V>::empty(),
            t.spec_len() == 0,
    {
        Table { slots: Vec::new() }
    }

    /// A table holds as many slots as its map has keys.
    pub proof fn lemma_len(&self)
        requires
            self.wf(),
        ensures
            self@.dom().finite(),
            self@.dom().len() == self.spec_len(),
    {
        Self::lemma_count(self.slots@);
    }

    proof fn lemma_count(slots: Seq<Slot<V>>)
        requires
            distinct_keys(slots),
        ensures
            model(slots).dom().finite(),
            model(slots).dom().len() == slots.len(),
        decreases slots.len(),
    {
        if slots.len() > 0 {
            let front = slots.drop_last();
            assert(distinct_keys(front)) by {
                assert forall|a: int, b: int|
                    0 <= a < front.len() && 0 <= b < front.len() && a != b implies front[a].key@
                    != front[b].key@ by {
                    assert(slots[a].key@ != slots[b].key@);
                }
            }
            Self::lemma_count(front);
            lemma_model_domain(front, slots.last().key@);
            if has_key(front, slots.last().key@) {
                let j = choose|j: int| 0 <= j < front.len() && front[j].key@ == slots.last().key@;
                assert(slots[j].key@ != slots[slots.len() - 1].key@);
            }
            assert(model(slots).dom() =~= model(front).dom().insert(slots.last().key@));
        }
    }

    /// The number of keys.
    pub fn len(&self) -> (n: usize)
        requires
            self.wf(),
        ensures
            n == self@.dom().len(),
            n == self.spec_len(),
    {
        proof {
            self.lemma_len();
        }
        self.slots.len()
    }

    fn position(&self, key: &str) -> (r: Option<usize>)
        requires
            self.wf(),
        ensures
            match r {
                Some(i) => i < self.slots@.len() && self.slots@[i as int].key@ == key@,
                None => !has_key(self.slots@, key@),
            },
    {
        let wanted = String::from_str(key);
        let mut i: usize = 0;
        while i < self.slots.len()
            invariant
                i <= self.slots@.len(),
                wanted@ == key@,
                forall|j: int| 0 <= j < i ==> self.slots@[j].key@ != key@,
            decreases self.slots@.len() - i,
        {
            if self.slots[i].key == wanted {
                return Some(i);
            }
            i += 1;
        }
        None
    }

    /// True where the table has this key.
    pub fn contains_key(&self, key: &str) -> (b: bool)
        requires
            self.wf(),
        ensures
            b == self@.dom().contains(key@),
    {
        proof {
            lemma_model_domain(self.slots@, key@);
        }
        self.position(key).is_some()
    }

    /// The value under this key, if the table has the key.
    pub fn get(&self, key: &str) -> (r: Option<&V>)
        requires
            self.wf(),
        ensures
            match r {
                Some(value) => self@.dom().contains(key@) && *value == self@[key@],
                None => !self@.dom().contains(key@),
            },
    {
        proof {
            lemma_model_domain(self.slots@, key@);
        }
        match self.position(key) {
            Some(i) => {
                proof {
                    lemma_model_value(self.slots@, i as int);
                }
                Some(&self.slots[i].value)
            },
            None => None,
        }
    }

    /// Takes the value under this key out of the table, if the table has the
    /// key.
    pub fn remove(&mut self, key: &str) -> (r: Option<V>)
        requires
            old(self).wf(),
        ensures
            final(self).wf(),
            final(self)@ == old(self)@.remove(key@),
            match r {
                Some(value) => old(self)@.dom().contains(key@) && value == old(self)@[key@],
                None => !old(self)@.dom().contains(key@),
            },
    {
        proof {
            lemma_model_domain(self.slots@, key@);
        }
        match self.position(key) {
            Some(i) => {
                proof {
                    lemma_model_value(self.slots@, i as int);
                    lemma_model_remove(self.slots@, i as int);
                }
                let slot = self.slots.remove(i);
                Some(slot.value)
            },
            None => {
                assert(self@ =~= self@.remove(key@));
                None
            },
        }
    }

    /// Puts `value` under `key`. A value that was there before is taken out
    /// first and handed back.
    pub fn insert(&mut self, key: String, value: V) -> (displaced: Option<V>)
        requires
            old(self).wf(),
        ensures
            final(self).wf(),
            final(self)@ == old(self)@.insert(key@, value),
            match displaced {
                Some(before) => old(self)@.dom().contains(key@) && before == old(self)@[key@],
                None => !old(self)@.dom().contains(key@),
            },
    {
        let displaced = self.remove(key.as_str());
        proof {
            lemma_model_domain(self.slots@, key@);
            lemma_model_push(self.slots@, Slot { key, value });
            assert(old(self)@.remove(key@).insert(key@, value) =~= old(self)@.insert(key@, value));
            let grown = self.slots@.push(Slot { key, value });
            assert forall|a: int, b: int|
                0 <= a < grown.len() && 0 <= b < grown.len() && a != b implies grown[a].key@
                != grown[b].key@ by {
                if a < self.slots@.len() {
                    assert(self.slots@[a].key@ == grown[a].key@);
                }
                if b < self.slots@.len() {
                    assert(self.slots@[b].key@ == grown[b].key@);
                }
            }
        }
        self.slots.push(Slot { key, value });
        displaced
    }
}

} // verus!
