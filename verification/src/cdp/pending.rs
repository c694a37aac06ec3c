//! Who waits for which answer.

use std::collections::HashMap;

use vstd::prelude::*;

verus! {

broadcast use vstd::std_specs::hash::group_hash_axioms;

/// The slots in which senders wait, each under the number of its command.
pub struct Pending<T> {
    entries: HashMap<u64, T>,
}

impl<T> View for Pending<T> {
    type V = Map<u64, T>;

    closed spec fn view(&self) -> Map<u64, T> {
        self.entries@
    }
}

impl<T> Pending<T> {
    /// Nobody waits.
    pub fn new() -> (p: Pending<T>)
        ensures
            p@ == Map::<u64, T>::empty(),
    {
        Pending { entries: HashMap::new() }
    }

    /// Lets a sender wait under the number `id`, in place of any that did.
    pub fn insert(&mut self, id: u64, slot: T)
        ensures
            final(self)@ == old(self)@.insert(id, slot),
    {
        let _before = self.entries.insert(id, slot);
    }

    /// Takes out who waits under the number `id`.
    pub fn remove(&mut self, id: u64) -> (r: Option<T>)
        ensures
            final(self)@ == old(self)@.remove(id),
            r == (if old(self)@.contains_key(id) {
                Some(old(self)@[id])
            } else {
                None
            }),
    {
        let r = self.entries.remove(&id);
        assert(self@ =~= old(self)@.remove(id));
        r
    }

    /// How many senders wait.
    pub open spec fn size(&self) -> nat {
        self@.dom().len()
    }

    /// The number of somebody who waits, where anybody does.
    fn somebody(&self) -> (r: Option<u64>)
        ensures
            match r {
                Some(id) => self@.contains_key(id),
                None => self@ == Map::<u64, T>::empty(),
            },
    {
        for id in keys: self.entries.keys()
            invariant
                keys.index() == 0,
                keys.seq().unref().to_set() == self@.dom(),
        {
            assert(keys.seq().unref()[0] == *id);
            assert(keys.seq().unref().to_set().contains(*id));
            return Some(*id);
        }
        assert(self@ =~= Map::<u64, T>::empty());
        None
    }

    /// Takes out somebody who waits, or says that nobody does.
    pub fn take(&mut self) -> (r: Option<(u64, T)>)
        ensures
            match r {
                Some(entry) => {
                    &&& old(self)@.contains_key(entry.0)
                    &&& old(self)@[entry.0] == entry.1
                    &&& final(self)@ == old(self)@.remove(entry.0)
                    &&& final(self).size() + 1 == old(self).size()
                },
                None => {
                    &&& old(self)@ == Map::<u64, T>::empty()
                    &&& final(self)@ == old(self)@
                },
            },
    {
        match self.somebody() {
            Some(id) => match self.remove(id) {
                Some(slot) => Some((id, slot)),
                None => None,
            },
            None => None,
        }
    }
}

} // verus!
