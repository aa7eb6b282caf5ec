//! The connection registry: which clients are connected, and through what.
//!
//! An entry is added when a connection is established and removed when the
//! transport reports it closed. Broadcasting works on a point-in-time copy,
//! so that no lock around the registry is held while bytes are sent.

use std::collections::HashMap;
use vstd::prelude::*;
use vstd::std_specs::iter::IteratorSpec;

verus! {

broadcast use vstd::std_specs::hash::group_hash_axioms;

/// Identifies one live connection.
pub type ClientId = u64;

/// A mapping from client to connection handle, with unique keys and no order.
///
/// The handle type is the caller's: the registry stores handles, hands out
/// copies and never looks inside one.
pub struct ConnectionRegistry<H> {
    entries: HashMap<ClientId, H>,
}

impl<H> View for ConnectionRegistry<H> {
    type V = Map<ClientId, H>;

    closed spec fn view(&self) -> Map<ClientId, H> {
        self.entries@
    }
}

/// `copy` is a point-in-time copy of `entries`: every entry occurs in it
/// exactly once, with a clone of its handle, and nothing else does.
pub open spec fn is_snapshot<H: Clone>(entries: Map<ClientId, H>, copy: Seq<(ClientId, H)>) -> bool {
    &&& forall|i: int, j: int| 0 <= i < j < copy.len() ==> copy[i].0 != copy[j].0
    &&& forall|i: int|
        0 <= i < copy.len() ==> entries.contains_key((#[trigger] copy[i]).0) && cloned(
            entries[copy[i].0],
            copy[i].1,
        )
    &&& forall|id: ClientId| #[trigger]
        entries.contains_key(id) ==> exists|i: int| 0 <= i < copy.len() && (#[trigger] copy[i]).0 == id
}

impl<H> ConnectionRegistry<H> {
    /// A registry without entries.
    pub fn new() -> (registry: Self)
        ensures
            registry@ == Map::<ClientId, H>::empty(),
    {
        ConnectionRegistry { entries: HashMap::new() }
    }

    /// Registers `handle` under `id`. An earlier entry under the same id is
    /// replaced and handed back.
    pub fn insert(&mut self, id: ClientId, handle: H) -> (replaced: Option<H>)
        ensures
            final(self)@ == old(self)@.insert(id, handle),
            replaced == if old(self)@.contains_key(id) {
                Some(old(self)@[id])
            } else {
                None
            },
    {
        self.entries.insert(id, handle)
    }

    /// Drops the entry of `id` and hands its handle back. Without such an
    /// entry nothing changes.
    pub fn remove(&mut self, id: ClientId) -> (removed: Option<H>)
        ensures
            final(self)@ == old(self)@.remove(id),
            !old(self)@.contains_key(id) ==> final(self)@ == old(self)@,
            removed == if old(self)@.contains_key(id) {
                Some(old(self)@[id])
            } else {
                None
            },
    {
        let removed = self.entries.remove(&id);
        proof {
            if !old(self)@.contains_key(id) {
                assert(old(self)@.remove(id) =~= old(self)@);
            }
        }
        removed
    }

    /// Is `id` registered?
    pub fn contains(&self, id: ClientId) -> (found: bool)
        ensures
            found == self@.contains_key(id),
    {
        self.entries.contains_key(&id)
    }

    /// The number of entries.
    pub fn len(&self) -> (n: usize)
        ensures
            n == self@.dom().len(),
            self@.dom().finite(),
    {
        self.entries.len()
    }

    /// The ids of all entries, each once, in no particular order.
    pub fn ids(&self) -> (ids: Vec<ClientId>)
        ensures
            ids@.no_duplicates(),
            ids@.to_set() == self@.dom(),
            ids@.len() == self@.dom().len(),
    {
        let mut ids: Vec<ClientId> = Vec::new();
        let ghost keys = self.entries.keys().remaining();
        for id in it: self.entries.keys()
            invariant
                it.seq() == keys,
                ids@.len() == it.index(),
                forall|j: int| 0 <= j < ids@.len() ==> ids@[j] == *keys[j],
        {
            ids.push(*id);
        }
        assert(ids@ =~= keys.unref());
        ids
    }
}

impl<H: Clone> ConnectionRegistry<H> {
    /// A copy of the handle registered under `id`, if there is one.
    pub fn get(&self, id: ClientId) -> (found: Option<H>)
        ensures
            (found is Some) == self@.contains_key(id),
            found is Some ==> cloned(self@[id], found.unwrap()),
    {
        match self.entries.get(&id) {
            Some(handle) => Some(handle.clone()),
            None => None,
        }
    }

    /// A point-in-time copy of all entries, in no particular order.
    pub fn snapshot(&self) -> (copy: Vec<(ClientId, H)>)
        ensures
            is_snapshot(self@, copy@),
            copy@.len() == self@.dom().len(),
    {
        let ids = self.ids();
        let mut copy: Vec<(ClientId, H)> = Vec::new();
        let mut i: usize = 0;
        while i < ids.len()
            invariant
                i <= ids.len(),
                ids@.no_duplicates(),
                ids@.to_set() == self@.dom(),
                copy@.len() == i,
                forall|j: int| 0 <= j < i ==> (#[trigger] copy@[j]).0 == ids@[j],
                forall|j: int|
                    0 <= j < i ==> self@.contains_key((#[trigger] copy@[j]).0) && cloned(
                        self@[copy@[j].0],
                        copy@[j].1,
                    ),
            decreases ids.len() - i,
        {
            let id = ids[i];
            assert(ids@.to_set().contains(ids@[i as int]));
            match self.entries.get(&id) {
                Some(handle) => {
                    copy.push((id, handle.clone()));
                },
                None => {
                    assert(false);
                },
            }
            i = i + 1;
        }
        proof {
            assert forall|id: ClientId| #[trigger] self@.contains_key(id) implies exists|k: int|
                0 <= k < copy@.len() && (#[trigger] copy@[k]).0 == id by {
                assert(ids@.to_set().contains(id));
                let k = choose|k: int| 0 <= k < ids@.len() && ids@[k] == id;
                assert(copy@[k].0 == id);
            }
        }
        copy
    }
}

/// Removing an id twice is removing it once, and removing an id that is not
/// registered changes nothing.
pub proof fn lemma_remove_is_idempotent<H>(entries: Map<ClientId, H>, id: ClientId)
    ensures
        entries.remove(id).remove(id) == entries.remove(id),
        !entries.contains_key(id) ==> entries.remove(id) == entries,
        !entries.remove(id).contains_key(id),
{
    assert(entries.remove(id).remove(id) =~= entries.remove(id));
    if !entries.contains_key(id) {
        assert(entries.remove(id) =~= entries);
    }
}

} // verus!
