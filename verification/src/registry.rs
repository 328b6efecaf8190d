//! The shared registry of connected sessions.
//!
//! One entry per connection identity, holding the session together with the
//! handle on which that client is written to: the two are inserted and removed
//! as one, so neither can outlive the other.

use std::collections::HashMap;
use vstd::prelude::*;
use crate::player::{Player, PlayerView};
use crate::position::Position;
use crate::vector::Vector;

verus! {

/// The mathematical value of an [`Entry`].
pub struct EntryView<H> {
    pub session: PlayerView,
    pub handle: H,
}

/// What the registry keeps for one connection.
#[derive(Debug)]
pub struct Entry<H> {
    pub session: Player,
    pub handle: H,
}

impl<H> View for Entry<H> {
    type V = EntryView<H>;

    open spec fn view(&self) -> EntryView<H> {
        EntryView { session: self.session@, handle: self.handle }
    }
}

/// The identities that a broadcast reaches: every registered one but the
/// excluded one, if one is excluded.
pub open spec fn audience<H>(sessions: Map<u64, EntryView<H>>, exclude: Option<u64>) -> Set<u64> {
    Set::new(|id: u64| sessions.contains_key(id) && exclude != Some(id))
}

/// The identities in a list of recipients, in the list's order.
pub open spec fn identities<H>(recipients: Seq<(u64, &H)>) -> Seq<u64> {
    Seq::new(recipients.len(), |i: int| recipients[i].0)
}

/// Sessions and outbound handles by connection identity. Its value is the map
/// from each registered identity to its entry.
pub struct Registry<H> {
    entries: HashMap<u64, Entry<H>>,
}

impl<H> View for Registry<H> {
    type V = Map<u64, EntryView<H>>;

    closed spec fn view(&self) -> Map<u64, EntryView<H>> {
        self.entries@.map_values(|entry: Entry<H>| entry@)
    }
}

impl<H> Registry<H> {
    /// A registry with nobody in it.
    pub fn new() -> (registry: Self)
        ensures
            registry@ == Map::<u64, EntryView<H>>::empty(),
    {
        let registry = Registry { entries: HashMap::new() };
        assert(registry@ =~= Map::<u64, EntryView<H>>::empty());
        registry
    }

    /// How many connections are registered.
    pub fn len(&self) -> (n: usize)
        ensures
            n == self@.len(),
            self@.dom().finite(),
    {
        assert(self@.dom() =~= self.entries@.dom());
        self.entries.len()
    }

    /// Whether `id` is registered.
    pub fn contains(&self, id: u64) -> (found: bool)
        ensures
            found == self@.contains_key(id),
    {
        self.entries.contains_key(&id)
    }

    /// The session registered under `id`, if there is one.
    pub fn session(&self, id: u64) -> (found: Option<&Player>)
        ensures
            match found {
                Some(player) => self@.contains_key(id) && player@ == self@[id].session,
                None => !self@.contains_key(id),
            },
    {
        match self.entries.get(&id) {
            Some(entry) => Some(&entry.session),
            None => None,
        }
    }

    /// Puts `session` and `handle` under `id`, in place of whatever was there.
    pub fn register(&mut self, id: u64, session: Player, handle: H)
        ensures
            final(self)@ == old(self)@.insert(id, EntryView { session: session@, handle }),
    {
        self.entries.insert(id, Entry { session, handle });
        assert(self@ =~= old(self)@.insert(id, EntryView { session: session@, handle }));
    }

    /// Moves the session under `id` to `position`, heading `direction`, and
    /// says whether there was such a session. Without one nothing changes.
    pub fn update(&mut self, id: u64, position: Position, direction: Vector) -> (updated: bool)
        ensures
            updated == old(self)@.contains_key(id),
            updated ==> final(self)@ == old(self)@.insert(
                id,
                EntryView {
                    session: old(self)@[id].session.moved(position@, direction@),
                    handle: old(self)@[id].handle,
                },
            ),
            !updated ==> final(self)@ == old(self)@,
    {
        match self.entries.remove(&id) {
            Some(entry) => {
                let Entry { session, handle } = entry;
                let Player { username, character, .. } = session;
                let session = Player { username, position, direction, character };
                self.entries.insert(id, Entry { session, handle });
                assert(self@ =~= old(self)@.insert(
                    id,
                    EntryView {
                        session: old(self)@[id].session.moved(position@, direction@),
                        handle: old(self)@[id].handle,
                    },
                ));
                true
            },
            None => {
                assert(self@ =~= old(self)@);
                false
            },
        }
    }

    /// Takes `id` out, session and handle at once. Removing what is not there
    /// changes nothing.
    pub fn remove(&mut self, id: u64)
        ensures
            final(self)@ == old(self)@.remove(id),
    {
        self.entries.remove(&id);
        assert(self@ =~= old(self)@.remove(id));
    }

    /// The handles to write a broadcast to: one for every registered identity
    /// other than `exclude`, each with its identity, in no particular order.
    pub fn snapshot_handles(&self, exclude: Option<u64>) -> (recipients: Vec<(u64, &H)>)
        ensures
            identities(recipients@).no_duplicates(),
            identities(recipients@).to_set() == audience(self@, exclude),
            forall|i: int|
                0 <= i < recipients.len() ==> *(#[trigger] recipients[i]).1
                    == self@[recipients[i].0].handle,
    {
        let mut recipients: Vec<(u64, &H)> = Vec::new();
        // The identities that the walk over the map has passed so far.
        let ghost mut walked: Set<u64> = Set::empty();
        for pair in it: self.entries.iter()
            invariant
                it.seq().no_duplicates(),
                forall|k: int|
                    0 <= k < it.seq().len() ==> {
                        &&& self.entries@.contains_key(*(#[trigger] it.seq()[k]).0)
                        &&& self.entries@[*it.seq()[k].0] == *it.seq()[k].1
                    },
                forall|k: int|
                    0 <= k < it.seq().len() ==> (k < it.index() <==> walked.contains(
                        *(#[trigger] it.seq()[k]).0,
                    )),
                it.index() == it.seq().len() ==> forall|id: u64| #[trigger]
                    self.entries@.contains_key(id) ==> walked.contains(id),
                forall|id: u64| #[trigger] walked.contains(id) ==> self.entries@.contains_key(id),
                forall|id: u64|
                    #[trigger] walked.contains(id) && exclude != Some(id) ==> exists|i: int|
                        0 <= i < recipients.len() && (#[trigger] recipients[i]).0 == id,
                forall|i: int|
                    0 <= i < recipients.len() ==> {
                        &&& walked.contains((#[trigger] recipients[i]).0)
                        &&& exclude != Some(recipients[i].0)
                        &&& *recipients[i].1 == self.entries@[recipients[i].0].handle
                    },
                forall|i: int, j: int|
                    0 <= i < j < recipients.len() ==> (#[trigger] recipients[i]).0
                        != (#[trigger] recipients[j]).0,
        {
            let (id, entry) = pair;
            let ghost at = it.index();
            let ghost before = recipients@;
            let ghost walked_before = walked;
            assert(it.seq()[at] == pair);
            assert(!walked.contains(*id));
            let skipped = match exclude {
                Some(excluded) => excluded == *id,
                None => false,
            };
            if !skipped {
                recipients.push((*id, &entry.handle));
            }
            proof {
                walked = walked.insert(*id);
            }
            assert forall|k: int| 0 <= k < it.seq().len() implies (k < at + 1
                <==> walked.contains(*(#[trigger] it.seq()[k]).0)) by {
                if k != at && *it.seq()[k].0 == *id {
                    assert(it.seq()[k] == it.seq()[at]);
                }
            }
            assert forall|i: int| 0 <= i < before.len() implies recipients[i] == before[i] by {}
            assert forall|id: u64|
                #[trigger] walked.contains(id) && exclude != Some(id) implies exists|i: int|
                0 <= i < recipients.len() && (#[trigger] recipients[i]).0 == id by {
                if walked_before.contains(id) {
                    let i = choose|i: int| 0 <= i < before.len() && (#[trigger] before[i]).0 == id;
                    assert(recipients[i].0 == id);
                } else {
                    assert(recipients[before.len() as int].0 == id);
                }
            }
            assert(at + 1 == it.seq().len() ==> forall|id: u64| #[trigger]
                self.entries@.contains_key(id) ==> walked.contains(id)) by {
                if at + 1 == it.seq().len() {
                    assert forall|id: u64| #[trigger]
                        self.entries@.contains_key(id) implies walked.contains(id) by {
                        let found = (&id, &self.entries@[id]);
                        assert(it.seq().contains(found));
                        let k = choose|k: int| 0 <= k < it.seq().len() && it.seq()[k] == found;
                        assert(walked.contains(*it.seq()[k].0));
                    }
                }
            }
        }
        proof {
            let ids = identities(recipients@);
            assert(self@.dom() =~= self.entries@.dom());
            assert forall|id: u64| ids.to_set().contains(id) == audience(self@, exclude).contains(
                id,
            ) by {
                if ids.to_set().contains(id) {
                    let i = choose|i: int| 0 <= i < ids.len() && ids[i] == id;
                    assert(recipients[i].0 == id);
                }
                if audience(self@, exclude).contains(id) {
                    assert(self.entries@.contains_key(id));
                    assert(walked.contains(id));
                    let i = choose|i: int|
                        0 <= i < recipients.len() && (#[trigger] recipients[i]).0 == id;
                    assert(ids[i] == id);
                }
            }
            assert(ids.to_set() =~= audience(self@, exclude));
        }
        recipients
    }
}

} // verus!
