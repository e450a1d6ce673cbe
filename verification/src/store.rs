//! The persistence gateway: an append-only store of persisted events keyed
//! by the monotonic sequence id. The store itself owns the id counter, so
//! insertion and id assignment cannot drift apart: the record at position
//! `i` always carries id `i`, which makes the assigned ids dense — every id
//! from zero up to the highest assigned one is present exactly once.

use vstd::prelude::*;
use crate::event::{spec_event_db, Event, EventDB, EventDBError, EventDBView};

verus! {

/// The append-only event store.
pub struct EventStore {
    events: Vec<EventDB>,
}

impl View for EventStore {
    type V = Seq<EventDBView>;

    closed spec fn view(&self) -> Seq<EventDBView> {
        self.events.deep_view()
    }
}

impl EventStore {
    /// The store invariant: position and assigned id agree everywhere.
    pub open spec fn wf(self) -> bool {
        forall|i: int| 0 <= i < self@.len() ==> (#[trigger] self@[i]).id == i as u64
    }

    /// An empty store; the next id it assigns is zero.
    pub fn new() -> (s: Self)
        ensures
            s@ == Seq::<EventDBView>::empty(),
            s.wf(),
    {
        let s = EventStore { events: Vec::new() };
        proof {
            assert(s@ =~= Seq::<EventDBView>::empty());
        }
        s
    }

    /// How many events are stored; also the next id to be assigned.
    pub fn len(&self) -> (n: usize)
        ensures
            n == self@.len(),
    {
        self.events.len()
    }

    /// Store a submitted event under the next id of the shared monotonic
    /// counter and hand back the stored record. Success is owed: the
    /// in-memory store has no failing substrate.
    pub fn insert_event(&mut self, event: Event) -> (r: Result<EventDB, EventDBError>)
        requires
            old(self).wf(),
        ensures
            final(self).wf(),
            final(self)@ == old(self)@.push(spec_event_db(event@, old(self)@.len() as u64)),
            r matches Ok(rec) && rec@ == spec_event_db(event@, old(self)@.len() as u64),
    {
        let ghost ev = event@;
        let id = self.events.len() as u64;
        let rec = EventDB::from(event, id);
        let copy = rec.clone();
        self.events.push(rec);
        proof {
            assert(self@ =~= old(self)@.push(spec_event_db(ev, old(self)@.len() as u64)));
        }
        Ok(copy)
    }

    /// Point lookup by id: the record with that id, or `NotFound` exactly
    /// when the id has not been assigned yet.
    pub fn get_event(&self, id: u64) -> (r: Result<EventDB, EventDBError>)
        requires
            self.wf(),
        ensures
            id < self@.len() ==> (r matches Ok(rec) && rec@ == self@[id as int]),
            id >= self@.len() ==> (r matches Err(e) && e is NotFound),
    {
        if id < self.events.len() as u64 {
            let rec = &self.events[id as usize];
            Ok(rec.clone())
        } else {
            Err(EventDBError::NotFound)
        }
    }

    /// Range scan: every stored record with id at least `id`, in increasing
    /// id order, or `NotFound` exactly when no record matches. With dense
    /// ids this is the suffix of the log starting at position `id`.
    pub fn get_events_since(&self, id: u64) -> (r: Result<Vec<EventDB>, EventDBError>)
        requires
            self.wf(),
        ensures
            id < self@.len() ==> (r matches Ok(v) && v.deep_view() == self@.skip(id as int)),
            id >= self@.len() ==> (r matches Err(e) && e is NotFound),
    {
        if id >= self.events.len() as u64 {
            return Err(EventDBError::NotFound);
        }
        let start = id as usize;
        let mut out: Vec<EventDB> = Vec::new();
        let mut i: usize = start;
        while i < self.events.len()
            invariant
                start <= i <= self.events@.len(),
                out@.len() == i - start,
                forall|k: int| 0 <= k < out@.len() ==> #[trigger] out@[k] == self.events@[start
                    + k],
            decreases self.events@.len() - i,
        {
            let rec = &self.events[i];
            out.push(rec.clone());
            i = i + 1;
        }
        proof {
            assert forall|k: int| 0 <= k < out@.len() implies out.deep_view()[k] == self@.skip(
                start as int,
            )[k] by {
                assert(out@[k] == self.events@[start + k]);
            }
            assert(out.deep_view() =~= self@.skip(start as int));
        }
        Ok(out)
    }
}

/// The density law: in any well-formed store the assigned ids are exactly
/// `0 .. count-1` — no duplicates, no gaps — whatever interleaving of
/// submissions produced the store.
pub proof fn lemma_assigned_ids_dense(s: EventStore)
    requires
        s.wf(),
    ensures
        forall|id: u64| id < s@.len() ==> (#[trigger] s@[id as int]).id == id,
        forall|i: int| 0 <= i < s@.len() ==> (#[trigger] s@[i]).id < s@.len(),
        forall|i: int, j: int|
            0 <= i < s@.len() && 0 <= j < s@.len() && i != j ==> s@[i].id != s@[j].id,
{
    vstd::std_specs::vec::axiom_spec_len(&s.events);
    assert(s@.len() == s.events@.len());
    assert forall|i: int, j: int|
        0 <= i < s@.len() && 0 <= j < s@.len() && i != j implies s@[i].id != s@[j].id by {
        assert(s@[i].id == i as u64);
        assert(s@[j].id == j as u64);
    }
}

} // verus!
