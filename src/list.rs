//! The observable resource collection: an ordered member sequence, the log
//! of events that subscribers read, and the aggregate counts per status.
use vstd::prelude::*;

use crate::resource::{count_status, has_id, lemma_count_le_len, unique_ids, Resource};
use crate::status::Status;

verus! {

/// A notification delivered to subscribers of a collection, in the order in
/// which the triggering mutations happened.
#[derive(Clone, Copy, Debug, PartialEq, Eq, Structural)]
pub enum Event {
    /// The member with this identity joined the collection.
    Added(u64),
    /// The member with this identity changed its display name.
    Renamed(u64),
    /// The member with this identity left the collection.
    Removed(u64),
    /// Some status bucket count may have changed: observers re-read them.
    CountsChanged,
}

/// A broken lifecycle rule, reported instead of acted upon.
#[derive(Clone, Copy, Debug, PartialEq, Eq, Structural)]
pub enum ListError {
    /// A member with this identity is already present.
    DuplicateId,
    /// No member with this identity is present.
    NotFound,
}

/// An ordered collection of resources with unique identities. Every change
/// goes through its methods, which append the resulting events to a log;
/// a subscriber keeps its own position in that log and reads what follows.
pub struct ResourceList {
    members: Vec<Resource>,
    events: Vec<Event>,
}

impl ResourceList {
    /// The present members, in index order.
    pub closed spec fn members(&self) -> Seq<Resource> {
        self.members@
    }

    /// Every event emitted since the collection was created, oldest first.
    pub closed spec fn events(&self) -> Seq<Event> {
        self.events@
    }

    /// Identities of present members are unique.
    pub open spec fn wf(&self) -> bool {
        unique_ids(self.members())
    }

    /// `after` is this collection with `r` appended and its arrival announced.
    pub open spec fn added(&self, r: Resource, after: Self) -> bool {
        &&& after.members() == self.members().push(r)
        &&& after.events() == self.events() + seq![Event::Added(r.id), Event::CountsChanged]
    }

    /// `after` is this collection with the member `id` taken out and its
    /// departure announced.
    pub open spec fn removal(&self, id: u64, after: Self) -> bool {
        &&& exists|i: int|
            0 <= i < self.members().len() && #[trigger] self.members()[i].id == id
                && after.members() == self.members().remove(i)
        &&& after.events() == self.events() + seq![Event::Removed(id), Event::CountsChanged]
    }

    /// `after` is this collection with the status of member `id` set to `st`
    /// and one aggregate notification emitted.
    pub open spec fn status_write(&self, id: u64, st: Status, after: Self) -> bool {
        &&& exists|i: int|
            0 <= i < self.members().len() && #[trigger] self.members()[i].id == id
                && after.members() == self.members().update(
                i,
                (Resource { id, name: self.members()[i].name, status: st }),
            )
        &&& after.events() == self.events().push(Event::CountsChanged)
    }

    /// `after` is this collection with the name of member `id` set to `name`
    /// and one rename announced.
    pub open spec fn name_write(&self, id: u64, name: String, after: Self) -> bool {
        &&& exists|i: int|
            0 <= i < self.members().len() && #[trigger] self.members()[i].id == id
                && after.members() == self.members().update(
                i,
                (Resource { id, name, status: self.members()[i].status }),
            )
        &&& after.events() == self.events().push(Event::Renamed(id))
    }

    /// An empty collection with an empty event log.
    pub fn new() -> (r: Self)
        ensures
            r.wf(),
            r.members() == Seq::<Resource>::empty(),
            r.events() == Seq::<Event>::empty(),
    {
        ResourceList { members: Vec::new(), events: Vec::new() }
    }

    /// Index of the member with identity `id`, if present.
    fn find(&self, id: u64) -> (r: Option<usize>)
        ensures
            match r {
                Some(i) => i < self.members().len() && self.members()[i as int].id == id,
                None => !has_id(self.members(), id),
            },
    {
        let mut i: usize = 0;
        while i < self.members.len()
            invariant
                0 <= i <= self.members@.len(),
                forall|j: int| 0 <= j < i ==> #[trigger] self.members@[j].id != id,
            decreases self.members@.len() - i,
        {
            if self.members[i].id == id {
                return Some(i);
            }
            i = i + 1;
        }
        None
    }

    /// Whether a member with identity `id` is present.
    pub fn contains(&self, id: u64) -> (r: bool)
        ensures
            r == has_id(self.members(), id),
    {
        self.find(id).is_some()
    }

    /// Number of present members.
    pub fn len(&self) -> (r: usize)
        ensures
            r == self.members().len(),
    {
        self.members.len()
    }

    /// The member at `index` (0-based), or `None` past the end.
    pub fn item_at(&self, index: usize) -> (r: Option<&Resource>)
        ensures
            index < self.members().len() ==> r == Some(&self.members()[index as int]),
            index >= self.members().len() ==> r.is_none(),
    {
        if index < self.members.len() {
            Some(&self.members[index])
        } else {
            None
        }
    }

    /// Number of present members whose status is `st`, counted afresh.
    pub fn count(&self, st: Status) -> (r: usize)
        ensures
            r == count_status(self.members(), st),
    {
        let mut n: usize = 0;
        let mut i: usize = 0;
        while i < self.members.len()
            invariant
                0 <= i <= self.members@.len(),
                n == count_status(self.members@.subrange(0, i as int), st),
            decreases self.members@.len() - i,
        {
            proof {
                assert(self.members@.subrange(0, i + 1).drop_last() =~= self.members@.subrange(
                    0,
                    i as int,
                ));
                lemma_count_le_len(self.members@.subrange(0, i as int), st);
            }
            if self.members[i].status == st {
                n = n + 1;
            }
            i = i + 1;
        }
        proof {
            assert(self.members@.subrange(0, self.members@.len() as int) =~= self.members@);
        }
        n
    }
    /// Appends one aggregate-count notification to the log.
    fn notify_counts(&mut self)
        ensures
            final(self).members() == old(self).members(),
            final(self).events() == old(self).events().push(Event::CountsChanged),
    {
        self.events.push(Event::CountsChanged);
    }

    /// Announces a new member: it is appended, then `Added` and one
    /// aggregate notification are logged. Fails, changing nothing, when a
    /// member with the same identity is already present.
    pub fn emit_added(&mut self, r: Resource) -> (res: Result<(), ListError>)
        requires
            old(self).wf(),
        ensures
            final(self).wf(),
            res is Ok <==> !has_id(old(self).members(), r.id),
            res is Ok ==> old(self).added(r, *final(self)),
            res is Err ==> res == Err::<(), ListError>(ListError::DuplicateId) && *final(self)
                == *old(self),
    {
        if self.find(r.id).is_some() {
            return Err(ListError::DuplicateId);
        }
        let id = r.id;
        self.members.push(r);
        self.events.push(Event::Added(id));
        self.notify_counts();
        proof {
            assert(self.events@ =~= old(self).events@ + seq![Event::Added(id), Event::CountsChanged]);
        }
        Ok(())
    }

    /// Takes the member `id` out: `Removed` and one aggregate notification
    /// are logged. Fails, changing nothing, when no such member is present.
    pub fn emit_removed(&mut self, id: u64) -> (res: Result<(), ListError>)
        requires
            old(self).wf(),
        ensures
            final(self).wf(),
            res is Ok <==> has_id(old(self).members(), id),
            res is Ok ==> old(self).removal(id, *final(self)),
            res is Err ==> res == Err::<(), ListError>(ListError::NotFound) && *final(self)
                == *old(self),
    {
        match self.find(id) {
            None => Err(ListError::NotFound),
            Some(i) => {
                let _gone = self.members.remove(i);
                self.events.push(Event::Removed(id));
                self.notify_counts();
                proof {
                    assert(self.events@ =~= old(self).events@ + seq![Event::Removed(id), Event::CountsChanged]);
                    assert(old(self).members()[i as int].id == id);
                }
                Ok(())
            },
        }
    }

    /// Writes the status of member `id`; one aggregate notification follows
    /// every write. Fails, changing nothing, when no such member is present.
    pub fn set_status(&mut self, id: u64, st: Status) -> (res: Result<(), ListError>)
        requires
            old(self).wf(),
        ensures
            final(self).wf(),
            res is Ok <==> has_id(old(self).members(), id),
            res is Ok ==> old(self).status_write(id, st, *final(self)),
            res is Err ==> res == Err::<(), ListError>(ListError::NotFound) && *final(self)
                == *old(self),
    {
        match self.find(id) {
            None => Err(ListError::NotFound),
            Some(i) => {
                self.members[i].status = st;
                self.notify_counts();
                proof {
                    let i = i as int;
                    assert(self.members@ =~= old(self).members@.update(
                        i,
                        (Resource { id, name: old(self).members@[i].name, status: st }),
                    ));
                }
                Ok(())
            },
        }
    }

    /// Writes the display name of member `id`; one `Renamed` event follows.
    /// Fails, changing nothing, when no such member is present.
    pub fn set_name(&mut self, id: u64, name: String) -> (res: Result<(), ListError>)
        requires
            old(self).wf(),
        ensures
            final(self).wf(),
            res is Ok <==> has_id(old(self).members(), id),
            res is Ok ==> old(self).name_write(id, name, *final(self)),
            res is Err ==> res == Err::<(), ListError>(ListError::NotFound) && *final(self)
                == *old(self),
    {
        match self.find(id) {
            None => Err(ListError::NotFound),
            Some(i) => {
                self.members[i].name = name;
                self.events.push(Event::Renamed(id));
                proof {
                    let i = i as int;
                    assert(self.members@ =~= old(self).members@.update(
                        i,
                        (Resource { id, name, status: old(self).members@[i].status }),
                    ));
                }
                Ok(())
            },
        }
    }

    /// Announces that member `id` was renamed by its owner; members are
    /// left as they are. Fails, logging nothing, when no such member is
    /// present.
    pub fn emit_renamed(&mut self, id: u64) -> (res: Result<(), ListError>)
        ensures
            res is Ok <==> has_id(old(self).members(), id),
            final(self).members() == old(self).members(),
            res is Ok ==> final(self).events() == old(self).events().push(Event::Renamed(id)),
            res is Err ==> res == Err::<(), ListError>(ListError::NotFound) && *final(self)
                == *old(self),
    {
        if self.find(id).is_none() {
            return Err(ListError::NotFound);
        }
        self.events.push(Event::Renamed(id));
        Ok(())
    }
    /// Number of events logged so far: the position a new subscriber starts
    /// reading from to see only later events.
    pub fn event_count(&self) -> (r: usize)
        ensures
            r == self.events().len(),
    {
        self.events.len()
    }

    /// The events logged at positions `from` onwards, oldest first; empty
    /// when `from` is at or past the end of the log.
    pub fn events_since(&self, from: usize) -> (r: Vec<Event>)
        ensures
            from <= self.events().len() ==> r@ == self.events().subrange(
                from as int,
                self.events().len() as int,
            ),
            from > self.events().len() ==> r@.len() == 0,
    {
        let mut out: Vec<Event> = Vec::new();
        if from >= self.events.len() {
            return out;
        }
        let mut i: usize = from;
        while i < self.events.len()
            invariant
                from <= i <= self.events@.len(),
                out@ == self.events@.subrange(from as int, i as int),
            decreases self.events@.len() - i,
        {
            out.push(self.events[i]);
            proof {
                assert(out@ =~= self.events@.subrange(from as int, i + 1));
            }
            i = i + 1;
        }
        out
    }
    /// Number of present members that are created.
    pub fn created(&self) -> (r: usize)
        ensures
            r == count_status(self.members(), Status::Created),
    {
        self.count(Status::Created)
    }

    /// Number of present members that are dead.
    pub fn dead(&self) -> (r: usize)
        ensures
            r == count_status(self.members(), Status::Dead),
    {
        self.count(Status::Dead)
    }

    /// Number of present members that are exited.
    pub fn exited(&self) -> (r: usize)
        ensures
            r == count_status(self.members(), Status::Exited),
    {
        self.count(Status::Exited)
    }

    /// Number of present members that are paused.
    pub fn paused(&self) -> (r: usize)
        ensures
            r == count_status(self.members(), Status::Paused),
    {
        self.count(Status::Paused)
    }

    /// Number of present members that are being removed.
    pub fn removing(&self) -> (r: usize)
        ensures
            r == count_status(self.members(), Status::Removing),
    {
        self.count(Status::Removing)
    }

    /// Number of present members that are running.
    pub fn running(&self) -> (r: usize)
        ensures
            r == count_status(self.members(), Status::Running),
    {
        self.count(Status::Running)
    }

    /// Number of present members that are stopped.
    pub fn stopped(&self) -> (r: usize)
        ensures
            r == count_status(self.members(), Status::Stopped),
    {
        self.count(Status::Stopped)
    }

    /// Number of present members that are being stopped.
    pub fn stopping(&self) -> (r: usize)
        ensures
            r == count_status(self.members(), Status::Stopping),
    {
        self.count(Status::Stopping)
    }
}

} // verus!
