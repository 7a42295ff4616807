//! Properties that hold across calls on a resource list, stated over the
//! states that the mutating methods promise.
use vstd::prelude::*;

use crate::list::{Event, ResourceList};
use crate::resource::{
    count_status, has_id, lemma_count_push, lemma_count_remove, lemma_count_update,
    lemma_status_of_at, lemma_unique_remove, status_of, unique_ids, Resource,
};
use crate::status::Status;

verus! {

/// One membership change, as a concrete collection announces it.
pub enum Change {
    Add(Resource),
    Remove(u64),
}

/// `after` follows from `before` by the successful change `c`.
pub open spec fn applies(before: ResourceList, c: Change, after: ResourceList) -> bool {
    match c {
        Change::Add(r) => !has_id(before.members(), r.id) && before.added(r, after),
        Change::Remove(id) => before.removal(id, after),
    }
}

/// Number of additions minus number of removals in `changes`.
pub open spec fn net_len(changes: Seq<Change>) -> int
    decreases changes.len(),
{
    if changes.len() == 0 {
        0
    } else {
        net_len(changes.drop_last()) + match changes.last() {
            Change::Add(_) => 1int,
            Change::Remove(_) => -1int,
        }
    }
}

/// What change `c`, applied to `before`, does to the bucket of status `st`:
/// an added member counts where its status is; a removed one stops counting
/// where its status was.
pub open spec fn bucket_delta(before: ResourceList, c: Change, st: Status) -> int {
    match c {
        Change::Add(r) => if r.status == st {
            1int
        } else {
            0int
        },
        Change::Remove(id) => if status_of(before.members(), id) == st {
            -1int
        } else {
            0int
        },
    }
}

/// Sum of the bucket deltas of `changes`, each taken against the state it was
/// applied to (`trace[k]` before `changes[k]`).
pub open spec fn net_count(trace: Seq<ResourceList>, changes: Seq<Change>, st: Status) -> int
    decreases changes.len(),
{
    if changes.len() == 0 {
        0
    } else {
        net_count(trace.drop_last(), changes.drop_last(), st) + bucket_delta(
            trace[changes.len() - 1],
            changes.last(),
            st,
        )
    }
}

/// Adding a member with a fresh identity keeps identities unique and adds it
/// to the bucket of its status alone.
pub proof fn law_add_counts(before: ResourceList, r: Resource, after: ResourceList)
    requires
        before.wf(),
        !has_id(before.members(), r.id),
        before.added(r, after),
    ensures
        after.wf(),
        has_id(after.members(), r.id),
        after.members().len() == before.members().len() + 1,
        forall|st: Status|
            #[trigger] count_status(after.members(), st) == count_status(before.members(), st) + (
            if r.status == st {
                1int
            } else {
                0int
            }),
{
    let s = before.members();
    assert(after.members()[s.len() as int].id == r.id);
    assert forall|a: int, b: int|
        0 <= a < after.members().len() && 0 <= b < after.members().len() && a != b implies #[trigger] after.members()[a].id
        != #[trigger] after.members()[b].id by {
        if a < s.len() && b < s.len() {
            assert(after.members()[a] == s[a] && after.members()[b] == s[b]);
        } else if a < s.len() {
            assert(after.members()[a] == s[a]);
        } else {
            assert(after.members()[b] == s[b]);
        }
    }
    assert forall|st: Status| #[trigger]
        count_status(after.members(), st) == count_status(before.members(), st) + (if r.status
            == st {
            1int
        } else {
            0int
        }) by {
        lemma_count_push(s, r, st);
    }
}

/// Removing a member emits exactly one `Removed` event (followed by one
/// aggregate notification), leaves no member with that identity behind, and
/// takes it out of the bucket of the status it had; no later status or name
/// write can reach it.
pub proof fn law_removed_member_is_gone(before: ResourceList, id: u64, after: ResourceList)
    requires
        before.wf(),
        before.removal(id, after),
    ensures
        after.events() == before.events() + seq![Event::Removed(id), Event::CountsChanged],
        after.wf(),
        !has_id(after.members(), id),
        after.members().len() == before.members().len() - 1,
        forall|st: Status|
            #[trigger] count_status(after.members(), st) == count_status(before.members(), st) - (
            if status_of(before.members(), id) == st {
                1int
            } else {
                0int
            }),
        forall|st: Status, next: ResourceList| !#[trigger] after.status_write(id, st, next),
        forall|name: String, next: ResourceList| !#[trigger] after.name_write(id, name, next),
{
    let s = before.members();
    let i = choose|i: int|
        0 <= i < s.len() && #[trigger] s[i].id == id && after.members() == s.remove(i);
    lemma_unique_remove(s, i);
    lemma_status_of_at(s, i);
    assert forall|st: Status| #[trigger]
        count_status(after.members(), st) == count_status(s, st) - (if status_of(s, id) == st {
            1int
        } else {
            0int
        }) by {
        lemma_count_remove(s, i, st);
    }
    assert forall|st: Status, next: ResourceList| !#[trigger] after.status_write(id, st, next) by {
        if after.status_write(id, st, next) {
            let j = choose|j: int|
                0 <= j < after.members().len() && #[trigger] after.members()[j].id == id
                    && next.members() == after.members().update(
                    j,
                    (Resource { id, name: after.members()[j].name, status: st }),
                );
            assert(has_id(after.members(), id));
        }
    }
    assert forall|name: String, next: ResourceList| !#[trigger] after.name_write(id, name, next) by {
        if after.name_write(id, name, next) {
            let j = choose|j: int|
                0 <= j < after.members().len() && #[trigger] after.members()[j].id == id
                    && next.members() == after.members().update(
                    j,
                    (Resource { id, name, status: after.members()[j].status }),
                );
            assert(has_id(after.members(), id));
        }
    }
}

/// Writing the status of a present member from `a` to `b` emits exactly one
/// aggregate notification, moves the member from bucket `a` to bucket `b`,
/// and leaves every other bucket and the length unchanged.
pub proof fn law_status_write_moves_one_member(
    before: ResourceList,
    id: u64,
    b: Status,
    after: ResourceList,
)
    requires
        before.wf(),
        before.status_write(id, b, after),
    ensures
        after.events() == before.events().push(Event::CountsChanged),
        after.members().len() == before.members().len(),
        forall|st: Status|
            #[trigger] count_status(after.members(), st) == count_status(before.members(), st) - (
            if st == status_of(before.members(), id) {
                1int
            } else {
                0int
            }) + (if st == b {
                1int
            } else {
                0int
            }),
{
    let s = before.members();
    let i = choose|i: int|
        0 <= i < s.len() && #[trigger] s[i].id == id && after.members() == s.update(
            i,
            (Resource { id, name: s[i].name, status: b }),
        );
    lemma_status_of_at(s, i);
    assert forall|st: Status| #[trigger]
        count_status(after.members(), st) == count_status(s, st) - (if st == status_of(s, id) {
            1int
        } else {
            0int
        }) + (if st == b {
            1int
        } else {
            0int
        }) by {
        lemma_count_update(s, i, (Resource { id, name: s[i].name, status: b }), st);
    }
}

/// Renaming a present member emits exactly one `Renamed` event for it and
/// leaves every status bucket and the length unchanged.
pub proof fn law_rename_keeps_counts(before: ResourceList, id: u64, name: String, after: ResourceList)
    requires
        before.name_write(id, name, after),
    ensures
        after.events() == before.events().push(Event::Renamed(id)),
        after.members().len() == before.members().len(),
        forall|st: Status| #[trigger]
            count_status(after.members(), st) == count_status(before.members(), st),
{
    let s = before.members();
    let i = choose|i: int|
        0 <= i < s.len() && #[trigger] s[i].id == id && after.members() == s.update(
            i,
            (Resource { id, name, status: s[i].status }),
        );
    assert forall|st: Status| #[trigger]
        count_status(after.members(), st) == count_status(s, st) by {
        lemma_count_update(s, i, (Resource { id, name, status: s[i].status }), st);
    }
}

/// Events reach subscribers in the order of the mutations that caused them:
/// adding `a`, adding `b`, then removing `a` logs their `Added`, `Added`,
/// `Removed` events in that order, each followed by its aggregate
/// notification, and nothing else.
pub proof fn law_events_keep_order(
    l0: ResourceList,
    a: Resource,
    b: Resource,
    l1: ResourceList,
    l2: ResourceList,
    l3: ResourceList,
)
    requires
        l0.added(a, l1),
        l1.added(b, l2),
        l2.removal(a.id, l3),
    ensures
        l3.events() == l0.events() + seq![
            Event::Added(a.id),
            Event::CountsChanged,
            Event::Added(b.id),
            Event::CountsChanged,
            Event::Removed(a.id),
            Event::CountsChanged,
        ],
{
    assert(l3.events() =~= l0.events() + seq![
        Event::Added(a.id),
        Event::CountsChanged,
        Event::Added(b.id),
        Event::CountsChanged,
        Event::Removed(a.id),
        Event::CountsChanged,
    ]);
}

/// Starting from an empty collection, after any run of successful additions
/// and removals (identities distinct among present members) the length is
/// the number of additions minus the number of removals, and each status
/// bucket holds exactly the members added with that status and not removed.
pub proof fn law_counts_follow_changes(trace: Seq<ResourceList>, changes: Seq<Change>)
    requires
        trace.len() == changes.len() + 1,
        trace[0].members().len() == 0,
        forall|k: int| 0 <= k < changes.len() ==> applies(trace[k], #[trigger] changes[k], trace[k + 1]),
    ensures
        trace.last().wf(),
        trace.last().members().len() == net_len(changes),
        forall|st: Status| #[trigger]
            count_status(trace.last().members(), st) == net_count(trace, changes, st),
    decreases changes.len(),
{
    if changes.len() == 0 {
        assert(trace.last().members() =~= Seq::<Resource>::empty());
        assert forall|st: Status| #[trigger]
            count_status(trace.last().members(), st) == net_count(trace, changes, st) by {
        }
    } else {
        let n = changes.len() - 1;
        let t = trace.drop_last();
        let c = changes.drop_last();
        assert forall|k: int| 0 <= k < c.len() implies applies(t[k], #[trigger] c[k], t[k + 1]) by {
            assert(c[k] == changes[k] && t[k] == trace[k] && t[k + 1] == trace[k + 1]);
        }
        law_counts_follow_changes(t, c);
        assert(t.last() == trace[n]);
        assert(applies(trace[n], changes[n], trace[n + 1]));
        match changes[n] {
            Change::Add(r) => {
                law_add_counts(trace[n], r, trace[n + 1]);
            },
            Change::Remove(id) => {
                law_removed_member_is_gone(trace[n], id, trace[n + 1]);
            },
        }
    }
}

} // verus!
