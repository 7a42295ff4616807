//! A single tracked resource and the counting rule shared by every status
//! bucket.
use vstd::prelude::*;

use crate::status::Status;

verus! {

/// A tracked entity: a stable identity, a display name and a status.
#[derive(Clone, Debug)]
pub struct Resource {
    pub id: u64,
    pub name: String,
    pub status: Status,
}

/// Builds a resource from its three parts.
pub fn make_resource(id: u64, name: String, status: Status) -> (r: Resource)
    ensures
        r.id == id,
        r.name == name,
        r.status == status,
{
    Resource { id, name, status }
}

/// Whether some member of `s` has identity `id`.
pub open spec fn has_id(s: Seq<Resource>, id: u64) -> bool {
    exists|i: int| 0 <= i < s.len() && #[trigger] s[i].id == id
}

/// No two members of `s` share an identity.
pub open spec fn unique_ids(s: Seq<Resource>) -> bool {
    forall|i: int, j: int| 0 <= i < s.len() && 0 <= j < s.len() && i != j ==> #[trigger] s[i].id != #[trigger] s[j].id
}

/// The status of the member of `s` with identity `id` (meaningful when it is
/// present).
pub open spec fn status_of(s: Seq<Resource>, id: u64) -> Status {
    s[choose|i: int| 0 <= i < s.len() && #[trigger] s[i].id == id].status
}

/// How many members of `s` hold status `st`.
pub open spec fn count_status(s: Seq<Resource>, st: Status) -> nat
    decreases s.len(),
{
    if s.len() == 0 {
        0
    } else {
        count_status(s.drop_last(), st) + if s.last().status == st {
            1nat
        } else {
            0nat
        }
    }
}

pub proof fn lemma_count_le_len(s: Seq<Resource>, st: Status)
    ensures
        count_status(s, st) <= s.len(),
    decreases s.len(),
{
    if s.len() > 0 {
        lemma_count_le_len(s.drop_last(), st);
    }
}

pub proof fn lemma_count_push(s: Seq<Resource>, r: Resource, st: Status)
    ensures
        count_status(s.push(r), st) == count_status(s, st) + if r.status == st {
            1int
        } else {
            0int
        },
{
    assert(s.push(r).drop_last() =~= s);
}

pub proof fn lemma_count_remove(s: Seq<Resource>, i: int, st: Status)
    requires
        0 <= i < s.len(),
    ensures
        count_status(s.remove(i), st) == count_status(s, st) - if s[i].status == st {
            1int
        } else {
            0int
        },
    decreases s.len(),
{
    if i == s.len() - 1 {
        assert(s.remove(i) =~= s.drop_last());
    } else {
        lemma_count_remove(s.drop_last(), i, st);
        assert(s.remove(i).drop_last() =~= s.drop_last().remove(i));
    }
}

pub proof fn lemma_count_update(s: Seq<Resource>, i: int, r: Resource, st: Status)
    requires
        0 <= i < s.len(),
    ensures
        count_status(s.update(i, r), st) == count_status(s, st) - (if s[i].status == st {
            1int
        } else {
            0int
        }) + (if r.status == st {
            1int
        } else {
            0int
        }),
    decreases s.len(),
{
    if i == s.len() - 1 {
        assert(s.update(i, r).drop_last() =~= s.drop_last());
    } else {
        lemma_count_update(s.drop_last(), i, r, st);
        assert(s.update(i, r).drop_last() =~= s.drop_last().update(i, r));
    }
}

pub proof fn lemma_status_of_at(s: Seq<Resource>, i: int)
    requires
        unique_ids(s),
        0 <= i < s.len(),
    ensures
        status_of(s, s[i].id) == s[i].status,
{
    let id = s[i].id;
    assert(s[i].id == id);
    let j = choose|j: int| 0 <= j < s.len() && #[trigger] s[j].id == id;
    assert(i == j);
}

pub proof fn lemma_unique_remove(s: Seq<Resource>, i: int)
    requires
        unique_ids(s),
        0 <= i < s.len(),
    ensures
        unique_ids(s.remove(i)),
        !has_id(s.remove(i), s[i].id),
{
    let t = s.remove(i);
    assert forall|a: int, b: int| 0 <= a < t.len() && 0 <= b < t.len() && a != b implies #[trigger] t[a].id
        != #[trigger] t[b].id by {
        let a2 = if a < i { a } else { a + 1 };
        let b2 = if b < i { b } else { b + 1 };
        assert(t[a] == s[a2] && t[b] == s[b2]);
    }
    if has_id(t, s[i].id) {
        let a = choose|a: int| 0 <= a < t.len() && #[trigger] t[a].id == s[i].id;
        let a2 = if a < i { a } else { a + 1 };
        assert(t[a] == s[a2]);
    }
}

} // verus!
