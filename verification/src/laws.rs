//! Laws of the table semantics, each proved once and for all inputs.
//!
//! These relate the spec-level transitions that the `UsersTable`
//! operations are contracted to perform, so every law carries over to
//! any run of the executable store.

use vstd::prelude::*;
use crate::table::{
    TableView, contains_id, delete_tr, drop_id, insert_tr, lemma_drop_id_props, update_row,
    update_tr, wf,
};
use crate::user::UserView;

verus! {

/// A well-formed table holds at most one row per id.
pub proof fn lemma_unique_id(t: TableView, id: int, i: int, j: int)
    requires
        wf(t),
        0 <= i < t.rows.len(),
        0 <= j < t.rows.len(),
        t.rows[i].id == id,
        t.rows[j].id == id,
    ensures
        i == j,
{
}

/// Creating a row appends it with the requested name, the insertion
/// time, and a fresh positive id that collides with no stored row.
pub proof fn lemma_insert_fresh(t: TableView, name: Seq<char>, now: int)
    requires
        wf(t),
        t.next_id < i32::MAX,
    ensures
        wf(insert_tr(t, name, now)),
        insert_tr(t, name, now).rows.len() == t.rows.len() + 1,
        insert_tr(t, name, now).rows.last() == (UserView {
            id: t.next_id,
            name,
            created_at: Some(now),
        }),
        t.next_id >= 1,
        !contains_id(t.rows, t.next_id),
        forall|j: int| 0 <= j < t.rows.len() ==> insert_tr(t, name, now).rows[j] == t.rows[j],
{
    if contains_id(t.rows, t.next_id) {
        let i = choose|i: int| 0 <= i < t.rows.len() && t.rows[i].id == t.next_id;
        assert(t.rows[i].id < t.next_id);
    }
}

/// Round trip: creating a user in an empty store then listing yields
/// exactly one entry, carrying the requested name, a positive
/// server-assigned id, and a set creation time.
pub proof fn lemma_create_then_list(t: TableView, name: Seq<char>, now: int)
    requires
        wf(t),
        t.rows.len() == 0,
        t.next_id < i32::MAX,
    ensures
        insert_tr(t, name, now).rows == seq![
            UserView { id: t.next_id, name, created_at: Some(now) },
        ],
        insert_tr(t, name, now).rows[0].id >= 1,
        insert_tr(t, name, now).rows[0].created_at is Some,
{
    assert(insert_tr(t, name, now).rows =~= seq![
        UserView { id: t.next_id, name, created_at: Some(now) },
    ]);
}

/// Update idempotence: updating an id twice with the same name is the
/// same as updating it once, the row count never changes, and after an
/// update of a stored id exactly one row carries that id and name.
pub proof fn lemma_update_idempotent(t: TableView, id: int, name: Seq<char>)
    requires
        wf(t),
    ensures
        update_tr(update_tr(t, id, name), id, name) == update_tr(t, id, name),
        update_tr(t, id, name).rows.len() == t.rows.len(),
        wf(update_tr(t, id, name)),
        contains_id(t.rows, id) ==> exists|i: int|
            {
                &&& 0 <= i < update_tr(t, id, name).rows.len()
                &&& (#[trigger] update_tr(t, id, name).rows[i]).id == id
                &&& update_tr(t, id, name).rows[i].name == name
            },
{
    let t1 = update_tr(t, id, name);
    let t2 = update_tr(t1, id, name);
    assert(t2.rows =~= t1.rows);
    assert(t2 =~= t1);
    assert(forall|j: int| 0 <= j < t.rows.len() ==> (#[trigger] t1.rows[j]).id == t.rows[j].id);
    if contains_id(t.rows, id) {
        let i = choose|i: int| 0 <= i < t.rows.len() && t.rows[i].id == id;
        assert(t1.rows[i] == update_row(t.rows[i], id, name));
        assert(t1.rows[i].id == id && t1.rows[i].name == name);
    }
}

/// Deleting a stored id removes exactly one row: the count drops by
/// one, the id no longer appears, and every other id is kept.
pub proof fn lemma_delete_removes_exactly_one(t: TableView, id: int)
    requires
        wf(t),
        contains_id(t.rows, id),
    ensures
        delete_tr(t, id).rows.len() == t.rows.len() - 1,
        !contains_id(delete_tr(t, id).rows, id),
        forall|x: int|
            x != id ==> (contains_id(delete_tr(t, id).rows, x) <==> contains_id(t.rows, x)),
        wf(delete_tr(t, id)),
{
    lemma_drop_id_props(t.rows, id);
    let out = drop_id(t.rows, id);
    assert forall|k: int| 0 <= k < out.len() implies 1 <= (#[trigger] out[k]).id < t.next_id
        && out[k].created_at is Some by {
        assert(t.rows.contains(out[k]));
        let i = choose|i: int| 0 <= i < t.rows.len() && t.rows[i] == out[k];
        assert(1 <= t.rows[i].id < t.next_id);
    }
}

/// A miss changes nothing: updating or deleting an id that no row
/// carries leaves the table exactly as it was.
pub proof fn lemma_missing_id_changes_nothing(t: TableView, id: int, name: Seq<char>)
    requires
        wf(t),
        !contains_id(t.rows, id),
    ensures
        update_tr(t, id, name) == t,
        delete_tr(t, id) == t,
{
    assert forall|j: int| 0 <= j < t.rows.len() implies (#[trigger] t.rows[j]).id != id by {
        if t.rows[j].id == id {
            assert(contains_id(t.rows, id));
        }
    }
    assert(update_tr(t, id, name).rows =~= t.rows);
    assert(update_tr(t, id, name) =~= t);
    lemma_drop_id_props(t.rows, id);
    assert(delete_tr(t, id) =~= t);
}

/// The table after a burst of creates, one per requested name, in the
/// order the store serialised them.
pub open spec fn insert_all(t: TableView, names: Seq<Seq<char>>, now: int) -> TableView
    decreases names.len(),
{
    if names.len() == 0 {
        t
    } else {
        insert_all(insert_tr(t, names[0], now), names.drop_first(), now)
    }
}

/// Concurrent creates, serialised by the store in any order: N create
/// requests yield exactly N new rows, each keeping its request's name,
/// with N distinct fresh ids; no collision and no lost write.
pub proof fn lemma_burst_of_creates(t: TableView, names: Seq<Seq<char>>, now: int)
    requires
        wf(t),
        t.next_id + names.len() <= i32::MAX,
    ensures
        wf(insert_all(t, names, now)),
        insert_all(t, names, now).rows.len() == t.rows.len() + names.len(),
        insert_all(t, names, now).next_id == t.next_id + names.len(),
        forall|j: int| 0 <= j < t.rows.len() ==> insert_all(t, names, now).rows[j] == t.rows[j],
        forall|k: int|
            0 <= k < names.len() ==> insert_all(t, names, now).rows[t.rows.len() + k]
                == (UserView { id: t.next_id + k, name: names[k], created_at: Some(now) }),
    decreases names.len(),
{
    if names.len() == 0 {
    } else {
        let t1 = insert_tr(t, names[0], now);
        lemma_insert_fresh(t, names[0], now);
        lemma_burst_of_creates(t1, names.drop_first(), now);
        let out = insert_all(t, names, now);
        assert(out == insert_all(t1, names.drop_first(), now));
        assert forall|k: int| 0 <= k < names.len() implies out.rows[t.rows.len() + k]
            == (UserView { id: t.next_id + k, name: names[k], created_at: Some(now) }) by {
            if k == 0 {
                assert(out.rows[t.rows.len() as int] == t1.rows[t.rows.len() as int]);
            } else {
                assert(names.drop_first()[k - 1] == names[k]);
                assert(out.rows[t1.rows.len() + (k - 1)] == (UserView {
                    id: t1.next_id + (k - 1),
                    name: names.drop_first()[k - 1],
                    created_at: Some(now),
                }));
            }
        }
    }
}

} // verus!
