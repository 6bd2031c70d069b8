//! The users table: rows in storage order, ids assigned by the store.
//!
//! `UsersTable` is the in-memory meaning of the one relational table the
//! service works against. Each operation's contract pins the table state
//! it leaves behind, through the spec-level transitions `insert_tr`,
//! `update_tr` and `delete_tr`, and reports the affected-row count so a
//! caller can tell a hit from a miss.

use vstd::prelude::*;
use vstd::pervasive::VecAdditionalExecFns;
use crate::user::{User, UserView};

verus! {

/// Abstract state of the table: the rows in storage order, and the next
/// id the store will assign.
#[verifier::ext_equal]
pub ghost struct TableView {
    pub rows: Seq<UserView>,
    pub next_id: int,
}

/// The sequence of abstract rows behind a vector of rows.
pub open spec fn rows_view(rows: Seq<User>) -> Seq<UserView> {
    rows.map_values(|u: User| u@)
}

/// Some row carries this id.
pub open spec fn contains_id(rows: Seq<UserView>, id: int) -> bool {
    exists|i: int| 0 <= i < rows.len() && rows[i].id == id
}

/// No two rows share an id.
pub open spec fn distinct_ids(rows: Seq<UserView>) -> bool {
    forall|i: int, j: int| 0 <= i < j < rows.len() ==> rows[i].id != rows[j].id
}

/// Table well-formedness: ids are unique, positive, below the next id to
/// be assigned, and every stored row carries its insertion timestamp.
pub open spec fn wf(t: TableView) -> bool {
    &&& 1 <= t.next_id <= i32::MAX
    &&& distinct_ids(t.rows)
    &&& forall|i: int| 0 <= i < t.rows.len() ==> 1 <= (#[trigger] t.rows[i]).id < t.next_id
    &&& forall|i: int| 0 <= i < t.rows.len() ==> (#[trigger] t.rows[i]).created_at is Some
}

/// The table a fresh store starts from.
pub open spec fn empty_table() -> TableView {
    TableView { rows: Seq::empty(), next_id: 1 }
}

/// Effect of inserting a row: the store appends it with the next id and
/// the insertion time, and moves the id counter on.
pub open spec fn insert_tr(t: TableView, name: Seq<char>, now: int) -> TableView {
    TableView {
        rows: t.rows.push(UserView { id: t.next_id, name, created_at: Some(now) }),
        next_id: t.next_id + 1,
    }
}

/// Effect of an update on one row: the name changes where the id
/// matches, everything else stays.
pub open spec fn update_row(u: UserView, id: int, name: Seq<char>) -> UserView {
    if u.id == id {
        UserView { id: u.id, name, created_at: u.created_at }
    } else {
        u
    }
}

/// Effect of `UPDATE ... WHERE id = $2`: every row keeps its place; the
/// matching row, if any, carries the new name.
pub open spec fn update_tr(t: TableView, id: int, name: Seq<char>) -> TableView {
    TableView {
        rows: t.rows.map_values(|u: UserView| update_row(u, id, name)),
        next_id: t.next_id,
    }
}

/// The rows whose id differs from `id`, keeping their order.
pub open spec fn drop_id(rows: Seq<UserView>, id: int) -> Seq<UserView>
    decreases rows.len(),
{
    if rows.len() == 0 {
        Seq::empty()
    } else if rows[0].id == id {
        drop_id(rows.drop_first(), id)
    } else {
        seq![rows[0]] + drop_id(rows.drop_first(), id)
    }
}

/// Effect of `DELETE ... WHERE id = $1`: the matching row leaves, the
/// rest keep their order.
pub open spec fn delete_tr(t: TableView, id: int) -> TableView {
    TableView { rows: drop_id(t.rows, id), next_id: t.next_id }
}

/// Appending a row commutes with `drop_id`: the new row survives exactly
/// when its id differs.
pub proof fn lemma_drop_id_push(rows: Seq<UserView>, x: UserView, id: int)
    ensures
        drop_id(rows.push(x), id) == (if x.id == id {
            drop_id(rows, id)
        } else {
            drop_id(rows, id).push(x)
        }),
    decreases rows.len(),
{
    if rows.len() == 0 {
        reveal_with_fuel(drop_id, 2);
        assert(rows.push(x).drop_first() =~= Seq::<UserView>::empty());
        if x.id == id {
            assert(drop_id(rows.push(x), id) =~= drop_id(rows, id));
        } else {
            assert(drop_id(rows.push(x), id) =~= drop_id(rows, id).push(x));
        }
    } else {
        assert(rows.push(x).drop_first() =~= rows.drop_first().push(x));
        lemma_drop_id_push(rows.drop_first(), x, id);
        if x.id == id {
            assert(drop_id(rows.push(x), id) =~= drop_id(rows, id));
        } else {
            assert(drop_id(rows.push(x), id) =~= drop_id(rows, id).push(x));
        }
    }
}

/// What deletion leaves behind, when ids are unique: the target id is
/// gone, exactly one row left if it was there, none otherwise, every
/// other row kept, order and uniqueness intact.
pub proof fn lemma_drop_id_props(rows: Seq<UserView>, id: int)
    requires
        distinct_ids(rows),
    ensures
        forall|k: int| 0 <= k < drop_id(rows, id).len() ==> (#[trigger] drop_id(rows, id)[k]).id
            != id,
        !contains_id(drop_id(rows, id), id),
        contains_id(rows, id) ==> drop_id(rows, id).len() == rows.len() - 1,
        !contains_id(rows, id) ==> drop_id(rows, id) == rows,
        forall|k: int| 0 <= k < drop_id(rows, id).len() ==> rows.contains(
            #[trigger] drop_id(rows, id)[k],
        ),
        forall|x: int| x != id ==> (contains_id(drop_id(rows, id), x) <==> contains_id(rows, x)),
        distinct_ids(drop_id(rows, id)),
    decreases rows.len(),
{
    let out = drop_id(rows, id);
    if rows.len() == 0 {
        assert(!contains_id(out, id));
        assert(forall|x: int| !contains_id(out, x));
    } else {
        let rest = rows.drop_first();
        assert(distinct_ids(rest)) by {
            assert(forall|i: int, j: int|
                0 <= i < j < rest.len() ==> rest[i] == rows[i + 1] && rest[j] == rows[j + 1]);
        }
        lemma_drop_id_props(rest, id);
        let rout = drop_id(rest, id);
        // relate contains_id over the first row and the rest
        assert forall|x: int| #[trigger] contains_id(rows, x) implies rows[0].id == x
            || contains_id(rest, x) by {
            let i = choose|i: int| 0 <= i < rows.len() && rows[i].id == x;
            if i > 0 {
                assert(rest[i - 1].id == x);
            }
        }
        assert forall|x: int| contains_id(rest, x) implies #[trigger] contains_id(rows, x) by {
            let i = choose|i: int| 0 <= i < rest.len() && rest[i].id == x;
            assert(rows[i + 1].id == x);
        }
        assert(forall|k: int| 0 <= k < rest.len() ==> rows.contains(#[trigger] rest[k])) by {
            assert(forall|k: int| 0 <= k < rest.len() ==> #[trigger] rest[k] == rows[k + 1]);
        }
        if rows[0].id == id {
            assert(out == rout);
            // the first row's id appears nowhere in the rest
            assert(!contains_id(rest, id)) by {
                if contains_id(rest, id) {
                    let i = choose|i: int| 0 <= i < rest.len() && rest[i].id == id;
                    assert(rows[0].id != rows[i + 1].id);
                }
            }
            assert(out =~= rest);
            assert(contains_id(rows, id)) by {
                assert(rows[0].id == id);
            }
            assert(out.len() == rows.len() - 1);
            assert forall|k: int| 0 <= k < out.len() implies rows.contains(#[trigger] out[k]) by {
                assert(out[k] == rest[k]);
                assert(rows.contains(rest[k]));
            }
            assert forall|x: int| x != id && contains_id(rows, x) implies contains_id(out, x) by {
                assert(rows[0].id == id);
            }
        } else {
            assert(out == seq![rows[0]] + rout);
            assert(out[0] == rows[0]);
            assert(forall|k: int| 1 <= k < out.len() ==> #[trigger] out[k] == rout[k - 1]);
            // (g): no surviving row carries the target id
            assert forall|k: int| 0 <= k < out.len() implies (#[trigger] out[k]).id != id by {
                if k > 0 {
                    assert(out[k] == rout[k - 1]);
                }
            }
            assert(!contains_id(out, id)) by {
                if contains_id(out, id) {
                    let i = choose|i: int| 0 <= i < out.len() && out[i].id == id;
                    assert(out[i].id != id);
                }
            }
            // membership of survivors
            assert forall|k: int| 0 <= k < out.len() implies rows.contains(#[trigger] out[k]) by {
                if k == 0 {
                    assert(rows[0] == out[0]);
                } else {
                    assert(rest.contains(out[k])) by {
                        let i = choose|i: int| 0 <= i < rout.len() && rout[i] == out[k];
                    }
                    let i = choose|i: int| 0 <= i < rest.len() && rest[i] == out[k];
                    assert(rows[i + 1] == out[k]);
                }
            }
            // counts
            if contains_id(rows, id) {
                assert(contains_id(rest, id));
                assert(out.len() == rows.len() - 1);
            } else {
                assert(!contains_id(rest, id));
                assert(rout == rest);
                assert(out =~= rows) by {
                    assert(forall|k: int| 1 <= k < out.len() ==> #[trigger] out[k] == rest[k - 1]);
                }
            }
            // other ids are kept in both directions
            assert forall|x: int| x != id && contains_id(rows, x) implies contains_id(out, x) by {
                if rows[0].id == x {
                    assert(out[0].id == x);
                } else {
                    assert(contains_id(rest, x));
                    assert(contains_id(rout, x));
                    let i = choose|i: int| 0 <= i < rout.len() && rout[i].id == x;
                    assert(out[i + 1].id == x);
                }
            }
            assert forall|x: int| x != id && contains_id(out, x) implies contains_id(rows, x) by {
                let k = choose|k: int| 0 <= k < out.len() && out[k].id == x;
                if k == 0 {
                    assert(rows[0].id == x);
                } else {
                    assert(rout[k - 1].id == x);
                    assert(contains_id(rout, x));
                    assert(contains_id(rest, x));
                }
            }
            // uniqueness survives
            assert forall|i: int, j: int| 0 <= i < j < out.len() implies out[i].id != out[j].id by {
                if i == 0 {
                    assert(out[j] == rout[j - 1]);
                    assert(rest.contains(rout[j - 1])) by {
                        assert(forall|k: int|
                            0 <= k < rout.len() ==> rest.contains(#[trigger] rout[k]));
                    }
                    let m = choose|m: int| 0 <= m < rest.len() && rest[m] == rout[j - 1];
                    assert(rows[0].id != rows[m + 1].id);
                } else {
                    assert(out[i] == rout[i - 1] && out[j] == rout[j - 1]);
                    assert(distinct_ids(rout));
                }
            }
        }
    }
}

/// The in-memory users table.
pub struct UsersTable {
    pub rows: Vec<User>,
    pub next_id: i32,
}

impl View for UsersTable {
    type V = TableView;

    open spec fn view(&self) -> TableView {
        TableView { rows: rows_view(self.rows@), next_id: self.next_id as int }
    }
}

impl UsersTable {
    /// An empty table; ids start at one.
    pub fn new() -> (t: UsersTable)
        ensures
            t@ == empty_table(),
            wf(t@),
    {
        let t = UsersTable { rows: Vec::new(), next_id: 1 };
        proof {
            assert(t@.rows =~= empty_table().rows);
            assert(t@ =~= empty_table());
        }
        t
    }

    /// Insert one row: the store assigns the next id and the insertion
    /// time `now`, and returns the new id.
    pub fn insert(&mut self, name: String, now: i64) -> (id: i32)
        requires
            wf(old(self)@),
            old(self)@.next_id < i32::MAX,
        ensures
            final(self)@ == insert_tr(old(self)@, name@, now as int),
            id as int == old(self)@.next_id,
            wf(final(self)@),
    {
        let ghost t0 = self@;
        let id = self.next_id;
        self.next_id = self.next_id + 1;
        self.rows.push(User { id, name, created_at: Some(now) });
        proof {
            assert(self@.rows =~= insert_tr(t0, name@, now as int).rows);
            assert(self@ =~= insert_tr(t0, name@, now as int));
        }
        id
    }

    /// Update the name of the row carrying `id`; report how many rows
    /// were affected, zero meaning no such row exists.
    pub fn update(&mut self, id: i32, name: &String) -> (n: usize)
        requires
            wf(old(self)@),
        ensures
            final(self)@ == update_tr(old(self)@, id as int, name@),
            n <= 1,
            (n == 1) <==> contains_id(old(self)@.rows, id as int),
            wf(final(self)@),
    {
        let ghost t0 = self@;
        let len = self.rows.len();
        let mut i: usize = 0;
        let mut n: usize = 0;
        while i < len
            invariant
                wf(t0),
                i <= len,
                n <= 1,
                len == self.rows.len(),
                self@.next_id == t0.next_id,
                t0.rows.len() == len,
                forall|j: int|
                    0 <= j < i ==> self@.rows[j] == update_row(#[trigger] t0.rows[j], id as int,
                    name@),
                forall|j: int| i <= j < len ==> #[trigger] self@.rows[j] == t0.rows[j],
                (n == 1) <==> exists|j: int| 0 <= j < i && (#[trigger] t0.rows[j]).id == id,
            decreases len - i,
        {
            let ghost prev = self.rows@;
            proof {
                assert(self@.rows[i as int] == t0.rows[i as int]);
                assert(self@.rows[i as int] == prev[i as int]@);
            }
            if self.rows[i].id == id {
                proof {
                    assert(t0.rows[i as int].id == id as int);
                    if n == 1 {
                        let j = choose|j: int| 0 <= j < i && (#[trigger] t0.rows[j]).id == id;
                        assert(t0.rows[j].id != t0.rows[i as int].id);
                    }
                }
                let rid = self.rows[i].id;
                let rcreated = self.rows[i].created_at;
                let nu = User { id: rid, name: name.clone(), created_at: rcreated };
                proof {
                    assert(nu@ == update_row(t0.rows[i as int], id as int, name@));
                }
                self.rows.set(i, nu);
                n = n + 1;
                proof {
                    assert(self.rows@.len() == prev.len());
                    assert(self@.rows[i as int] == update_row(t0.rows[i as int], id as int,
                    name@));
                    assert(forall|j: int|
                        0 <= j < len && j != i ==> #[trigger] self@.rows[j] == rows_view(prev)[j]);
                }
            } else {
                proof {
                    assert(t0.rows[i as int].id != id as int);
                    assert(self@.rows[i as int] == update_row(t0.rows[i as int], id as int,
                    name@));
                }
            }
            i = i + 1;
        }
        proof {
            assert(self@.rows =~= update_tr(t0, id as int, name@).rows);
            assert(self@ =~= update_tr(t0, id as int, name@));
        }
        n
    }

    /// Delete the row carrying `id`; report how many rows were affected,
    /// zero meaning no such row exists.
    pub fn delete(&mut self, id: i32) -> (n: usize)
        requires
            wf(old(self)@),
        ensures
            final(self)@ == delete_tr(old(self)@, id as int),
            n == old(self)@.rows.len() - final(self)@.rows.len(),
            n <= 1,
            (n == 1) <==> contains_id(old(self)@.rows, id as int),
            wf(final(self)@),
    {
        let ghost t0 = self@;
        let len = self.rows.len();
        let mut out: Vec<User> = Vec::new();
        let mut i: usize = 0;
        while i < len
            invariant
                wf(t0),
                i <= len,
                len == self.rows.len(),
                self@ == t0,
                out@.len() <= i,
                rows_view(out@) == drop_id(t0.rows.take(i as int), id as int),
            decreases len - i,
        {
            proof {
                assert(t0.rows.take(i + 1) =~= t0.rows.take(i as int).push(t0.rows[i as int]));
                lemma_drop_id_push(t0.rows.take(i as int), t0.rows[i as int], id as int);
            }
            if self.rows[i].id != id {
                out.push(self.rows[i].duplicate());
                proof {
                    assert(rows_view(out@) =~= drop_id(t0.rows.take(i + 1), id as int));
                }
            } else {
                proof {
                    assert(rows_view(out@) =~= drop_id(t0.rows.take(i + 1), id as int));
                }
            }
            i = i + 1;
        }
        proof {
            assert(t0.rows.take(len as int) =~= t0.rows);
        }
        let n = self.rows.len() - out.len();
        self.rows = out;
        proof {
            assert(self@ =~= delete_tr(t0, id as int));
            lemma_drop_id_props(t0.rows, id as int);
        }
        n
    }

    /// A snapshot of every row, in storage order, as the list handler
    /// returns it.
    pub fn select_all(&self) -> (out: Vec<User>)
        ensures
            rows_view(out@) == self@.rows,
    {
        let len = self.rows.len();
        let mut out: Vec<User> = Vec::new();
        let mut i: usize = 0;
        while i < len
            invariant
                i <= len,
                len == self.rows.len(),
                rows_view(out@) == self@.rows.take(i as int),
            decreases len - i,
        {
            proof {
                assert(self@.rows.take(i + 1) =~= self@.rows.take(i as int).push(
                    self@.rows[i as int],
                ));
            }
            out.push(self.rows[i].duplicate());
            proof {
                assert(rows_view(out@) =~= self@.rows.take(i + 1));
            }
            i = i + 1;
        }
        proof {
            assert(self@.rows.take(len as int) =~= self@.rows);
        }
        out
    }
}

} // verus!
