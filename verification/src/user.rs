//! The user record: one row of the users table.

use vstd::prelude::*;

verus! {

/// Abstract value of one user row.
#[verifier::ext_equal]
pub ghost struct UserView {
    /// Server-assigned, unique, immutable after creation.
    pub id: int,
    /// Client-supplied on create and update.
    pub name: Seq<char>,
    /// Server-assigned on insert, immutable; `None` means not set.
    pub created_at: Option<int>,
}

/// One user row as the service holds it in memory. The timestamp is kept
/// as microseconds since the epoch; the shell around this crate converts
/// it to and from the driver's datetime type.
pub struct User {
    pub id: i32,
    pub name: String,
    pub created_at: Option<i64>,
}

impl View for User {
    type V = UserView;

    open spec fn view(&self) -> UserView {
        UserView {
            id: self.id as int,
            name: self.name@,
            created_at: match self.created_at {
                Some(t) => Some(t as int),
                None => None,
            },
        }
    }
}

impl User {
    /// An exact copy of the row.
    pub fn duplicate(&self) -> (r: User)
        ensures
            r@ == self@,
    {
        let r = User { id: self.id, name: self.name.clone(), created_at: self.created_at };
        proof {
            assert(r@ =~= self@);
        }
        r
    }
}

/// The body of a create or update request: exactly one field, the name.
pub struct CreateRequest {
    pub name: String,
}

} // verus!
