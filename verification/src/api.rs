//! Decision logic of the five request handlers.
//!
//! Each handler acquires a connection, runs one statement, and maps what
//! came back to a response. The statement and the transport live outside
//! this crate; the mapping is decided here: an update or delete that
//! affected no row reports not-found instead of success, and a storage
//! failure turns into a server-error response instead of aborting the
//! request task.

use vstd::prelude::*;
use vstd::string::StringExecFns;
use crate::table::{contains_id, insert_tr, update_tr, delete_tr, wf, rows_view, UsersTable};
use crate::user::{CreateRequest, User};

verus! {

/// Why a request failed, one variant per error class the service knows.
#[derive(Clone, Copy, Debug, PartialEq, Eq, Structural)]
pub enum ApiError {
    /// Malformed body or missing `name`: the client's fault.
    RequestFormat,
    /// An update or delete aimed at an id no row carries.
    NotFound,
    /// The pool or the database failed; never aborts the request task.
    Storage,
}

/// What a successful operation did to the table.
#[derive(Clone, Copy, Debug, PartialEq, Eq, Structural)]
pub enum Outcome {
    Inserted,
    Updated,
    Deleted,
}

/// An opaque storage failure as the shell hands it in; the handlers act
/// on its presence alone, never on its detail.
#[derive(Clone, Copy, Debug)]
pub struct DbFault;

/// The HTTP status owed for a handler result: success is 200, a bad
/// request 400, a missing row 404, a storage failure 500.
pub open spec fn status_of(r: Result<Outcome, ApiError>) -> u16 {
    match r {
        Ok(_) => 200u16,
        Err(ApiError::RequestFormat) => 400u16,
        Err(ApiError::NotFound) => 404u16,
        Err(ApiError::Storage) => 500u16,
    }
}

/// The HTTP status for a handler result, as `status_of` states it.
pub fn http_status(r: &Result<Outcome, ApiError>) -> (code: u16)
    ensures
        code == status_of(*r),
{
    match r {
        Ok(_) => 200,
        Err(ApiError::RequestFormat) => 400,
        Err(ApiError::NotFound) => 404,
        Err(ApiError::Storage) => 500,
    }
}

/// Body of the root route.
pub fn hello_body() -> (s: String)
    ensures
        s@ == "Hello world"@,
{
    String::from_str("Hello world")
}

/// Body of the state route: greets with the configured application
/// name.
pub fn state_body(app_name: &str) -> (s: String)
    ensures
        s@ == "Hello "@ + app_name@ + "!"@,
{
    let mut s = String::from_str("Hello ");
    s.append(app_name);
    s.append("!");
    s
}

/// Decide the create handler's response from the insert statement's
/// outcome: a row was inserted exactly when the statement succeeded.
pub fn create_response(db: &Result<u64, DbFault>) -> (r: Result<Outcome, ApiError>)
    ensures
        db is Ok ==> r == Ok::<Outcome, ApiError>(Outcome::Inserted),
        db is Err ==> r == Err::<Outcome, ApiError>(ApiError::Storage),
{
    match db {
        Ok(_) => Ok(Outcome::Inserted),
        Err(_) => Err(ApiError::Storage),
    }
}

/// Decide the update handler's response from the affected-row count:
/// zero rows affected means the id was not found.
pub fn update_response(db: &Result<u64, DbFault>) -> (r: Result<Outcome, ApiError>)
    ensures
        (db matches Ok(n) && n > 0) ==> r == Ok::<Outcome, ApiError>(Outcome::Updated),
        (db matches Ok(n) && n == 0) ==> r == Err::<Outcome, ApiError>(ApiError::NotFound),
        db is Err ==> r == Err::<Outcome, ApiError>(ApiError::Storage),
{
    match db {
        Ok(n) => {
            if *n == 0 {
                Err(ApiError::NotFound)
            } else {
                Ok(Outcome::Updated)
            }
        },
        Err(_) => Err(ApiError::Storage),
    }
}

/// Decide the delete handler's response from the affected-row count:
/// zero rows affected means the id was not found.
pub fn delete_response(db: &Result<u64, DbFault>) -> (r: Result<Outcome, ApiError>)
    ensures
        (db matches Ok(n) && n > 0) ==> r == Ok::<Outcome, ApiError>(Outcome::Deleted),
        (db matches Ok(n) && n == 0) ==> r == Err::<Outcome, ApiError>(ApiError::NotFound),
        db is Err ==> r == Err::<Outcome, ApiError>(ApiError::Storage),
{
    match db {
        Ok(n) => {
            if *n == 0 {
                Err(ApiError::NotFound)
            } else {
                Ok(Outcome::Deleted)
            }
        },
        Err(_) => Err(ApiError::Storage),
    }
}

/// The list handler against the table model: every stored row, in
/// storage order.
pub fn get_users(t: &UsersTable) -> (rows: Vec<User>)
    ensures
        rows_view(rows@) == t@.rows,
{
    t.select_all()
}

/// The create handler against the table model: inserts the requested
/// name and succeeds unless the id space is spent, in which case the
/// table is left untouched and a storage error is reported.
pub fn create_users(t: &mut UsersTable, req: CreateRequest, now: i64) -> (r: Result<
    Outcome,
    ApiError,
>)
    requires
        wf(old(t)@),
    ensures
        wf(final(t)@),
        old(t)@.next_id < i32::MAX ==> {
            &&& r == Ok::<Outcome, ApiError>(Outcome::Inserted)
            &&& final(t)@ == insert_tr(old(t)@, req.name@, now as int)
        },
        old(t)@.next_id == i32::MAX ==> {
            &&& r == Err::<Outcome, ApiError>(ApiError::Storage)
            &&& final(t)@ == old(t)@
        },
{
    if t.next_id < i32::MAX {
        t.insert(req.name, now);
        Ok(Outcome::Inserted)
    } else {
        Err(ApiError::Storage)
    }
}

/// The update handler against the table model: renames the row carrying
/// the id, and reports not-found, never success, when no row does.
pub fn update_users(t: &mut UsersTable, id: i32, req: &CreateRequest) -> (r: Result<
    Outcome,
    ApiError,
>)
    requires
        wf(old(t)@),
    ensures
        wf(final(t)@),
        final(t)@ == update_tr(old(t)@, id as int, req.name@),
        r == (if contains_id(old(t)@.rows, id as int) {
            Ok::<Outcome, ApiError>(Outcome::Updated)
        } else {
            Err::<Outcome, ApiError>(ApiError::NotFound)
        }),
{
    let n = t.update(id, &req.name);
    if n == 0 {
        Err(ApiError::NotFound)
    } else {
        Ok(Outcome::Updated)
    }
}

/// The delete handler against the table model: removes the row carrying
/// the id, and reports not-found, never success, when no row does.
pub fn delete_users(t: &mut UsersTable, id: i32) -> (r: Result<Outcome, ApiError>)
    requires
        wf(old(t)@),
    ensures
        wf(final(t)@),
        final(t)@ == delete_tr(old(t)@, id as int),
        r == (if contains_id(old(t)@.rows, id as int) {
            Ok::<Outcome, ApiError>(Outcome::Deleted)
        } else {
            Err::<Outcome, ApiError>(ApiError::NotFound)
        }),
{
    let n = t.delete(id);
    if n == 0 {
        Err(ApiError::NotFound)
    } else {
        Ok(Outcome::Deleted)
    }
}

/// The status object a mutating handler answers with: a status word and
/// the HTTP code that belongs to the result.
pub struct StatusBody {
    pub status: String,
    pub code: u16,
}

/// Render a handler result as its status object: `"success"` with 200
/// on success, `"error"` with the failure's code otherwise.
pub fn status_body(r: &Result<Outcome, ApiError>) -> (b: StatusBody)
    ensures
        b.code == status_of(*r),
        r is Ok ==> b.status@ == "success"@,
        r is Err ==> b.status@ == "error"@,
{
    match r {
        Ok(_) => StatusBody { status: String::from_str("success"), code: http_status(r) },
        Err(_) => StatusBody { status: String::from_str("error"), code: http_status(r) },
    }
}

} // verus!
