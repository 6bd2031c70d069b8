use user_crud::api::{
    create_response, create_users, delete_response, delete_users, hello_body, http_status,
    state_body, status_body, update_response, update_users, ApiError, DbFault, Outcome,
};
use user_crud::pool::PoolGauge;
use user_crud::table::UsersTable;
use user_crud::user::CreateRequest;

#[test]
fn round_trip_create_then_list() {
    let mut t = UsersTable::new();
    let id = t.insert(String::from("Alice"), 1_700_000_000_000_000);
    let rows = t.select_all();
    assert_eq!(rows.len(), 1);
    assert_eq!(rows[0].name, "Alice");
    assert!(rows[0].id > 0);
    assert_eq!(rows[0].id, id);
    assert!(rows[0].created_at.is_some());
}

#[test]
fn list_of_fresh_store_is_empty() {
    let t = UsersTable::new();
    assert_eq!(t.select_all().len(), 0);
}

#[test]
fn update_twice_with_same_name_is_idempotent() {
    let mut t = UsersTable::new();
    let id = t.insert(String::from("Alice"), 10);
    t.insert(String::from("Carol"), 11);
    let n1 = t.update(id, &String::from("Anna"));
    let n2 = t.update(id, &String::from("Anna"));
    assert_eq!(n1, 1);
    assert_eq!(n2, 1);
    let rows = t.select_all();
    assert_eq!(rows.len(), 2);
    let hits: Vec<_> = rows.iter().filter(|u| u.id == id).collect();
    assert_eq!(hits.len(), 1);
    assert_eq!(hits[0].name, "Anna");
}

#[test]
fn update_keeps_id_and_created_at() {
    let mut t = UsersTable::new();
    let id = t.insert(String::from("Alice"), 42);
    t.update(id, &String::from("Anna"));
    let rows = t.select_all();
    assert_eq!(rows[0].id, id);
    assert_eq!(rows[0].created_at, Some(42));
}

#[test]
fn delete_removes_exactly_one_row() {
    let mut t = UsersTable::new();
    let a = t.insert(String::from("Alice"), 1);
    let b = t.insert(String::from("Bob"), 2);
    let c = t.insert(String::from("Carol"), 3);
    let n = t.delete(b);
    assert_eq!(n, 1);
    let rows = t.select_all();
    assert_eq!(rows.len(), 2);
    assert!(rows.iter().all(|u| u.id != b));
    assert!(rows.iter().any(|u| u.id == a));
    assert!(rows.iter().any(|u| u.id == c));
}

#[test]
fn update_of_missing_id_affects_no_row() {
    let mut t = UsersTable::new();
    t.insert(String::from("Alice"), 1);
    let n = t.update(99, &String::from("Nobody"));
    assert_eq!(n, 0);
    let rows = t.select_all();
    assert_eq!(rows.len(), 1);
    assert_eq!(rows[0].name, "Alice");
}

#[test]
fn delete_of_missing_id_affects_no_row() {
    let mut t = UsersTable::new();
    t.insert(String::from("Alice"), 1);
    let n = t.delete(99);
    assert_eq!(n, 0);
    assert_eq!(t.select_all().len(), 1);
}

#[test]
fn zero_affected_rows_reports_not_found() {
    assert_eq!(update_response(&Ok(0)), Err(ApiError::NotFound));
    assert_eq!(delete_response(&Ok(0)), Err(ApiError::NotFound));
    assert_eq!(http_status(&Err(ApiError::NotFound)), 404);
}

#[test]
fn affected_rows_report_success() {
    assert_eq!(update_response(&Ok(1)), Ok(Outcome::Updated));
    assert_eq!(delete_response(&Ok(1)), Ok(Outcome::Deleted));
    assert_eq!(create_response(&Ok(1)), Ok(Outcome::Inserted));
    assert_eq!(http_status(&Ok(Outcome::Updated)), 200);
}

#[test]
fn storage_failure_maps_to_server_error() {
    assert_eq!(create_response(&Err(DbFault)), Err(ApiError::Storage));
    assert_eq!(update_response(&Err(DbFault)), Err(ApiError::Storage));
    assert_eq!(delete_response(&Err(DbFault)), Err(ApiError::Storage));
    assert_eq!(http_status(&Err(ApiError::Storage)), 500);
}

#[test]
fn request_format_error_is_a_client_error() {
    assert_eq!(http_status(&Err(ApiError::RequestFormat)), 400);
    let b = status_body(&Err(ApiError::RequestFormat));
    assert_eq!(b.status, "error");
    assert_eq!(b.code, 400);
}

#[test]
fn status_body_of_success() {
    let b = status_body(&Ok(Outcome::Inserted));
    assert_eq!(b.status, "success");
    assert_eq!(b.code, 200);
}

#[test]
fn greeting_bodies() {
    assert_eq!(hello_body(), "Hello world");
    assert_eq!(state_body("crud"), "Hello crud!");
    assert_eq!(state_body(""), "Hello !");
}

#[test]
fn burst_of_creates_yields_distinct_ids() {
    let mut t = UsersTable::new();
    let names = ["a", "b", "c", "d", "e"];
    let mut ids = Vec::new();
    for (k, name) in names.iter().enumerate() {
        ids.push(t.insert(String::from(*name), k as i64));
    }
    let rows = t.select_all();
    assert_eq!(rows.len(), names.len());
    for i in 0..ids.len() {
        for j in 0..i {
            assert_ne!(ids[i], ids[j]);
        }
        assert!(rows.iter().any(|u| u.id == ids[i] && u.name == names[i]));
    }
}

#[test]
fn ids_are_never_reused() {
    let mut t = UsersTable::new();
    let a = t.insert(String::from("Alice"), 1);
    assert_eq!(t.delete(a), 1);
    let b = t.insert(String::from("Bob"), 2);
    assert_ne!(a, b);
}

#[test]
fn pool_bound_is_respected_and_release_unblocks() {
    let mut p = PoolGauge::new(2);
    assert!(p.try_acquire());
    assert!(p.try_acquire());
    assert!(!p.try_acquire());
    assert!(p.in_use <= p.max_size);
    p.release();
    assert!(p.try_acquire());
    assert!(p.in_use <= p.max_size);
}

#[test]
fn pool_of_zero_never_lends() {
    let mut p = PoolGauge::new(0);
    assert!(!p.try_acquire());
    assert_eq!(p.in_use, 0);
}

#[test]
fn end_to_end_example() {
    let mut t = UsersTable::new();

    // POST /users {"name":"Bob"}
    let r = create_users(&mut t, CreateRequest { name: String::from("Bob") }, 1_700_000_000_000_000);
    assert_eq!(r, Ok(Outcome::Inserted));

    // GET /users
    let rows = user_crud::api::get_users(&t);
    assert_eq!(rows.len(), 1);
    assert_eq!(rows[0].id, 1);
    assert_eq!(rows[0].name, "Bob");
    assert!(rows[0].created_at.is_some());

    // PUT /users/1 {"name":"Bobby"}
    let r = update_users(&mut t, 1, &CreateRequest { name: String::from("Bobby") });
    assert_eq!(r, Ok(Outcome::Updated));
    assert_eq!(t.select_all()[0].name, "Bobby");

    // DELETE /users/1
    let r = delete_users(&mut t, 1);
    assert_eq!(r, Ok(Outcome::Deleted));

    // GET /users again
    assert!(t.select_all().is_empty());
}

#[test]
fn id_space_exhaustion_reports_storage_error() {
    let mut t = UsersTable { rows: Vec::new(), next_id: i32::MAX };
    let r = create_users(&mut t, CreateRequest { name: String::from("Zed") }, 9);
    assert_eq!(r, Err(ApiError::Storage));
    assert!(t.select_all().is_empty());
    assert_eq!(t.next_id, i32::MAX);
}

#[test]
fn handlers_report_not_found_on_missing_id() {
    let mut t = UsersTable::new();
    create_users(&mut t, CreateRequest { name: String::from("Alice") }, 5).unwrap();
    let up = update_users(&mut t, 42, &CreateRequest { name: String::from("Nobody") });
    assert_eq!(up, Err(ApiError::NotFound));
    let del = delete_users(&mut t, 42);
    assert_eq!(del, Err(ApiError::NotFound));
    assert_eq!(t.select_all().len(), 1);
    assert_eq!(t.select_all()[0].name, "Alice");
}
