//! Verified core of a small user-record service.
//!
//! The service stores user rows (server-assigned `id`, client-supplied
//! `name`, insertion timestamp) in one relational table reached through a
//! bounded connection pool, and exposes list / create / update / delete
//! handlers plus two greeting routes. This crate holds the part of that
//! service that is plain logic and proves it: the table semantics with
//! its id-uniqueness invariant, the mapping from a statement's outcome to
//! the response each handler owes, and the pool's checked-out accounting.
//! The HTTP server, JSON encoding and the database driver live outside,
//! in an unverified shell that hands this crate plain values.

pub mod api;
pub mod laws;
pub mod pool;
pub mod table;
pub mod user;
