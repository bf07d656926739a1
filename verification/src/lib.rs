//! A minimal CRUD service core for a single `users` table: request parsing,
//! routing, a JSON codec for the user record, an in-memory storage model with
//! SQL-like semantics, and response formatting. All logic is verified; the
//! network and database edges live outside this crate.
pub mod http;
pub mod json;
pub mod num;
pub mod response;
pub mod service;
pub mod store;
