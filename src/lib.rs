//! An in-memory table of user records with verified create, read, update and
//! delete operations, and the request handlers that wrap each operation in a
//! uniform response envelope with an HTTP status code.

pub mod handlers;
pub mod history;
pub mod store;
pub mod user;
