//! Storage codec for username/password credentials kept in a relational table.
//!
//! The crate fixes the table layout and the statements that act on it, turns a
//! [`Credential`] into the row that stores it, and reads fetched rows back into
//! credentials. It never touches a database connection: callers execute the
//! statements and hand the fetched rows over.

pub mod db;
pub mod identifier;
pub mod model;
pub mod store;
pub mod timestamp;

pub use model::credential::Credential;
