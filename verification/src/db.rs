//! The table that holds the credentials, and the statements that act on it.
//!
//! Every column is text. `id` holds the canonical text of the identifier and
//! is the primary key, so no two rows share an identifier. `created_at` and
//! `updated_at` hold RFC 3339 text. `description` alone may be absent.

use vstd::prelude::*;

verus! {

/// Creates the `credentials` table unless it exists. Running it again leaves
/// the table, and the rows in it, as they are.
pub const CREATE_TABLE: &'static str = "CREATE TABLE IF NOT EXISTS credentials (
    id TEXT PRIMARY KEY,
    url TEXT NOT NULL,
    description TEXT,
    username TEXT NOT NULL,
    password TEXT NOT NULL,
    created_at TEXT NOT NULL,
    updated_at TEXT NOT NULL
);";

/// Inserts one row. The seven placeholders take the columns of a row in the
/// order of its fields.
pub const INSERT: &'static str = "INSERT INTO credentials (
    id, url, description, username, password, created_at, updated_at
) VALUES (?1, ?2, ?3, ?4, ?5, ?6, ?7);";

/// Fetches every row, the columns in the order of a row's fields. The rows
/// come in no promised order.
pub const SELECT_ALL: &'static str = "SELECT id, url, description, username, password, created_at, updated_at
FROM credentials;";

} // verus!
