//! The backend variant a connection string selects, and the SQL text each
//! variant needs for the four logical operations on the `ticket` table.

use vstd::prelude::*;
use crate::scan::{lit_at, has_lit_at};

verus! {

/// The two database engines the program can talk to.
#[derive(Clone, Copy, Debug, PartialEq, Eq, Structural)]
pub enum Backend {
    Sqlite,
    Postgres,
}

/// Every connection pool is opened with this fixed cap on concurrent
/// connections.
pub const POOL_MAX_CONNECTIONS: u32 = 5;

/// Connection strings for the SQLite engine start with this prefix.
pub open spec fn sqlite_prefix() -> Seq<char> {
    "sqlite://"@
}

/// Connection strings for the Postgres engine start with this prefix.
pub open spec fn postgres_prefix() -> Seq<char> {
    "postgres://"@
}

/// The backend a connection string selects: a literal prefix match, with no
/// other rule. A string carrying neither prefix selects nothing, which the
/// caller must treat as a fatal misconfiguration.
pub open spec fn spec_select_backend(s: Seq<char>) -> Option<Backend> {
    if lit_at(s, 0, sqlite_prefix()) {
        Some(Backend::Sqlite)
    } else if lit_at(s, 0, postgres_prefix()) {
        Some(Backend::Postgres)
    } else {
        None
    }
}

/// Classifies a connection string by its literal prefix.
pub fn select_backend(conn: &str) -> (r: Option<Backend>)
    ensures
        r == spec_select_backend(conn@),
{
    if has_lit_at(conn, 0, "sqlite://") {
        Some(Backend::Sqlite)
    } else if has_lit_at(conn, 0, "postgres://") {
        Some(Backend::Postgres)
    } else {
        None
    }
}

/// Routing is exclusive: a string with a supported prefix selects that
/// backend and no other, and a string with neither prefix selects nothing.
pub proof fn lemma_selector_routing(s: Seq<char>)
    ensures
        lit_at(s, 0, sqlite_prefix()) ==> spec_select_backend(s) == Some(Backend::Sqlite),
        lit_at(s, 0, postgres_prefix()) ==> spec_select_backend(s) == Some(Backend::Postgres),
        !lit_at(s, 0, sqlite_prefix()) && !lit_at(s, 0, postgres_prefix())
            ==> spec_select_backend(s) is None,
{
    reveal_strlit("sqlite://");
    reveal_strlit("postgres://");
    if lit_at(s, 0, sqlite_prefix()) && lit_at(s, 0, postgres_prefix()) {
        assert(s.subrange(0, sqlite_prefix().len() as int)[0] == s[0]);
        assert(s.subrange(0, postgres_prefix().len() as int)[0] == s[0]);
    }
}

/// SQL that creates the `ticket` table when it is missing. The id column is
/// the one place the two dialects diverge: a local auto-increment primary
/// key for SQLite, a self-populating `bigserial` for Postgres.
pub open spec fn spec_ensure_schema_sql(b: Backend) -> Seq<char> {
    match b {
        Backend::Sqlite => "CREATE TABLE IF NOT EXISTS ticket (\n  id integer primary key autoincrement,\n  name text\n);"@,
        Backend::Postgres => "CREATE TABLE IF NOT EXISTS ticket (\n  id bigserial,\n  name text\n);"@,
    }
}

/// The create-table statement for the given backend.
pub fn ensure_schema_sql(b: Backend) -> (r: &'static str)
    ensures
        r@ == spec_ensure_schema_sql(b),
{
    match b {
        Backend::Sqlite => "CREATE TABLE IF NOT EXISTS ticket (\n  id integer primary key autoincrement,\n  name text\n);",
        Backend::Postgres => "CREATE TABLE IF NOT EXISTS ticket (\n  id bigserial,\n  name text\n);",
    }
}

/// SQL that inserts one row and reports the assigned id in the same round
/// trip; both dialects accept the same text.
pub open spec fn spec_insert_returning_sql() -> Seq<char> {
    "insert into ticket (name) values ($1) returning id"@
}

/// The insert-returning-id statement, shared by both backends.
pub fn insert_returning_sql() -> (r: &'static str)
    ensures
        r@ == spec_insert_returning_sql(),
{
    "insert into ticket (name) values ($1) returning id"
}

/// SQL for the raw read path: fetch every row, fields read by name.
pub open spec fn spec_select_raw_sql() -> Seq<char> {
    "SELECT * FROM ticket"@
}

/// The select-all statement for the raw read path.
pub fn select_raw_sql() -> (r: &'static str)
    ensures
        r@ == spec_select_raw_sql(),
{
    "SELECT * FROM ticket"
}

/// SQL for the typed read path: fetch every row straight into records.
pub open spec fn spec_select_typed_sql() -> Seq<char> {
    "SELECT id, name FROM ticket"@
}

/// The select-all statement for the typed read path.
pub fn select_typed_sql() -> (r: &'static str)
    ensures
        r@ == spec_select_typed_sql(),
{
    "SELECT id, name FROM ticket"
}

/// The fixed literal name every inserted row carries.
pub open spec fn spec_default_ticket_name() -> Seq<char> {
    "a new ticket"@
}

/// The name value bound into the insert statement.
pub fn default_ticket_name() -> (r: &'static str)
    ensures
        r@ == spec_default_ticket_name(),
{
    "a new ticket"
}

} // verus!
