//! The database a query is written for; it decides the placeholder syntax and
//! a few type rules.
use vstd::prelude::*;

verus! {

/// A supported database.
#[derive(Debug, Clone, Copy, PartialEq, Eq, Structural)]
pub enum Database {
    /// PostgreSQL: numbered placeholders (`$1`, `$2`, ...).
    Postgres,
    /// MySQL: `?` placeholders.
    MySql,
    /// SQLite: numbered placeholders, and a narrow set of native types.
    Sqlite,
}

impl Database {
    /// Whether placeholders are the bare `?` (as opposed to `$` and a number).
    pub open spec fn uses_question_mark(self) -> bool {
        self is MySql
    }

    /// The placeholder marker: `?` for MySQL, `$` otherwise.
    pub fn placeholder(self) -> (r: char)
        ensures
            r == (if self.uses_question_mark() { '?' } else { '$' }),
    {
        match self {
            Database::MySql => '?',
            _ => '$',
        }
    }
}

} // verus!
