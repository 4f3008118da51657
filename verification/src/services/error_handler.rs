//! What a message of the database means for the caller.

use crate::errors::concat;
use vstd::prelude::*;

verus! {

/// Whether `part` stands somewhere in `text`.
pub open spec fn spec_contains(text: Seq<char>, part: Seq<char>) -> bool {
    exists|i: int, j: int| 0 <= i <= j <= text.len() && #[trigger] text.subrange(i, j) == part
}

/// The kinds of failure that are told apart.
#[derive(Clone, Copy, Debug, PartialEq, Eq, Structural)]
pub enum DbErrorKind {
    /// What was to be made is there already.
    AlreadySatisfied,
    /// A row points at a row that does not exist.
    ForeignKey,
    /// The statement is not valid SQL.
    Syntax,
    /// Anything else.
    Other,
}

/// The kind of failure that a message of the database tells of. A message
/// that fits several kinds is of the first of them.
pub open spec fn spec_kind_of(message: Seq<char>) -> DbErrorKind {
    if spec_contains(message, "already exists"@) || spec_contains(message, "duplicate key"@) {
        DbErrorKind::AlreadySatisfied
    } else if spec_contains(message, "foreign key constraint"@) {
        DbErrorKind::ForeignKey
    } else if spec_contains(message, "syntax error"@) {
        DbErrorKind::Syntax
    } else {
        DbErrorKind::Other
    }
}

/// What is put before the message of the database for each kind.
pub open spec fn spec_heading(kind: DbErrorKind) -> Seq<char> {
    match kind {
        DbErrorKind::AlreadySatisfied => "Constraint already satisfied: "@,
        DbErrorKind::ForeignKey => "Foreign key constraint violation: "@,
        DbErrorKind::Syntax => "SQL syntax error: "@,
        DbErrorKind::Other => "Database operation failed: "@,
    }
}

/// Calls `str::contains` with a string as the pattern: whether the pattern
/// matches a part of the text.
#[verifier::external_body]
fn contains(text: &str, part: &str) -> (r: bool)
    ensures
        r == spec_contains(text@, part@),
{
    text.contains(part)
}

/// The kind of failure that a message of the database tells of.
pub fn kind_of(error_message: &str) -> (r: DbErrorKind)
    ensures
        r == spec_kind_of(error_message@),
{
    if contains(error_message, "already exists") || contains(error_message, "duplicate key") {
        DbErrorKind::AlreadySatisfied
    } else if contains(error_message, "foreign key constraint") {
        DbErrorKind::ForeignKey
    } else if contains(error_message, "syntax error") {
        DbErrorKind::Syntax
    } else {
        DbErrorKind::Other
    }
}

/// Tells whether a failure of the database is fatal, and words it for the
/// caller.
///
/// A failure is fatal unless it says that what was to be made is there
/// already. The wording is the heading of the kind of failure, followed by
/// the message of the database.
pub fn handle_db_error(error_message: &str) -> (r: (bool, String))
    ensures
        r.0 == !(spec_kind_of(error_message@) is AlreadySatisfied),
        r.1@ == spec_heading(spec_kind_of(error_message@)) + error_message@,
{
    match kind_of(error_message) {
        DbErrorKind::AlreadySatisfied => (
            false,
            concat("Constraint already satisfied: ", error_message),
        ),
        DbErrorKind::ForeignKey => (
            true,
            concat("Foreign key constraint violation: ", error_message),
        ),
        DbErrorKind::Syntax => (true, concat("SQL syntax error: ", error_message)),
        DbErrorKind::Other => (true, concat("Database operation failed: ", error_message)),
    }
}

} // verus!
