//! The typed failures that operations of the engine return.

use vstd::prelude::*;

verus! {

/// The kind of record that a lookup did not find.
#[derive(Clone, Copy, Debug, PartialEq, Eq, Structural)]
pub enum Missing {
    User,
    Book,
    Loan,
}

/// The business rule that an operation would have broken.
#[derive(Clone, Copy, Debug, PartialEq, Eq, Structural)]
pub enum Conflict {
    /// No copy of the book is available.
    NotAvailable,
    /// The user already holds an active loan on the book.
    AlreadyBorrowed,
    /// The book still has active loans.
    ActiveLoans,
    /// The new total would be below the number of copies lent out.
    BelowCheckedOut,
    /// The username is already registered.
    UsernameTaken,
}

/// Why an operation was not carried out.  A failed operation never changes
/// the state.
#[derive(Clone, Copy, Debug, PartialEq, Eq, Structural)]
pub enum LedgerError {
    /// Malformed or missing input.
    Validation,
    /// A username, book id or loan id does not resolve.
    NotFound(Missing),
    /// A business rule forbids the operation.
    Conflict(Conflict),
    /// No session, an expired session, or a session of the wrong role.
    Unauthorized,
    /// The store cannot hold the result (an identifier or a count would
    /// leave the range of its type).
    Store,
}

} // verus!
