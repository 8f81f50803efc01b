//! The four relations of the store: users, books, loans and sessions.

use vstd::prelude::*;

verus! {

/// The two roles; a user's role is fixed at registration.
#[derive(Clone, Copy, Debug, PartialEq, Eq, Structural)]
pub enum Role {
    Admin,
    Lender,
}

/// A registered user.
#[derive(Debug)]
pub struct User {
    pub id: i64,
    pub username: String,
    pub password_digest: String,
    pub role: Role,
}

/// A title in the catalog, tracked per title and not per copy.
#[derive(Debug)]
pub struct Book {
    pub id: i64,
    pub title: String,
    pub author: String,
    pub isbn: String,
    pub year_of_publication: Option<i64>,
    pub genre: Option<String>,
    pub total_copies: i64,
    pub available_copies: i64,
}

/// A loan of one copy; days are counted from 1970-01-01.
#[derive(Clone, Copy, Debug, PartialEq, Eq, Structural)]
pub struct Loan {
    pub id: i64,
    pub user_id: i64,
    pub book_id: i64,
    pub checkout_day: i64,
    pub due_day: i64,
    pub return_day: Option<i64>,
}

/// A server-side session; `expires_at` is in seconds since 1970-01-01 UTC.
#[derive(Debug)]
pub struct Session {
    pub token: String,
    pub username: String,
    pub role: Role,
    pub expires_at: i64,
}

impl Loan {
    /// A loan is active until it is returned.
    pub open spec fn is_active(self) -> bool {
        self.return_day is None
    }

    /// The checkout day is a day of the clock, and the loan is due fourteen
    /// days after it.
    pub open spec fn dated(self) -> bool {
        i32::MIN <= self.checkout_day <= i32::MAX && self.due_day == self.checkout_day + 14
    }

    /// The loan is an active loan of a copy of `book_id`.
    pub open spec fn active_on(self, book_id: i64) -> bool {
        self.is_active() && self.book_id == book_id
    }

    /// The loan is `user_id`'s active loan of a copy of `book_id`.
    pub open spec fn active_for(self, user_id: i64, book_id: i64) -> bool {
        self.active_on(book_id) && self.user_id == user_id
    }
}

} // verus!
