//! The rows that the reports hand out and the input that the catalog takes.

use vstd::prelude::*;

verus! {

/// A user as an administrator sees it.
#[derive(Debug)]
pub struct AdminUser {
    pub id: i64,
    pub username: String,
    pub role: String,
}

/// A book as an administrator sees it; `status` tells the available and the
/// checked-out copies in words.
#[derive(Debug)]
pub struct AdminBook {
    pub bookid: i64,
    pub title: String,
    pub author: String,
    pub isbn: String,
    pub year_of_pub: Option<i64>,
    pub genre: Option<String>,
    pub total_copies: i64,
    pub available_copies: i64,
    pub status: String,
}

/// A loan as an administrator sees it.
#[derive(Debug)]
pub struct AdminLoan {
    pub loanid: i64,
    pub username: String,
    pub title: String,
    pub checkout_date: String,
    pub due_date: String,
    pub status: String,
}

/// What an administrator enters to add or to update a book.
#[derive(Debug)]
pub struct AdminBookInput {
    pub title: String,
    pub author: String,
    pub isbn: String,
    pub year_of_pub: Option<i64>,
    pub genre: Option<String>,
    pub copies: i64,
}

/// A book that a lender can borrow.
#[derive(Debug)]
pub struct LenderBook {
    pub bookid: i64,
    pub title: String,
    pub author: String,
    pub genre: String,
    pub available_copies: i64,
}

/// One of a lender's current loans.
#[derive(Debug)]
pub struct LenderLoan {
    pub loanid: i64,
    pub title: String,
    pub checkout_date: String,
    pub due_date: String,
    pub status: String,
}

/// A loan that is past its due date, with its borrower, as an administrator
/// sees it.
#[derive(Debug)]
pub struct AdminOverdueLoan {
    pub username: String,
    pub title: String,
    pub due_date: String,
    pub days_overdue: i64,
}

/// A loan that is past its due date.
#[derive(Debug)]
pub struct OverdueLoan {
    pub loanid: i64,
    pub title: String,
    pub due_date: String,
    pub days_overdue: i64,
}

} // verus!
