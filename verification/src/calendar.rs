//! Days, the clock, and the status of a loan.
//!
//! A day is counted from 1970-01-01, which is day 0.  Reading the clock and
//! turning a day into text and back is the work of `chrono`; what this
//! module states of it is believed, not proved.

use vstd::prelude::*;
use chrono::{NaiveDate, Utc};

verus! {

/// A reading of the clock: the seconds since 1970-01-01 00:00:00 UTC and
/// the day in UTC.
#[derive(Clone, Copy, Debug)]
pub struct Moment {
    pub seconds: i64,
    pub day: i32,
}

/// The status of a loan on a given day.
#[derive(Clone, Copy, Debug, PartialEq, Eq, Structural)]
pub enum LoanStatus {
    Borrowed,
    Overdue,
    Returned,
}

/// The day that `chrono` reads from a text of the form `YYYY-MM-DD`, if it
/// reads one.
pub uninterp spec fn date_of_text(text: Seq<char>) -> Option<i32>;

/// The text `YYYY-MM-DD` that `chrono` writes for a day, if the day is
/// within the range of its calendar.
pub uninterp spec fn text_of_date(day: i32) -> Option<Seq<char>>;

/// Reads the clock with `chrono::Utc::now` and takes from it the Unix
/// timestamp (`DateTime::timestamp`) and the day (`DateTime::date_naive`,
/// `NaiveDate::to_epoch_days`).  Nothing is claimed of the values.  On a
/// machine whose clock stands before 1970 `Utc::now` does not return.
#[verifier::external_body]
pub(crate) fn read_clock() -> (m: Moment) {
    let now = Utc::now();
    Moment { seconds: now.timestamp(), day: now.date_naive().to_epoch_days() }
}

/// Parses `text` with `chrono::NaiveDate::parse_from_str` and the format
/// `%Y-%m-%d`, and counts the days with `NaiveDate::to_epoch_days`.  The
/// result depends on the text alone; it is `None` where the text is
/// rejected.
#[verifier::external_body]
fn parse_day(text: &str) -> (r: Option<i32>)
    ensures
        r == date_of_text(text@),
{
    match NaiveDate::parse_from_str(text, "%Y-%m-%d") {
        Ok(date) => Some(date.to_epoch_days()),
        Err(_) => None,
    }
}

/// Makes the date of `day` with `chrono::NaiveDate::from_epoch_days` and
/// writes it with `NaiveDate::format` and the format `%Y-%m-%d`.  The
/// result depends on the day alone; it is `None` where the day is outside
/// the calendar.
#[verifier::external_body]
fn format_day(day: i32) -> (r: Option<String>)
    ensures
        match r {
            Some(text) => text_of_date(day) == Some(text@),
            None => text_of_date(day) is None,
        },
{
    match NaiveDate::from_epoch_days(day) {
        Some(date) => Some(date.format("%Y-%m-%d").to_string()),
        None => None,
    }
}

/// The status of a loan: returned once it has a return date, else overdue
/// if it was due before today, else borrowed.
pub open spec fn status_of(due_day: i64, returned: bool, today: i32) -> LoanStatus {
    if returned {
        LoanStatus::Returned
    } else if due_day < today {
        LoanStatus::Overdue
    } else {
        LoanStatus::Borrowed
    }
}

/// The word for a status.
pub open spec fn status_text(status: LoanStatus) -> Seq<char> {
    match status {
        LoanStatus::Borrowed => "Borrowed"@,
        LoanStatus::Overdue => "Overdue"@,
        LoanStatus::Returned => "Returned"@,
    }
}

/// The text of a day in reports: `YYYY-MM-DD`, or the empty text for a day
/// outside the calendar.
pub open spec fn date_text(day: i64) -> Seq<char> {
    if i32::MIN <= day <= i32::MAX && text_of_date(day as i32) is Some {
        text_of_date(day as i32)->0
    } else {
        Seq::empty()
    }
}

/// The status that `calculate_loan_status` reports on the day `today`:
/// nothing where the loan is not returned and its due date cannot be read.
pub open spec fn status_on(due_date: Seq<char>, returned: bool, today: i32) -> Option<LoanStatus> {
    if returned {
        Some(LoanStatus::Returned)
    } else {
        match date_of_text(due_date) {
            Some(due) => Some(status_of(due as i64, false, today)),
            None => None,
        }
    }
}

/// The text of `day` in reports.
pub fn format_date(day: i64) -> (r: String)
    ensures
        r@ == date_text(day),
{
    if day < -2147483648 || day > 2147483647 {
        return String::new();
    }
    match format_day(day as i32) {
        Some(text) => text,
        None => String::new(),
    }
}

/// The status on the day `today` of a loan due on `due_day`.
pub fn loan_status(due_day: i64, returned: bool, today: i32) -> (r: LoanStatus)
    ensures
        r == status_of(due_day, returned, today),
{
    if returned {
        LoanStatus::Returned
    } else if due_day < today as i64 {
        LoanStatus::Overdue
    } else {
        LoanStatus::Borrowed
    }
}

/// The word for `status`.
pub fn status_label(status: LoanStatus) -> (r: String)
    ensures
        r@ == status_text(status),
{
    match status {
        LoanStatus::Borrowed => "Borrowed".to_owned(),
        LoanStatus::Overdue => "Overdue".to_owned(),
        LoanStatus::Returned => "Returned".to_owned(),
    }
}

/// The number of days by which a loan due on `due_day` is late on `today`.
pub fn days_overdue(due_day: i64, today: i32) -> (r: i64)
    requires
        i32::MIN <= due_day <= i32::MAX + 14,
    ensures
        r == today - due_day,
{
    today as i64 - due_day
}

/// The status on the day `today` of a loan with the due date `due_date`,
/// returned or not.
pub fn loan_status_on(due_date: &str, returned: bool, today: i32) -> (r: Option<LoanStatus>)
    ensures
        r == status_on(due_date@, returned, today),
{
    if returned {
        return Some(LoanStatus::Returned);
    }
    match parse_day(due_date) {
        Some(due) => Some(loan_status(due as i64, false, today)),
        None => None,
    }
}

/// The word for today's status of a loan with the due date `due_date` and,
/// if it was returned, the return date `return_date`.  A returned loan is
/// `Returned` whatever the clock says; for any other the word is that of
/// `status_on` for the day that the clock gave.
pub fn calculate_loan_status(due_date: &str, return_date: Option<&str>) -> (r: Option<String>)
    ensures
        return_date is Some ==> r is Some && r->0@ == status_text(LoanStatus::Returned),
        r is Some <==> return_date is Some || date_of_text(due_date@) is Some,
        r is Some ==> exists|today: i32|
            #![trigger status_on(due_date@, return_date is Some, today)]
            status_on(due_date@, return_date is Some, today) is Some && r->0@ == status_text(
                status_on(due_date@, return_date is Some, today)->0,
            ),
{
    let moment = read_clock();
    match loan_status_on(due_date, return_date.is_some(), moment.day) {
        Some(status) => Some(status_label(status)),
        None => None,
    }
}

} // verus!
