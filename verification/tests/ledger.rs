use library_ledger::calendar::{loan_status, LoanStatus};
use library_ledger::error::{Conflict, LedgerError, Missing};
use library_ledger::library::Library;
use library_ledger::models::AdminBookInput;
use library_ledger::records::{Loan, Role};

fn input(title: &str, author: &str, isbn: &str, copies: i64) -> AdminBookInput {
    AdminBookInput {
        title: title.to_string(),
        author: author.to_string(),
        isbn: isbn.to_string(),
        year_of_pub: Some(2019),
        genre: Some("Programming".to_string()),
        copies,
    }
}

fn library_with_two_lenders() -> Library {
    let mut lib = Library::new();
    assert_eq!(lib.register("alice".to_string(), "digest-a".to_string(), Role::Lender), Ok(1));
    assert_eq!(lib.register("bob".to_string(), "digest-b".to_string(), Role::Lender), Ok(2));
    lib
}

fn counts(lib: &Library) -> Vec<(i64, i64, i64)> {
    lib.books.iter().map(|b| (b.id, b.total_copies, b.available_copies)).collect()
}

#[test]
fn scenario_last_copy_goes_to_one_lender() {
    let mut lib = library_with_two_lenders();
    assert_eq!(lib.add_or_increment(input("Rust", "Klabnik", "X", 1)), Ok(1));
    assert_eq!(lib.checkout("alice", 1, 100), Ok(1));
    assert_eq!(lib.get_available_copies(1), Some(0));
    assert_eq!(
        lib.checkout("bob", 1, 100),
        Err(LedgerError::Conflict(Conflict::NotAvailable))
    );
    assert_eq!(lib.loans.len(), 1);
    assert_eq!(lib.get_available_copies(1), Some(0));
}

#[test]
fn scenario_overdue_then_returned() {
    let mut lib = library_with_two_lenders();
    assert_eq!(lib.add_or_increment(input("Rust", "Klabnik", "X", 1)), Ok(1));
    let today: i32 = 20_000;
    assert_eq!(lib.checkout("alice", 1, today), Ok(1));
    let loan = lib.loans[0];
    assert_eq!(loan.checkout_day, 20_000);
    assert_eq!(loan.due_day, 20_014);
    assert_eq!(loan.return_day, None);
    assert_eq!(loan_status(loan.due_day, loan.return_day.is_some(), today + 14), LoanStatus::Borrowed);
    assert_eq!(loan_status(loan.due_day, loan.return_day.is_some(), today + 15), LoanStatus::Overdue);
    assert_eq!(lib.return_loan(1, today + 15), Ok(()));
    let loan = lib.loans[0];
    assert_eq!(loan.return_day, Some(20_015));
    assert_eq!(loan_status(loan.due_day, loan.return_day.is_some(), today + 15), LoanStatus::Returned);
    assert_eq!(lib.get_available_copies(1), Some(1));
}

#[test]
fn scenario_update_below_checked_out_is_refused() {
    let mut lib = library_with_two_lenders();
    assert_eq!(lib.add_or_increment(input("Rust", "Klabnik", "X", 3)), Ok(1));
    assert_eq!(lib.checkout("alice", 1, 10), Ok(1));
    assert_eq!(lib.checkout("bob", 1, 10), Ok(2));
    assert_eq!(
        lib.update_book(1, input("Other", "Else", "Y", 1)),
        Err(LedgerError::Conflict(Conflict::BelowCheckedOut))
    );
    assert_eq!(counts(&lib), vec![(1, 3, 1)]);
    assert_eq!(lib.books[0].title, "Rust");
    assert_eq!(lib.books[0].isbn, "X");
    assert_eq!(lib.update_book(1, input("Other", "Else", "Y", 2)), Ok(()));
    assert_eq!(counts(&lib), vec![(1, 2, 0)]);
    assert_eq!(lib.books[0].title, "Other");
    assert_eq!(lib.books[0].author, "Else");
    assert_eq!(lib.books[0].isbn, "Y");
    assert_eq!(lib.update_book(1, input("Other", "Else", "Y", 7)), Ok(()));
    assert_eq!(counts(&lib), vec![(1, 7, 5)]);
}

#[test]
fn add_restocks_a_known_isbn() {
    let mut lib = Library::new();
    assert_eq!(lib.add_or_increment(input("Rust", "Klabnik", "X", 2)), Ok(1));
    assert_eq!(lib.add_or_increment(input("Go", "Pike", "Y", 1)), Ok(2));
    assert_eq!(lib.add_or_increment(input("ignored", "ignored", "X", 3)), Ok(1));
    assert_eq!(counts(&lib), vec![(1, 5, 5), (2, 1, 1)]);
    assert_eq!(lib.books[0].title, "Rust");
    assert_eq!(lib.next_book_id, 3);
}

#[test]
fn add_rejects_invalid_input() {
    let mut lib = Library::new();
    assert_eq!(lib.add_or_increment(input("", "a", "i", 1)), Err(LedgerError::Validation));
    assert_eq!(lib.add_or_increment(input(" \t", "a", "i", 1)), Err(LedgerError::Validation));
    assert_eq!(lib.add_or_increment(input("t", "  ", "i", 1)), Err(LedgerError::Validation));
    assert_eq!(lib.add_or_increment(input("t", "a", "", 1)), Err(LedgerError::Validation));
    assert_eq!(lib.add_or_increment(input("t", "a", "i", 0)), Err(LedgerError::Validation));
    assert_eq!(lib.add_or_increment(input("t", "a", "i", -4)), Err(LedgerError::Validation));
    assert!(lib.books.is_empty());
    assert_eq!(lib.next_book_id, 1);
    assert!(Library::input_is_valid(&input("t", "a", "i", 1)));
    assert!(!Library::input_is_valid(&input("t", "a", "i", 0)));
}

#[test]
fn add_reports_counts_that_do_not_fit() {
    let mut lib = Library::new();
    assert_eq!(lib.add_or_increment(input("t", "a", "i", i64::MAX)), Ok(1));
    assert_eq!(lib.add_or_increment(input("t", "a", "i", 1)), Err(LedgerError::Store));
    assert_eq!(counts(&lib), vec![(1, i64::MAX, i64::MAX)]);
    lib.next_book_id = i64::MAX;
    assert_eq!(lib.add_or_increment(input("t", "a", "j", 1)), Err(LedgerError::Store));
    assert_eq!(lib.books.len(), 1);
}

#[test]
fn checkout_errors_in_order() {
    let mut lib = library_with_two_lenders();
    assert_eq!(lib.add_or_increment(input("Rust", "Klabnik", "X", 2)), Ok(1));
    assert_eq!(lib.checkout("carol", 9, 1), Err(LedgerError::NotFound(Missing::User)));
    assert_eq!(lib.checkout("alice", 9, 1), Err(LedgerError::NotFound(Missing::Book)));
    assert_eq!(lib.checkout("alice", 1, 1), Ok(1));
    assert_eq!(
        lib.checkout("alice", 1, 2),
        Err(LedgerError::Conflict(Conflict::AlreadyBorrowed))
    );
    assert_eq!(counts(&lib), vec![(1, 2, 1)]);
    assert_eq!(lib.loans.len(), 1);
    lib.next_loan_id = i64::MAX;
    assert_eq!(lib.checkout("bob", 1, 2), Err(LedgerError::Store));
    assert_eq!(counts(&lib), vec![(1, 2, 1)]);
}

#[test]
fn checkout_without_copies_changes_nothing() {
    let mut lib = library_with_two_lenders();
    assert_eq!(lib.add_or_increment(input("Rust", "Klabnik", "X", 1)), Ok(1));
    assert_eq!(lib.checkout("alice", 1, 1), Ok(1));
    let loans_before = lib.loans.clone();
    assert_eq!(
        lib.checkout("alice", 1, 1),
        Err(LedgerError::Conflict(Conflict::NotAvailable))
    );
    assert_eq!(lib.loans, loans_before);
    assert_eq!(counts(&lib), vec![(1, 1, 0)]);
    assert_eq!(lib.next_loan_id, 2);
}

#[test]
fn checkout_records_the_loan() {
    let mut lib = library_with_two_lenders();
    assert_eq!(lib.add_or_increment(input("Rust", "Klabnik", "X", 2)), Ok(1));
    assert_eq!(lib.checkout("bob", 1, -3), Ok(1));
    assert_eq!(
        lib.loans,
        vec![Loan { id: 1, user_id: 2, book_id: 1, checkout_day: -3, due_day: 11, return_day: None }]
    );
    assert_eq!(lib.checkout("alice", 1, i32::MAX), Ok(2));
    assert_eq!(lib.loans[1].due_day, 2_147_483_647 + 14);
}

#[test]
fn round_trip_restores_the_copies() {
    let mut lib = library_with_two_lenders();
    assert_eq!(lib.add_or_increment(input("Rust", "Klabnik", "X", 2)), Ok(1));
    assert_eq!(lib.add_or_increment(input("Go", "Pike", "Y", 4)), Ok(2));
    let before = counts(&lib);
    let id = lib.checkout("alice", 2, 50).unwrap();
    assert_eq!(counts(&lib), vec![(1, 2, 2), (2, 4, 3)]);
    assert_eq!(lib.return_loan(id, 51), Ok(()));
    assert_eq!(counts(&lib), before);
    assert!(lib.loans[0].return_day.is_some());
}

#[test]
fn return_of_unknown_loan_fails() {
    let mut lib = library_with_two_lenders();
    assert_eq!(lib.return_loan(5, 1), Err(LedgerError::NotFound(Missing::Loan)));
}

#[test]
fn second_return_changes_nothing() {
    let mut lib = library_with_two_lenders();
    assert_eq!(lib.add_or_increment(input("Rust", "Klabnik", "X", 2)), Ok(1));
    assert_eq!(lib.checkout("alice", 1, 5), Ok(1));
    assert_eq!(lib.return_loan(1, 6), Ok(()));
    assert_eq!(lib.return_loan(1, 9), Ok(()));
    assert_eq!(counts(&lib), vec![(1, 2, 2)]);
    assert_eq!(lib.loans[0].return_day, Some(6));
}

#[test]
fn user_may_borrow_again_after_return() {
    let mut lib = library_with_two_lenders();
    assert_eq!(lib.add_or_increment(input("Rust", "Klabnik", "X", 1)), Ok(1));
    assert_eq!(lib.checkout("alice", 1, 5), Ok(1));
    assert_eq!(lib.return_loan(1, 6), Ok(()));
    assert_eq!(lib.checkout("alice", 1, 7), Ok(2));
    assert_eq!(counts(&lib), vec![(1, 1, 0)]);
}

#[test]
fn delete_with_active_loan_is_refused() {
    let mut lib = library_with_two_lenders();
    assert_eq!(lib.add_or_increment(input("Rust", "Klabnik", "X", 2)), Ok(1));
    assert_eq!(lib.checkout("alice", 1, 5), Ok(1));
    assert_eq!(lib.delete_book(1), Err(LedgerError::Conflict(Conflict::ActiveLoans)));
    assert_eq!(lib.books.len(), 1);
    assert_eq!(lib.loans.len(), 1);
    assert_eq!(counts(&lib), vec![(1, 2, 1)]);
}

#[test]
fn delete_removes_book_and_history() {
    let mut lib = library_with_two_lenders();
    assert_eq!(lib.add_or_increment(input("Rust", "Klabnik", "X", 2)), Ok(1));
    assert_eq!(lib.add_or_increment(input("Go", "Pike", "Y", 1)), Ok(2));
    assert_eq!(lib.checkout("alice", 1, 5), Ok(1));
    assert_eq!(lib.checkout("bob", 2, 5), Ok(2));
    assert_eq!(lib.return_loan(1, 6), Ok(()));
    assert_eq!(lib.delete_book(1), Ok(()));
    assert_eq!(counts(&lib), vec![(2, 1, 0)]);
    assert_eq!(lib.loans.len(), 1);
    assert_eq!(lib.loans[0].id, 2);
    assert_eq!(lib.delete_book(1), Err(LedgerError::NotFound(Missing::Book)));
    assert_eq!(lib.get_available_copies(1), None);
}

#[test]
fn update_of_unknown_book_fails() {
    let mut lib = Library::new();
    assert_eq!(
        lib.update_book(3, input("t", "a", "i", 1)),
        Err(LedgerError::NotFound(Missing::Book))
    );
}

#[test]
fn sync_repairs_drift_and_is_idempotent() {
    let mut lib = library_with_two_lenders();
    assert_eq!(lib.add_or_increment(input("Rust", "Klabnik", "X", 3)), Ok(1));
    assert_eq!(lib.add_or_increment(input("Go", "Pike", "Y", 2)), Ok(2));
    assert_eq!(lib.checkout("alice", 1, 5), Ok(1));
    assert_eq!(lib.checkout("bob", 1, 5), Ok(2));
    lib.books[0].available_copies = 3;
    lib.books[1].available_copies = 0;
    lib.sync_availability();
    let once = counts(&lib);
    assert_eq!(once, vec![(1, 3, 1), (2, 2, 2)]);
    lib.sync_availability();
    assert_eq!(counts(&lib), once);
}

#[test]
fn copies_stay_in_range_over_a_sequence() {
    let mut lib = library_with_two_lenders();
    assert_eq!(lib.add_or_increment(input("Rust", "Klabnik", "X", 1)), Ok(1));
    let mut day: i32 = 0;
    for round in 0..6 {
        let _ = lib.checkout("alice", 1, day);
        let _ = lib.checkout("bob", 1, day);
        let _ = lib.update_book(1, input("Rust", "Klabnik", "X", round % 3));
        let _ = lib.add_or_increment(input("Rust", "Klabnik", "X", 1));
        if round % 2 == 1 {
            let _ = lib.return_loan(lib.next_loan_id - 1, day);
        }
        day += 1;
        for b in lib.books.iter() {
            assert!(0 <= b.available_copies && b.available_copies <= b.total_copies);
            let active = lib
                .loans
                .iter()
                .filter(|l| l.book_id == b.id && l.return_day.is_none())
                .count() as i64;
            assert_eq!(b.available_copies, b.total_copies - active);
            assert_eq!(lib.count_active(b.id) as i64, active);
        }
    }
}

#[test]
fn lookups_find_the_first_match() {
    let mut lib = library_with_two_lenders();
    assert_eq!(lib.add_or_increment(input("Rust", "Klabnik", "X", 2)), Ok(1));
    assert_eq!(lib.find_user("bob"), Some(1));
    assert_eq!(lib.find_user("Bob"), None);
    assert_eq!(lib.find_user_by_id(2), Some(1));
    assert_eq!(lib.find_book(1), Some(0));
    assert_eq!(lib.find_book(2), None);
    assert_eq!(lib.find_isbn(&"X".to_string()), Some(0));
    assert_eq!(lib.find_isbn(&"x".to_string()), None);
    assert_eq!(lib.checkout("bob", 1, 1), Ok(1));
    assert_eq!(lib.find_loan(1), Some(0));
    assert_eq!(lib.find_loan(2), None);
    assert_eq!(lib.count_held(2, 1), 1);
    assert_eq!(lib.count_held(1, 1), 0);
}

#[test]
fn clock_driven_checkout_and_return() {
    let mut lib = library_with_two_lenders();
    assert_eq!(lib.add_or_increment(input("Rust", "Klabnik", "X", 1)), Ok(1));
    assert_eq!(lib.checkout_today("alice", 1), Ok(1));
    let loan = lib.loans[0];
    assert_eq!(loan.due_day, loan.checkout_day + 14);
    assert!(loan.checkout_day > 19_000);
    assert_eq!(lib.return_today(1), Ok(()));
    assert_eq!(lib.loans[0].return_day, Some(loan.checkout_day));
    assert_eq!(lib.get_available_copies(1), Some(1));
}

#[test]
fn audit_accepts_what_the_engine_builds() {
    let mut lib = library_with_two_lenders();
    assert!(lib.is_well_formed());
    assert_eq!(lib.add_or_increment(input("Rust", "Klabnik", "X", 2)), Ok(1));
    assert_eq!(lib.checkout("alice", 1, 5), Ok(1));
    assert_eq!(lib.checkout("bob", 1, 5), Ok(2));
    assert_eq!(lib.return_loan(1, 6), Ok(()));
    assert!(lib.users_are_ok());
    assert!(lib.books_are_ok());
    assert!(lib.loans_are_ok());
    assert!(lib.is_repairable());
    assert!(lib.is_well_formed());
    assert!(lib.sessions_are_ok());
}

#[test]
fn audit_tells_drift_from_damage() {
    let mut lib = library_with_two_lenders();
    assert_eq!(lib.add_or_increment(input("Rust", "Klabnik", "X", 2)), Ok(1));
    assert_eq!(lib.checkout("alice", 1, 5), Ok(1));
    lib.books[0].available_copies = 2;
    assert!(!lib.is_well_formed());
    assert!(lib.is_repairable());
    lib.books[0].available_copies = -1;
    assert!(!lib.is_well_formed());
    assert!(lib.is_repairable());
    lib.books[0].total_copies = 0;
    assert!(!lib.is_repairable());
    lib.books[0].total_copies = 2;
    lib.sync_availability();
    assert!(lib.is_well_formed());
}

#[test]
fn audit_finds_broken_records() {
    let base = || {
        let mut lib = library_with_two_lenders();
        assert_eq!(lib.add_or_increment(input("Rust", "Klabnik", "X", 3)), Ok(1));
        assert_eq!(lib.add_or_increment(input("Go", "Pike", "Y", 3)), Ok(2));
        assert_eq!(lib.checkout("alice", 1, 5), Ok(1));
        assert_eq!(lib.checkout("bob", 1, 5), Ok(2));
        lib
    };
    let mut lib = base();
    lib.users[1].username = "alice".to_string();
    assert!(!lib.users_are_ok());
    let mut lib = base();
    lib.users[1].id = 1;
    assert!(!lib.users_are_ok());
    let mut lib = base();
    lib.next_user_id = 2;
    assert!(!lib.users_are_ok());
    let mut lib = base();
    lib.books[1].id = 1;
    assert!(!lib.books_are_ok());
    assert!(!lib.is_well_formed());
    let mut lib = base();
    lib.next_book_id = 2;
    assert!(!lib.books_are_ok());
    let mut lib = base();
    lib.loans[1].user_id = 1;
    assert!(!lib.loans_are_ok());
    assert!(!lib.is_repairable());
    let mut lib = base();
    lib.loans[1].id = 1;
    assert!(!lib.loans_are_ok());
    let mut lib = base();
    lib.loans[0].due_day = 20;
    assert!(!lib.loans_are_ok());
    let mut lib = base();
    lib.loans[0].book_id = 3;
    assert!(!lib.loans_are_ok());
    let mut lib = base();
    lib.next_loan_id = 2;
    assert!(!lib.loans_are_ok());
    let mut lib = base();
    lib.loans[1].user_id = 1;
    lib.loans[1].return_day = Some(9);
    assert!(lib.loans_are_ok());
}
