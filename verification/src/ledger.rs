//! Checkout, return and the re-derivation of the available copies.

use vstd::prelude::*;
use crate::calendar::{read_clock, status_of, LoanStatus};
use crate::error::{Conflict, LedgerError, Missing};
use crate::library::{
    active_count, active_loan_for, active_loan_of, book_with_id, held_count, loan_with_id,
    user_named, Library,
};
use crate::records::{Book, Loan};
use crate::seqs::{
    first_index, lemma_count_positive, lemma_count_push, lemma_count_update, lemma_first_index,
    lemma_first_index_is,
};

verus! {

/// The number of days for which a copy is lent.
pub const LOAN_DAYS: i64 = 14;

/// The loan that a checkout on the day `today` records.
pub open spec fn new_loan(id: i64, user_id: i64, book_id: i64, today: i32) -> Loan {
    Loan {
        id,
        user_id,
        book_id,
        checkout_day: today as i64,
        due_day: (today + LOAN_DAYS) as i64,
        return_day: None,
    }
}

/// The book with its available copies changed by `delta`.
pub open spec fn with_available(book: Book, delta: int) -> Book {
    Book { available_copies: (book.available_copies + delta) as i64, ..book }
}

/// The books with every book's available copies derived from the loans.
pub open spec fn synced(books: Seq<Book>, loans: Seq<Loan>) -> Seq<Book> {
    Seq::new(
        books.len(),
        |i: int|
            Book {
                available_copies: (books[i].total_copies - active_count(loans, books[i].id)) as i64,
                ..books[i]
            },
    )
}

/// Why the user named `username` cannot check out the book `book_id`, if
/// anything forbids it.  The tests are made in this order.
pub open spec fn checkout_refusal(lib: Library, username: Seq<char>, book_id: i64) -> Option<
    LedgerError,
> {
    let ui = first_index(lib.users@, user_named(username));
    let bi = first_index(lib.books@, book_with_id(book_id));
    if ui >= lib.users@.len() {
        Some(LedgerError::NotFound(Missing::User))
    } else if bi >= lib.books@.len() {
        Some(LedgerError::NotFound(Missing::Book))
    } else if lib.books@[bi].available_copies <= 0 {
        Some(LedgerError::Conflict(Conflict::NotAvailable))
    } else if held_count(lib.loans@, lib.users@[ui].id, book_id) > 0 {
        Some(LedgerError::Conflict(Conflict::AlreadyBorrowed))
    } else if lib.next_loan_id == i64::MAX {
        Some(LedgerError::Store)
    } else {
        None
    }
}

/// `post` is `pre` after the user named `username` checked out the book
/// `book_id` on the day `today` and the loan got the id `loan_id`.
pub open spec fn checked_out(
    pre: Library,
    post: Library,
    username: Seq<char>,
    book_id: i64,
    today: i32,
    loan_id: i64,
) -> bool {
    let ui = first_index(pre.users@, user_named(username));
    let bi = first_index(pre.books@, book_with_id(book_id));
    &&& loan_id == pre.next_loan_id
    &&& post.loans@ == pre.loans@.push(new_loan(loan_id, pre.users@[ui].id, book_id, today))
    &&& post.books@ == pre.books@.update(bi, with_available(pre.books@[bi], -1))
    &&& post.users == pre.users
    &&& post.sessions == pre.sessions
    &&& post.next_user_id == pre.next_user_id
    &&& post.next_book_id == pre.next_book_id
    &&& post.next_loan_id == pre.next_loan_id + 1
}

/// `post` is `pre` after the loan `loan_id`, which `pre` holds, was returned
/// on the day `today`.  Returning a loan a second time changes nothing.
pub open spec fn returned(pre: Library, post: Library, loan_id: i64, today: i32) -> bool {
    let li = first_index(pre.loans@, loan_with_id(loan_id));
    let loan = pre.loans@[li];
    let bi = first_index(pre.books@, book_with_id(loan.book_id));
    if loan.return_day is Some {
        post == pre
    } else {
        &&& post.loans@ == pre.loans@.update(li, Loan { return_day: Some(today as i64), ..loan })
        &&& post.books@ == if bi < pre.books@.len() {
            pre.books@.update(bi, with_available(pre.books@[bi], 1))
        } else {
            pre.books@
        }
        &&& post.users == pre.users
        &&& post.sessions == pre.sessions
        &&& post.next_user_id == pre.next_user_id
        &&& post.next_book_id == pre.next_book_id
        &&& post.next_loan_id == pre.next_loan_id
    }
}

/// What `checkout` promises of its result `r` and of the store after it.
pub open spec fn checkout_outcome(
    pre: Library,
    post: Library,
    username: Seq<char>,
    book_id: i64,
    today: i32,
    r: Result<i64, LedgerError>,
) -> bool {
    match r {
        Ok(loan_id) => checkout_refusal(pre, username, book_id) is None && checked_out(
            pre,
            post,
            username,
            book_id,
            today,
            loan_id,
        ),
        Err(e) => checkout_refusal(pre, username, book_id) == Some(e) && post == pre,
    }
}

/// What `return_loan` promises of its result `r` and of the store after it.
pub open spec fn return_outcome(
    pre: Library,
    post: Library,
    loan_id: i64,
    today: i32,
    r: Result<(), LedgerError>,
) -> bool {
    match r {
        Ok(()) => first_index(pre.loans@, loan_with_id(loan_id)) < pre.loans@.len() && returned(
            pre,
            post,
            loan_id,
            today,
        ),
        Err(e) => e == LedgerError::NotFound(Missing::Loan) && first_index(
            pre.loans@,
            loan_with_id(loan_id),
        ) >= pre.loans@.len() && post == pre,
    }
}

impl Library {
    /// Lends a copy of the book `book_id` to the user named `username` for
    /// fourteen days from `today`, and returns the id of the new loan.
    ///
    /// The checkout is refused, and nothing changes, exactly when
    /// `checkout_refusal` names an error.
    pub fn checkout(&mut self, username: &str, book_id: i64, today: i32) -> (r: Result<
        i64,
        LedgerError,
    >)
        requires
            old(self).wf(),
        ensures
            final(self).wf(),
            checkout_outcome(*old(self), *final(self), username@, book_id, today, r),
    {
        proof {
            lemma_first_index(self.users@, user_named(username@));
            lemma_first_index(self.books@, book_with_id(book_id));
        }
        let ui = match self.find_user(username) {
            Some(ui) => ui,
            None => {
                return Err(LedgerError::NotFound(Missing::User));
            },
        };
        let bi = match self.find_book(book_id) {
            Some(bi) => bi,
            None => {
                return Err(LedgerError::NotFound(Missing::Book));
            },
        };
        let user_id: i64 = self.users[ui].id;
        if self.books[bi].available_copies <= 0 {
            return Err(LedgerError::Conflict(Conflict::NotAvailable));
        }
        if self.count_held(user_id, book_id) > 0 {
            return Err(LedgerError::Conflict(Conflict::AlreadyBorrowed));
        }
        if self.next_loan_id == i64::MAX {
            return Err(LedgerError::Store);
        }
        let loan_id: i64 = self.next_loan_id;
        let day: i64 = today as i64;
        let loan = Loan {
            id: loan_id,
            user_id,
            book_id,
            checkout_day: day,
            due_day: day + LOAN_DAYS,
            return_day: None,
        };
        self.loans.push(loan);
        self.books[bi].available_copies = self.books[bi].available_copies - 1;
        self.next_loan_id = loan_id + 1;
        proof {
            let pre = *old(self);
            assert forall|u: i64, b: i64| #[trigger] held_count(self.loans@, u, b) <= 1 by {
                lemma_count_push(pre.loans@, active_loan_for(u, b), loan);
                assert(held_count(pre.loans@, u, b) <= 1);
            }
            assert forall|i: int| 0 <= i < self.books@.len() implies 0 <= (
            #[trigger] self.books@[i]).available_copies && self.books@[i].available_copies
                + active_count(self.loans@, self.books@[i].id) == self.books@[i].total_copies by {
                lemma_count_push(pre.loans@, active_loan_of(pre.books@[i].id), loan);
                assert(pre.books@[i].id == pre.books@[bi as int].id ==> i == bi);
            }
        }
        Ok(loan_id)
    }

    /// Records on the day `today` that the loan `loan_id` was returned, and
    /// gives the copy back to the catalog.
    ///
    /// Fails, and changes nothing, exactly when no loan has that id.  A loan
    /// that was returned before stays as it is.
    pub fn return_loan(&mut self, loan_id: i64, today: i32) -> (r: Result<(), LedgerError>)
        requires
            old(self).wf(),
        ensures
            final(self).wf(),
            return_outcome(*old(self), *final(self), loan_id, today, r),
    {
        proof {
            lemma_first_index(self.loans@, loan_with_id(loan_id));
        }
        let li = match self.find_loan(loan_id) {
            Some(li) => li,
            None => {
                return Err(LedgerError::NotFound(Missing::Loan));
            },
        };
        if self.loans[li].return_day.is_some() {
            return Ok(());
        }
        let book_id: i64 = self.loans[li].book_id;
        let found = self.find_book(book_id);
        let ghost pre = *old(self);
        let ghost before = pre.loans@[li as int];
        let ghost after = Loan { return_day: Some(today as i64), ..before };
        proof {
            lemma_first_index(self.books@, book_with_id(book_id));
            assert forall|i: int|
                0 <= i < pre.books@.len() && (#[trigger] pre.books@[i]).id
                    == book_id implies pre.books@[i].available_copies
                < pre.books@[i].total_copies by {
                lemma_count_positive(pre.loans@, active_loan_of(book_id), li as int);
            }
        }
        self.loans[li].return_day = Some(today as i64);
        match found {
            Some(bi) => {
                self.books[bi].available_copies = self.books[bi].available_copies + 1;
            },
            None => {},
        }
        proof {
            assert(self.loans@ == pre.loans@.update(li as int, after));
            assert forall|u: i64, b: i64| #[trigger] held_count(self.loans@, u, b) <= 1 by {
                lemma_count_update(pre.loans@, active_loan_for(u, b), li as int, after);
                assert(held_count(pre.loans@, u, b) <= 1);
            }
            assert forall|i: int| 0 <= i < self.books@.len() implies 0 <= (
            #[trigger] self.books@[i]).available_copies && self.books@[i].available_copies
                + active_count(self.loans@, self.books@[i].id) == self.books@[i].total_copies by {
                lemma_count_update(pre.loans@, active_loan_of(pre.books@[i].id), li as int, after);
                if found is Some {
                    assert(pre.books@[i].id == pre.books@[found->0 as int].id ==> i == found->0);
                }
            }
        }
        Ok(())
    }

    /// Lends a copy of the book `book_id` to the user named `username` as
    /// `checkout` does, on the day that the clock gives.
    pub fn checkout_today(&mut self, username: &str, book_id: i64) -> (r: Result<i64, LedgerError>)
        requires
            old(self).wf(),
        ensures
            final(self).wf(),
            exists|today: i32|
                checkout_outcome(*old(self), *final(self), username@, book_id, today, r),
    {
        let moment = read_clock();
        self.checkout(username, book_id, moment.day)
    }

    /// Records the return of the loan `loan_id` as `return_loan` does, on
    /// the day that the clock gives.
    pub fn return_today(&mut self, loan_id: i64) -> (r: Result<(), LedgerError>)
        requires
            old(self).wf(),
        ensures
            final(self).wf(),
            exists|today: i32| return_outcome(*old(self), *final(self), loan_id, today, r),
    {
        let moment = read_clock();
        self.return_loan(loan_id, moment.day)
    }

    /// Derives every book's available copies anew from the active loans.
    pub fn sync_availability(&mut self)
        requires
            old(self).repairable(),
        ensures
            final(self).wf(),
            final(self).books@ == synced(old(self).books@, old(self).loans@),
            final(self).loans == old(self).loans,
            final(self).users == old(self).users,
            final(self).sessions == old(self).sessions,
            final(self).next_user_id == old(self).next_user_id,
            final(self).next_book_id == old(self).next_book_id,
            final(self).next_loan_id == old(self).next_loan_id,
    {
        let ghost target = synced(old(self).books@, old(self).loans@);
        let mut i: usize = 0;
        while i < self.books.len()
            invariant
                i <= self.books@.len(),
                self.books@.len() == old(self).books@.len(),
                old(self).repairable(),
                target == synced(old(self).books@, old(self).loans@),
                forall|j: int| 0 <= j < i ==> #[trigger] self.books@[j] == target[j],
                forall|j: int|
                    i <= j < self.books@.len() ==> #[trigger] self.books@[j] == old(self).books@[j],
                self.loans == old(self).loans,
                self.users == old(self).users,
                self.sessions == old(self).sessions,
                self.next_user_id == old(self).next_user_id,
                self.next_book_id == old(self).next_book_id,
                self.next_loan_id == old(self).next_loan_id,
            decreases self.books@.len() - i,
        {
            let active: usize = self.count_active(self.books[i].id);
            self.books[i].available_copies = self.books[i].total_copies - active as i64;
            i += 1;
        }
        assert(self.books@ =~= target);
    }
}

/// Deriving the available copies twice gives what deriving them once gives.
pub proof fn lemma_sync_idempotent(books: Seq<Book>, loans: Seq<Loan>)
    ensures
        synced(synced(books, loans), loans) == synced(books, loans),
{
    assert(synced(synced(books, loans), loans) =~= synced(books, loans));
}

/// Where every book's available copies agree with its active loans, deriving
/// them anew changes nothing.
pub proof fn lemma_sync_of_balanced(lib: Library)
    requires
        lib.balanced(),
    ensures
        synced(lib.books@, lib.loans@) == lib.books@,
{
    assert(synced(lib.books@, lib.loans@) =~= lib.books@);
}

/// A checkout followed by the return of the same loan leaves every book's
/// copy counts as they were before the checkout, and the loan returned.
pub proof fn lemma_checkout_then_return(
    before: Library,
    lent: Library,
    after: Library,
    username: Seq<char>,
    book_id: i64,
    loan_id: i64,
    checkout_day: i32,
    return_day: i32,
)
    requires
        before.wf(),
        checkout_refusal(before, username, book_id) is None,
        checked_out(before, lent, username, book_id, checkout_day, loan_id),
        returned(lent, after, loan_id, return_day),
    ensures
        after.books@ == before.books@,
        after.loans@.len() == before.loans@.len() + 1,
        after.loans@[before.loans@.len() as int].id == loan_id,
        after.loans@[before.loans@.len() as int].return_day == Some(return_day as i64),
        forall|today: i32|
            #[trigger] status_of(
                after.loans@[before.loans@.len() as int].due_day,
                after.loans@[before.loans@.len() as int].return_day is Some,
                today,
            ) == LoanStatus::Returned,
{
    let bi = first_index(before.books@, book_with_id(book_id));
    let n = before.loans@.len() as int;
    lemma_first_index(before.books@, book_with_id(book_id));
    assert forall|j: int| 0 <= j < n implies !loan_with_id(loan_id)(#[trigger] lent.loans@[j]) by {
        assert(before.loans@[j].id < before.next_loan_id);
    }
    lemma_first_index_is(lent.loans@, loan_with_id(loan_id), n);
    assert forall|j: int| 0 <= j < bi implies !book_with_id(book_id)(#[trigger] lent.books@[j]) by {
        assert(lent.books@[j] == before.books@[j]);
    }
    lemma_first_index_is(lent.books@, book_with_id(book_id), bi);
    assert(after.books@ =~= before.books@);
}

/// After a checkout the same user cannot check the same book out again, and
/// if the copy was the last, nobody can: the attempt is refused with a
/// conflict.
pub proof fn lemma_second_checkout_refused(
    before: Library,
    lent: Library,
    username: Seq<char>,
    other: Seq<char>,
    book_id: i64,
    loan_id: i64,
    today: i32,
)
    requires
        before.wf(),
        checkout_refusal(before, username, book_id) is None,
        checked_out(before, lent, username, book_id, today, loan_id),
    ensures
        checkout_refusal(lent, username, book_id) is Some,
        checkout_refusal(lent, username, book_id)->0 is Conflict,
        before.books@[first_index(before.books@, book_with_id(book_id))].available_copies == 1
            && first_index(before.users@, user_named(other)) < before.users@.len()
            ==> checkout_refusal(lent, other, book_id) == Some(
            LedgerError::Conflict(Conflict::NotAvailable),
        ),
{
    let bi = first_index(before.books@, book_with_id(book_id));
    let ui = first_index(before.users@, user_named(username));
    lemma_first_index(before.books@, book_with_id(book_id));
    assert forall|j: int| 0 <= j < bi implies !book_with_id(book_id)(#[trigger] lent.books@[j]) by {
        assert(lent.books@[j] == before.books@[j]);
    }
    lemma_first_index_is(lent.books@, book_with_id(book_id), bi);
    lemma_count_push(
        before.loans@,
        active_loan_for(before.users@[ui].id, book_id),
        new_loan(loan_id, before.users@[ui].id, book_id, today),
    );
}

/// A book without an available copy cannot be checked out by any user of
/// the store: the attempt is refused with a conflict, and a refused checkout
/// changes nothing.
pub proof fn lemma_no_copy_no_checkout(
    lib: Library,
    after: Library,
    username: Seq<char>,
    book_id: i64,
    today: i32,
    r: Result<i64, LedgerError>,
)
    requires
        first_index(lib.users@, user_named(username)) < lib.users@.len(),
        first_index(lib.books@, book_with_id(book_id)) < lib.books@.len(),
        lib.books@[first_index(lib.books@, book_with_id(book_id))].available_copies == 0,
        checkout_outcome(lib, after, username, book_id, today, r),
    ensures
        r == Err::<i64, LedgerError>(LedgerError::Conflict(Conflict::NotAvailable)),
        after == lib,
{
}

} // verus!
