//! The store: the four relations, the invariants that every committed
//! operation keeps, and the lookups that the operations share.

use vstd::prelude::*;
use crate::records::{Book, Loan, Session, User};
use crate::seqs::{any_hit, count_where, first_from, first_index, lemma_count_take};

verus! {

/// The user whose name is `name`.
pub open spec fn user_named(name: Seq<char>) -> spec_fn(User) -> bool {
    |u: User| u.username@ == name
}

/// The book whose id is `id`.
pub open spec fn book_with_id(id: i64) -> spec_fn(Book) -> bool {
    |b: Book| b.id == id
}

/// The book whose ISBN is `isbn`.
pub open spec fn book_with_isbn(isbn: Seq<char>) -> spec_fn(Book) -> bool {
    |b: Book| b.isbn@ == isbn
}

/// The loan whose id is `id`.
pub open spec fn loan_with_id(id: i64) -> spec_fn(Loan) -> bool {
    |l: Loan| l.id == id
}

/// A loan, active or returned, of a copy of the book `book_id`.
pub open spec fn loan_of_book(book_id: i64) -> spec_fn(Loan) -> bool {
    |l: Loan| l.book_id == book_id
}

/// An active loan of a copy of the book `book_id`.
pub open spec fn active_loan_of(book_id: i64) -> spec_fn(Loan) -> bool {
    |l: Loan| l.active_on(book_id)
}

/// An active loan of a copy of the book `book_id` to the user `user_id`.
pub open spec fn active_loan_for(user_id: i64, book_id: i64) -> spec_fn(Loan) -> bool {
    |l: Loan| l.active_for(user_id, book_id)
}

/// The session whose token is `token`.
pub open spec fn session_with_token(token: Seq<char>) -> spec_fn(Session) -> bool {
    |s: Session| s.token@ == token
}

/// The number of active loans on the book `book_id`.
pub open spec fn active_count(loans: Seq<Loan>, book_id: i64) -> nat {
    count_where(loans, active_loan_of(book_id))
}

/// The number of active loans that the user `user_id` holds on the book
/// `book_id`.
pub open spec fn held_count(loans: Seq<Loan>, user_id: i64, book_id: i64) -> nat {
    count_where(loans, active_loan_for(user_id, book_id))
}

/// The whole state of the engine.  New identifiers are handed out in
/// increasing order from the three counters.
pub struct Library {
    pub users: Vec<User>,
    pub books: Vec<Book>,
    pub loans: Vec<Loan>,
    pub sessions: Vec<Session>,
    pub next_user_id: i64,
    pub next_book_id: i64,
    pub next_loan_id: i64,
}

impl Library {
    /// Users have distinct ids and distinct names, and every id was handed
    /// out by the counter.
    pub open spec fn users_ok(&self) -> bool {
        &&& forall|i: int|
            0 <= i < self.users@.len() ==> (#[trigger] self.users@[i]).id < self.next_user_id
        &&& forall|i: int, j: int|
            0 <= i < j < self.users@.len() ==> (#[trigger] self.users@[i]).username@ != (
            #[trigger] self.users@[j]).username@ && self.users@[i].id != self.users@[j].id
    }

    /// Books have distinct ids, each handed out by the counter.
    pub open spec fn books_ok(&self) -> bool {
        &&& forall|i: int|
            0 <= i < self.books@.len() ==> (#[trigger] self.books@[i]).id < self.next_book_id
        &&& forall|i: int, j: int|
            0 <= i < j < self.books@.len() ==> (#[trigger] self.books@[i]).id != (
            #[trigger] self.books@[j]).id
    }

    /// Loans carry distinct ids handed out by the counter, refer to books
    /// that were in the catalog and are due fourteen days after the
    /// checkout, and no user holds two active loans on one book.
    pub open spec fn loans_ok(&self) -> bool {
        &&& forall|i: int|
            0 <= i < self.loans@.len() ==> (#[trigger] self.loans@[i]).id < self.next_loan_id
                && self.loans@[i].book_id < self.next_book_id && self.loans@[i].dated()
        &&& forall|i: int, j: int|
            0 <= i < j < self.loans@.len() ==> (#[trigger] self.loans@[i]).id != (
            #[trigger] self.loans@[j]).id
        &&& forall|u: i64, b: i64| #[trigger] held_count(self.loans@, u, b) <= 1
    }

    /// No book has more active loans than copies, so that the available
    /// copies can be derived from the loans.
    pub open spec fn repairable(&self) -> bool {
        &&& self.users_ok()
        &&& self.books_ok()
        &&& self.loans_ok()
        &&& forall|i: int|
            0 <= i < self.books@.len() ==> active_count(
                self.loans@,
                (#[trigger] self.books@[i]).id,
            ) <= self.books@[i].total_copies
    }

    /// Every book's available copies are its total copies less its active
    /// loans, and never negative.
    pub open spec fn balanced(&self) -> bool {
        forall|i: int|
            0 <= i < self.books@.len() ==> 0 <= (#[trigger] self.books@[i]).available_copies
                && self.books@[i].available_copies + active_count(
                self.loans@,
                self.books@[i].id,
            ) == self.books@[i].total_copies
    }

    /// The invariant of the store, which holds after every operation.
    pub open spec fn wf(&self) -> bool {
        &&& self.users_ok()
        &&& self.books_ok()
        &&& self.loans_ok()
        &&& self.balanced()
    }

    /// An empty store.
    pub fn new() -> (lib: Library)
        ensures
            lib.wf(),
            lib.sessions_ok(),
            lib.users@.len() == 0,
            lib.books@.len() == 0,
            lib.loans@.len() == 0,
            lib.sessions@.len() == 0,
            lib.next_user_id == 1,
            lib.next_book_id == 1,
            lib.next_loan_id == 1,
    {
        let lib = Library {
            users: Vec::new(),
            books: Vec::new(),
            loans: Vec::new(),
            sessions: Vec::new(),
            next_user_id: 1,
            next_book_id: 1,
            next_loan_id: 1,
        };
        assert forall|u: i64, b: i64| #[trigger] held_count(lib.loans@, u, b) <= 1 by {}
        assert forall|t: Seq<char>| #[trigger]
            count_where(lib.sessions@, session_with_token(t)) <= 1 by {}
        lib
    }

    /// The position of the user named `username`.
    pub fn find_user(&self, username: &str) -> (r: Option<usize>)
        ensures
            r is Some <==> any_hit(self.users@, user_named(username@)),
            r is Some ==> r->0 == first_index(self.users@, user_named(username@)),
    {
        let name = username.to_owned();
        let mut i: usize = 0;
        while i < self.users.len()
            invariant
                i <= self.users@.len(),
                name@ == username@,
                first_index(self.users@, user_named(username@)) == first_from(
                    self.users@,
                    user_named(username@),
                    i as int,
                ),
            decreases self.users@.len() - i,
        {
            if self.users[i].username == name {
                return Some(i);
            }
            i += 1;
        }
        None
    }

    /// The position of the book with the id `book_id`.
    pub fn find_book(&self, book_id: i64) -> (r: Option<usize>)
        ensures
            r is Some <==> any_hit(self.books@, book_with_id(book_id)),
            r is Some ==> r->0 == first_index(self.books@, book_with_id(book_id)),
    {
        let mut i: usize = 0;
        while i < self.books.len()
            invariant
                i <= self.books@.len(),
                first_index(self.books@, book_with_id(book_id)) == first_from(
                    self.books@,
                    book_with_id(book_id),
                    i as int,
                ),
            decreases self.books@.len() - i,
        {
            if self.books[i].id == book_id {
                return Some(i);
            }
            i += 1;
        }
        None
    }

    /// The position of the book with the ISBN `isbn`.
    pub fn find_isbn(&self, isbn: &String) -> (r: Option<usize>)
        ensures
            r is Some <==> any_hit(self.books@, book_with_isbn(isbn@)),
            r is Some ==> r->0 == first_index(self.books@, book_with_isbn(isbn@)),
    {
        let mut i: usize = 0;
        while i < self.books.len()
            invariant
                i <= self.books@.len(),
                first_index(self.books@, book_with_isbn(isbn@)) == first_from(
                    self.books@,
                    book_with_isbn(isbn@),
                    i as int,
                ),
            decreases self.books@.len() - i,
        {
            if self.books[i].isbn == *isbn {
                return Some(i);
            }
            i += 1;
        }
        None
    }

    /// The position of the loan with the id `loan_id`.
    pub fn find_loan(&self, loan_id: i64) -> (r: Option<usize>)
        ensures
            r is Some <==> any_hit(self.loans@, loan_with_id(loan_id)),
            r is Some ==> r->0 == first_index(self.loans@, loan_with_id(loan_id)),
    {
        let mut i: usize = 0;
        while i < self.loans.len()
            invariant
                i <= self.loans@.len(),
                first_index(self.loans@, loan_with_id(loan_id)) == first_from(
                    self.loans@,
                    loan_with_id(loan_id),
                    i as int,
                ),
            decreases self.loans@.len() - i,
        {
            if self.loans[i].id == loan_id {
                return Some(i);
            }
            i += 1;
        }
        None
    }

    /// The number of active loans on the book `book_id`.
    pub fn count_active(&self, book_id: i64) -> (c: usize)
        ensures
            c == active_count(self.loans@, book_id),
    {
        let mut c: usize = 0;
        let mut i: usize = 0;
        while i < self.loans.len()
            invariant
                i <= self.loans@.len(),
                c == active_count(self.loans@.take(i as int), book_id),
                c <= i,
            decreases self.loans@.len() - i,
        {
            proof {
                lemma_count_take(self.loans@, active_loan_of(book_id), i as int);
            }
            if self.loans[i].return_day.is_none() && self.loans[i].book_id == book_id {
                c += 1;
            }
            i += 1;
        }
        assert(self.loans@.take(i as int) =~= self.loans@);
        c
    }

    /// The number of active loans that `user_id` holds on the book `book_id`.
    pub fn count_held(&self, user_id: i64, book_id: i64) -> (c: usize)
        ensures
            c == held_count(self.loans@, user_id, book_id),
    {
        let mut c: usize = 0;
        let mut i: usize = 0;
        while i < self.loans.len()
            invariant
                i <= self.loans@.len(),
                c == held_count(self.loans@.take(i as int), user_id, book_id),
                c <= i,
            decreases self.loans@.len() - i,
        {
            proof {
                lemma_count_take(self.loans@, active_loan_for(user_id, book_id), i as int);
            }
            if self.loans[i].return_day.is_none() && self.loans[i].book_id == book_id
                && self.loans[i].user_id == user_id {
                c += 1;
            }
            i += 1;
        }
        assert(self.loans@.take(i as int) =~= self.loans@);
        c
    }
}

/// In a well-formed store every book's available copies lie between zero and
/// its total copies.
pub proof fn lemma_copies_in_range(lib: Library, i: int)
    requires
        lib.wf(),
        0 <= i < lib.books@.len(),
    ensures
        0 <= lib.books@[i].available_copies <= lib.books@[i].total_copies,
{
}

} // verus!
