//! The reports: read-only views of users, books and loans.

use vstd::prelude::*;
use crate::calendar::{
    date_text, days_overdue, format_date, loan_status, status_label, status_of, status_text,
    LoanStatus,
};
use crate::library::{book_with_id, Library};
use crate::models::{
    AdminBook, AdminLoan, AdminOverdueLoan, AdminUser, LenderBook, LenderLoan, OverdueLoan,
};
use crate::records::{Book, Loan, User};
use crate::seqs::{
    any_hit, first_from, first_index, lemma_first_index, lemma_without_take, without,
};
use crate::sessions::{role_name, role_text};
use crate::text::{contains_folded, contains_ignoring_case, decimal, decimal_text};
use vstd::string::StringExecFns;

verus! {

/// Which loans a report lists.
#[derive(Clone, Copy, Debug, PartialEq, Eq, Structural)]
pub enum Which {
    /// Every loan.
    All,
    /// The active loans that are not past their due date.
    Current,
    /// The active loans that are past their due date.
    Overdue,
}

/// A loan together with the name of its borrower and the title of its book.
#[derive(Debug)]
pub struct LoanLine {
    pub loan: Loan,
    pub username: String,
    pub title: String,
}

/// The user whose id is `id`.
pub open spec fn user_with_id(id: i64) -> spec_fn(User) -> bool {
    |u: User| u.id == id
}

/// The user to whom `loan` was made, where the store has that user.
pub open spec fn borrower_of(lib: Library, loan: Loan) -> User {
    lib.users@[first_index(lib.users@, user_with_id(loan.user_id))]
}

/// The book of which `loan` lends a copy, where the store has that book.
pub open spec fn book_of(lib: Library, loan: Loan) -> Book {
    lib.books@[first_index(lib.books@, book_with_id(loan.book_id))]
}

/// The name that a report is narrowed to, as a text.
pub open spec fn name_text(name: Option<&str>) -> Option<Seq<char>> {
    match name {
        Some(n) => Some(n@),
        None => None,
    }
}

/// Whether a report of the kind `which`, narrowed to the loans of the user
/// named `borrower` if one is given, lists `loan` on the day `today`.  A loan
/// whose user or book the store no longer has is never listed.
pub open spec fn listed(
    lib: Library,
    loan: Loan,
    borrower: Option<Seq<char>>,
    which: Which,
    today: i32,
) -> bool {
    &&& any_hit(lib.users@, user_with_id(loan.user_id))
    &&& any_hit(lib.books@, book_with_id(loan.book_id))
    &&& (borrower is Some ==> borrower_of(lib, loan).username@ == borrower->0)
    &&& match which {
        Which::All => true,
        Which::Current => loan.is_active() && loan.due_day >= today,
        Which::Overdue => loan.is_active() && loan.due_day < today,
    }
}

/// The loans that a report leaves out.
pub open spec fn unlisted(lib: Library, borrower: Option<Seq<char>>, which: Which, today: i32)
    -> spec_fn(Loan) -> bool {
    |l: Loan| !listed(lib, l, borrower, which, today)
}

/// The loans that a report lists, in the order of the store.
pub open spec fn listed_loans(lib: Library, borrower: Option<Seq<char>>, which: Which, today: i32)
    -> Seq<Loan> {
    without(lib.loans@, unlisted(lib, borrower, which, today))
}

/// `line` is the line of `loan`.
pub open spec fn is_line(line: LoanLine, lib: Library, loan: Loan) -> bool {
    &&& line.loan == loan
    &&& line.username@ == borrower_of(lib, loan).username@
    &&& line.title@ == book_of(lib, loan).title@
}

/// `lines` are the lines of `loans`, one for one.
pub open spec fn are_lines(lines: Seq<LoanLine>, lib: Library, loans: Seq<Loan>) -> bool {
    &&& lines.len() == loans.len()
    &&& forall|k: int| 0 <= k < lines.len() ==> is_line(#[trigger] lines[k], lib, loans[k])
}

/// The words that tell a book's available and checked-out copies.
pub open spec fn copies_text(available: int, checked_out: int) -> Seq<char> {
    decimal_text(available) + " available, "@ + decimal_text(checked_out) + " checked out"@
}

/// `row` shows `user`.
pub open spec fn is_user_row(row: AdminUser, user: User) -> bool {
    &&& row.id == user.id
    &&& row.username@ == user.username@
    &&& row.role@ == role_text(user.role)
}

/// `row` shows `book` to an administrator.
pub open spec fn is_admin_book_row(row: AdminBook, book: Book) -> bool {
    &&& row.bookid == book.id
    &&& row.title@ == book.title@
    &&& row.author@ == book.author@
    &&& row.isbn@ == book.isbn@
    &&& row.year_of_pub == book.year_of_publication
    &&& row.genre == book.genre
    &&& row.total_copies == book.total_copies
    &&& row.available_copies == book.available_copies
    &&& row.status@ == copies_text(
        book.available_copies as int,
        book.total_copies - book.available_copies,
    )
}

/// The genre of a book as a lender sees it: the empty text where none is
/// recorded.
pub open spec fn genre_text(book: Book) -> Seq<char> {
    match book.genre {
        Some(g) => g@,
        None => Seq::empty(),
    }
}

/// `row` shows `book` to a lender.
pub open spec fn is_lender_book_row(row: LenderBook, book: Book) -> bool {
    &&& row.bookid == book.id
    &&& row.title@ == book.title@
    &&& row.author@ == book.author@
    &&& row.genre@ == genre_text(book)
    &&& row.available_copies == book.available_copies
}

/// `query` occurs in the title, the author, the ISBN or the genre of `book`,
/// ASCII case ignored.
pub open spec fn book_matches(book: Book, query: Seq<char>) -> bool {
    ||| contains_folded(book.title@, query)
    ||| contains_folded(book.author@, query)
    ||| contains_folded(book.isbn@, query)
    ||| (book.genre is Some && contains_folded(book.genre->0@, query))
}

/// The books that a lender is not shown: those without an available copy
/// and, where a query is given, those that it does not match.
pub open spec fn book_hidden(query: Option<Seq<char>>) -> spec_fn(Book) -> bool {
    |b: Book| b.available_copies <= 0 || (query is Some && !book_matches(b, query->0))
}

/// `rows` show `books` to a lender, one for one.
pub open spec fn are_lender_books(rows: Seq<LenderBook>, books: Seq<Book>) -> bool {
    &&& rows.len() == books.len()
    &&& forall|k: int| 0 <= k < rows.len() ==> is_lender_book_row(#[trigger] rows[k], books[k])
}

/// `row` shows `loan` to an administrator on the day `today`.
pub open spec fn is_admin_loan_row(row: AdminLoan, lib: Library, loan: Loan, today: i32) -> bool {
    &&& row.loanid == loan.id
    &&& row.username@ == borrower_of(lib, loan).username@
    &&& row.title@ == book_of(lib, loan).title@
    &&& row.checkout_date@ == date_text(loan.checkout_day)
    &&& row.due_date@ == date_text(loan.due_day)
    &&& row.status@ == status_text(status_of(loan.due_day, loan.return_day is Some, today))
}

/// `row` shows the overdue `loan` to an administrator on the day `today`.
pub open spec fn is_admin_overdue_row(row: AdminOverdueLoan, lib: Library, loan: Loan, today: i32)
    -> bool {
    &&& row.username@ == borrower_of(lib, loan).username@
    &&& row.title@ == book_of(lib, loan).title@
    &&& row.due_date@ == date_text(loan.due_day)
    &&& row.days_overdue == today - loan.due_day
}

/// `row` shows the current `loan` to its borrower.
pub open spec fn is_lender_loan_row(row: LenderLoan, lib: Library, loan: Loan) -> bool {
    &&& row.loanid == loan.id
    &&& row.title@ == book_of(lib, loan).title@
    &&& row.checkout_date@ == date_text(loan.checkout_day)
    &&& row.due_date@ == date_text(loan.due_day)
    &&& row.status@ == status_text(LoanStatus::Borrowed)
}

/// `row` shows the overdue `loan` to its borrower on the day `today`.
pub open spec fn is_overdue_row(row: OverdueLoan, lib: Library, loan: Loan, today: i32) -> bool {
    &&& row.loanid == loan.id
    &&& row.title@ == book_of(lib, loan).title@
    &&& row.due_date@ == date_text(loan.due_day)
    &&& row.days_overdue == today - loan.due_day
}

/// The words that tell a book's available and checked-out copies.
pub fn copies_status(available: i64, checked_out: i64) -> (r: String)
    ensures
        r@ == copies_text(available as int, checked_out as int),
{
    let mut s = decimal(available);
    s.append(" available, ");
    s.append(decimal(checked_out).as_str());
    s.append(" checked out");
    s
}

/// Whether `query` occurs in the title, the author, the ISBN or the genre
/// of `book`, ASCII case ignored.
pub fn matches_book(book: &Book, query: &str) -> (r: bool)
    ensures
        r == book_matches(*book, query@),
{
    if contains_ignoring_case(book.title.as_str(), query) {
        return true;
    }
    if contains_ignoring_case(book.author.as_str(), query) {
        return true;
    }
    if contains_ignoring_case(book.isbn.as_str(), query) {
        return true;
    }
    match &book.genre {
        Some(g) => contains_ignoring_case(g.as_str(), query),
        None => false,
    }
}

impl Library {
    /// The position of the user with the id `user_id`.
    pub fn find_user_by_id(&self, user_id: i64) -> (r: Option<usize>)
        ensures
            r is Some <==> any_hit(self.users@, user_with_id(user_id)),
            r is Some ==> r->0 == first_index(self.users@, user_with_id(user_id)),
    {
        let mut i: usize = 0;
        while i < self.users.len()
            invariant
                i <= self.users@.len(),
                first_index(self.users@, user_with_id(user_id)) == first_from(
                    self.users@,
                    user_with_id(user_id),
                    i as int,
                ),
            decreases self.users@.len() - i,
        {
            if self.users[i].id == user_id {
                return Some(i);
            }
            i += 1;
        }
        None
    }

    /// The loans that a report of the kind `which` lists on the day `today`,
    /// each with its borrower's name and its book's title; only the loans of
    /// the user named `borrower`, if a name is given.
    pub fn select_loans(&self, borrower: Option<&str>, which: Which, today: i32) -> (lines: Vec<
        LoanLine,
    >)
        ensures
            are_lines(lines@, *self, listed_loans(*self, name_text(borrower), which, today)),
    {
        let wanted: Option<String> = match borrower {
            Some(n) => Some(n.to_owned()),
            None => None,
        };
        let ghost hide = unlisted(*self, name_text(borrower), which, today);
        let mut lines: Vec<LoanLine> = Vec::new();
        let mut i: usize = 0;
        while i < self.loans.len()
            invariant
                i <= self.loans@.len(),
                hide == unlisted(*self, name_text(borrower), which, today),
                match wanted {
                    Some(w) => borrower is Some && w@ == borrower->0@,
                    None => borrower is None,
                },
                are_lines(lines@, *self, without(self.loans@.take(i as int), hide)),
            decreases self.loans@.len() - i,
        {
            let loan: Loan = self.loans[i];
            proof {
                lemma_without_take(self.loans@, hide, i as int);
                lemma_first_index(self.users@, user_with_id(loan.user_id));
                lemma_first_index(self.books@, book_with_id(loan.book_id));
            }
            let ghost shown = without(self.loans@.take(i as int), hide);
            i += 1;
            let ui = match self.find_user_by_id(loan.user_id) {
                Some(ui) => ui,
                None => {
                    continue ;
                },
            };
            let bi = match self.find_book(loan.book_id) {
                Some(bi) => bi,
                None => {
                    continue ;
                },
            };
            let named: bool = match &wanted {
                Some(w) => self.users[ui].username == *w,
                None => true,
            };
            let timely: bool = match which {
                Which::All => true,
                Which::Current => loan.return_day.is_none() && loan.due_day >= today as i64,
                Which::Overdue => loan.return_day.is_none() && loan.due_day < today as i64,
            };
            if named && timely {
                lines.push(
                    LoanLine {
                        loan,
                        username: self.users[ui].username.clone(),
                        title: self.books[bi].title.clone(),
                    },
                );
                assert(are_lines(lines@, *self, shown.push(loan)));
            }
        }
        assert(self.loans@.take(i as int) =~= self.loans@);
        lines
    }

    /// The books that a lender is shown: those with an available copy that
    /// `query` matches, if a query is given.
    pub fn select_books(&self, query: Option<&str>) -> (rows: Vec<LenderBook>)
        ensures
            are_lender_books(rows@, without(self.books@, book_hidden(name_text(query)))),
    {
        let ghost hide = book_hidden(name_text(query));
        let mut rows: Vec<LenderBook> = Vec::new();
        let mut i: usize = 0;
        while i < self.books.len()
            invariant
                i <= self.books@.len(),
                hide == book_hidden(name_text(query)),
                are_lender_books(rows@, without(self.books@.take(i as int), hide)),
            decreases self.books@.len() - i,
        {
            proof {
                lemma_without_take(self.books@, hide, i as int);
            }
            let ghost shown = without(self.books@.take(i as int), hide);
            let book = &self.books[i];
            i += 1;
            if book.available_copies <= 0 {
                continue ;
            }
            let wanted: bool = match query {
                Some(q) => matches_book(book, q),
                None => true,
            };
            if wanted {
                let genre: String = match &book.genre {
                    Some(g) => g.clone(),
                    None => String::new(),
                };
                rows.push(
                    LenderBook {
                        bookid: book.id,
                        title: book.title.clone(),
                        author: book.author.clone(),
                        genre,
                        available_copies: book.available_copies,
                    },
                );
                assert(are_lender_books(rows@, shown.push(*book)));
            }
        }
        assert(self.books@.take(i as int) =~= self.books@);
        rows
    }

    /// Every user, in the order of registration.
    pub fn admin_users(&self) -> (rows: Vec<AdminUser>)
        ensures
            rows@.len() == self.users@.len(),
            forall|k: int|
                0 <= k < rows@.len() ==> is_user_row(#[trigger] rows@[k], self.users@[k]),
    {
        let mut rows: Vec<AdminUser> = Vec::new();
        let mut i: usize = 0;
        while i < self.users.len()
            invariant
                i <= self.users@.len(),
                rows@.len() == i,
                forall|k: int| 0 <= k < i ==> is_user_row(#[trigger] rows@[k], self.users@[k]),
            decreases self.users@.len() - i,
        {
            let user = &self.users[i];
            rows.push(
                AdminUser {
                    id: user.id,
                    username: user.username.clone(),
                    role: role_name(user.role),
                },
            );
            i += 1;
        }
        rows
    }

    /// Every book with its copy counts, after the available copies were
    /// derived anew from the loans.
    pub fn admin_books(&mut self) -> (rows: Vec<AdminBook>)
        requires
            old(self).repairable(),
        ensures
            final(self).wf(),
            final(self).books@ == crate::ledger::synced(old(self).books@, old(self).loans@),
            final(self).loans == old(self).loans,
            final(self).users == old(self).users,
            final(self).sessions == old(self).sessions,
            rows@.len() == final(self).books@.len(),
            forall|k: int|
                0 <= k < rows@.len() ==> is_admin_book_row(
                    #[trigger] rows@[k],
                    final(self).books@[k],
                ),
    {
        self.sync_availability();
        let mut rows: Vec<AdminBook> = Vec::new();
        let mut i: usize = 0;
        while i < self.books.len()
            invariant
                self.wf(),
                i <= self.books@.len(),
                rows@.len() == i,
                forall|k: int|
                    0 <= k < i ==> is_admin_book_row(#[trigger] rows@[k], self.books@[k]),
            decreases self.books@.len() - i,
        {
            let book = &self.books[i];
            let genre: Option<String> = match &book.genre {
                Some(g) => Some(g.clone()),
                None => None,
            };
            rows.push(
                AdminBook {
                    bookid: book.id,
                    title: book.title.clone(),
                    author: book.author.clone(),
                    isbn: book.isbn.clone(),
                    year_of_pub: book.year_of_publication,
                    genre,
                    total_copies: book.total_copies,
                    available_copies: book.available_copies,
                    status: copies_status(
                        book.available_copies,
                        book.total_copies - book.available_copies,
                    ),
                },
            );
            i += 1;
        }
        rows
    }

    /// The books that a lender can borrow, after the available copies were
    /// derived anew from the loans.
    pub fn lender_books(&mut self) -> (rows: Vec<LenderBook>)
        requires
            old(self).repairable(),
        ensures
            final(self).wf(),
            final(self).books@ == crate::ledger::synced(old(self).books@, old(self).loans@),
            final(self).loans == old(self).loans,
            final(self).users == old(self).users,
            final(self).sessions == old(self).sessions,
            are_lender_books(rows@, without(final(self).books@, book_hidden(None))),
    {
        self.sync_availability();
        self.select_books(None)
    }

    /// The books that a lender can borrow and that `query` matches, after
    /// the available copies were derived anew from the loans.
    pub fn lender_search(&mut self, query: &str) -> (rows: Vec<LenderBook>)
        requires
            old(self).repairable(),
        ensures
            final(self).wf(),
            final(self).books@ == crate::ledger::synced(old(self).books@, old(self).loans@),
            final(self).loans == old(self).loans,
            final(self).users == old(self).users,
            final(self).sessions == old(self).sessions,
            are_lender_books(rows@, without(final(self).books@, book_hidden(Some(query@)))),
    {
        self.sync_availability();
        self.select_books(Some(query))
    }

    /// Every loan with its status on the day `today`.
    pub fn admin_loans(&self, today: i32) -> (rows: Vec<AdminLoan>)
        ensures
            rows@.len() == listed_loans(*self, None, Which::All, today).len(),
            forall|k: int|
                0 <= k < rows@.len() ==> is_admin_loan_row(
                    #[trigger] rows@[k],
                    *self,
                    listed_loans(*self, None, Which::All, today)[k],
                    today,
                ),
    {
        let lines = self.select_loans(None, Which::All, today);
        let ghost loans = listed_loans(*self, None, Which::All, today);
        let mut rows: Vec<AdminLoan> = Vec::new();
        let mut i: usize = 0;
        while i < lines.len()
            invariant
                i <= lines@.len(),
                are_lines(lines@, *self, loans),
                rows@.len() == i,
                forall|k: int|
                    0 <= k < i ==> is_admin_loan_row(#[trigger] rows@[k], *self, loans[k], today),
            decreases lines@.len() - i,
        {
            let line = &lines[i];
            let status = loan_status(line.loan.due_day, line.loan.return_day.is_some(), today);
            rows.push(
                AdminLoan {
                    loanid: line.loan.id,
                    username: line.username.clone(),
                    title: line.title.clone(),
                    checkout_date: format_date(line.loan.checkout_day),
                    due_date: format_date(line.loan.due_day),
                    status: status_label(status),
                },
            );
            i += 1;
        }
        rows
    }

    /// The loans that are past their due date on the day `today`, with the
    /// days by which each is late.
    pub fn admin_overdue(&self, today: i32) -> (rows: Vec<AdminOverdueLoan>)
        requires
            self.wf(),
        ensures
            rows@.len() == listed_loans(*self, None, Which::Overdue, today).len(),
            forall|k: int|
                0 <= k < rows@.len() ==> is_admin_overdue_row(
                    #[trigger] rows@[k],
                    *self,
                    listed_loans(*self, None, Which::Overdue, today)[k],
                    today,
                ),
    {
        let lines = self.select_loans(None, Which::Overdue, today);
        let ghost loans = listed_loans(*self, None, Which::Overdue, today);
        proof {
            lemma_listed_dated(*self, None, Which::Overdue, today);
        }
        let mut rows: Vec<AdminOverdueLoan> = Vec::new();
        let mut i: usize = 0;
        while i < lines.len()
            invariant
                i <= lines@.len(),
                are_lines(lines@, *self, loans),
                forall|k: int| 0 <= k < loans.len() ==> (#[trigger] loans[k]).dated(),
                rows@.len() == i,
                forall|k: int|
                    0 <= k < i ==> is_admin_overdue_row(
                        #[trigger] rows@[k],
                        *self,
                        loans[k],
                        today,
                    ),
            decreases lines@.len() - i,
        {
            let line = &lines[i];
            assert(loans[i as int].dated());
            rows.push(
                AdminOverdueLoan {
                    username: line.username.clone(),
                    title: line.title.clone(),
                    due_date: format_date(line.loan.due_day),
                    days_overdue: days_overdue(line.loan.due_day, today),
                },
            );
            i += 1;
        }
        rows
    }

    /// The current loans of the user named `username` on the day `today`.
    pub fn lender_myloans(&self, username: &str, today: i32) -> (rows: Vec<LenderLoan>)
        ensures
            rows@.len() == listed_loans(*self, Some(username@), Which::Current, today).len(),
            forall|k: int|
                0 <= k < rows@.len() ==> is_lender_loan_row(
                    #[trigger] rows@[k],
                    *self,
                    listed_loans(*self, Some(username@), Which::Current, today)[k],
                ),
    {
        let lines = self.select_loans(Some(username), Which::Current, today);
        let ghost loans = listed_loans(*self, Some(username@), Which::Current, today);
        let mut rows: Vec<LenderLoan> = Vec::new();
        let mut i: usize = 0;
        while i < lines.len()
            invariant
                i <= lines@.len(),
                are_lines(lines@, *self, loans),
                rows@.len() == i,
                forall|k: int|
                    0 <= k < i ==> is_lender_loan_row(#[trigger] rows@[k], *self, loans[k]),
            decreases lines@.len() - i,
        {
            let line = &lines[i];
            rows.push(
                LenderLoan {
                    loanid: line.loan.id,
                    title: line.title.clone(),
                    checkout_date: format_date(line.loan.checkout_day),
                    due_date: format_date(line.loan.due_day),
                    status: status_label(LoanStatus::Borrowed),
                },
            );
            i += 1;
        }
        rows
    }

    /// The loans of the user named `username` that are past their due date
    /// on the day `today`, with the days by which each is late.
    pub fn lender_overdue(&self, username: &str, today: i32) -> (rows: Vec<OverdueLoan>)
        requires
            self.wf(),
        ensures
            rows@.len() == listed_loans(*self, Some(username@), Which::Overdue, today).len(),
            forall|k: int|
                0 <= k < rows@.len() ==> is_overdue_row(
                    #[trigger] rows@[k],
                    *self,
                    listed_loans(*self, Some(username@), Which::Overdue, today)[k],
                    today,
                ),
    {
        let lines = self.select_loans(Some(username), Which::Overdue, today);
        let ghost loans = listed_loans(*self, Some(username@), Which::Overdue, today);
        proof {
            lemma_listed_dated(*self, Some(username@), Which::Overdue, today);
        }
        let mut rows: Vec<OverdueLoan> = Vec::new();
        let mut i: usize = 0;
        while i < lines.len()
            invariant
                i <= lines@.len(),
                are_lines(lines@, *self, loans),
                forall|k: int| 0 <= k < loans.len() ==> (#[trigger] loans[k]).dated(),
                rows@.len() == i,
                forall|k: int|
                    0 <= k < i ==> is_overdue_row(#[trigger] rows@[k], *self, loans[k], today),
            decreases lines@.len() - i,
        {
            let line = &lines[i];
            assert(loans[i as int].dated());
            rows.push(
                OverdueLoan {
                    loanid: line.loan.id,
                    title: line.title.clone(),
                    due_date: format_date(line.loan.due_day),
                    days_overdue: days_overdue(line.loan.due_day, today),
                },
            );
            i += 1;
        }
        rows
    }
}

/// Every loan that a report lists is a loan of the store, and so is due
/// fourteen days after its checkout.
pub proof fn lemma_listed_dated(lib: Library, borrower: Option<Seq<char>>, which: Which, today: i32)
    requires
        lib.wf(),
    ensures
        forall|k: int|
            0 <= k < listed_loans(lib, borrower, which, today).len() ==> (
            #[trigger] listed_loans(lib, borrower, which, today)[k]).dated(),
{
    let hide = unlisted(lib, borrower, which, today);
    let shown = listed_loans(lib, borrower, which, today);
    crate::seqs::lemma_without(lib.loans@, hide, hide);
    assert forall|k: int| 0 <= k < shown.len() implies (#[trigger] shown[k]).dated() by {
        assert(lib.loans@.contains(shown[k]));
        let j = choose|j: int| 0 <= j < lib.loans@.len() && lib.loans@[j] == shown[k];
        assert(lib.loans@[j].dated());
    }
}

} // verus!
