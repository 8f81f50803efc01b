//! The catalog: adding, restocking, updating and deleting books.

use vstd::prelude::*;
use crate::error::{Conflict, LedgerError, Missing};
use crate::library::{
    active_count, active_loan_for, active_loan_of, book_with_id, book_with_isbn, held_count,
    loan_of_book, Library,
};
use crate::models::AdminBookInput;
use crate::records::{Book, Loan};
use crate::seqs::{
    first_index, lemma_count_zero, lemma_first_index, lemma_without, lemma_without_take, without,
};
use crate::text::{blank, is_blank};

verus! {

/// Title, author and ISBN are given and the number of copies is positive.
pub open spec fn valid_input(input: AdminBookInput) -> bool {
    &&& !is_blank(input.title@)
    &&& !is_blank(input.author@)
    &&& !is_blank(input.isbn@)
    &&& input.copies > 0
}

/// The book that a first delivery of `input` creates under the id `id`.
pub open spec fn book_from(id: i64, input: AdminBookInput) -> Book {
    Book {
        id,
        title: input.title,
        author: input.author,
        isbn: input.isbn,
        year_of_publication: input.year_of_pub,
        genre: input.genre,
        total_copies: input.copies,
        available_copies: input.copies,
    }
}

/// The book with `copies` more copies, all of them available.
pub open spec fn restocked(book: Book, copies: i64) -> Book {
    Book {
        total_copies: (book.total_copies + copies) as i64,
        available_copies: (book.available_copies + copies) as i64,
        ..book
    }
}

/// The book described anew by `input`, with as many copies lent out as
/// before.
pub open spec fn redescribed(book: Book, input: AdminBookInput) -> Book {
    Book {
        id: book.id,
        title: input.title,
        author: input.author,
        isbn: input.isbn,
        year_of_publication: input.year_of_pub,
        genre: input.genre,
        total_copies: input.copies,
        available_copies: (input.copies - (book.total_copies - book.available_copies)) as i64,
    }
}

/// Why `input` cannot be added, if anything forbids it.
pub open spec fn add_refusal(lib: Library, input: AdminBookInput) -> Option<LedgerError> {
    let bi = first_index(lib.books@, book_with_isbn(input.isbn@));
    if !valid_input(input) {
        Some(LedgerError::Validation)
    } else if bi < lib.books@.len() {
        if lib.books@[bi].total_copies + input.copies > i64::MAX {
            Some(LedgerError::Store)
        } else {
            None
        }
    } else if lib.next_book_id == i64::MAX {
        Some(LedgerError::Store)
    } else {
        None
    }
}

/// `post` is `pre` after `input` was added: the book with that ISBN has
/// `input.copies` more copies, or, where there was none, a new book stands
/// at the end of the catalog.  `book_id` is the id of that book.
pub open spec fn added(pre: Library, post: Library, input: AdminBookInput, book_id: i64) -> bool {
    let bi = first_index(pre.books@, book_with_isbn(input.isbn@));
    &&& post.users == pre.users
    &&& post.loans == pre.loans
    &&& post.sessions == pre.sessions
    &&& post.next_user_id == pre.next_user_id
    &&& post.next_loan_id == pre.next_loan_id
    &&& if bi < pre.books@.len() {
        &&& book_id == pre.books@[bi].id
        &&& post.books@ == pre.books@.update(bi, restocked(pre.books@[bi], input.copies))
        &&& post.next_book_id == pre.next_book_id
    } else {
        &&& book_id == pre.next_book_id
        &&& post.books@ == pre.books@.push(book_from(book_id, input))
        &&& post.next_book_id == pre.next_book_id + 1
    }
}

/// Why the book `book_id` cannot be updated to `input`, if anything forbids
/// it.
pub open spec fn update_refusal(lib: Library, book_id: i64, input: AdminBookInput) -> Option<
    LedgerError,
> {
    let bi = first_index(lib.books@, book_with_id(book_id));
    if bi >= lib.books@.len() {
        Some(LedgerError::NotFound(Missing::Book))
    } else if input.copies < lib.books@[bi].total_copies - lib.books@[bi].available_copies {
        Some(LedgerError::Conflict(Conflict::BelowCheckedOut))
    } else {
        None
    }
}

/// Why the book `book_id` cannot be deleted, if anything forbids it.
pub open spec fn delete_refusal(lib: Library, book_id: i64) -> Option<LedgerError> {
    let bi = first_index(lib.books@, book_with_id(book_id));
    if bi >= lib.books@.len() {
        Some(LedgerError::NotFound(Missing::Book))
    } else if active_count(lib.loans@, book_id) > 0 {
        Some(LedgerError::Conflict(Conflict::ActiveLoans))
    } else {
        None
    }
}

/// The loans of `loans` that are not loans of the book `book_id`.
fn loans_without_book(loans: &Vec<Loan>, book_id: i64) -> (kept: Vec<Loan>)
    ensures
        kept@ == without(loans@, loan_of_book(book_id)),
{
    let mut kept: Vec<Loan> = Vec::new();
    let mut i: usize = 0;
    while i < loans.len()
        invariant
            i <= loans@.len(),
            kept@ == without(loans@.take(i as int), loan_of_book(book_id)),
        decreases loans@.len() - i,
    {
        proof {
            lemma_without_take(loans@, loan_of_book(book_id), i as int);
        }
        if loans[i].book_id != book_id {
            kept.push(loans[i]);
        }
        i += 1;
    }
    assert(loans@.take(i as int) =~= loans@);
    kept
}

impl Library {
    /// Whether `input` names a title, an author and an ISBN and a positive
    /// number of copies.
    pub fn input_is_valid(input: &AdminBookInput) -> (r: bool)
        ensures
            r == valid_input(*input),
    {
        !blank(input.title.as_str()) && !blank(input.author.as_str()) && !blank(
            input.isbn.as_str(),
        ) && input.copies > 0
    }

    /// Adds `input.copies` copies: to the book with the ISBN of `input` if
    /// the catalog has one, else as a new book.  Returns the book's id.
    ///
    /// Fails, and changes nothing, exactly when `add_refusal` names an error.
    pub fn add_or_increment(&mut self, input: AdminBookInput) -> (r: Result<i64, LedgerError>)
        requires
            old(self).wf(),
        ensures
            final(self).wf(),
            match r {
                Ok(book_id) => add_refusal(*old(self), input) is None && added(
                    *old(self),
                    *final(self),
                    input,
                    book_id,
                ),
                Err(e) => add_refusal(*old(self), input) == Some(e) && *final(self) == *old(self),
            },
    {
        proof {
            lemma_first_index(self.books@, book_with_isbn(input.isbn@));
        }
        if !Self::input_is_valid(&input) {
            return Err(LedgerError::Validation);
        }
        match self.find_isbn(&input.isbn) {
            Some(bi) => {
                let total: i64 = self.books[bi].total_copies;
                let available: i64 = self.books[bi].available_copies;
                if total > i64::MAX - input.copies {
                    return Err(LedgerError::Store);
                }
                self.books[bi].total_copies = total + input.copies;
                self.books[bi].available_copies = available + input.copies;
                assert(self.books@ =~= old(self).books@.update(
                    bi as int,
                    restocked(old(self).books@[bi as int], input.copies),
                ));
                Ok(self.books[bi].id)
            },
            None => {
                if self.next_book_id == i64::MAX {
                    return Err(LedgerError::Store);
                }
                let book_id: i64 = self.next_book_id;
                proof {
                    assert forall|j: int| 0 <= j < self.loans@.len() implies !active_loan_of(
                        book_id,
                    )(#[trigger] self.loans@[j]) by {
                        assert(self.loans@[j].book_id < self.next_book_id);
                    }
                    lemma_count_zero(self.loans@, active_loan_of(book_id));
                }
                self.books.push(
                    Book {
                        id: book_id,
                        title: input.title,
                        author: input.author,
                        isbn: input.isbn,
                        year_of_publication: input.year_of_pub,
                        genre: input.genre,
                        total_copies: input.copies,
                        available_copies: input.copies,
                    },
                );
                self.next_book_id = book_id + 1;
                assert(self.books@ == old(self).books@.push(book_from(book_id, input)));
                Ok(book_id)
            },
        }
    }

    /// Describes the book `book_id` anew and sets its total copies to
    /// `input.copies`; the copies that are lent out stay lent out.
    ///
    /// Fails, and changes nothing, exactly when `update_refusal` names an
    /// error.
    pub fn update_book(&mut self, book_id: i64, input: AdminBookInput) -> (r: Result<
        (),
        LedgerError,
    >)
        requires
            old(self).wf(),
        ensures
            final(self).wf(),
            match r {
                Ok(()) => {
                    let bi = first_index(old(self).books@, book_with_id(book_id));
                    &&& update_refusal(*old(self), book_id, input) is None
                    &&& final(self).books@ == old(self).books@.update(
                        bi,
                        redescribed(old(self).books@[bi], input),
                    )
                    &&& final(self).users == old(self).users
                    &&& final(self).loans == old(self).loans
                    &&& final(self).sessions == old(self).sessions
                    &&& final(self).next_user_id == old(self).next_user_id
                    &&& final(self).next_book_id == old(self).next_book_id
                    &&& final(self).next_loan_id == old(self).next_loan_id
                },
                Err(e) => update_refusal(*old(self), book_id, input) == Some(e) && *final(self)
                    == *old(self),
            },
    {
        proof {
            lemma_first_index(self.books@, book_with_id(book_id));
        }
        let bi = match self.find_book(book_id) {
            Some(bi) => bi,
            None => {
                return Err(LedgerError::NotFound(Missing::Book));
            },
        };
        let checked_out: i64 = self.books[bi].total_copies - self.books[bi].available_copies;
        if input.copies < checked_out {
            return Err(LedgerError::Conflict(Conflict::BelowCheckedOut));
        }
        self.books[bi].title = input.title;
        self.books[bi].author = input.author;
        self.books[bi].isbn = input.isbn;
        self.books[bi].year_of_publication = input.year_of_pub;
        self.books[bi].genre = input.genre;
        self.books[bi].total_copies = input.copies;
        self.books[bi].available_copies = input.copies - checked_out;
        Ok(())
    }

    /// Deletes the book `book_id` together with the history of its loans.
    ///
    /// Fails, and changes nothing, exactly when `delete_refusal` names an
    /// error: the book does not exist, or it has an active loan.
    pub fn delete_book(&mut self, book_id: i64) -> (r: Result<(), LedgerError>)
        requires
            old(self).wf(),
        ensures
            final(self).wf(),
            match r {
                Ok(()) => {
                    let bi = first_index(old(self).books@, book_with_id(book_id));
                    &&& delete_refusal(*old(self), book_id) is None
                    &&& final(self).books@ == old(self).books@.remove(bi)
                    &&& final(self).loans@ == without(old(self).loans@, loan_of_book(book_id))
                    &&& final(self).users == old(self).users
                    &&& final(self).sessions == old(self).sessions
                    &&& final(self).next_user_id == old(self).next_user_id
                    &&& final(self).next_book_id == old(self).next_book_id
                    &&& final(self).next_loan_id == old(self).next_loan_id
                },
                Err(e) => delete_refusal(*old(self), book_id) == Some(e) && *final(self) == *old(self),
            },
    {
        proof {
            lemma_first_index(self.books@, book_with_id(book_id));
        }
        let bi = match self.find_book(book_id) {
            Some(bi) => bi,
            None => {
                return Err(LedgerError::NotFound(Missing::Book));
            },
        };
        if self.count_active(book_id) > 0 {
            return Err(LedgerError::Conflict(Conflict::ActiveLoans));
        }
        let kept = loans_without_book(&self.loans, book_id);
        self.loans = kept;
        self.books.remove(bi);
        proof {
            let pre = *old(self);
            assert forall|i: int| 0 <= i < self.books@.len() implies #[trigger] self.books@[i]
                == pre.books@[if i < bi { i } else { i + 1 }] by {}
            assert forall|i: int| 0 <= i < self.loans@.len() implies (#[trigger] self.loans@[i]).id
                < self.next_loan_id && self.loans@[i].book_id < self.next_book_id
                && self.loans@[i].dated() by {
                lemma_without(pre.loans@, loan_of_book(book_id), loan_of_book(book_id));
                let l = self.loans@[i];
                assert(pre.loans@.contains(l));
                let j = choose|j: int| 0 <= j < pre.loans@.len() && pre.loans@[j] == l;
                assert(pre.loans@[j].id < pre.next_loan_id);
            }
            assert forall|u: i64, b: i64| #[trigger] held_count(self.loans@, u, b) <= 1 by {
                lemma_without(pre.loans@, loan_of_book(book_id), active_loan_for(u, b));
                assert(held_count(pre.loans@, u, b) <= 1);
            }
            crate::seqs::lemma_without_distinct(
                pre.loans@,
                loan_of_book(book_id),
                |l: Loan| l.id as int,
            );
            assert forall|i: int| 0 <= i < self.books@.len() implies 0 <= (
            #[trigger] self.books@[i]).available_copies && self.books@[i].available_copies
                + active_count(self.loans@, self.books@[i].id) == self.books@[i].total_copies by {
                let k = if i < bi { i } else { i + 1 };
                assert(self.books@[i] == pre.books@[k]);
                assert(pre.books@[k].id != pre.books@[bi as int].id);
                lemma_without(
                    pre.loans@,
                    loan_of_book(book_id),
                    active_loan_of(pre.books@[k].id),
                );
            }
        }
        Ok(())
    }

    /// The available copies of the book `book_id`, if the catalog has it.
    pub fn get_available_copies(&self, book_id: i64) -> (r: Option<i64>)
        ensures
            match r {
                Some(n) => {
                    let bi = first_index(self.books@, book_with_id(book_id));
                    bi < self.books@.len() && n == self.books@[bi].available_copies
                },
                None => first_index(self.books@, book_with_id(book_id)) >= self.books@.len(),
            },
    {
        match self.find_book(book_id) {
            Some(bi) => Some(self.books[bi].available_copies),
            None => None,
        }
    }
}

/// A book with an active loan cannot be deleted: the attempt is refused with
/// a conflict.
pub proof fn lemma_active_loan_blocks_delete(lib: Library, book_id: i64, li: int)
    requires
        first_index(lib.books@, book_with_id(book_id)) < lib.books@.len(),
        0 <= li < lib.loans@.len(),
        lib.loans@[li].active_on(book_id),
    ensures
        delete_refusal(lib, book_id) == Some(LedgerError::Conflict(Conflict::ActiveLoans)),
{
    crate::seqs::lemma_count_positive(lib.loans@, active_loan_of(book_id), li);
}

/// No update can shrink a book below the copies that are lent out, and every
/// update that is carried out leaves the available copies between zero and
/// the new total.
pub proof fn lemma_update_keeps_range(book: Book, input: AdminBookInput)
    requires
        0 <= book.available_copies <= book.total_copies,
        input.copies >= book.total_copies - book.available_copies,
    ensures
        0 <= redescribed(book, input).available_copies <= redescribed(book, input).total_copies,
        redescribed(book, input).total_copies - redescribed(book, input).available_copies
            == book.total_copies - book.available_copies,
{
}

} // verus!
