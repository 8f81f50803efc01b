//! Checks of a store that was put together by hand, such as one read back
//! from a database: whether the invariants of the engine hold of it.

use vstd::prelude::*;
use crate::library::{active_loan_for, held_count, session_with_token, Library};
use crate::seqs::{count_where, lemma_count_take, lemma_count_zero};

verus! {

impl Library {
    /// Whether the users have distinct names and ids below the counter.
    pub fn users_are_ok(&self) -> (r: bool)
        ensures
            r == self.users_ok(),
    {
        let n: usize = self.users.len();
        let mut j: usize = 0;
        while j < n
            invariant
                j <= n == self.users@.len(),
                forall|k: int| 0 <= k < j ==> (#[trigger] self.users@[k]).id < self.next_user_id,
                forall|a: int, b: int|
                    0 <= a < b < j ==> (#[trigger] self.users@[a]).username@ != (
                    #[trigger] self.users@[b]).username@ && self.users@[a].id
                        != self.users@[b].id,
            decreases n - j,
        {
            if self.users[j].id >= self.next_user_id {
                return false;
            }
            let mut i: usize = 0;
            while i < j
                invariant
                    i <= j < n == self.users@.len(),
                    forall|a: int|
                        0 <= a < i ==> (#[trigger] self.users@[a]).username@
                            != self.users@[j as int].username@ && self.users@[a].id
                            != self.users@[j as int].id,
                decreases j - i,
            {
                if self.users[i].username == self.users[j].username || self.users[i].id
                    == self.users[j].id {
                    return false;
                }
                i += 1;
            }
            j += 1;
        }
        true
    }

    /// Whether the books have distinct ids below the counter.
    pub fn books_are_ok(&self) -> (r: bool)
        ensures
            r == self.books_ok(),
    {
        let n: usize = self.books.len();
        let mut j: usize = 0;
        while j < n
            invariant
                j <= n == self.books@.len(),
                forall|k: int| 0 <= k < j ==> (#[trigger] self.books@[k]).id < self.next_book_id,
                forall|a: int, b: int|
                    0 <= a < b < j ==> (#[trigger] self.books@[a]).id != (
                    #[trigger] self.books@[b]).id,
            decreases n - j,
        {
            if self.books[j].id >= self.next_book_id {
                return false;
            }
            let mut i: usize = 0;
            while i < j
                invariant
                    i <= j < n == self.books@.len(),
                    forall|a: int|
                        0 <= a < i ==> (#[trigger] self.books@[a]).id != self.books@[j as int].id,
                decreases j - i,
            {
                if self.books[i].id == self.books[j].id {
                    return false;
                }
                i += 1;
            }
            j += 1;
        }
        true
    }

    /// Whether the loans carry ids below the counter, refer to books that
    /// were in the catalog, are due fourteen days after the checkout, and
    /// give no user two active loans on one book.
    pub fn loans_are_ok(&self) -> (r: bool)
        ensures
            r == self.loans_ok(),
    {
        let n: usize = self.loans.len();
        let mut i: usize = 0;
        while i < n
            invariant
                i <= n == self.loans@.len(),
                forall|k: int|
                    0 <= k < i ==> (#[trigger] self.loans@[k]).id < self.next_loan_id
                        && self.loans@[k].book_id < self.next_book_id && self.loans@[k].dated(),
                forall|k: int|
                    0 <= k < i && (#[trigger] self.loans@[k]).is_active() ==> held_count(
                        self.loans@,
                        self.loans@[k].user_id,
                        self.loans@[k].book_id,
                    ) <= 1,
                forall|a: int, b: int|
                    0 <= a < b < i ==> (#[trigger] self.loans@[a]).id != (
                    #[trigger] self.loans@[b]).id,
            decreases n - i,
        {
            let loan = self.loans[i];
            let mut h: usize = 0;
            while h < i
                invariant
                    h <= i < n == self.loans@.len(),
                    loan == self.loans@[i as int],
                    forall|a: int| 0 <= a < h ==> (#[trigger] self.loans@[a]).id != loan.id,
                decreases i - h,
            {
                if self.loans[h].id == loan.id {
                    return false;
                }
                h += 1;
            }
            if loan.id >= self.next_loan_id || loan.book_id >= self.next_book_id {
                return false;
            }
            if loan.checkout_day < -2147483648 || loan.checkout_day > 2147483647 || loan.due_day
                != loan.checkout_day + 14 {
                return false;
            }
            if loan.return_day.is_none() && self.count_held(loan.user_id, loan.book_id) > 1 {
                return false;
            }
            i += 1;
        }
        proof {
            assert forall|u: i64, b: i64| #[trigger] held_count(self.loans@, u, b) <= 1 by {
                if forall|j: int|
                    0 <= j < self.loans@.len() ==> !active_loan_for(u, b)(#[trigger] self.loans@[j]) {
                    lemma_count_zero(self.loans@, active_loan_for(u, b));
                } else {
                    let k = choose|k: int|
                        0 <= k < self.loans@.len() && active_loan_for(u, b)(
                            #[trigger] self.loans@[k],
                        );
                    assert(self.loans@[k].is_active());
                }
            }
        }
        true
    }

    /// Whether the available copies of every book can be derived from the
    /// loans: `sync_availability` may be called.
    pub fn is_repairable(&self) -> (r: bool)
        ensures
            r == self.repairable(),
    {
        if !self.users_are_ok() || !self.books_are_ok() || !self.loans_are_ok() {
            return false;
        }
        let n: usize = self.books.len();
        let mut i: usize = 0;
        while i < n
            invariant
                i <= n == self.books@.len(),
                forall|k: int|
                    0 <= k < i ==> crate::library::active_count(
                        self.loans@,
                        (#[trigger] self.books@[k]).id,
                    ) <= self.books@[k].total_copies,
            decreases n - i,
        {
            let active: usize = self.count_active(self.books[i].id);
            let total: i64 = self.books[i].total_copies;
            if total < 0 || active as u64 > total as u64 {
                return false;
            }
            i += 1;
        }
        true
    }

    /// Whether the invariant of the store holds.
    pub fn is_well_formed(&self) -> (r: bool)
        ensures
            r == self.wf(),
    {
        if !self.users_are_ok() || !self.books_are_ok() || !self.loans_are_ok() {
            return false;
        }
        let n: usize = self.books.len();
        let mut i: usize = 0;
        while i < n
            invariant
                i <= n == self.books@.len(),
                forall|k: int|
                    0 <= k < i ==> 0 <= (#[trigger] self.books@[k]).available_copies
                        && self.books@[k].available_copies + crate::library::active_count(
                        self.loans@,
                        self.books@[k].id,
                    ) == self.books@[k].total_copies,
            decreases n - i,
        {
            let active: usize = self.count_active(self.books[i].id);
            let total: i64 = self.books[i].total_copies;
            let available: i64 = self.books[i].available_copies;
            if available < 0 || total < available || (total - available) as u64 != active as u64 {
                return false;
            }
            i += 1;
        }
        true
    }

    /// Whether no two sessions share a token.
    pub fn sessions_are_ok(&self) -> (r: bool)
        ensures
            r == self.sessions_ok(),
    {
        let n: usize = self.sessions.len();
        let mut j: usize = 0;
        while j < n
            invariant
                j <= n == self.sessions@.len(),
                forall|t: Seq<char>| #[trigger]
                    count_where(self.sessions@.take(j as int), session_with_token(t)) <= 1,
            decreases n - j,
        {
            let mut i: usize = 0;
            while i < j
                invariant
                    i <= j < n == self.sessions@.len(),
                    forall|a: int|
                        0 <= a < i ==> (#[trigger] self.sessions@[a]).token@
                            != self.sessions@[j as int].token@,
                decreases j - i,
            {
                if self.sessions[i].token == self.sessions[j].token {
                    proof {
                        let t = self.sessions@[j as int].token@;
                        let hit = session_with_token(t);
                        lemma_prefix_counts(self.sessions@, hit, i as int, j as int);
                    }
                    return false;
                }
                i += 1;
            }
            proof {
                let pre = self.sessions@.take(j as int);
                assert forall|t: Seq<char>| #[trigger]
                    count_where(self.sessions@.take(j + 1), session_with_token(t)) <= 1 by {
                    lemma_count_take(self.sessions@, session_with_token(t), j as int);
                    assert(count_where(pre, session_with_token(t)) <= 1);
                    if t == self.sessions@[j as int].token@ {
                        assert forall|a: int| 0 <= a < pre.len() implies !session_with_token(t)(
                            #[trigger] pre[a],
                        ) by {
                            assert(pre[a] == self.sessions@[a]);
                        }
                        lemma_count_zero(pre, session_with_token(t));
                    }
                }
            }
            j += 1;
        }
        assert(self.sessions@.take(n as int) =~= self.sessions@);
        true
    }
}

/// A sequence with hits at two places counts at least two.
proof fn lemma_prefix_counts<T>(s: Seq<T>, hit: spec_fn(T) -> bool, i: int, j: int)
    requires
        0 <= i < j < s.len(),
        hit(s[i]),
        hit(s[j]),
    ensures
        count_where(s, hit) >= 2,
    decreases s.len(),
{
    if j == s.len() - 1 {
        crate::seqs::lemma_count_positive(s.drop_last(), hit, i);
    } else {
        lemma_prefix_counts(s.drop_last(), hit, i, j);
    }
}

} // verus!
