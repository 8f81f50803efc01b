//! Registration, the session store and the access gate.

use vstd::prelude::*;
use crate::calendar::read_clock;
use crate::error::{Conflict, LedgerError};
use crate::library::{session_with_token, user_named, Library};
use crate::records::{Role, Session, User};
use crate::seqs::{
    any_hit, count_where, first_from, first_index, lemma_count_none, lemma_count_push,
    lemma_count_remove, lemma_first_index,
};

verus! {

/// The lifetime of a session, in seconds: twenty-four hours.
pub const SESSION_SECONDS: i64 = 86_400;

/// What an operation asks of the caller's session.
#[derive(Clone, Copy, Debug, PartialEq, Eq, Structural)]
pub enum Access {
    /// Open to everyone.
    Public,
    /// Any valid session.
    Authenticated,
    /// A valid session of this role.
    Only(Role),
}

/// How an attempt to log in ends.
#[derive(Clone, Copy, Debug, PartialEq, Eq, Structural)]
pub enum LoginOutcome {
    /// No user has that name.
    UnknownUser,
    /// The password does not match the stored digest.
    WrongPassword,
    /// The user is logged in with this role.
    Welcome(Role),
}

/// The name of a role as it is stored and sent.
pub open spec fn role_text(role: Role) -> Seq<char> {
    match role {
        Role::Admin => "admin"@,
        Role::Lender => "lender"@,
    }
}

/// The moment at which a session created at `now` expires; it stops at the
/// end of the range of `i64`.
pub open spec fn expiry(now: i64, ttl: i64) -> i64 {
    if now + ttl > i64::MAX {
        i64::MAX
    } else if now + ttl < i64::MIN {
        i64::MIN
    } else {
        (now + ttl) as i64
    }
}

/// Whether a caller whose session resolved to `session` may perform an
/// operation that asks for `access`.
pub open spec fn admits(access: Access, session: Option<Role>) -> bool {
    match access {
        Access::Public => true,
        Access::Authenticated => session is Some,
        Access::Only(role) => session == Some(role),
    }
}

/// What `resolve_session` promises of its result `r` and of the sessions
/// after it: an unknown token resolves to nothing; an expired session
/// resolves to nothing and is gone; any other resolves to its name and role.
pub open spec fn resolved(
    pre: Library,
    post: Library,
    token: Seq<char>,
    now: i64,
    r: Option<(String, Role)>,
) -> bool {
    let si = first_index(pre.sessions@, session_with_token(token));
    if si >= pre.sessions@.len() {
        r is None && post.sessions == pre.sessions
    } else if now > pre.sessions@[si].expires_at {
        &&& r is None
        &&& post.sessions@ == pre.sessions@.remove(si)
        &&& !any_hit(post.sessions@, session_with_token(token))
    } else {
        &&& r == Some((pre.sessions@[si].username, pre.sessions@[si].role))
        &&& post.sessions == pre.sessions
    }
}

/// The sessions after one was opened under `token`: a session that had the
/// token is gone, and the new one stands at the end.
pub open spec fn session_opened(
    pre: Library,
    post: Library,
    token: String,
    username: String,
    role: Role,
    now: i64,
    ttl: i64,
) -> bool {
    post.sessions@ == (if any_hit(pre.sessions@, session_with_token(token@)) {
        pre.sessions@.remove(first_index(pre.sessions@, session_with_token(token@)))
    } else {
        pre.sessions@
    }).push(Session { token, username, role, expires_at: expiry(now, ttl) })
}

/// The role that `text` names.
pub fn parse_role(text: &str) -> (r: Option<Role>)
    ensures
        match r {
            Some(role) => text@ == role_text(role),
            None => text@ != role_text(Role::Admin) && text@ != role_text(Role::Lender),
        },
{
    let t = text.to_owned();
    if t == "admin".to_owned() {
        Some(Role::Admin)
    } else if t == "lender".to_owned() {
        Some(Role::Lender)
    } else {
        None
    }
}

/// The name of `role`.
pub fn role_name(role: Role) -> (r: String)
    ensures
        r@ == role_text(role),
{
    match role {
        Role::Admin => "admin".to_owned(),
        Role::Lender => "lender".to_owned(),
    }
}

/// The access gate: lets the operation go ahead exactly when `session`
/// meets `access`.  A missing session and a session of the wrong role give
/// the same error.
pub fn authorize(access: Access, session: Option<Role>) -> (r: Result<(), LedgerError>)
    ensures
        r is Ok <==> admits(access, session),
        r is Err ==> r == Err::<(), LedgerError>(LedgerError::Unauthorized),
{
    let ok = match access {
        Access::Public => true,
        Access::Authenticated => session.is_some(),
        Access::Only(role) => match session {
            Some(have) => have == role,
            None => false,
        },
    };
    if ok {
        Ok(())
    } else {
        Err(LedgerError::Unauthorized)
    }
}

/// How a login ends, given the role of the user that was found, if any, and
/// whether the password matched the stored digest.
pub fn login_outcome(found: Option<Role>, password_matches: bool) -> (r: LoginOutcome)
    ensures
        r == match found {
            None => LoginOutcome::UnknownUser,
            Some(role) => if password_matches {
                LoginOutcome::Welcome(role)
            } else {
                LoginOutcome::WrongPassword
            },
        },
{
    match found {
        None => LoginOutcome::UnknownUser,
        Some(role) => if password_matches {
            LoginOutcome::Welcome(role)
        } else {
            LoginOutcome::WrongPassword
        },
    }
}

impl Library {
    /// No two sessions share a token.
    pub open spec fn sessions_ok(&self) -> bool {
        forall|t: Seq<char>| #[trigger] count_where(self.sessions@, session_with_token(t)) <= 1
    }

    /// Registers a user and returns the new id.
    ///
    /// Fails, and changes nothing, exactly when the name is taken
    /// (`Conflict`) or no id is left (`Store`).
    pub fn register(&mut self, username: String, password_digest: String, role: Role) -> (r:
        Result<i64, LedgerError>)
        requires
            old(self).wf(),
        ensures
            final(self).wf(),
            match r {
                Ok(id) => {
                    &&& !any_hit(old(self).users@, user_named(username@))
                    &&& id == old(self).next_user_id
                    &&& id < i64::MAX
                    &&& final(self).users@ == old(self).users@.push(
                        User { id, username, password_digest, role },
                    )
                    &&& final(self).next_user_id == id + 1
                    &&& final(self).books == old(self).books
                    &&& final(self).loans == old(self).loans
                    &&& final(self).sessions == old(self).sessions
                    &&& final(self).next_book_id == old(self).next_book_id
                    &&& final(self).next_loan_id == old(self).next_loan_id
                },
                Err(e) => {
                    &&& *final(self) == *old(self)
                    &&& e == if any_hit(old(self).users@, user_named(username@)) {
                        LedgerError::Conflict(Conflict::UsernameTaken)
                    } else {
                        LedgerError::Store
                    }
                    &&& any_hit(old(self).users@, user_named(username@)) || old(self).next_user_id
                        == i64::MAX
                },
            },
    {
        proof {
            lemma_first_index(self.users@, user_named(username@));
        }
        if self.find_user(username.as_str()).is_some() {
            return Err(LedgerError::Conflict(Conflict::UsernameTaken));
        }
        if self.next_user_id == i64::MAX {
            return Err(LedgerError::Store);
        }
        let id: i64 = self.next_user_id;
        self.users.push(User { id, username, password_digest, role });
        self.next_user_id = id + 1;
        Ok(id)
    }

    /// The stored digest and the role of the user named `username`.
    pub fn credentials(&self, username: &str) -> (r: Option<(String, Role)>)
        ensures
            match r {
                Some((digest, role)) => {
                    let ui = first_index(self.users@, user_named(username@));
                    &&& ui < self.users@.len()
                    &&& digest == self.users@[ui].password_digest
                    &&& role == self.users@[ui].role
                },
                None => !any_hit(self.users@, user_named(username@)),
            },
    {
        match self.find_user(username) {
            Some(ui) => Some((self.users[ui].password_digest.clone(), self.users[ui].role)),
            None => None,
        }
    }

    /// The position of the session with the token `token`.
    pub fn find_session(&self, token: &str) -> (r: Option<usize>)
        ensures
            r is Some <==> any_hit(self.sessions@, session_with_token(token@)),
            r is Some ==> r->0 == first_index(self.sessions@, session_with_token(token@)),
    {
        let wanted = token.to_owned();
        let mut i: usize = 0;
        while i < self.sessions.len()
            invariant
                i <= self.sessions@.len(),
                wanted@ == token@,
                first_index(self.sessions@, session_with_token(token@)) == first_from(
                    self.sessions@,
                    session_with_token(token@),
                    i as int,
                ),
            decreases self.sessions@.len() - i,
        {
            if self.sessions[i].token == wanted {
                return Some(i);
            }
            i += 1;
        }
        None
    }

    /// Deletes the session with the token `token`, if there is one.
    pub fn destroy_session(&mut self, token: &str)
        requires
            old(self).sessions_ok(),
        ensures
            final(self).sessions_ok(),
            !any_hit(final(self).sessions@, session_with_token(token@)),
            final(self).sessions@ == if any_hit(old(self).sessions@, session_with_token(token@)) {
                old(self).sessions@.remove(
                    first_index(old(self).sessions@, session_with_token(token@)),
                )
            } else {
                old(self).sessions@
            },
            final(self).users == old(self).users,
            final(self).books == old(self).books,
            final(self).loans == old(self).loans,
            final(self).next_user_id == old(self).next_user_id,
            final(self).next_book_id == old(self).next_book_id,
            final(self).next_loan_id == old(self).next_loan_id,
    {
        proof {
            lemma_first_index(self.sessions@, session_with_token(token@));
        }
        match self.find_session(token) {
            Some(i) => {
                self.sessions.remove(i);
                proof {
                    let pre = old(self).sessions@;
                    assert forall|t: Seq<char>| #[trigger]
                        count_where(self.sessions@, session_with_token(t)) <= 1 by {
                        lemma_count_remove(pre, session_with_token(t), i as int);
                        assert(count_where(pre, session_with_token(t)) <= 1);
                    }
                    lemma_count_remove(pre, session_with_token(token@), i as int);
                    assert(count_where(pre, session_with_token(token@)) <= 1);
                    lemma_count_none(self.sessions@, session_with_token(token@));
                }
            },
            None => {},
        }
    }

    /// Opens a session for `username` with `role` under the token `token`,
    /// which expires `ttl` seconds after `now`.  A session that had the same
    /// token is replaced.
    pub fn create_session(&mut self, token: String, username: String, role: Role, now: i64, ttl: i64)
        requires
            old(self).sessions_ok(),
        ensures
            final(self).sessions_ok(),
            session_opened(*old(self), *final(self), token, username, role, now, ttl),
            final(self).users == old(self).users,
            final(self).books == old(self).books,
            final(self).loans == old(self).loans,
            final(self).next_user_id == old(self).next_user_id,
            final(self).next_book_id == old(self).next_book_id,
            final(self).next_loan_id == old(self).next_loan_id,
    {
        self.destroy_session(token.as_str());
        let expires_at: i64 = if ttl >= 0 {
            if now > i64::MAX - ttl {
                i64::MAX
            } else {
                now + ttl
            }
        } else {
            if now < i64::MIN - ttl {
                i64::MIN
            } else {
                now + ttl
            }
        };
        let ghost mid = self.sessions@;
        let session = Session { token, username, role, expires_at };
        self.sessions.push(session);
        proof {
            assert forall|t: Seq<char>| #[trigger]
                count_where(self.sessions@, session_with_token(t)) <= 1 by {
                lemma_count_push(mid, session_with_token(t), session);
                assert(count_where(mid, session_with_token(t)) <= 1);
                if t == token@ {
                    lemma_first_index(mid, session_with_token(t));
                    crate::seqs::lemma_count_zero(mid, session_with_token(t));
                }
            }
        }
    }

    /// Opens a session as `create_session` does, for twenty-four hours from
    /// the moment that the clock gives.
    pub fn open_session(&mut self, token: String, username: String, role: Role)
        requires
            old(self).sessions_ok(),
        ensures
            final(self).sessions_ok(),
            exists|now: i64|
                session_opened(
                    *old(self),
                    *final(self),
                    token,
                    username,
                    role,
                    now,
                    SESSION_SECONDS,
                ),
            final(self).users == old(self).users,
            final(self).books == old(self).books,
            final(self).loans == old(self).loans,
            final(self).next_user_id == old(self).next_user_id,
            final(self).next_book_id == old(self).next_book_id,
            final(self).next_loan_id == old(self).next_loan_id,
    {
        let moment = read_clock();
        self.create_session(token, username, role, moment.seconds, SESSION_SECONDS);
        assert(session_opened(
            *old(self),
            *self,
            token,
            username,
            role,
            moment.seconds,
            SESSION_SECONDS,
        ));
    }

    /// Resolves `token` as `resolve_session` does, at the moment that the
    /// clock gives.
    pub fn resolve_session_now(&mut self, token: &str) -> (r: Option<(String, Role)>)
        requires
            old(self).sessions_ok(),
        ensures
            final(self).sessions_ok(),
            exists|now: i64| resolved(*old(self), *final(self), token@, now, r),
            final(self).users == old(self).users,
            final(self).books == old(self).books,
            final(self).loans == old(self).loans,
            final(self).next_user_id == old(self).next_user_id,
            final(self).next_book_id == old(self).next_book_id,
            final(self).next_loan_id == old(self).next_loan_id,
    {
        let moment = read_clock();
        self.resolve_session(token, moment.seconds)
    }

    /// Resolves `token` at the moment `now` to the name and role of its
    /// session.  An unknown token resolves to nothing.  A session that has
    /// expired resolves to nothing and is deleted.
    pub fn resolve_session(&mut self, token: &str, now: i64) -> (r: Option<(String, Role)>)
        requires
            old(self).sessions_ok(),
        ensures
            final(self).sessions_ok(),
            final(self).users == old(self).users,
            final(self).books == old(self).books,
            final(self).loans == old(self).loans,
            final(self).next_user_id == old(self).next_user_id,
            final(self).next_book_id == old(self).next_book_id,
            final(self).next_loan_id == old(self).next_loan_id,
            resolved(*old(self), *final(self), token@, now, r),
    {
        proof {
            lemma_first_index(self.sessions@, session_with_token(token@));
        }
        match self.find_session(token) {
            None => None,
            Some(si) => {
                if now > self.sessions[si].expires_at {
                    self.destroy_session(token);
                    None
                } else {
                    Some((self.sessions[si].username.clone(), self.sessions[si].role))
                }
            },
        }
    }
}

} // verus!
