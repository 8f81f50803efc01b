//! The routing table: which operation a request asks for, and whether the
//! caller's session lets it go ahead.

use vstd::prelude::*;
use crate::http::{has_prefix_at, parse_query_param, query_param, starts_at};
use crate::records::Role;
use crate::text::chars_of;

verus! {

/// A page that the server hands out as it is.
#[derive(Clone, Copy, Debug, PartialEq, Eq, Structural)]
pub enum Page {
    Index,
    Register,
    Admin,
    Lender,
}

/// What is to be done for a request.
#[derive(Clone, Copy, Debug, PartialEq, Eq, Structural)]
pub enum Route {
    /// Hand out a page.
    Page(Page),
    /// Log the user of the form in.
    Login,
    /// Register the user of the form.
    Register,
    /// Delete the session and send the caller to the login page.
    Logout,
    /// A page was asked for without a session of its role: send the caller
    /// to the login page.
    RedirectToLogin,
    /// An administrator's operation was asked for without an
    /// administrator's session.
    Unauthorized,
    /// A lender's listing was asked for without a lender's session, or a
    /// search without a query: answer with an empty list.
    EmptyList,
    /// A checkout or a return was asked for without a lender's session.
    NotLoggedIn,
    AdminUsers,
    AdminBooks,
    AdminLoans,
    AdminOverdue,
    AdminAddBook,
    /// Update the book with this id from the body of the request.
    AdminUpdateBook(i64),
    /// Delete the book with this id.
    AdminDeleteBook(i64),
    /// An update or a delete without a readable book id.
    MissingBookId,
    LenderBooks,
    /// Search the catalog for the parameter `q` of the path.
    LenderSearch,
    LenderMyLoans,
    /// Check out the book with this id for the caller.
    LenderCheckout(i64),
    /// A checkout without a readable book id.
    InvalidCheckout,
    /// Return the loan with this id.
    LenderReturn(i64),
    /// A return without a readable loan id.
    InvalidReturn,
    LenderOverdue,
    /// No operation answers to the request.
    NotFound,
}

/// Whether `c` is a decimal digit.
pub open spec fn is_digit(c: char) -> bool {
    '0' <= c <= '9'
}

/// The number that decimal digits write, if every character is a digit and
/// neither the number nor what a shorter beginning of the text writes
/// exceeds `limit`.
pub open spec fn digits_up_to(s: Seq<char>, limit: nat) -> Option<nat>
    decreases s.len(),
{
    if s.len() == 0 {
        Some(0)
    } else {
        match digits_up_to(s.drop_last(), limit) {
            Some(v) => if is_digit(s.last()) && 10 * v + (s.last() as u8 - 48) <= limit {
                Some((10 * v + (s.last() as u8 - 48)) as nat)
            } else {
                None
            },
            None => None,
        }
    }
}

/// The integer that `s` writes in decimal digits after an optional sign, if
/// it writes one that an `i64` holds.
pub open spec fn int_of_text(s: Seq<char>) -> Option<i64> {
    if s.len() == 0 {
        None
    } else if s[0] == '-' {
        match digits_up_to(s.skip(1), 0x8000_0000_0000_0000) {
            Some(v) => if s.len() > 1 {
                Some((-v) as i64)
            } else {
                None
            },
            None => None,
        }
    } else if s[0] == '+' {
        match digits_up_to(s.skip(1), 0x7fff_ffff_ffff_ffff) {
            Some(v) => if s.len() > 1 {
                Some(v as i64)
            } else {
                None
            },
            None => None,
        }
    } else {
        match digits_up_to(s, 0x7fff_ffff_ffff_ffff) {
            Some(v) => Some(v as i64),
            None => None,
        }
    }
}

/// The integer that the parameter `key` of a path writes.
pub open spec fn id_param(path: Seq<char>, key: Seq<char>) -> Option<i64> {
    match query_param(path, key) {
        Some(text) => int_of_text(text),
        None => None,
    }
}

/// The path begins with `prefix`.
pub open spec fn begins(path: Seq<char>, prefix: Seq<char>) -> bool {
    has_prefix_at(path, prefix, 0, path.len() as int)
}

/// `allowed` for a session of the role `role`, `refused` for any other and
/// for none.
pub open spec fn gated(session: Option<Role>, role: Role, allowed: Route, refused: Route)
    -> Route {
    if session == Some(role) {
        allowed
    } else {
        refused
    }
}

/// What is to be done for the request `method path` of a caller whose
/// session resolved to `session`.
pub open spec fn route_of(method: Seq<char>, path: Seq<char>, session: Option<Role>) -> Route {
    if method == "GET"@ && path == "/"@ {
        Route::Page(Page::Index)
    } else if method == "GET"@ && path == "/register.html"@ {
        Route::Page(Page::Register)
    } else if method == "POST"@ && path == "/login"@ {
        Route::Login
    } else if method == "POST"@ && path == "/register"@ {
        Route::Register
    } else if (method == "GET"@ || method == "POST"@) && path == "/logout"@ {
        Route::Logout
    } else if method == "GET"@ && path == "/admin.html"@ {
        gated(session, Role::Admin, Route::Page(Page::Admin), Route::RedirectToLogin)
    } else if method == "GET"@ && path == "/lender.html"@ {
        gated(session, Role::Lender, Route::Page(Page::Lender), Route::RedirectToLogin)
    } else if method == "GET"@ && path == "/admin/api/users"@ {
        gated(session, Role::Admin, Route::AdminUsers, Route::Unauthorized)
    } else if method == "GET"@ && path == "/admin/api/books"@ {
        gated(session, Role::Admin, Route::AdminBooks, Route::Unauthorized)
    } else if method == "GET"@ && path == "/admin/api/loans"@ {
        gated(session, Role::Admin, Route::AdminLoans, Route::Unauthorized)
    } else if method == "GET"@ && path == "/admin/api/overdue"@ {
        gated(session, Role::Admin, Route::AdminOverdue, Route::Unauthorized)
    } else if method == "POST"@ && path == "/admin/api/books"@ {
        gated(session, Role::Admin, Route::AdminAddBook, Route::Unauthorized)
    } else if method == "PUT"@ && begins(path, "/admin/api/books"@) {
        gated(
            session,
            Role::Admin,
            match id_param(path, "bookid"@) {
                Some(id) => Route::AdminUpdateBook(id),
                None => Route::MissingBookId,
            },
            Route::Unauthorized,
        )
    } else if method == "DELETE"@ && begins(path, "/admin/api/books"@) {
        gated(
            session,
            Role::Admin,
            match id_param(path, "bookid"@) {
                Some(id) => Route::AdminDeleteBook(id),
                None => Route::MissingBookId,
            },
            Route::Unauthorized,
        )
    } else if method == "GET"@ && path == "/lender/api/books"@ {
        gated(session, Role::Lender, Route::LenderBooks, Route::EmptyList)
    } else if method == "GET"@ && begins(path, "/lender/api/search"@) {
        gated(
            session,
            Role::Lender,
            if query_param(path, "q"@) is Some {
                Route::LenderSearch
            } else {
                Route::EmptyList
            },
            Route::EmptyList,
        )
    } else if method == "GET"@ && begins(path, "/lender/api/myloans"@) {
        gated(session, Role::Lender, Route::LenderMyLoans, Route::EmptyList)
    } else if method == "POST"@ && begins(path, "/lender/api/checkout"@) {
        gated(
            session,
            Role::Lender,
            match id_param(path, "bookid"@) {
                Some(id) => Route::LenderCheckout(id),
                None => Route::InvalidCheckout,
            },
            Route::NotLoggedIn,
        )
    } else if method == "POST"@ && begins(path, "/lender/api/return"@) {
        gated(
            session,
            Role::Lender,
            match id_param(path, "loanid"@) {
                Some(id) => Route::LenderReturn(id),
                None => Route::InvalidReturn,
            },
            Route::NotLoggedIn,
        )
    } else if method == "GET"@ && begins(path, "/lender/api/overdue"@) {
        gated(session, Role::Lender, Route::LenderOverdue, Route::EmptyList)
    } else {
        Route::NotFound
    }
}

/// The number that the digits `v[from..]` write, if it does not exceed
/// `limit`.
fn read_digits(v: &Vec<char>, from: usize, limit: u64) -> (r: Option<u64>)
    requires
        from <= v@.len(),
    ensures
        match r {
            Some(n) => digits_up_to(v@.skip(from as int), limit as nat) == Some(n as nat),
            None => digits_up_to(v@.skip(from as int), limit as nat) is None,
        },
{
    let mut acc: u64 = 0;
    let mut i: usize = from;
    assert(v@.subrange(from as int, v@.len() as int) =~= v@.skip(from as int));
    while i < v.len()
        invariant
            from <= i <= v@.len(),
            acc <= limit,
            digits_up_to(v@.subrange(from as int, i as int), limit as nat) == Some(acc as nat),
        decreases v@.len() - i,
    {
        let c: char = v[i];
        proof {
            assert(v@.subrange(from as int, i + 1).drop_last() =~= v@.subrange(
                from as int,
                i as int,
            ));
            lemma_digits_stay_none(v@, from as int, i + 1, limit as nat);
        }
        if c < '0' || c > '9' {
            return None;
        }
        let d: u64 = (c as u8 - 48) as u64;
        if d > limit || acc > (limit - d) / 10 {
            return None;
        }
        acc = 10 * acc + d;
        i += 1;
    }
    Some(acc)
}

/// Once a beginning of the digits writes no number within the limit, no
/// longer text does.
proof fn lemma_digits_stay_none(s: Seq<char>, from: int, mid: int, limit: nat)
    requires
        0 <= from <= mid <= s.len(),
    ensures
        digits_up_to(s.subrange(from, mid), limit) is None ==> digits_up_to(
            s.skip(from),
            limit,
        ) is None,
    decreases s.len() - mid,
{
    if mid == s.len() {
        assert(s.subrange(from, mid) =~= s.skip(from));
    } else {
        assert(s.subrange(from, mid + 1).drop_last() =~= s.subrange(from, mid));
        lemma_digits_stay_none(s, from, mid + 1, limit);
    }
}

/// The integer that `text` writes in decimal digits after an optional sign.
pub fn parse_int(text: &str) -> (r: Option<i64>)
    ensures
        r == int_of_text(text@),
{
    let v = chars_of(text);
    if v.len() == 0 {
        return None;
    }
    if v[0] == '-' {
        match read_digits(&v, 1, 0x8000_0000_0000_0000) {
            Some(n) => if v.len() > 1 {
                if n == 0x8000_0000_0000_0000 {
                    Some(i64::MIN)
                } else {
                    Some(-(n as i64))
                }
            } else {
                None
            },
            None => None,
        }
    } else if v[0] == '+' {
        match read_digits(&v, 1, 0x7fff_ffff_ffff_ffff) {
            Some(n) => if v.len() > 1 {
                Some(n as i64)
            } else {
                None
            },
            None => None,
        }
    } else {
        assert(v@.skip(0) =~= v@);
        match read_digits(&v, 0, 0x7fff_ffff_ffff_ffff) {
            Some(n) => Some(n as i64),
            None => None,
        }
    }
}

/// Whether two texts are the same.
fn same(a: &str, b: &str) -> (r: bool)
    ensures
        r == (a@ == b@),
{
    a.to_owned() == b.to_owned()
}

/// Whether `path` begins with `prefix`.
fn begins_with(path: &str, prefix: &str) -> (r: bool)
    ensures
        r == begins(path@, prefix@),
{
    let v = chars_of(path);
    let p = chars_of(prefix);
    starts_at(&v, &p, 0, v.len())
}

/// The integer that the parameter `key` of `path` writes.
fn read_id(path: &str, key: &str) -> (r: Option<i64>)
    ensures
        r == id_param(path@, key@),
{
    match parse_query_param(path, key) {
        Some(text) => parse_int(text.as_str()),
        None => None,
    }
}

/// `allowed` for a session of the role `role`, `refused` otherwise.
fn gate(session: Option<Role>, role: Role, allowed: Route, refused: Route) -> (r: Route)
    ensures
        r == gated(session, role, allowed, refused),
{
    match session {
        Some(have) => if have == role {
            allowed
        } else {
            refused
        },
        None => refused,
    }
}

/// What is to be done for the request `method path` of a caller whose
/// session resolved to `session`.
pub fn route(method: &str, path: &str, session: Option<Role>) -> (r: Route)
    ensures
        r == route_of(method@, path@, session),
{
    let get = same(method, "GET");
    let post = same(method, "POST");
    if get && same(path, "/") {
        Route::Page(Page::Index)
    } else if get && same(path, "/register.html") {
        Route::Page(Page::Register)
    } else if post && same(path, "/login") {
        Route::Login
    } else if post && same(path, "/register") {
        Route::Register
    } else if (get || post) && same(path, "/logout") {
        Route::Logout
    } else if get && same(path, "/admin.html") {
        gate(session, Role::Admin, Route::Page(Page::Admin), Route::RedirectToLogin)
    } else if get && same(path, "/lender.html") {
        gate(session, Role::Lender, Route::Page(Page::Lender), Route::RedirectToLogin)
    } else if get && same(path, "/admin/api/users") {
        gate(session, Role::Admin, Route::AdminUsers, Route::Unauthorized)
    } else if get && same(path, "/admin/api/books") {
        gate(session, Role::Admin, Route::AdminBooks, Route::Unauthorized)
    } else if get && same(path, "/admin/api/loans") {
        gate(session, Role::Admin, Route::AdminLoans, Route::Unauthorized)
    } else if get && same(path, "/admin/api/overdue") {
        gate(session, Role::Admin, Route::AdminOverdue, Route::Unauthorized)
    } else if post && same(path, "/admin/api/books") {
        gate(session, Role::Admin, Route::AdminAddBook, Route::Unauthorized)
    } else if same(method, "PUT") && begins_with(path, "/admin/api/books") {
        let wanted = match read_id(path, "bookid") {
            Some(id) => Route::AdminUpdateBook(id),
            None => Route::MissingBookId,
        };
        gate(session, Role::Admin, wanted, Route::Unauthorized)
    } else if same(method, "DELETE") && begins_with(path, "/admin/api/books") {
        let wanted = match read_id(path, "bookid") {
            Some(id) => Route::AdminDeleteBook(id),
            None => Route::MissingBookId,
        };
        gate(session, Role::Admin, wanted, Route::Unauthorized)
    } else if get && same(path, "/lender/api/books") {
        gate(session, Role::Lender, Route::LenderBooks, Route::EmptyList)
    } else if get && begins_with(path, "/lender/api/search") {
        let wanted = if parse_query_param(path, "q").is_some() {
            Route::LenderSearch
        } else {
            Route::EmptyList
        };
        gate(session, Role::Lender, wanted, Route::EmptyList)
    } else if get && begins_with(path, "/lender/api/myloans") {
        gate(session, Role::Lender, Route::LenderMyLoans, Route::EmptyList)
    } else if post && begins_with(path, "/lender/api/checkout") {
        let wanted = match read_id(path, "bookid") {
            Some(id) => Route::LenderCheckout(id),
            None => Route::InvalidCheckout,
        };
        gate(session, Role::Lender, wanted, Route::NotLoggedIn)
    } else if post && begins_with(path, "/lender/api/return") {
        let wanted = match read_id(path, "loanid") {
            Some(id) => Route::LenderReturn(id),
            None => Route::InvalidReturn,
        };
        gate(session, Role::Lender, wanted, Route::NotLoggedIn)
    } else if get && begins_with(path, "/lender/api/overdue") {
        gate(session, Role::Lender, Route::LenderOverdue, Route::EmptyList)
    } else {
        Route::NotFound
    }
}

} // verus!
