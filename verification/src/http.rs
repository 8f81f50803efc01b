//! Reading what the engine needs out of the text of a request: the request
//! line, the body, form fields, query parameters and cookies.

use vstd::prelude::*;
use vstd::string::StrSliceExecFns;
use crate::text::{char_is_space, chars_of, is_space, text_of};

verus! {

/// Where a scan stops.
#[derive(Clone, Copy, Debug)]
pub enum Stop {
    /// At this character.
    At(char),
    /// At white space.
    Space,
    /// At anything but white space.
    Word,
}

/// Whether a scan that looks for `stop` stops at `c`.
pub open spec fn stops(stop: Stop, c: char) -> bool {
    match stop {
        Stop::At(x) => c == x,
        Stop::Space => is_space(c),
        Stop::Word => !is_space(c),
    }
}

/// The first position in `from..to` at which a scan for `stop` stops, or
/// `to` if there is none.
pub open spec fn scan_to(s: Seq<char>, stop: Stop, from: int, to: int) -> int
    decreases to - from,
{
    if from < 0 || from >= to || to > s.len() {
        to
    } else if stops(stop, s[from]) {
        from
    } else {
        scan_to(s, stop, from + 1, to)
    }
}

/// The end of `from..to` with the white space at its end left off.
pub open spec fn trimmed_end(s: Seq<char>, from: int, to: int) -> int
    decreases to - from,
{
    if from < to <= s.len() && is_space(s[to - 1]) {
        trimmed_end(s, from, to - 1)
    } else {
        to
    }
}

/// `prefix` stands in `s` at `from` and ends at or before `to`.
pub open spec fn has_prefix_at(s: Seq<char>, prefix: Seq<char>, from: int, to: int) -> bool {
    &&& 0 <= from
    &&& from + prefix.len() <= to <= s.len()
    &&& s.subrange(from, from + prefix.len()) == prefix
}

/// The text with every `+` replaced by a space.
pub open spec fn decoded(s: Seq<char>) -> Seq<char> {
    Seq::new(
        s.len(),
        |i: int|
            if s[i] == '+' {
                ' '
            } else {
                s[i]
            },
    )
}

/// The position of the line feed that ends the line starting at `from`, or
/// the length of the text if the line is the last and has none.
pub open spec fn line_end(s: Seq<char>, from: int) -> int {
    scan_to(s, Stop::At('\n'), from, s.len() as int)
}

/// The end of the content of the line starting at `from`: a carriage return
/// before the line feed is no part of it.
pub open spec fn line_stop(s: Seq<char>, from: int) -> int {
    let e = line_end(s, from);
    if from < e < s.len() && s[e - 1] == '\r' {
        e - 1
    } else {
        e
    }
}

/// The method and the path of a request: the first two words of its first
/// line, or two empty texts where that line has fewer than two words.
pub open spec fn request_words(s: Seq<char>) -> (Seq<char>, Seq<char>) {
    let stop = line_stop(s, 0);
    let a = scan_to(s, Stop::Word, 0, stop);
    let b = scan_to(s, Stop::Space, a, stop);
    let c = scan_to(s, Stop::Word, b, stop);
    let d = scan_to(s, Stop::Space, c, stop);
    if c < stop {
        (s.subrange(a, b), s.subrange(c, d))
    } else {
        (Seq::empty(), Seq::empty())
    }
}

/// An empty line, `\r\n\r\n`, stands at `at`.
pub open spec fn break_at(s: Seq<char>, at: int) -> bool {
    &&& 0 <= at
    &&& at + 4 <= s.len()
    &&& s[at] == '\r'
    &&& s[at + 1] == '\n'
    &&& s[at + 2] == '\r'
    &&& s[at + 3] == '\n'
}

/// The first position at or after `from` at which an empty line stands, or
/// the length of the text if there is none.
pub open spec fn first_break(s: Seq<char>, from: int) -> int
    decreases s.len() - from,
{
    if from < 0 || from >= s.len() {
        s.len() as int
    } else if break_at(s, from) {
        from
    } else {
        first_break(s, from + 1)
    }
}

/// The body of a request: what follows the first empty line; empty where
/// the request has no empty line.
pub open spec fn body_text(s: Seq<char>) -> Seq<char> {
    let at = first_break(s, 0);
    if at < s.len() {
        s.subrange(at + 4, s.len() as int)
    } else {
        Seq::empty()
    }
}

/// The fields of the form `s[from..]`: for each piece between `&` that holds
/// an `=`, what stands before the first `=` and what stands after it, both
/// decoded, in the order of the pieces.
pub open spec fn form_fields(s: Seq<char>, from: int) -> Seq<(Seq<char>, Seq<char>)>
    decreases s.len() - from,
{
    let end = scan_to(s, Stop::At('&'), from, s.len() as int);
    let eq = scan_to(s, Stop::At('='), from, end);
    let here = if eq < end {
        seq![(decoded(s.subrange(from, eq)), decoded(s.subrange(eq + 1, end)))]
    } else {
        Seq::empty()
    };
    if from < 0 || end < from || end >= s.len() {
        here
    } else {
        here + form_fields(s, end + 1)
    }
}

/// The value of the last field named `key`.
pub open spec fn field_value(fields: Seq<(Seq<char>, Seq<char>)>, key: Seq<char>) -> Option<
    Seq<char>,
>
    decreases fields.len(),
{
    if fields.len() == 0 {
        None
    } else if fields.last().0 == key {
        Some(fields.last().1)
    } else {
        field_value(fields.drop_last(), key)
    }
}

/// The decoded value of the first parameter named `key` among the pieces of
/// `s[from..to]` between `&`.  A piece without `=` is no parameter.
pub open spec fn param_in(s: Seq<char>, key: Seq<char>, from: int, to: int) -> Option<Seq<char>>
    decreases to - from,
{
    let end = scan_to(s, Stop::At('&'), from, to);
    let eq = scan_to(s, Stop::At('='), from, end);
    if from < 0 || end < from {
        None
    } else if eq < end && s.subrange(from, eq) == key {
        Some(decoded(s.subrange(eq + 1, end)))
    } else if end >= to {
        None
    } else {
        param_in(s, key, end + 1, to)
    }
}

/// The decoded value of the first parameter named `key` in the query of a
/// path: the part after the first `?`, up to a second `?` if there is one.
pub open spec fn query_param(path: Seq<char>, key: Seq<char>) -> Option<Seq<char>> {
    let mark = scan_to(path, Stop::At('?'), 0, path.len() as int);
    if mark >= path.len() {
        None
    } else {
        param_in(path, key, mark + 1, scan_to(path, Stop::At('?'), mark + 1, path.len() as int))
    }
}

/// The value of the first cookie named `name` among the pieces of
/// `s[from..to]` between `;`, each taken without the white space around it.
pub open spec fn cookie_in(s: Seq<char>, name: Seq<char>, from: int, to: int) -> Option<
    Seq<char>,
>
    decreases to - from,
{
    let end = scan_to(s, Stop::At(';'), from, to);
    let a = scan_to(s, Stop::Word, from, end);
    let b = trimmed_end(s, a, end);
    if from < 0 || end < from {
        None
    } else if has_prefix_at(s, name.push('='), a, b) {
        Some(s.subrange(a + name.len() + 1, b))
    } else if end >= to {
        None
    } else {
        cookie_in(s, name, end + 1, to)
    }
}

/// The value of the cookie `name` in the line `s[from..stop]`, if that line
/// is a `Cookie:` header.
pub open spec fn cookie_on_line(s: Seq<char>, name: Seq<char>, from: int, stop: int) -> Option<
    Seq<char>,
> {
    if has_prefix_at(s, "Cookie:"@, from, stop) {
        if has_prefix_at(s, "Cookie: "@, from, stop) {
            cookie_in(s, name, from + "Cookie: "@.len(), stop)
        } else {
            cookie_in(s, name, from, stop)
        }
    } else {
        None
    }
}

/// The value of the cookie `name` in the first `Cookie:` header, at or after
/// `from`, that holds a cookie of that name.
pub open spec fn cookie_from(s: Seq<char>, name: Seq<char>, from: int) -> Option<Seq<char>>
    decreases s.len() - from,
{
    if from < 0 || from >= s.len() {
        None
    } else {
        let e = line_end(s, from);
        let found = cookie_on_line(s, name, from, line_stop(s, from));
        if found is Some {
            found
        } else if e < from || e >= s.len() {
            None
        } else {
            cookie_from(s, name, e + 1)
        }
    }
}

/// The first position in `from..to` at which a scan for `stop` stops.
pub fn scan(v: &Vec<char>, stop: Stop, from: usize, to: usize) -> (r: usize)
    requires
        from <= to <= v@.len(),
    ensures
        r == scan_to(v@, stop, from as int, to as int),
        from <= r <= to,
        r < to ==> stops(stop, v@[r as int]),
{
    let mut i: usize = from;
    while i < to
        invariant
            from <= i <= to <= v@.len(),
            scan_to(v@, stop, from as int, to as int) == scan_to(v@, stop, i as int, to as int),
        decreases to - i,
    {
        let c: char = v[i];
        let hit: bool = match stop {
            Stop::At(x) => c == x,
            Stop::Space => char_is_space(c),
            Stop::Word => !char_is_space(c),
        };
        if hit {
            return i;
        }
        i += 1;
    }
    to
}

/// The end of `from..to` with the white space at its end left off.
pub fn trim_end(v: &Vec<char>, from: usize, to: usize) -> (r: usize)
    requires
        from <= to <= v@.len(),
    ensures
        r == trimmed_end(v@, from as int, to as int),
        from <= r <= to,
{
    let mut i: usize = to;
    while i > from && char_is_space(v[i - 1])
        invariant
            from <= i <= to <= v@.len(),
            trimmed_end(v@, from as int, to as int) == trimmed_end(v@, from as int, i as int),
        decreases i - from,
    {
        i -= 1;
    }
    i
}

/// Whether `prefix` stands in `v` at `from` and ends at or before `to`.
pub fn starts_at(v: &Vec<char>, prefix: &Vec<char>, from: usize, to: usize) -> (r: bool)
    requires
        from <= to <= v@.len(),
    ensures
        r == has_prefix_at(v@, prefix@, from as int, to as int),
{
    if prefix.len() > to - from {
        return false;
    }
    let mut j: usize = 0;
    while j < prefix.len()
        invariant
            from + prefix@.len() <= to <= v@.len(),
            j <= prefix@.len(),
            forall|k: int| 0 <= k < j ==> v@[from + k] == prefix@[k],
        decreases prefix@.len() - j,
    {
        if v[from + j] != prefix[j] {
            assert(v@.subrange(from as int, from + prefix@.len())[j as int] != prefix@[j as int]);
            return false;
        }
        j += 1;
    }
    assert(v@.subrange(from as int, from + prefix@.len()) =~= prefix@);
    true
}

/// The characters `v[from..to]`, every `+` replaced by a space.
fn decode_range(v: &Vec<char>, from: usize, to: usize) -> (r: String)
    requires
        from <= to <= v@.len(),
    ensures
        r@ == decoded(v@.subrange(from as int, to as int)),
{
    let mut out = String::new();
    let mut i: usize = from;
    while i < to
        invariant
            from <= i <= to <= v@.len(),
            out@ == decoded(v@.subrange(from as int, i as int)),
        decreases to - i,
    {
        let c: char = v[i];
        out.push(if c == '+' { ' ' } else { c });
        assert(out@ =~= decoded(v@.subrange(from as int, i + 1)));
        i += 1;
    }
    out
}

/// The text with every `+` replaced by a space.
pub fn url_decode(input: &str) -> (r: String)
    ensures
        r@ == decoded(input@),
{
    let v = chars_of(input);
    assert(v@.subrange(0, v@.len() as int) =~= v@);
    decode_range(&v, 0, v.len())
}

/// The end of the line that starts at `from`, and the end of its content.
fn line_bounds(v: &Vec<char>, from: usize) -> (r: (usize, usize))
    requires
        from <= v@.len(),
    ensures
        r.0 == line_end(v@, from as int),
        r.1 == line_stop(v@, from as int),
        from <= r.1 <= r.0 <= v@.len(),
{
    let e: usize = scan(v, Stop::At('\n'), from, v.len());
    if from < e && e < v.len() && v[e - 1] == '\r' {
        (e, e - 1)
    } else {
        (e, e)
    }
}

/// The method and the path of a request.
pub fn parse_request_line(request: &str) -> (r: (String, String))
    ensures
        r.0@ == request_words(request@).0,
        r.1@ == request_words(request@).1,
{
    let v = chars_of(request);
    let (_, stop) = line_bounds(&v, 0);
    let a: usize = scan(&v, Stop::Word, 0, stop);
    let b: usize = scan(&v, Stop::Space, a, stop);
    let c: usize = scan(&v, Stop::Word, b, stop);
    let d: usize = scan(&v, Stop::Space, c, stop);
    if c < stop {
        (text_of(&v, a, b), text_of(&v, c, d))
    } else {
        (String::new(), String::new())
    }
}

/// The body of a request: what follows the first empty line.
pub fn extract_body(request: &str) -> (r: &str)
    ensures
        r@ == body_text(request@),
{
    let v = chars_of(request);
    let n: usize = v.len();
    let mut i: usize = 0;
    while i < n
        invariant
            n == v@.len(),
            v@ == request@,
            i <= n,
            first_break(v@, 0) == first_break(v@, i as int),
        decreases n - i,
    {
        if n - i >= 4 && v[i] == '\r' && v[i + 1] == '\n' && v[i + 2] == '\r' && v[i + 3] == '\n' {
            return request.substring_char(i + 4, n);
        }
        i += 1;
    }
    let rest = request.substring_char(n, n);
    assert(rest@ =~= Seq::<char>::empty());
    rest
}

/// The fields of a form in the encoding `application/x-www-form-urlencoded`,
/// in their order.
pub fn parse_form_urlencoded(body: &str) -> (fields: Vec<(String, String)>)
    ensures
        fields@.len() == form_fields(body@, 0).len(),
        forall|k: int|
            0 <= k < fields@.len() ==> (#[trigger] fields@[k]).0@ == form_fields(body@, 0)[k].0
                && fields@[k].1@ == form_fields(body@, 0)[k].1,
{
    let v = chars_of(body);
    let n: usize = v.len();
    let mut fields: Vec<(String, String)> = Vec::new();
    let ghost mut done: Seq<(Seq<char>, Seq<char>)> = Seq::empty();
    let mut from: usize = 0;
    loop
        invariant
            n == v@.len(),
            v@ == body@,
            from <= n,
            form_fields(v@, 0) == done + form_fields(v@, from as int),
            fields@.len() == done.len(),
            forall|k: int|
                0 <= k < fields@.len() ==> (#[trigger] fields@[k]).0@ == done[k].0
                    && fields@[k].1@ == done[k].1,
        decreases n - from,
    {
        let end: usize = scan(&v, Stop::At('&'), from, n);
        let eq: usize = scan(&v, Stop::At('='), from, end);
        let ghost rest = form_fields(v@, from as int);
        if eq < end {
            let key = decode_range(&v, from, eq);
            let value = decode_range(&v, eq + 1, end);
            proof {
                done = done.push((key@, value@));
            }
            fields.push((key, value));
        }
        if end >= n {
            assert(done =~= done + Seq::<(Seq<char>, Seq<char>)>::empty());
            assert(form_fields(v@, 0) =~= done);
            return fields;
        }
        proof {
            let tail = form_fields(v@, end + 1);
            assert(form_fields(v@, 0) =~= done + tail);
        }
        from = end + 1;
    }
}

/// The value of the last field named `key`.
pub fn form_value(fields: &Vec<(String, String)>, key: &str) -> (r: Option<String>)
    ensures
        match r {
            Some(value) => field_value(fields@.map_values(|f: (String, String)| (f.0@, f.1@)), key@)
                == Some(value@),
            None => field_value(fields@.map_values(|f: (String, String)| (f.0@, f.1@)), key@)
                is None,
        },
{
    let wanted = key.to_owned();
    let ghost views = fields@.map_values(|f: (String, String)| (f.0@, f.1@));
    let mut i: usize = fields.len();
    assert(views.take(i as int) =~= views);
    while i > 0
        invariant
            i <= fields@.len(),
            wanted@ == key@,
            views == fields@.map_values(|f: (String, String)| (f.0@, f.1@)),
            field_value(views, key@) == field_value(views.take(i as int), key@),
        decreases i,
    {
        assert(views.take(i as int).last() == views[i - 1]);
        assert(views.take(i as int).drop_last() =~= views.take(i - 1));
        if fields[i - 1].0 == wanted {
            return Some(fields[i - 1].1.clone());
        }
        i -= 1;
    }
    assert(views.take(0) =~= Seq::<(Seq<char>, Seq<char>)>::empty());
    None
}

/// The decoded value of the first parameter named `key` in `v[from..to]`.
fn find_param(v: &Vec<char>, key: &Vec<char>, from: usize, to: usize) -> (r: Option<String>)
    requires
        from <= to <= v@.len(),
    ensures
        match r {
            Some(value) => param_in(v@, key@, from as int, to as int) == Some(value@),
            None => param_in(v@, key@, from as int, to as int) is None,
        },
{
    let mut at: usize = from;
    loop
        invariant
            from <= at <= to <= v@.len(),
            param_in(v@, key@, from as int, to as int) == param_in(v@, key@, at as int, to as int),
        decreases to - at,
    {
        let end: usize = scan(v, Stop::At('&'), at, to);
        let eq: usize = scan(v, Stop::At('='), at, end);
        if eq < end && eq - at == key.len() && starts_at(v, key, at, eq) {
            return Some(decode_range(v, eq + 1, end));
        }
        proof {
            if eq < end && v@.subrange(at as int, eq as int) == key@ {
                assert(v@.subrange(at as int, eq as int).len() == key@.len());
            }
        }
        if end >= to {
            return None;
        }
        at = end + 1;
    }
}

/// The decoded value of the first parameter named `key` in the query of
/// `path`.
pub fn parse_query_param(path: &str, key: &str) -> (r: Option<String>)
    ensures
        match r {
            Some(value) => query_param(path@, key@) == Some(value@),
            None => query_param(path@, key@) is None,
        },
{
    let v = chars_of(path);
    let k = chars_of(key);
    let n: usize = v.len();
    let mark: usize = scan(&v, Stop::At('?'), 0, n);
    if mark >= n {
        return None;
    }
    let stop: usize = scan(&v, Stop::At('?'), mark + 1, n);
    find_param(&v, &k, mark + 1, stop)
}

/// The value of the first cookie named by `label` (the name and `=`) among
/// the pieces of `v[from..to]`.
fn find_cookie(v: &Vec<char>, name: Ghost<Seq<char>>, label: &Vec<char>, from: usize, to: usize)
    -> (r: Option<String>)
    requires
        from <= to <= v@.len(),
        label@ == name@.push('='),
    ensures
        match r {
            Some(value) => cookie_in(v@, name@, from as int, to as int) == Some(value@),
            None => cookie_in(v@, name@, from as int, to as int) is None,
        },
{
    let mut at: usize = from;
    loop
        invariant
            from <= at <= to <= v@.len(),
            label@ == name@.push('='),
            cookie_in(v@, name@, from as int, to as int) == cookie_in(
                v@,
                name@,
                at as int,
                to as int,
            ),
        decreases to - at,
    {
        let end: usize = scan(v, Stop::At(';'), at, to);
        let a: usize = scan(v, Stop::Word, at, end);
        let b: usize = trim_end(v, a, end);
        if starts_at(v, label, a, b) {
            return Some(text_of(v, a + label.len(), b));
        }
        if end >= to {
            return None;
        }
        at = end + 1;
    }
}

/// The value of the cookie `name` in the `Cookie:` headers of a request.
pub fn get_cookie_value(request: &str, name: &str) -> (r: Option<String>)
    ensures
        match r {
            Some(value) => cookie_from(request@, name@, 0) == Some(value@),
            None => cookie_from(request@, name@, 0) is None,
        },
{
    let v = chars_of(request);
    let mut label = chars_of(name);
    label.push('=');
    let header = chars_of("Cookie:");
    let spaced = chars_of("Cookie: ");
    let n: usize = v.len();
    let mut from: usize = 0;
    while from < n
        invariant
            n == v@.len(),
            v@ == request@,
            from <= n,
            label@ == name@.push('='),
            header@ == "Cookie:"@,
            spaced@ == "Cookie: "@,
            cookie_from(v@, name@, 0) == cookie_from(v@, name@, from as int),
        decreases n - from,
    {
        let (e, stop) = line_bounds(&v, from);
        if starts_at(&v, &header, from, stop) {
            let start: usize = if starts_at(&v, &spaced, from, stop) {
                from + spaced.len()
            } else {
                from
            };
            let found = find_cookie(&v, Ghost(name@), &label, start, stop);
            if found.is_some() {
                return found;
            }
        }
        if e >= n {
            return None;
        }
        from = e + 1;
    }
    None
}

} // verus!
