use library_ledger::http::{
    extract_body, form_value, get_cookie_value, parse_form_urlencoded, parse_query_param,
    parse_request_line, scan, starts_at, trim_end, url_decode, Stop,
};
use library_ledger::records::Role;
use library_ledger::routes::{parse_int, route, Page, Route};

fn pair(a: &str, b: &str) -> (String, String) {
    (a.to_string(), b.to_string())
}

#[test]
fn request_line_gives_method_and_path() {
    assert_eq!(
        parse_request_line("GET /admin.html HTTP/1.1\r\nHost: x\r\n\r\n"),
        pair("GET", "/admin.html")
    );
    assert_eq!(parse_request_line("  POST   /login\r\n"), pair("POST", "/login"));
    assert_eq!(parse_request_line("PUT\t/a?b=1 extra words\nnext"), pair("PUT", "/a?b=1"));
    assert_eq!(parse_request_line("GET\r/x\r"), pair("GET", "/x"));
}

#[test]
fn request_line_with_fewer_than_two_words() {
    assert_eq!(parse_request_line(""), pair("", ""));
    assert_eq!(parse_request_line("GET"), pair("", ""));
    assert_eq!(parse_request_line("GET  \r\n/path"), pair("", ""));
    assert_eq!(parse_request_line("\nGET /x"), pair("", ""));
}

#[test]
fn body_follows_the_first_empty_line() {
    assert_eq!(extract_body("POST / HTTP/1.1\r\nA: b\r\n\r\nname=x"), "name=x");
    assert_eq!(extract_body("a\r\n\r\nb\r\n\r\nc"), "b\r\n\r\nc");
    assert_eq!(extract_body("a\r\n\r\n"), "");
    assert_eq!(extract_body("no empty line\r\n"), "");
    assert_eq!(extract_body("a\n\nb"), "");
    assert_eq!(extract_body(""), "");
    assert_eq!(extract_body("é\r\n\r\nü"), "ü");
}

#[test]
fn plus_decodes_to_space() {
    assert_eq!(url_decode("a+b+c"), "a b c");
    assert_eq!(url_decode("%20+"), "%20 ");
    assert_eq!(url_decode(""), "");
}

#[test]
fn form_fields_in_order() {
    assert_eq!(
        parse_form_urlencoded("username=alice&password=p+w&role=lender"),
        vec![pair("username", "alice"), pair("password", "p w"), pair("role", "lender")]
    );
    assert_eq!(parse_form_urlencoded("a=1&flag&b=x=y&=z&c="), vec![
        pair("a", "1"),
        pair("b", "x=y"),
        pair("", "z"),
        pair("c", ""),
    ]);
    assert_eq!(parse_form_urlencoded(""), Vec::<(String, String)>::new());
    assert_eq!(parse_form_urlencoded("&&"), Vec::<(String, String)>::new());
}

#[test]
fn last_field_of_a_name_counts() {
    let fields = parse_form_urlencoded("a=1&b=2&a=3");
    assert_eq!(form_value(&fields, "a"), Some("3".to_string()));
    assert_eq!(form_value(&fields, "b"), Some("2".to_string()));
    assert_eq!(form_value(&fields, "c"), None);
}

#[test]
fn query_parameter_of_a_path() {
    assert_eq!(parse_query_param("/x?bookid=5&q=a+b", "q"), Some("a b".to_string()));
    assert_eq!(parse_query_param("/x?bookid=5&q=a+b", "bookid"), Some("5".to_string()));
    assert_eq!(parse_query_param("/x?a=1&a=2", "a"), Some("1".to_string()));
    assert_eq!(parse_query_param("/x?a=1", "b"), None);
    assert_eq!(parse_query_param("/x", "a"), None);
    assert_eq!(parse_query_param("/x?a", "a"), None);
    assert_eq!(parse_query_param("/x?a=", "a"), Some("".to_string()));
    assert_eq!(parse_query_param("/x?a=1?b=2", "b"), None);
    assert_eq!(parse_query_param("/x?a=1?b=2", "a"), Some("1".to_string()));
    assert_eq!(parse_query_param("/x?ab=1&a=2", "a"), Some("2".to_string()));
}

#[test]
fn cookie_of_a_request() {
    let request = "GET / HTTP/1.1\r\nHost: x\r\nCookie: theme=dark; session=tok123 ; z=1\r\n\r\n";
    assert_eq!(get_cookie_value(request, "session"), Some("tok123".to_string()));
    assert_eq!(get_cookie_value(request, "theme"), Some("dark".to_string()));
    assert_eq!(get_cookie_value(request, "z"), Some("1".to_string()));
    assert_eq!(get_cookie_value(request, "missing"), None);
    assert_eq!(get_cookie_value(request, "sess"), None);
    assert_eq!(get_cookie_value("GET / HTTP/1.1\r\n\r\n", "session"), None);
    assert_eq!(get_cookie_value("", "session"), None);
}

#[test]
fn cookie_header_forms() {
    assert_eq!(get_cookie_value("Cookie:session=a", "session"), None);
    assert_eq!(get_cookie_value("Cookie:x=1;session=a", "session"), Some("a".to_string()));
    assert_eq!(get_cookie_value("cookie: session=a", "session"), None);
    assert_eq!(get_cookie_value("X: y\nCookie: session=a\r", "session"), Some("a".to_string()));
    assert_eq!(
        get_cookie_value("Cookie: a=1\r\nCookie: session=b\r\n", "session"),
        Some("b".to_string())
    );
    assert_eq!(get_cookie_value("Cookie: session=", "session"), Some("".to_string()));
    assert_eq!(get_cookie_value("Cookie: session=a=b", "session"), Some("a=b".to_string()));
}

#[test]
fn integers_in_decimal() {
    assert_eq!(parse_int("42"), Some(42));
    assert_eq!(parse_int("007"), Some(7));
    assert_eq!(parse_int("+7"), Some(7));
    assert_eq!(parse_int("-7"), Some(-7));
    assert_eq!(parse_int("0"), Some(0));
    assert_eq!(parse_int("-0"), Some(0));
    assert_eq!(parse_int("9223372036854775807"), Some(i64::MAX));
    assert_eq!(parse_int("9223372036854775808"), None);
    assert_eq!(parse_int("-9223372036854775808"), Some(i64::MIN));
    assert_eq!(parse_int("-9223372036854775809"), None);
    assert_eq!(parse_int("99999999999999999999999"), None);
    assert_eq!(parse_int(""), None);
    assert_eq!(parse_int("-"), None);
    assert_eq!(parse_int("+"), None);
    assert_eq!(parse_int("1x"), None);
    assert_eq!(parse_int(" 1"), None);
    assert_eq!(parse_int("--1"), None);
}

#[test]
fn open_routes() {
    assert_eq!(route("GET", "/", None), Route::Page(Page::Index));
    assert_eq!(route("GET", "/register.html", None), Route::Page(Page::Register));
    assert_eq!(route("POST", "/login", None), Route::Login);
    assert_eq!(route("POST", "/register", Some(Role::Admin)), Route::Register);
    assert_eq!(route("GET", "/logout", None), Route::Logout);
    assert_eq!(route("POST", "/logout", Some(Role::Lender)), Route::Logout);
    assert_eq!(route("GET", "/nothing", Some(Role::Admin)), Route::NotFound);
    assert_eq!(route("PATCH", "/", None), Route::NotFound);
    assert_eq!(route("", "", None), Route::NotFound);
}

#[test]
fn pages_are_gated_by_role() {
    assert_eq!(route("GET", "/admin.html", Some(Role::Admin)), Route::Page(Page::Admin));
    assert_eq!(route("GET", "/admin.html", Some(Role::Lender)), Route::RedirectToLogin);
    assert_eq!(route("GET", "/admin.html", None), Route::RedirectToLogin);
    assert_eq!(route("GET", "/lender.html", Some(Role::Lender)), Route::Page(Page::Lender));
    assert_eq!(route("GET", "/lender.html", Some(Role::Admin)), Route::RedirectToLogin);
}

#[test]
fn admin_routes() {
    let admin = Some(Role::Admin);
    assert_eq!(route("GET", "/admin/api/users", admin), Route::AdminUsers);
    assert_eq!(route("GET", "/admin/api/books", admin), Route::AdminBooks);
    assert_eq!(route("GET", "/admin/api/loans", admin), Route::AdminLoans);
    assert_eq!(route("GET", "/admin/api/overdue", admin), Route::AdminOverdue);
    assert_eq!(route("POST", "/admin/api/books", admin), Route::AdminAddBook);
    assert_eq!(route("PUT", "/admin/api/books?bookid=12", admin), Route::AdminUpdateBook(12));
    assert_eq!(route("PUT", "/admin/api/books", admin), Route::MissingBookId);
    assert_eq!(route("PUT", "/admin/api/books?bookid=x", admin), Route::MissingBookId);
    assert_eq!(route("DELETE", "/admin/api/books?bookid=-3", admin), Route::AdminDeleteBook(-3));
    assert_eq!(route("DELETE", "/admin/api/books?id=3", admin), Route::MissingBookId);
    assert_eq!(route("GET", "/admin/api/users", Some(Role::Lender)), Route::Unauthorized);
    assert_eq!(route("GET", "/admin/api/users", None), Route::Unauthorized);
    assert_eq!(route("PUT", "/admin/api/books?bookid=12", None), Route::Unauthorized);
    assert_eq!(route("DELETE", "/admin/api/books?bookid=1", Some(Role::Lender)), Route::Unauthorized);
    assert_eq!(route("GET", "/admin/api/books?x=1", admin), Route::NotFound);
}

#[test]
fn lender_routes() {
    let lender = Some(Role::Lender);
    assert_eq!(route("GET", "/lender/api/books", lender), Route::LenderBooks);
    assert_eq!(route("GET", "/lender/api/books", None), Route::EmptyList);
    assert_eq!(route("GET", "/lender/api/search?q=rust", lender), Route::LenderSearch);
    assert_eq!(route("GET", "/lender/api/search", lender), Route::EmptyList);
    assert_eq!(route("GET", "/lender/api/search?q=rust", Some(Role::Admin)), Route::EmptyList);
    assert_eq!(route("GET", "/lender/api/myloans", lender), Route::LenderMyLoans);
    assert_eq!(route("GET", "/lender/api/myloans?x", None), Route::EmptyList);
    assert_eq!(route("POST", "/lender/api/checkout?bookid=4", lender), Route::LenderCheckout(4));
    assert_eq!(route("POST", "/lender/api/checkout", lender), Route::InvalidCheckout);
    assert_eq!(route("POST", "/lender/api/checkout?bookid=4", None), Route::NotLoggedIn);
    assert_eq!(route("POST", "/lender/api/return?loanid=9", lender), Route::LenderReturn(9));
    assert_eq!(route("POST", "/lender/api/return?loanid=", lender), Route::InvalidReturn);
    assert_eq!(route("POST", "/lender/api/return?loanid=9", Some(Role::Admin)), Route::NotLoggedIn);
    assert_eq!(route("GET", "/lender/api/overdue", lender), Route::LenderOverdue);
    assert_eq!(route("GET", "/lender/api/overdue", None), Route::EmptyList);
}

#[test]
fn scanning_a_text() {
    let v: Vec<char> = "  ab; c  ".chars().collect();
    assert_eq!(scan(&v, Stop::Word, 0, v.len()), 2);
    assert_eq!(scan(&v, Stop::Space, 2, v.len()), 5);
    assert_eq!(scan(&v, Stop::At(';'), 0, v.len()), 4);
    assert_eq!(scan(&v, Stop::At(';'), 5, v.len()), 9);
    assert_eq!(scan(&v, Stop::At('a'), 0, 2), 2);
    assert_eq!(scan(&v, Stop::At('x'), 3, 3), 3);
    assert_eq!(trim_end(&v, 0, v.len()), 7);
    assert_eq!(trim_end(&v, 0, 2), 0);
    assert_eq!(trim_end(&v, 7, 9), 7);
    let p: Vec<char> = "ab".chars().collect();
    assert!(starts_at(&v, &p, 2, v.len()));
    assert!(starts_at(&v, &p, 2, 4));
    assert!(!starts_at(&v, &p, 2, 3));
    assert!(!starts_at(&v, &p, 1, v.len()));
    assert!(starts_at(&v, &Vec::new(), 9, 9));
}
