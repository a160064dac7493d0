use taskserver::json::{bool_field, quote, string_field};
use taskserver::request::Request;
use taskserver::text::{chars_of, decimal_string, parse_usize, trim_exec};
use taskserver::user::{decode_basic, split_credentials};

#[test]
fn request_is_taken_apart() {
    let r = Request::parse("PUT /tasks/3 HTTP/1.1\r\nHost: a\r\nX-Key :  v1 \r\nX-Key: v2\r\nno colon\r\n\r\n  {\"a\":1} \0\0");
    assert_eq!(r.method, "PUT");
    assert_eq!(r.path, "/tasks/3");
    assert_eq!(r.body, "{\"a\":1}");
    assert_eq!(r.headers.len(), 3);
    assert_eq!(r.header("X-Key"), Some("v2".to_string()));
    assert_eq!(r.header("Host"), Some("a".to_string()));
    assert_eq!(r.header("Missing"), None);
}

#[test]
fn request_without_body_or_line_feed() {
    let r = Request::parse("GET /tasks HTTP/1.1\r\n\r\n");
    assert_eq!(r.body, "");
    let r = Request::parse("GET /tasks");
    assert_eq!(r.method, "");
    assert_eq!(r.path, "");
    let r = Request::parse("GET /tasks\r\n\r\n");
    assert_eq!(r.method, "GET");
    assert_eq!(r.path, "");
}

#[test]
fn basic_credentials_are_decoded() {
    assert_eq!(decode_basic("Basic dGVzdHVzZXI6dGVzdHBhc3M="), Some(("testuser".to_string(), "testpass".to_string())));
    assert_eq!(decode_basic("Basic "), None);
    assert_eq!(decode_basic("Basic dGVzdHVzZXI="), None);
    assert_eq!(decode_basic("Basic YTpiOmM="), None);
    assert_eq!(decode_basic("Basic /w=="), None);
    assert_eq!(decode_basic("Bearer dGVzdHVzZXI6dGVzdHBhc3M="), None);
}

#[test]
fn credentials_split_at_the_only_colon() {
    assert_eq!(split_credentials("a:b"), Some(("a".to_string(), "b".to_string())));
    assert_eq!(split_credentials(":"), Some(("".to_string(), "".to_string())));
    assert_eq!(split_credentials("ab"), None);
    assert_eq!(split_credentials("a:b:c"), None);
}

#[test]
fn decimal_numbers_parse_as_usize_does() {
    let p = |s: &str| parse_usize(&chars_of(s));
    assert_eq!(p("12"), Some(12));
    assert_eq!(p("+7"), Some(7));
    assert_eq!(p("007"), Some(7));
    assert_eq!(p(""), None);
    assert_eq!(p("+"), None);
    assert_eq!(p("-1"), None);
    assert_eq!(p("1a"), None);
    assert_eq!(p(&usize::MAX.to_string()), Some(usize::MAX));
    assert_eq!(p("99999999999999999999999"), None);
}

#[test]
fn decimal_numbers_print() {
    assert_eq!(decimal_string(0), "0");
    assert_eq!(decimal_string(1203), "1203");
    assert_eq!(decimal_string(usize::MAX), usize::MAX.to_string());
}

#[test]
fn trimming_white_space_and_nul() {
    let t = |s: &str, nul: bool| trim_exec(&chars_of(s), nul).into_iter().collect::<String>();
    assert_eq!(t(" \t a b \u{3000}\n", false), "a b");
    assert_eq!(t("\0\0x\0", true), "x");
    assert_eq!(t("x \0", false), "x \0");
    assert_eq!(t("   ", false), "");
}

#[test]
fn json_fields_are_read() {
    assert_eq!(string_field("{\"a\":\"x\",\"b\":true}", "a"), Some("x".to_string()));
    assert_eq!(string_field("{\"a\":\"x\"}", "b"), None);
    assert_eq!(string_field("{\"a\":1}", "a"), None);
    assert_eq!(string_field("not json", "a"), None);
    assert_eq!(bool_field("{\"b\":true}", "b"), Some(true));
    assert_eq!(bool_field("{\"b\":\"true\"}", "b"), None);
    assert_eq!(quote("a\"b"), "\"a\\\"b\"");
    assert_eq!(quote("\\\n\t\u{1}\u{1f}\u{7f}é"), "\"\\\\\\n\\t\\u0001\\u001f\u{7f}é\"");
}
