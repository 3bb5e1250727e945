use corrodedweb::request::Request;
use corrodedweb::request::parse_request;
use corrodedweb::request::remove_nuls;
use corrodedweb::request::first_line_str;
use corrodedweb::request::last_line_str;

fn padded(text: &str) -> String {
    // The runtime reads into a fixed zero-initialized buffer, so the text
    // arrives with trailing NUL padding.
    let mut s = String::from(text);
    while s.len() < 64 {
        s.push('\u{0}');
    }
    s
}

#[test]
fn parses_a_get_request_line() {
    let text = padded("GET /hello?a=1&b=2 HTTP/1.1\r\nHost: localhost\r\n\r\n");
    let parsed = parse_request(&text).expect("well-formed request");
    assert_eq!(parsed.method, "GET");
    assert_eq!(parsed.path, "/hello");
    assert_eq!(parsed.url, "/hello?a=1&b=2");
    let query = parsed.request.get_query_parameters();
    assert_eq!(query.get("a"), Some(&String::from("1")));
    assert_eq!(query.get("b"), Some(&String::from("2")));
}

#[test]
fn parses_post_parameters_from_the_last_line() {
    let text = padded("POST /form HTTP/1.1\r\nHost: localhost\r\n\r\nfname=ada&lname=lovelace");
    let parsed = parse_request(&text).expect("well-formed request");
    assert_eq!(parsed.method, "POST");
    assert_eq!(parsed.path, "/form");
    let post = parsed.request.get_post_parameters();
    assert_eq!(post.get("fname"), Some(&String::from("ada")));
    assert_eq!(post.get("lname"), Some(&String::from("lovelace")));
}

#[test]
fn a_request_line_without_two_tokens_is_dropped() {
    assert!(parse_request(&padded("GET")).is_none());
    assert!(parse_request(&padded("")).is_none());
}

#[test]
fn a_path_without_query_gives_empty_query_parameters() {
    let text = padded("GET /plain HTTP/1.1\r\n\r\n");
    let parsed = parse_request(&text).expect("well-formed request");
    assert_eq!(parsed.path, "/plain");
    assert!(parsed.request.get_query_parameters().is_empty());
}

#[test]
fn query_is_everything_after_the_first_question_mark() {
    let text = padded("GET /p?a=1?b=2 HTTP/1.1\r\n\r\n");
    let parsed = parse_request(&text).expect("well-formed request");
    assert_eq!(parsed.path, "/p");
    let query = parsed.request.get_query_parameters();
    assert_eq!(query.get("a"), Some(&String::from("1?b=2")));
    assert_eq!(query.get("b"), None);
}

#[test]
fn a_fresh_request_has_no_parameters() {
    let request = Request::new();
    assert!(request.get_query_parameters().is_empty());
    assert!(request.get_post_parameters().is_empty());
}

#[test]
fn remove_nuls_strips_the_padding() {
    assert_eq!(remove_nuls("ab\u{0}\u{0}c\u{0}"), "abc");
    assert_eq!(remove_nuls(""), "");
}

#[test]
fn line_splitting_follows_the_crlf_pairs() {
    assert_eq!(first_line_str("one\r\ntwo\r\nthree"), "one");
    assert_eq!(last_line_str("one\r\ntwo\r\nthree"), "three");
    assert_eq!(first_line_str("no breaks"), "no breaks");
    assert_eq!(last_line_str("no breaks"), "no breaks");
    assert_eq!(last_line_str("ends with\r\n"), "");
}
