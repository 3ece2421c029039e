use quad_net::http_request::{HttpError, Method, RequestBuilder};

fn pairs(v: &[(String, String)]) -> Vec<(&str, &str)> {
    v.iter().map(|(a, b)| (a.as_str(), b.as_str())).collect()
}

#[test]
fn new_builder_is_a_plain_get() {
    let b = RequestBuilder::new("http://example.com/a");
    assert_eq!(b.get_url(), "http://example.com/a");
    assert_eq!(b.get_method(), Method::Get);
    assert!(b.get_headers().is_empty());
    assert!(b.get_query().is_empty());
    assert_eq!(b.get_body(), None);
    assert_eq!(b.full_url(), "http://example.com/a");
    assert_eq!(b.body_text(), "");
}

#[test]
fn method_replaces_verb_only() {
    let b = RequestBuilder::new("u").header("h", "v").method(Method::Delete);
    assert_eq!(b.get_method(), Method::Delete);
    assert_eq!(pairs(b.get_headers()), vec![("h", "v")]);
    assert_eq!(b.get_url(), "u");
}

#[test]
fn headers_keep_order_and_duplicates() {
    let b = RequestBuilder::new("u")
        .header("Accept", "a")
        .header("X-Key", "1")
        .header("Accept", "a");
    assert_eq!(
        pairs(b.get_headers()),
        vec![("Accept", "a"), ("X-Key", "1"), ("Accept", "a")]
    );
}

#[test]
fn query_keeps_order_and_duplicates_in_url() {
    let b = RequestBuilder::new("http://h/p")
        .query("a", "1")
        .query("b", "2")
        .query("a", "1");
    assert_eq!(pairs(b.get_query()), vec![("a", "1"), ("b", "2"), ("a", "1")]);
    assert_eq!(b.full_url(), "http://h/p?a=1&b=2&a=1");
}

#[test]
fn query_values_are_not_encoded() {
    let b = RequestBuilder::new("http://h").query("q", "a b&c");
    assert_eq!(b.full_url(), "http://h?q=a b&c");
}

#[test]
fn single_query_parameter() {
    let b = RequestBuilder::new("http://h").query("k", "");
    assert_eq!(b.full_url(), "http://h?k=");
}

#[test]
fn body_last_write_wins() {
    let b = RequestBuilder::new("u").body("first").body("second");
    assert_eq!(b.get_body(), Some("second"));
    assert_eq!(b.body_text(), "second");
}

#[test]
fn scheme_codes() {
    assert_eq!(Method::Post.scheme(), 0);
    assert_eq!(Method::Put.scheme(), 1);
    assert_eq!(Method::Get.scheme(), 2);
    assert_eq!(Method::Delete.scheme(), 3);
}

#[test]
fn error_messages() {
    assert_eq!(HttpError::IOError.message(), "IOError");
    assert_eq!(
        HttpError::NotStrError.message(),
        "Received bytes that were not a string"
    );
}

#[test]
fn engine_error_message_keeps_detail() {
    let e = HttpError::from(ureq::Error::StatusCode(404));
    assert!(matches!(e, HttpError::UreqError(ureq::Error::StatusCode(404))));
    assert_eq!(e.message(), "Ureq error: http status: 404");
}
