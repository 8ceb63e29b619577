use httpie::error::HttpError;
use httpie::json::{build_json_body, unique_pairs};
use httpie::kv::{parse_kv_pair, KvPair};
use httpie::render::{decimal_u16, render_body, Header, ResponseView};
use httpie::request::{default_headers, Command, Method};
use httpie::urlcheck::parse_url;

fn pair(k: &str, v: &str) -> KvPair {
    KvPair {
        k: k.to_string(),
        v: v.to_string(),
    }
}

#[test]
fn url_valid_accepted_unchanged() {
    assert_eq!(
        parse_url("http://example.com/").unwrap(),
        "http://example.com/"
    );
    assert_eq!(
        parse_url("https://httpbin.org/post?x=1").unwrap(),
        "https://httpbin.org/post?x=1"
    );
}

#[test]
fn url_without_scheme_rejected_naming_input() {
    let e = parse_url("example.com").unwrap_err();
    assert_eq!(e.message(), "Failed to parse URL example.com");
}

#[test]
fn url_empty_rejected() {
    assert!(parse_url("").is_err());
}

#[test]
fn kv_token_without_eq_fails() {
    let e = parse_kv_pair("foo").unwrap_err();
    assert_eq!(e.message(), "Failed to parse foo");
}

#[test]
fn kv_simple_token_splits() {
    let p = parse_kv_pair("k=v").unwrap();
    assert_eq!(p.k, "k");
    assert_eq!(p.v, "v");
}

#[test]
fn kv_splits_only_on_first_eq() {
    let p = parse_kv_pair("k=a=b").unwrap();
    assert_eq!(p.k, "k");
    assert_eq!(p.v, "a=b");
}

#[test]
fn kv_empty_key_or_value() {
    let p = parse_kv_pair("=v").unwrap();
    assert_eq!(p.k, "");
    assert_eq!(p.v, "v");
    let q = parse_kv_pair("k=").unwrap();
    assert_eq!(q.k, "k");
    assert_eq!(q.v, "");
}

#[test]
fn kv_token_of_only_separators() {
    let p = parse_kv_pair("==").unwrap();
    assert_eq!(p.k, "");
    assert_eq!(p.v, "=");
}

#[test]
fn unique_pairs_last_value_first_position() {
    let u = unique_pairs(&vec![pair("a", "1"), pair("b", "2"), pair("a", "3")]);
    let got: Vec<(String, String)> = u.into_iter().map(|p| (p.k, p.v)).collect();
    assert_eq!(
        got,
        vec![
            ("a".to_string(), "3".to_string()),
            ("b".to_string(), "2".to_string())
        ]
    );
}

#[test]
fn json_body_two_keys() {
    let body = build_json_body(&vec![pair("a", "1"), pair("b", "2")]);
    assert_eq!(body, "{\"a\":\"1\",\"b\":\"2\"}");
}

#[test]
fn json_body_duplicate_key_last_wins() {
    let body = build_json_body(&vec![pair("a", "1"), pair("a", "2")]);
    assert_eq!(body, "{\"a\":\"2\"}");
}

#[test]
fn json_body_later_value_replaces_in_place() {
    let body = build_json_body(&vec![pair("a", "1"), pair("b", "2"), pair("a", "3")]);
    assert_eq!(body, "{\"a\":\"3\",\"b\":\"2\"}");
}

#[test]
fn json_body_escapes_specials() {
    let body = build_json_body(&vec![pair("q", "a\"b\\c\nd")]);
    assert_eq!(body, "{\"q\":\"a\\\"b\\\\c\\nd\"}");
}

#[test]
fn json_body_escapes_control_chars() {
    let body = build_json_body(&vec![pair("k", "\u{1}\r\t")]);
    assert_eq!(body, "{\"k\":\"\\u0001\\r\\t\"}");
}

#[test]
fn json_body_empty() {
    let body = build_json_body(&vec![]);
    assert_eq!(body, "{}");
}

#[test]
fn render_plain_text_verbatim() {
    let out = render_body(Some(&"text/plain".to_string()), &"hello".to_string()).unwrap();
    assert_eq!(out, "hello");
}

#[test]
fn render_without_content_type_verbatim() {
    let out = render_body(None, &"{\"x\":1}".to_string()).unwrap();
    assert_eq!(out, "{\"x\":1}");
}

#[test]
fn render_json_pretty_printed() {
    let out = render_body(Some(&"application/json".to_string()), &"{\"x\":1}".to_string())
        .unwrap();
    assert_eq!(out, jsonxf::pretty_print("{\"x\":1}").unwrap());
    assert!(out.contains("\"x\""));
    assert!(out.contains('1'));
    assert!(out.contains('\n'));
}

#[test]
fn render_json_essence_ignores_parameters() {
    let out = render_body(
        Some(&"application/json; charset=utf-8".to_string()),
        &"{\"x\":1}".to_string(),
    )
    .unwrap();
    assert_eq!(out, jsonxf::pretty_print("{\"x\":1}").unwrap());
}

#[test]
fn render_unparsable_content_type_verbatim() {
    let out = render_body(Some(&"not a mime".to_string()), &"{\"x\":1}".to_string()).unwrap();
    assert_eq!(out, "{\"x\":1}");
}

fn sample_response(headers: Vec<(&str, &str)>, body: &str) -> ResponseView {
    ResponseView {
        version: "HTTP/1.1".to_string(),
        status: 200,
        reason: "OK".to_string(),
        headers: headers
            .into_iter()
            .map(|(n, v)| Header {
                name: n.to_string(),
                value: v.to_string(),
            })
            .collect(),
        body: body.to_string(),
    }
}

#[test]
fn content_type_found_case_insensitively() {
    let r = sample_response(vec![("Content-Type", "text/plain")], "x");
    assert_eq!(r.content_type(), Some("text/plain".to_string()));
    let r = sample_response(vec![("CONTENT-TYPE", "text/html")], "x");
    assert_eq!(r.content_type(), Some("text/html".to_string()));
}

#[test]
fn content_type_first_occurrence_wins() {
    let r = sample_response(
        vec![("content-type", "text/plain"), ("content-type", "text/html")],
        "x",
    );
    assert_eq!(r.content_type(), Some("text/plain".to_string()));
}

#[test]
fn content_type_absent() {
    let r = sample_response(vec![("server", "nginx")], "x");
    assert_eq!(r.content_type(), None);
}

#[test]
fn status_line_with_reason() {
    let r = sample_response(vec![], "");
    assert_eq!(r.status_line(), "HTTP/1.1 200 OK");
}

#[test]
fn status_line_without_reason() {
    let mut r = sample_response(vec![], "");
    r.status = 404;
    r.reason = String::new();
    assert_eq!(r.status_line(), "HTTP/1.1 404");
}

#[test]
fn decimal_digits_exact() {
    assert_eq!(decimal_u16(0), "0");
    assert_eq!(decimal_u16(200), "200");
    assert_eq!(decimal_u16(65535), "65535");
}

#[test]
fn headers_text_keeps_order() {
    let r = sample_response(vec![("a", "1"), ("b", "2")], "");
    assert_eq!(r.headers_text(), "a: 1\nb: 2\n");
}

#[test]
fn render_whole_response_plain() {
    let r = sample_response(vec![("content-type", "text/plain")], "hi");
    assert_eq!(
        r.render().unwrap(),
        "HTTP/1.1 200 OK\n\ncontent-type: text/plain\n\n\nhi\n"
    );
}

#[test]
fn render_whole_response_json() {
    let r = sample_response(vec![("content-type", "application/json")], "{\"x\":1}");
    let pretty = jsonxf::pretty_print("{\"x\":1}").unwrap();
    assert_eq!(
        r.render().unwrap(),
        format!(
            "HTTP/1.1 200 OK\n\ncontent-type: application/json\n\n\n{}\n",
            pretty
        )
    );
}

#[test]
fn default_headers_fixed() {
    let hs = default_headers();
    assert_eq!(hs.len(), 2);
    assert_eq!(hs[0].name, "X-POWERED-BY");
    assert_eq!(hs[0].value, "Rust");
    assert_eq!(hs[1].name, "User-Agent");
    assert_eq!(hs[1].value, "Rust Httpie");
}

#[test]
fn plan_get_sends_no_body() {
    let cmd = Command::Get {
        url: "http://example.com/".to_string(),
    };
    let p = cmd.plan();
    assert!(p.method == Method::Get);
    assert_eq!(p.url, "http://example.com/");
    assert!(p.body.is_none());
}

#[test]
fn plan_post_sends_json_object() {
    let cmd = Command::Post {
        url: "http://example.com/".to_string(),
        body: vec![pair("a", "1"), pair("b", "2")],
    };
    let p = cmd.plan();
    assert!(p.method == Method::Post);
    assert_eq!(p.url, "http://example.com/");
    assert_eq!(p.body.unwrap(), "{\"a\":\"1\",\"b\":\"2\"}");
}

#[test]
fn error_messages_name_the_input() {
    assert_eq!(
        HttpError::InvalidUrl("abc".to_string()).message(),
        "Failed to parse URL abc"
    );
    assert_eq!(
        HttpError::InvalidPair("abc".to_string()).message(),
        "Failed to parse abc"
    );
    assert_eq!(
        HttpError::InvalidJson("{".to_string()).message(),
        "Failed to pretty-print JSON body {"
    );
}
