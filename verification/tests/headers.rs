use http_registry::header::Headers;
use http_registry::login::{
    pick_login, push_challenge_logins, read_logins, Challenge, Login,
};
use http_registry::registry::HttpRegistry;
use http_registry::version::{index_version, make_request_headers};

fn header(line: &[u8]) -> Option<(&str, &str)> {
    HttpRegistry::handle_http_header(line)
}

#[test]
fn reads_header_lines() {
    assert_eq!(header(b"ETag: \"abc\"\r\n"), Some(("ETag", "\"abc\"")));
    assert_eq!(header(b"etag:x"), Some(("etag", "x")));
    assert_eq!(header(b"Date:  Tue, 15 Nov 1994 08:12:31 GMT \r\n"), Some(("Date", "Tue, 15 Nov 1994 08:12:31 GMT")));
    assert_eq!(header(b"a:"), Some(("a", "")));
    assert_eq!(header("k: \u{e9}".as_bytes()), Some(("k", "\u{e9}")));
}

#[test]
fn ignores_what_is_no_header_line() {
    assert_eq!(header(b""), None);
    assert_eq!(header(b"\r\n"), None);
    assert_eq!(header(b"HTTP/2 200"), None);
    assert_eq!(header(b"a: b\xff"), None);
    assert_eq!(header(b"a: b\nc: d"), None);
    assert_eq!(header(b"a\n: b\r\n"), None);
}

#[test]
fn keeps_the_headers_that_matter() {
    let mut headers = Headers::new();
    headers.record("LAST-Modified", "yesterday");
    headers.record("Etag", "one");
    headers.record("etag", "two");
    headers.record("content-type", "text/plain");
    headers.record_line(b"WWW-Authenticate: Basic\r\n");
    headers.record_line(b"www-authenticate: Cargo login_url=\"https://a/\"\r\n");
    headers.record_line(b"nothing");
    assert_eq!(headers.last_modified.as_deref(), Some("yesterday"));
    assert_eq!(headers.etag.as_deref(), Some("two"));
    assert_eq!(headers.www_authenticate, vec!["Basic", "Cargo login_url=\"https://a/\""]);
}

#[test]
fn versions_say_what_the_headers_say() {
    let mut headers = Headers::new();
    assert_eq!(index_version(&headers), "Unknown");
    headers.record("last-modified", "yesterday");
    assert_eq!(index_version(&headers), "last-modified: yesterday");
    headers.record("etag", "\"x:y\"");
    assert_eq!(index_version(&headers), "etag: \"x:y\"");
}

#[test]
fn requests_are_conditional_if_the_version_allows() {
    let always = vec!["cargo-protocol: version=1", "accept: text/plain"];
    assert_eq!(make_request_headers(None, None), always);
    assert_eq!(make_request_headers(Some("Unknown"), None), always);
    assert_eq!(make_request_headers(Some("etags: x"), None), always);
    assert_eq!(make_request_headers(Some("ETag: x"), None), always);
    assert_eq!(
        make_request_headers(Some("etag: \"x:y\""), None),
        vec!["cargo-protocol: version=1", "accept: text/plain", "if-none-match: \"x:y\""]
    );
    assert_eq!(
        make_request_headers(Some("last-modified:  then "), Some("secret")),
        vec![
            "cargo-protocol: version=1",
            "accept: text/plain",
            "if-modified-since: then",
            "Authorization: secret"
        ]
    );
    assert_eq!(
        make_request_headers(None, Some("secret")),
        vec!["cargo-protocol: version=1", "accept: text/plain", "Authorization: secret"]
    );
}

#[test]
fn the_version_of_a_response_is_asked_about() {
    let mut headers = Headers::new();
    headers.record_line(b"Last-Modified:  Tue, 15 Nov 1994 08:12:31 GMT\r\n");
    let version = index_version(&headers);
    assert_eq!(
        make_request_headers(Some(&version), None)[2],
        "if-modified-since: Tue, 15 Nov 1994 08:12:31 GMT"
    );
    headers.record_line(b"ETag: W/\"1:2\"\r\n");
    let version = index_version(&headers);
    assert_eq!(make_request_headers(Some(&version), None)[2], "if-none-match: W/\"1:2\"");
}

fn strings(list: &[&str]) -> Vec<String> {
    list.iter().map(|s| s.to_string()).collect()
}

#[test]
fn reads_where_to_get_a_token() {
    let logins = read_logins(&strings(&[
        "Basic realm=\"login_url\"",
        "cargo LOGIN_URL=\"https://example.com/a\\\"b\", other=1, Cargo login_url=nonsense",
        "Other login_url=\"https://elsewhere/\"",
        "Cargo login_url=\"https://after.an.error/\" bad",
        "Cargo login_url=\"https://before.an.error/\", bad bad bad",
    ]));
    let texts: Vec<&str> = logins.iter().map(|l| l.text.as_str()).collect();
    assert_eq!(
        texts,
        vec!["https://example.com/a\"b", "nonsense", "https://before.an.error/"]
    );
    assert_eq!(logins[0].url, Ok("https://example.com/a%22b".to_string()));
    assert_eq!(logins[1].url, Err("relative URL without a base".to_string()));
    assert_eq!(logins[2].url, Ok("https://before.an.error/".to_string()));
}

#[test]
fn normalizes_where_to_get_a_token() {
    let logins = read_logins(&strings(&["Cargo login_url=\"HTTPS://Example.COM\""]));
    assert_eq!(logins.len(), 1);
    assert_eq!(logins[0].text, "HTTPS://Example.COM");
    assert_eq!(logins[0].url, Ok("https://example.com/".to_string()));
}

#[test]
fn picks_the_last_login_before_one_that_is_no_url() {
    fn login(text: &str, url: Result<&str, &str>) -> Login {
        Login {
            text: text.to_string(),
            url: url.map(|u| u.to_string()).map_err(|e| e.to_string()),
        }
    }
    let current = Some("c".to_string());
    assert_eq!(pick_login(current.clone(), vec![]), (current.clone(), None));
    assert_eq!(
        pick_login(current.clone(), vec![login("a", Ok("A")), login("b", Ok("B"))]),
        (Some("B".to_string()), None)
    );
    assert_eq!(
        pick_login(current.clone(), vec![login("a", Ok("A")), login("b", Err("no")), login("d", Ok("D"))]),
        (Some("A".to_string()), Some(("b".to_string(), "no".to_string())))
    );
    assert_eq!(
        pick_login(None, vec![login("b", Err("no"))]),
        (None, Some(("b".to_string(), "no".to_string())))
    );
}

#[test]
fn takes_logins_from_the_challenges_of_the_scheme() {
    fn challenge(scheme: &str, params: &[(&str, &str)]) -> Option<Challenge> {
        Some(Challenge {
            scheme: scheme.to_string(),
            params: params.iter().map(|p| (p.0.to_string(), p.1.to_string())).collect(),
        })
    }
    let mut logins = strings(&["first"]);
    push_challenge_logins(
        &mut logins,
        &vec![
            challenge("CARGO", &[("login_url", "1"), ("realm", "2"), ("Login_Url", "3")]),
            None,
            challenge("Basic", &[("login_url", "4")]),
            challenge("Cargo", &[("login_url", "5")]),
        ],
    );
    assert_eq!(logins, vec!["first", "1", "3", "5"]);
}
