use http_registry::load::{
    download_next, step_after_config, ConfigFor, DownloadAction, Reader, Step,
};
use http_registry::login::Login;
use http_registry::path::IndexPath;
use http_registry::registry::{
    Config, Ended, HttpRegistry, NewError, RegistryConfig, SourceId,
};
use http_registry::response::{
    judge, status, DownloadError, HttpNotSuccessful, LoadError, LoadResponse, StatusCode, Transfer,
};
use http_registry::wait::{wait_step, WaitAction, WaitEvent};

const CONFIG: Config =
    Config { sparse_registry: true, registry_auth: true, no_index_update: false, offline: false };

fn source(url: &str, sparse: bool) -> SourceId {
    SourceId { url: url.to_string(), sparse }
}

fn registry_with(config: Config) -> HttpRegistry {
    HttpRegistry::new(&source("sparse+https://index.example/", true), &config).unwrap()
}

fn registry() -> HttpRegistry {
    registry_with(CONFIG)
}

fn registry_config(auth_required: bool) -> RegistryConfig {
    RegistryConfig { dl: "dl".to_string(), api: Some("api".to_string()), auth_required }
}

/// What is outside: the copy at hand of the configuration, what a configuration decodes to, the
/// setting for multiplexing, the token, the headers that were set last, and what was done.
struct World {
    cached: Option<bool>,
    decoded: bool,
    multiplexing: Option<bool>,
    token: String,
    headers: String,
    done: Vec<String>,
}

impl World {
    fn new() -> World {
        World {
            cached: None,
            decoded: false,
            multiplexing: None,
            token: "secret".to_string(),
            headers: String::new(),
            done: Vec::new(),
        }
    }

    /// Does the outside work, until none is left.
    fn run(&mut self, registry: &mut HttpRegistry, first: Step) -> String {
        let mut step = first;
        loop {
            step = match step {
                Step::Pending => return "pending".to_string(),
                Step::Loaded(Ok(LoadResponse::CacheValid)) => return "valid".to_string(),
                Step::Loaded(Ok(LoadResponse::NotFound)) => return "not found".to_string(),
                Step::Loaded(Ok(LoadResponse::Data { raw_data, index_version })) => {
                    return format!(
                        "{} @ {}",
                        String::from_utf8(raw_data).unwrap(),
                        index_version.unwrap()
                    )
                }
                Step::Configured(Ok(config)) => {
                    return format!("config {}", config.auth_required);
                }
                Step::Loaded(Err(error)) | Step::Configured(Err(error)) => {
                    return match error.message() {
                        Some(message) => message,
                        None => format!("{error:?}"),
                    }
                }
                Step::ReadCachedConfig(reader) => {
                    self.done.push("read".to_string());
                    registry.config_cached(reader, self.cached.map(registry_config))
                }
                Step::DecodeConfig { raw_data, wanted } => {
                    self.done.push("decode".to_string());
                    registry.config_decoded(raw_data, wanted, registry_config(self.decoded))
                }
                Step::StoreConfig { raw_data, wanted } => {
                    self.done.push(format!("store {}", String::from_utf8(raw_data).unwrap()));
                    registry.config_stored(wanted)
                }
                Step::ReadMultiplexing(request) => {
                    self.done.push("multiplexing?".to_string());
                    registry.multiplexing_configured(request, self.multiplexing)
                }
                Step::StartTransport { multiplexing, max_host_connections, request } => {
                    self.done.push(format!("start {multiplexing} {max_host_connections}"));
                    registry.transport_started(request)
                }
                Step::OpenHandle { url, http2, request } => {
                    self.done.push(format!("open {url} {http2}"));
                    registry.handle_opened(request)
                }
                Step::GetToken { login_url, request } => {
                    self.done.push(format!("token {login_url:?}"));
                    registry.token_received(request, &self.token)
                }
                Step::SetHeaders { headers, request } => {
                    self.headers = headers.join("; ");
                    registry.headers_set(request)
                }
                Step::Send { token, request } => {
                    self.done.push(format!("send {token} {}", self.headers));
                    registry.request_sent(token, &request)
                }
            }
        }
    }

    fn load(&mut self, registry: &mut HttpRegistry, path: &str, version: Option<&str>) -> String {
        let step = registry.load(&IndexPath::new(path), version);
        self.run(registry, step)
    }

    fn config(&mut self, registry: &mut HttpRegistry) -> String {
        let step = registry.config();
        self.run(registry, step)
    }

    fn take_done(&mut self) -> Vec<String> {
        std::mem::take(&mut self.done)
    }
}

fn responded(code: u32) -> Transfer {
    Transfer::Responded { code, effective_url: Ok(None) }
}

fn respond(registry: &mut HttpRegistry, token: usize, code: u32, body: &str, headers: &[&str]) {
    for header in headers {
        registry.receive_header(token, header.as_bytes());
    }
    registry.receive_data(token, body.as_bytes());
    assert!(!registry.handle_completed_download(token, &responded(code), false));
}

/// A registry whose configuration is known, where updates were requested.
fn configured(world: &mut World) -> HttpRegistry {
    let mut registry = registry();
    registry.invalidate_cache();
    assert_eq!(world.config(&mut registry), "pending");
    respond(&mut registry, 0, 200, "{}", &[]);
    let expected = format!("config {}", world.decoded);
    assert_eq!(world.config(&mut registry), expected);
    world.take_done();
    registry
}

#[test]
fn opens_a_registry() {
    let registry = HttpRegistry::open(&source("sparse+HTTPS://Example.COM/a/../index/", true), &CONFIG)
        .unwrap()
        .unwrap();
    assert_eq!(
        registry.full_url(&IndexPath::new("re/ge/regex")),
        "https://example.com/index/re/ge/regex"
    );
    assert!(!registry.is_updated());
    assert!(!registry.needs_authorization());
    assert!(registry.login_url().is_none());
    assert!(registry.known_config().is_none());
    assert!(registry.is_fresh(&IndexPath::new("x")));
    assert!(!registry.was_fetched(&IndexPath::new("x")));
}

#[test]
fn refuses_what_is_not_enabled() {
    let config = Config { sparse_registry: false, ..CONFIG };
    for url in ["sparse+https://a/", "sparse+https://a", "https://a/"] {
        let error = HttpRegistry::new(&source(url, true), &config).err().unwrap();
        assert!(matches!(error, NewError::SparseRegistryUnstable));
        assert_eq!(error.message(), "usage of sparse registries requires `-Z sparse-registry`");
        assert!(matches!(
            HttpRegistry::open(&source(url, false), &config),
            Some(Err(NewError::SparseRegistryUnstable))
        ));
    }
}

#[test]
fn refuses_a_url_without_a_slash() {
    let error = HttpRegistry::new(&source("sparse+https://a/b", true), &CONFIG).err().unwrap();
    assert_eq!(
        error.message(),
        "sparse registry url must end in a slash `/`: sparse+https://a/b"
    );
    assert!(matches!(
        HttpRegistry::open(&source("", true), &CONFIG),
        Some(Err(NewError::UrlWithoutSlash { .. }))
    ));
}

#[test]
fn opens_only_what_is_served_over_http() {
    assert!(HttpRegistry::open(&source("sparse+https://a/", false), &CONFIG).is_none());
    assert!(HttpRegistry::open(&source("https://a/", true), &CONFIG).is_none());
    assert!(HttpRegistry::open(&source("sparse", true), &CONFIG).is_some());
    assert!(HttpRegistry::open(&source("sparse+nonsense/", true), &CONFIG).is_none());
}

#[test]
fn names_the_codes_that_are_expected() {
    assert_eq!(status(200), Some(StatusCode::Success));
    assert_eq!(status(304), Some(StatusCode::NotModified));
    assert_eq!(status(401), Some(StatusCode::Unauthorized));
    assert_eq!(status(404), Some(StatusCode::NotFound));
    assert_eq!(status(410), Some(StatusCode::NotFound));
    assert_eq!(status(451), Some(StatusCode::NotFound));
    for code in [0, 100, 201, 204, 301, 400, 403, 429, 500, 503, u32::MAX] {
        assert_eq!(status(code), None);
    }
}

#[test]
fn judges_transfers() {
    let body = b"body".to_vec();
    let failed = Transfer::Failed { cause: "reset".to_string() };
    match judge(&failed, "u", &body) {
        Err(DownloadError::Transfer { url, cause }) => {
            assert_eq!((url.as_str(), cause.as_str()), ("u", "reset"));
        }
        _ => panic!(),
    }
    assert_eq!(
        judge(&failed, "u", &body).unwrap_err().message().as_deref(),
        Some("failed to download from `u`")
    );
    let unreadable = Transfer::Unreadable { cause: "code".to_string() };
    match judge(&unreadable, "u", &body) {
        Err(DownloadError::Unreadable { cause }) => assert_eq!(cause, "code"),
        _ => panic!(),
    }
    assert!(judge(&unreadable, "u", &body).unwrap_err().message().is_none());
    let nowhere = Transfer::Responded { code: 500, effective_url: Err("where".to_string()) };
    match judge(&nowhere, "u", &body) {
        Err(DownloadError::Unreadable { cause }) => assert_eq!(cause, "where"),
        _ => panic!(),
    }
    let elsewhere =
        Transfer::Responded { code: 500, effective_url: Ok(Some("e".to_string())) };
    match judge(&elsewhere, "u", &body) {
        Err(DownloadError::NotSuccessful(HttpNotSuccessful { code, url, body })) => {
            assert_eq!((code, url.as_str(), body.as_slice()), (500, "e", b"body".as_slice()));
        }
        _ => panic!(),
    }
    match judge(&responded(500), "u", &body) {
        Err(DownloadError::NotSuccessful(response)) => assert_eq!(response.url, "u"),
        _ => panic!(),
    }
    let found = Transfer::Responded { code: 200, effective_url: Err("where".to_string()) };
    assert_eq!(judge(&found, "u", &body).unwrap(), StatusCode::Success);
}

#[test]
fn loads_a_file_from_scratch() {
    let mut world = World::new();
    let mut registry = registry();
    assert_eq!(world.load(&mut registry, "re/ge/regex", None), "pending");
    assert_eq!(
        world.take_done(),
        vec![
            "read",
            "read",
            "multiplexing?",
            "start true 2",
            "open https://index.example/config.json true",
            "send 0 cargo-protocol: version=1; accept: text/plain",
        ]
    );
    assert!(registry.downloads().is_pending(0));
    assert!(registry.downloads().is_path_pending(&IndexPath::new("config.json")));
    respond(&mut registry, 0, 200, "{}", &[]);
    assert_eq!(world.load(&mut registry, "re/ge/regex", None), "pending");
    assert_eq!(
        world.take_done(),
        vec![
            "read",
            "decode",
            "store {}",
            "open https://index.example/re/ge/regex true",
            "send 1 cargo-protocol: version=1; accept: text/plain",
        ]
    );
    registry.receive_header(1, b"HTTP/2 200\r\n");
    registry.receive_header(1, b"ETag: \"1\"\r\n");
    registry.receive_header(1, b"Last-Modified: today\r\n");
    registry.receive_header(1, b"\r\n");
    registry.receive_data(1, b"one, ");
    registry.receive_data(1, b"two");
    assert!(!registry.handle_completed_download(1, &responded(200), true));
    assert!(registry.downloads().has_result(&IndexPath::new("re//ge/regex")));
    assert_eq!(world.load(&mut registry, "re/ge/regex", None), "one, two @ etag: \"1\"");
    assert!(!registry.downloads().has_result(&IndexPath::new("re/ge/regex")));
    assert!(registry.was_fetched(&IndexPath::new("re/ge/regex")));
    assert!(world.take_done().is_empty());
}

#[test]
fn a_pending_path_is_not_requested() {
    let mut world = World::new();
    let mut registry = configured(&mut world);
    assert_eq!(world.load(&mut registry, "3/a/abc", Some("etag: x")), "pending");
    assert_eq!(world.take_done().len(), 2);
    assert_eq!(world.load(&mut registry, "3/a/abc", Some("etag: x")), "pending");
    assert_eq!(world.load(&mut registry, "3/a/abc", None), "pending");
    assert_eq!(world.load(&mut registry, "3//a/./abc/", None), "pending");
    assert!(world.take_done().is_empty());
    assert_eq!(registry.downloads().pending_len(), 1);
}

#[test]
fn a_fetched_path_is_not_requested() {
    let mut world = World::new();
    let mut registry = configured(&mut world);
    assert_eq!(world.load(&mut registry, "3/a/abc", None), "pending");
    respond(&mut registry, 1, 200, "abc", &[]);
    assert_eq!(world.load(&mut registry, "3/a/abc", None), "abc @ Unknown");
    world.take_done();
    assert_eq!(world.load(&mut registry, "3/a/abc", None), "not found");
    assert_eq!(world.load(&mut registry, "3/a/abc", Some("Unknown")), "valid");
    assert!(world.take_done().is_empty());
}

#[test]
fn a_copy_is_used_without_an_update() {
    let mut world = World::new();
    for config in [
        CONFIG,
        Config { no_index_update: true, ..CONFIG },
        Config { offline: true, ..CONFIG },
    ] {
        let mut registry = registry_with(config);
        assert_eq!(world.load(&mut registry, "3/a/abc", Some("etag: x")), "valid");
        registry.invalidate_cache();
        assert!(registry.is_updated());
        let expected =
            if config.no_index_update || config.offline { "valid" } else { "pending" };
        assert_eq!(world.load(&mut registry, "3/a/abc", Some("etag: x")), expected);
    }
}

#[test]
fn an_invalidated_copy_is_checked() {
    let mut world = World::new();
    let mut registry = configured(&mut world);
    assert_eq!(world.load(&mut registry, "3/a/abc", None), "pending");
    respond(&mut registry, 1, 200, "abc", &["last-modified:  today "]);
    assert_eq!(world.load(&mut registry, "3/a/abc", None), "abc @ last-modified: today");
    let version = Some("last-modified: today");
    assert_eq!(world.load(&mut registry, "3/a/abc", version), "valid");
    registry.invalidate_cache();
    assert!(!registry.is_fresh(&IndexPath::new("3/a/abc")));
    world.take_done();
    // The configuration is checked first.
    assert_eq!(world.load(&mut registry, "3/a/abc", version), "pending");
    assert_eq!(world.take_done().len(), 2);
    respond(&mut registry, 2, 200, "{}", &[]);
    assert_eq!(world.load(&mut registry, "3/a/abc", version), "pending");
    assert_eq!(
        world.take_done()[3],
        "send 3 cargo-protocol: version=1; accept: text/plain; if-modified-since: today"
    );
    respond(&mut registry, 3, 304, "", &[]);
    assert_eq!(world.load(&mut registry, "3/a/abc", version), "valid");
    assert!(registry.was_fetched(&IndexPath::new("3/a/abc")));
}

#[test]
fn nothing_changed_where_there_is_no_copy() {
    let mut world = World::new();
    let mut registry = configured(&mut world);
    assert_eq!(world.load(&mut registry, "3/a/abc", None), "pending");
    respond(&mut registry, 1, 304, "", &[]);
    assert_eq!(
        world.load(&mut registry, "3/a/abc", None),
        "server said not modified (HTTP 304) when no local cache exists"
    );
    assert_eq!(world.load(&mut registry, "3/a/abc", None), "not found");
}

#[test]
fn a_missing_file_is_not_found() {
    for code in [404, 410, 451] {
        let mut world = World::new();
        let mut registry = configured(&mut world);
        assert_eq!(world.load(&mut registry, "3/a/abc", Some("etag: x")), "pending");
        respond(&mut registry, 1, code, "gone", &[]);
        assert_eq!(world.load(&mut registry, "3/a/abc", Some("etag: x")), "not found");
        assert_eq!(world.load(&mut registry, "3/a/abc", None), "not found");
    }
}

#[test]
fn a_failed_download_is_reported_once() {
    let mut world = World::new();
    let mut registry = configured(&mut world);
    assert_eq!(world.load(&mut registry, "3/a/abc", None), "pending");
    respond(&mut registry, 1, 500, "sorry", &[]);
    match registry.load(&IndexPath::new("3/a/abc"), None) {
        Step::Loaded(Err(LoadError::DownloadFailed { path, error })) => {
            assert_eq!(path, "3/a/abc");
            match error {
                DownloadError::NotSuccessful(response) => {
                    assert_eq!(response.code, 500);
                    assert_eq!(response.url, "https://index.example/3/a/abc");
                    assert_eq!(response.body, b"sorry");
                }
                _ => panic!(),
            }
        }
        _ => panic!(),
    }
    assert!(!registry.was_fetched(&IndexPath::new("3/a/abc")));
    world.take_done();
    assert_eq!(world.load(&mut registry, "3/a/abc", None), "pending");
    assert!(world.take_done()[1].starts_with("send 2 "));
    assert!(!registry.handle_completed_download(
        2,
        &Transfer::Failed { cause: "reset".to_string() },
        false
    ));
    assert_eq!(world.load(&mut registry, "3/a/abc", None), "download of 3/a/abc failed");
}

#[test]
fn a_download_is_tried_again() {
    let mut world = World::new();
    let mut registry = configured(&mut world);
    assert_eq!(world.load(&mut registry, "3/a/abc", None), "pending");
    registry.receive_header(1, b"etag: first");
    registry.receive_data(1, b"half");
    let failed = Transfer::Failed { cause: "reset".to_string() };
    match registry.judge_transfer(1, &failed) {
        Err(DownloadError::Transfer { url, .. }) => {
            assert_eq!(url, "https://index.example/3/a/abc");
        }
        _ => panic!(),
    }
    assert!(registry.handle_completed_download(1, &failed, true));
    assert!(registry.downloads().is_pending(1));
    assert_eq!(registry.downloads().finished(), 1);
    assert_eq!(world.load(&mut registry, "3/a/abc", None), "pending");
    // A response that is expected is not asked for again.
    registry.receive_data(1, b"whole");
    assert_eq!(registry.judge_transfer(1, &responded(200)).unwrap(), StatusCode::Success);
    assert!(!registry.handle_completed_download(1, &responded(200), true));
    assert_eq!(registry.downloads().finished(), 2);
    assert_eq!(world.load(&mut registry, "3/a/abc", None), "whole @ etag: first");
}

#[test]
fn handles_what_ended() {
    let mut world = World::new();
    let mut registry = configured(&mut world);
    for path in ["1/a", "1/b", "1/c"] {
        assert_eq!(world.load(&mut registry, path, None), "pending");
    }
    for token in 1..4 {
        registry.receive_data(token, &[b'a' + token as u8]);
    }
    let ended = vec![
        Ended { token: 3, transfer: responded(200), retry: true },
        Ended { token: 1, transfer: responded(503), retry: true },
        Ended { token: 2, transfer: responded(503), retry: false },
    ];
    let (again, progress) = registry.handle_completed_downloads(&ended);
    assert_eq!(again, vec![1]);
    assert_eq!(progress.message, " 2 complete; 1 pending");
    assert_eq!((progress.cur, progress.max), (0, 11));
    assert_eq!(world.load(&mut registry, "1/a", None), "pending");
    assert_eq!(world.load(&mut registry, "1/b", None), "download of 1/b failed");
    assert_eq!(world.load(&mut registry, "1/c", None), "d @ Unknown");
    let (again, progress) = registry.handle_completed_downloads(&Vec::new());
    assert!(again.is_empty());
    assert_eq!(progress.message, " 2 complete; 1 pending");
}

#[test]
fn progress_stays_below_its_end() {
    let mut registry = registry();
    assert_eq!(registry.downloads().tick().message, " 0 complete; 0 pending");
    let mut last = 0;
    for calls in 1..=25 {
        registry.block_until_ready();
        assert_eq!(registry.downloads().blocking(), calls);
        let progress = registry.downloads().tick();
        assert_eq!(progress.cur, calls.min(10));
        assert_eq!(progress.max, 11);
        assert!(progress.cur >= last);
        last = progress.cur;
    }
}

#[test]
fn waits_until_no_transfer_is_left() {
    assert_eq!(registry().block_until_ready(), WaitAction::Collect);
    assert_eq!(wait_step(WaitEvent::Collected), WaitAction::Perform);
    assert_eq!(wait_step(WaitEvent::Performed { remaining: 0 }), WaitAction::Done);
    for remaining in [1, 2, u32::MAX] {
        assert_eq!(wait_step(WaitEvent::Performed { remaining }), WaitAction::ReadTimeout);
    }
    for (millis, expected) in [(None, 1000), (Some(0), 0), (Some(5000), 5000)] {
        assert_eq!(
            wait_step(WaitEvent::TimeoutRead { millis }),
            WaitAction::Wait { millis: expected }
        );
    }
    assert_eq!(wait_step(WaitEvent::Waited), WaitAction::Collect);
}

#[test]
fn only_successful_downloads_are_counted() {
    let mut world = World::new();
    let mut registry = configured(&mut world);
    assert_eq!(registry.downloads().finished(), 1);
    assert_eq!(world.load(&mut registry, "1/a", None), "pending");
    respond(&mut registry, 1, 500, "", &[]);
    assert_eq!(registry.downloads().finished(), 1);
    assert_eq!(world.load(&mut registry, "1/b", None), "pending");
    respond(&mut registry, 2, 404, "", &[]);
    assert_eq!(registry.downloads().finished(), 2);
    assert_eq!(registry.downloads().tick().message, " 2 complete; 0 pending");
}

#[test]
fn each_path_is_exchanged_for_its_result() {
    let mut world = World::new();
    let mut registry = configured(&mut world);
    for path in ["1/a", "1/b", "1/c"] {
        assert_eq!(world.load(&mut registry, path, None), "pending");
    }
    respond(&mut registry, 1, 200, "a", &[]);
    let ended = vec![
        Ended { token: 2, transfer: responded(500), retry: false },
        Ended { token: 3, transfer: responded(404), retry: true },
    ];
    let (again, _) = registry.handle_completed_downloads(&ended);
    assert!(again.is_empty());
    assert_eq!(registry.downloads().pending_len(), 0);
    for path in ["1/a", "1/b", "1/c"] {
        assert!(!registry.downloads().is_path_pending(&IndexPath::new(path)));
        assert!(registry.downloads().has_result(&IndexPath::new(path)));
    }
    assert_eq!(world.load(&mut registry, "1/a", None), "a @ Unknown");
    assert_eq!(world.load(&mut registry, "1/b", None), "download of 1/b failed");
    assert_eq!(world.load(&mut registry, "1/c", None), "not found");
}

#[test]
fn a_known_configuration_wins_over_the_copy() {
    let mut world = World::new();
    let mut registry = registry();
    let first = registry.config();
    let second = registry.config();
    world.cached = Some(true);
    assert_eq!(world.run(&mut registry, first), "config true");
    world.cached = Some(false);
    assert_eq!(world.run(&mut registry, second), "config true");
    assert!(registry.known_config().unwrap().auth_required);
}

#[test]
fn a_token_is_used_up_once_the_headers_are_set() {
    let mut world = World::new();
    let mut registry = configured(&mut world);
    let request = match registry.load(&IndexPath::new("1/a"), None) {
        Step::OpenHandle { request, .. } => request,
        _ => panic!(),
    };
    let request = match registry.handle_opened(request) {
        Step::SetHeaders { headers, request } => {
            assert_eq!(headers, vec!["cargo-protocol: version=1", "accept: text/plain"]);
            request
        }
        _ => panic!(),
    };
    assert_eq!(registry.downloads().next_token(), 1);
    match registry.headers_set(request) {
        Step::Send { token, .. } => assert_eq!(token, 1),
        _ => panic!(),
    }
    assert_eq!(registry.downloads().next_token(), 2);
}

#[test]
fn the_url_of_a_registry_ends_in_a_slash() {
    for url in [
        "https://a/",
        "https://a//",
        "HTTPS://user:pass@a:443/b/../",
        "https://a/b/.//",
        "https://a/?q/",
        "https://a/#f/",
        "https:\\\\a/",
        "https:a/",
        "file:/",
        "file://",
        "file:///",
        "file://localhost/",
        "file://host/C|/",
        "file:///C:/../",
        "file:c:/",
        "foo:/",
        "foo://",
        "foo:///",
        "foo:/.//",
        "foo:a/",
        "foo:a/../",
    ] {
        let registry =
            HttpRegistry::new(&source(&format!("sparse+{url}"), true), &CONFIG).ok().unwrap();
        assert!(registry.full_url(&IndexPath::new("")).ends_with('/'), "{url}");
    }
}

#[test]
fn the_transport_is_set_up_once() {
    let mut world = World::new();
    world.multiplexing = Some(false);
    let mut registry = registry();
    registry.invalidate_cache();
    assert_eq!(world.load(&mut registry, "config.json", Some("etag: x")), "pending");
    assert_eq!(
        world.take_done(),
        vec![
            "read",
            "multiplexing?",
            "start false 2",
            "open https://index.example/config.json false",
            "send 0 cargo-protocol: version=1; accept: text/plain; if-none-match: x",
        ]
    );
    respond(&mut registry, 0, 304, "", &[]);
    world.cached = Some(false);
    assert_eq!(world.load(&mut registry, "config.json", Some("etag: x")), "valid");
    assert_eq!(world.load(&mut registry, "1/a", None), "pending");
    assert_eq!(
        world.take_done(),
        vec![
            "read",
            "open https://index.example/1/a false",
            "send 1 cargo-protocol: version=1; accept: text/plain",
        ]
    );
}

#[test]
fn a_refused_configuration_is_requested_with_authorization() {
    let mut world = World::new();
    world.decoded = true;
    let mut registry = registry();
    assert_eq!(world.config(&mut registry), "pending");
    respond(
        &mut registry,
        0,
        401,
        "who are you?",
        &["WWW-Authenticate: Basic", "www-authenticate: Cargo login_url=\"https://Login.example\""],
    );
    world.take_done();
    assert_eq!(world.config(&mut registry), "pending");
    assert_eq!(
        world.take_done(),
        vec![
            "read",
            "open https://index.example/config.json true",
            "token Some(\"https://login.example/\")",
            "send 1 cargo-protocol: version=1; accept: text/plain; Authorization: secret",
        ]
    );
    assert!(registry.needs_authorization());
    respond(&mut registry, 1, 200, "{\"auth-required\":true}", &[]);
    assert_eq!(world.config(&mut registry), "config true");
    assert_eq!(world.take_done(), vec!["read", "decode", "store {\"auth-required\":true}"]);
    assert!(registry.known_config().unwrap().auth_required);
    // Known and not to be checked.
    assert_eq!(world.config(&mut registry), "config true");
    assert!(world.take_done().is_empty());
    assert_eq!(world.load(&mut registry, "1/a", None), "pending");
    assert_eq!(
        world.take_done()[2],
        "send 2 cargo-protocol: version=1; accept: text/plain; Authorization: secret"
    );
    respond(&mut registry, 2, 401, "go away", &[]);
    match registry.load(&IndexPath::new("1/a"), None) {
        Step::Loaded(Err(LoadError::Unauthorized { response, rejected })) => {
            assert_eq!(response.code, 401);
            assert_eq!(response.url, "https://index.example/1/a");
            assert_eq!(response.body, b"go away");
            let rejected = rejected.unwrap();
            assert_eq!(rejected.sid, "sparse+https://index.example/");
            assert_eq!(rejected.login_url.as_deref(), Some("https://login.example/"));
        }
        _ => panic!(),
    }
}

#[test]
fn a_file_can_be_refused_without_authorization() {
    let mut world = World::new();
    let mut registry = configured(&mut world);
    assert_eq!(world.load(&mut registry, "1/a", None), "pending");
    respond(&mut registry, 1, 401, "no", &["www-authenticate: Cargo login_url=\"https://a/\""]);
    match registry.load(&IndexPath::new("1/a"), None) {
        Step::Loaded(Err(error)) => {
            assert!(error.message().is_none());
            assert!(matches!(error, LoadError::Unauthorized { rejected: None, .. }));
        }
        _ => panic!(),
    }
    assert!(registry.login_url().is_none());
}

#[test]
fn a_refusal_can_name_a_place_that_is_no_url() {
    let mut world = World::new();
    let mut registry = registry();
    assert_eq!(world.config(&mut registry), "pending");
    respond(
        &mut registry,
        0,
        401,
        "",
        &["www-authenticate: Cargo login_url=\"https://a/\", login_url=b, login_url=\"https://c/\""],
    );
    assert_eq!(
        world.config(&mut registry),
        "invalid url `b`: relative URL without a base"
    );
    assert!(registry.needs_authorization());
    assert_eq!(registry.login_url().as_deref(), Some("https://a/"));
    assert_eq!(world.config(&mut registry), "pending");
}

#[test]
fn authorization_has_to_be_enabled() {
    let config = Config { registry_auth: false, ..CONFIG };
    let mut world = World::new();
    world.cached = Some(true);
    let mut registry = registry_with(config);
    assert_eq!(world.config(&mut registry), "config true");
    assert!(registry.check_registry_auth_unstable().is_ok());
    assert_eq!(
        world.load(&mut registry, "1/a", None),
        "authenticated registries require `-Z registry-auth`"
    );
    assert!(registry.check_registry_auth_unstable().is_err());
    assert!(matches!(
        registry.checked_config(Ok(registry_config(true))),
        Err(LoadError::RegistryAuthUnstable)
    ));
    assert!(matches!(
        registry.checked_config(Err(LoadError::ConfigNotFound)),
        Err(LoadError::ConfigNotFound)
    ));
    assert!(registry_with(CONFIG).checked_config(Ok(registry_config(true))).is_ok());
    // For the configuration itself the error comes from the request too.
    registry.invalidate_cache();
    assert_eq!(
        world.config(&mut registry),
        "authenticated registries require `-Z registry-auth`"
    );
}

#[test]
fn a_copy_of_the_configuration_saves_the_first_refusal() {
    let mut world = World::new();
    world.cached = Some(true);
    let mut registry = registry();
    registry.invalidate_cache();
    assert_eq!(world.config(&mut registry), "pending");
    assert_eq!(
        world.take_done(),
        vec![
            "read",
            "multiplexing?",
            "start true 2",
            "open https://index.example/config.json true",
            "token None",
            "send 0 cargo-protocol: version=1; accept: text/plain; Authorization: secret",
        ]
    );
    assert!(registry.known_config().unwrap().auth_required);
}

#[test]
fn a_registry_needs_a_configuration() {
    let mut world = World::new();
    let mut registry = registry();
    assert_eq!(world.load(&mut registry, "1/a", None), "pending");
    respond(&mut registry, 0, 404, "", &[]);
    assert_eq!(world.load(&mut registry, "1/a", None), "config.json not found in registry");
    assert_eq!(world.config(&mut registry), "config.json not found in registry");
}

#[test]
fn a_configuration_that_failed_is_reported() {
    let mut world = World::new();
    let mut registry = registry();
    assert_eq!(world.load(&mut registry, "1/a", None), "pending");
    respond(&mut registry, 0, 500, "", &[]);
    assert_eq!(world.load(&mut registry, "1/a", None), "download of config.json failed");
    assert_eq!(world.load(&mut registry, "1/a", None), "pending");
    respond(&mut registry, 1, 304, "", &[]);
    assert_eq!(
        world.config(&mut registry),
        "server said not modified (HTTP 304) when no local cache exists"
    );
}

#[test]
fn there_is_no_valid_copy_of_the_configuration() {
    match step_after_config(ConfigFor::Caller, Ok(LoadResponse::CacheValid)) {
        Step::Configured(Err(error)) => assert_eq!(
            error.message().as_deref(),
            Some("config.json is never stored in the index cache")
        ),
        _ => panic!(),
    }
    let wanted = ConfigFor::Load { path: IndexPath::new("1/a"), version: None };
    match step_after_config(wanted, Ok(LoadResponse::CacheValid)) {
        Step::Loaded(Err(error)) => assert!(matches!(error, LoadError::ConfigNeverCached)),
        _ => panic!(),
    }
}

#[test]
fn a_package_is_fetched_once_the_configuration_is_known() {
    assert!(matches!(download_next(Step::Pending), DownloadAction::Wait));
    match download_next(Step::Configured(Ok(registry_config(true)))) {
        DownloadAction::Fetch(config) => {
            assert_eq!(config.dl, "dl");
            assert!(config.auth_required);
        }
        _ => panic!(),
    }
    assert!(matches!(
        download_next(Step::Configured(Err(LoadError::ConfigNotFound))),
        DownloadAction::Fail(LoadError::ConfigNotFound)
    ));
}

#[test]
fn a_fetched_path_stays_fetched_until_an_update() {
    let mut world = World::new();
    let mut registry = configured(&mut world);
    assert_eq!(world.load(&mut registry, "1/a", None), "pending");
    respond(&mut registry, 1, 200, "a", &[]);
    assert_eq!(world.load(&mut registry, "1/a", None), "a @ Unknown");
    assert_eq!(world.load(&mut registry, "1/b", None), "pending");
    registry.block_until_ready();
    respond(&mut registry, 2, 500, "", &[]);
    assert_eq!(world.load(&mut registry, "1/b", None), "download of 1/b failed");
    assert_eq!(world.config(&mut registry), "config false");
    assert!(registry.was_fetched(&IndexPath::new("1/a")));
    world.take_done();
    assert_eq!(world.load(&mut registry, "1/a", Some("Unknown")), "valid");
    assert!(world.take_done().is_empty());
    registry.invalidate_cache();
    assert!(!registry.was_fetched(&IndexPath::new("1/a")));
}

#[test]
fn a_request_can_be_refused_by_hand() {
    let mut registry = registry();
    let step = registry.load(&IndexPath::new("config.json"), None);
    let request = match step {
        Step::ReadCachedConfig(Reader::Request(request)) => request,
        _ => panic!(),
    };
    let login = |url: Result<&str, &str>| Login {
        text: "text".to_string(),
        url: url.map(|u| u.to_string()).map_err(|e| e.to_string()),
    };
    let request = match registry.refuse(request, vec![login(Ok("https://a/")), login(Ok("https://b/"))]) {
        Err(request) => request,
        Ok(_) => panic!(),
    };
    assert!(registry.needs_authorization());
    assert_eq!(registry.login_url().as_deref(), Some("https://b/"));
    match registry.refuse(request, vec![login(Err("no")), login(Ok("https://c/"))]) {
        Ok(Step::Loaded(Err(LoadError::InvalidLoginUrl { text, reason }))) => {
            assert_eq!((text.as_str(), reason.as_str()), ("text", "no"));
        }
        _ => panic!(),
    }
    assert_eq!(registry.login_url().as_deref(), Some("https://b/"));
}

#[test]
fn tokens_are_not_used_twice() {
    let mut world = World::new();
    let mut registry = configured(&mut world);
    for i in 0..20 {
        let token = registry.downloads().next_token();
        assert_eq!(token, i + 1);
        assert!(!registry.downloads().is_pending(token));
        let path = format!("3/a/a{i}");
        assert_eq!(world.load(&mut registry, &path, None), "pending");
        assert!(registry.downloads().is_pending(token));
        assert_eq!(registry.downloads().pending_path(token).as_str(), path);
    }
    assert_eq!(registry.downloads().pending_len(), 20);
}
