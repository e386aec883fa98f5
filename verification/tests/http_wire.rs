use suborbital::handlers::{run, Fetch, Log, RustGet};
use suborbital::host::{InvocationContext, Query};
use suborbital::http;
use suborbital::runnable::handle_invocation;
use suborbital::scripted::ScriptedHost;

fn ctx(ident: i32) -> InvocationContext {
    InvocationContext { ident }
}

#[test]
fn get_multiplexes_headers_into_the_url() {
    let mut host = ScriptedHost::new();
    host.add_answer(
        Query::Http {
            method: 1,
            url: b"https://example.com/x::a:1::b:2".to_vec(),
            body: Vec::new(),
        },
        b"ok".to_vec(),
    );
    let headers = vec![
        ("a".to_string(), "1".to_string()),
        ("b".to_string(), "2".to_string()),
    ];
    let r = http::get(&mut host, &ctx(1), "https://example.com/x", Some(&headers));
    assert_eq!(r, b"ok".to_vec());
    assert_eq!(host.call_log.len(), 1);
    match &host.call_log[0].0 {
        Query::Http { method, url, body } => {
            assert_eq!(*method, 1);
            assert_eq!(url, &b"https://example.com/x::a:1::b:2".to_vec());
            assert_eq!(body, &Vec::<u8>::new());
        },
        other => panic!("unexpected query {:?}", other),
    }
}

#[test]
fn get_without_headers_sends_the_bare_url() {
    let mut host = ScriptedHost::new();
    host.add_answer(
        Query::Http { method: 1, url: b"https://example.com".to_vec(), body: Vec::new() },
        b"body".to_vec(),
    );
    assert_eq!(http::get(&mut host, &ctx(0), "https://example.com", None), b"body".to_vec());
}

#[test]
fn transport_failure_returns_inline_payload() {
    let mut host = ScriptedHost::new();
    let r = http::get(&mut host, &ctx(0), "https://example.com", None);
    assert_eq!(r, b"request_failed:-1".to_vec());
}

#[test]
fn failure_payload_embeds_the_code() {
    assert_eq!(http::failure_payload(-1), b"request_failed:-1".to_vec());
    assert_eq!(http::failure_payload(-37), b"request_failed:-37".to_vec());
    assert_eq!(http::failure_payload(i32::MIN), b"request_failed:-2147483648".to_vec());
    assert_eq!(http::failure_payload(0), b"request_failed:0".to_vec());
    assert_eq!(http::failure_payload(204), b"request_failed:204".to_vec());
}

#[test]
fn post_and_patch_carry_bodies_delete_does_not() {
    let mut host = ScriptedHost::new();
    host.add_answer(
        Query::Http { method: 2, url: b"u".to_vec(), body: b"pb".to_vec() },
        b"posted".to_vec(),
    );
    host.add_answer(
        Query::Http { method: 3, url: b"u".to_vec(), body: b"qb".to_vec() },
        b"patched".to_vec(),
    );
    host.add_answer(
        Query::Http { method: 4, url: b"u".to_vec(), body: Vec::new() },
        b"deleted".to_vec(),
    );
    let c = ctx(0);
    assert_eq!(http::post(&mut host, &c, "u", Some(b"pb".to_vec()), None), b"posted".to_vec());
    assert_eq!(http::patch(&mut host, &c, "u", Some(b"qb".to_vec()), None), b"patched".to_vec());
    assert_eq!(http::delete(&mut host, &c, "u", None), b"deleted".to_vec());
}

#[test]
fn large_http_body_renegotiates_capacity() {
    let body = vec![1u8; 300_000];
    let mut host = ScriptedHost::new();
    host.add_answer(
        Query::Http { method: 1, url: b"u".to_vec(), body: Vec::new() },
        body.clone(),
    );
    assert_eq!(http::get(&mut host, &ctx(0), "u", None), body);
    assert_eq!(host.call_log.len(), 2);
    assert_eq!(host.call_log[0].1, 256_000);
    assert_eq!(host.call_log[1].1, 300_000);
}

#[test]
fn render_header_string_joins_and_trims() {
    assert_eq!(http::render_header_string(None), None);
    assert_eq!(http::render_header_string(Some(&Vec::new())), Some(Vec::new()));
    let one = vec![("a".to_string(), "1".to_string())];
    assert_eq!(http::render_header_string(Some(&one)), Some(b"a:1".to_vec()));
    let two = vec![
        ("authorization".to_string(), "bearer t".to_string()),
        ("accept".to_string(), "text/plain".to_string()),
    ];
    assert_eq!(
        http::render_header_string(Some(&two)),
        Some(b"authorization:bearer t::accept:text/plain".to_vec()),
    );
}

// The host-side demultiplexing the encoding promises to survive: split the
// address string on `::`, take the first segment as the URL, split each later
// segment at its first `:`.
fn demux(address: &str) -> (String, Vec<(String, String)>) {
    let mut parts = address.split("::");
    let url = parts.next().unwrap_or("").to_string();
    let pairs = parts
        .map(|p| match p.split_once(':') {
            Some((k, v)) => (k.to_string(), v.to_string()),
            None => (p.to_string(), String::new()),
        })
        .collect();
    (url, pairs)
}

#[test]
fn header_encoding_round_trips_through_the_host_demux() {
    let mut host = ScriptedHost::new();
    let headers = vec![
        ("content-type".to_string(), "application/json".to_string()),
        ("x-token".to_string(), "abc123".to_string()),
    ];
    http::get(&mut host, &ctx(0), "https://example.com/path", Some(&headers));
    let sent = match &host.call_log[0].0 {
        Query::Http { url, .. } => String::from_utf8(url.clone()).unwrap(),
        other => panic!("unexpected query {:?}", other),
    };
    let (url, pairs) = demux(&sent);
    assert_eq!(url, "https://example.com/path");
    assert_eq!(pairs, headers);
}

#[test]
fn hello_run_greets_its_input() {
    assert_eq!(run(b"world".to_vec(), 0, 0), Some(b"hello world".to_vec()));
    assert_eq!(run(Vec::new(), 3, 4), Some(b"hello ".to_vec()));
}

#[test]
fn fetch_handler_fetches_the_url_named_by_the_input() {
    let mut host = ScriptedHost::new();
    host.add_answer(
        Query::Http { method: 1, url: b"https://a".to_vec(), body: Vec::new() },
        b"page".to_vec(),
    );
    handle_invocation(&mut host, &Fetch {}, b"https://a".to_vec(), 8);
    assert_eq!(host.delivered_log.len(), 1);
    assert_eq!(host.delivered_log[0].0, b"page".to_vec());
    assert_eq!(host.delivered_log[0].1, 8);
}

#[test]
fn rust_get_handler_reads_the_cache_or_falls_back() {
    let mut host = ScriptedHost::new();
    host.add_answer(Query::CacheGet { key: b"important".to_vec() }, b"42".to_vec());
    handle_invocation(&mut host, &RustGet {}, Vec::new(), 2);
    assert_eq!(host.delivered_log[0].0, b"42".to_vec());

    let mut empty = ScriptedHost::new();
    handle_invocation(&mut empty, &RustGet {}, Vec::new(), 2);
    assert_eq!(empty.delivered_log[0].0, b"run returned no data".to_vec());
}

#[test]
fn log_handler_logs_fields_and_greets_the_state() {
    let mut host = ScriptedHost::new();
    host.add_answer(Query::Field { category: 0, key: b"method".to_vec() }, b"POST".to_vec());
    host.add_answer(Query::Field { category: 1, key: b"username".to_vec() }, b"ada".to_vec());
    host.add_answer(Query::Field { category: 0, key: b"url".to_vec() }, b"/x".to_vec());
    host.add_answer(Query::Field { category: 0, key: b"id".to_vec() }, b"r1".to_vec());
    host.add_answer(Query::Field { category: 4, key: b"hello".to_vec() }, b"there".to_vec());
    handle_invocation(&mut host, &Log {}, b"incoming".to_vec(), 11);
    let messages: Vec<Vec<u8>> = host.logged_log.iter().map(|l| l.0.clone()).collect();
    assert_eq!(
        messages,
        vec![
            b"incoming".to_vec(),
            b"POST".to_vec(),
            b"ada".to_vec(),
            b"/x".to_vec(),
            b"r1".to_vec(),
            b"there".to_vec(),
        ],
    );
    assert!(host.logged_log.iter().all(|l| l.1 == 3 && l.2 == 11));
    assert_eq!(host.delivered_log[0].0, b"hello there".to_vec());
}

#[test]
fn empty_header_list_appends_a_bare_separator() {
    let mut host = ScriptedHost::new();
    host.add_answer(
        Query::Http { method: 1, url: b"u::".to_vec(), body: Vec::new() },
        b"ok".to_vec(),
    );
    let headers: Vec<(String, String)> = Vec::new();
    assert_eq!(http::get(&mut host, &ctx(0), "u", Some(&headers)), b"ok".to_vec());
}

#[test]
fn fetch_handler_with_undecodable_input_falls_back() {
    let mut host = ScriptedHost::new();
    handle_invocation(&mut host, &Fetch {}, vec![0xff, 0x00], 3);
    assert_eq!(host.delivered_log.len(), 1);
    assert_eq!(host.delivered_log[0].0, b"run returned no data".to_vec());
}
