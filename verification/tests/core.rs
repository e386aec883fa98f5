use suborbital::cache;
use suborbital::host::{InvocationContext, Query};
use suborbital::logging;
use suborbital::req;
use suborbital::runnable::{handle_invocation, DefaultRunnable};
use suborbital::scripted::{bytes_eq, query_eq, ScriptedHost};
use suborbital::util;

fn ctx(ident: i32) -> InvocationContext {
    InvocationContext { ident }
}

#[test]
fn cache_get_hit_fits_initial_capacity_one_call() {
    let mut host = ScriptedHost::new();
    host.add_answer(Query::CacheGet { key: b"k".to_vec() }, b"value".to_vec());
    let r = cache::get(&mut host, &ctx(5), "k");
    assert_eq!(r, Some(b"value".to_vec()));
    assert_eq!(host.call_log.len(), 1);
    let (q, capacity, ident) = &host.call_log[0];
    assert_eq!(*q, Query::CacheGet { key: b"k".to_vec() });
    assert_eq!(*capacity, 1024);
    assert_eq!(*ident, 5);
}

#[test]
fn cache_get_large_value_renegotiates_capacity() {
    let value = vec![7u8; 2000];
    let mut host = ScriptedHost::new();
    host.add_answer(Query::CacheGet { key: b"k".to_vec() }, value.clone());
    let r = cache::get(&mut host, &ctx(9), "k");
    assert_eq!(r, Some(value));
    assert_eq!(host.call_log.len(), 2);
    assert_eq!(host.call_log[0].1, 1024);
    assert!(host.call_log[1].1 >= 2000);
    assert_eq!(host.call_log[1].1, 2000);
    assert_eq!(host.call_log[0].2, 9);
    assert_eq!(host.call_log[1].2, 9);
}

#[test]
fn cache_get_missing_is_absence_not_error_payload() {
    let mut host = ScriptedHost::new();
    let r = cache::get(&mut host, &ctx(1), "missing");
    assert_eq!(r, None);
    assert_eq!(host.call_log.len(), 1);
}

#[test]
fn cache_set_is_fire_and_forget_write() {
    let mut host = ScriptedHost::new();
    cache::set(&mut host, &ctx(3), "key", b"val".to_vec(), 60);
    assert_eq!(host.call_log.len(), 0);
    assert_eq!(host.write_log.len(), 1);
    let (key, value, ttl, ident) = &host.write_log[0];
    assert_eq!(key, &b"key".to_vec());
    assert_eq!(value, &b"val".to_vec());
    assert_eq!(*ttl, 60);
    assert_eq!(*ident, 3);
}

#[test]
fn first_scripted_answer_wins() {
    let mut host = ScriptedHost::new();
    host.add_answer(Query::CacheGet { key: b"k".to_vec() }, b"first".to_vec());
    host.add_answer(Query::CacheGet { key: b"k".to_vec() }, b"second".to_vec());
    assert_eq!(cache::get(&mut host, &ctx(0), "k"), Some(b"first".to_vec()));
}

#[test]
fn dispatcher_delivers_exactly_one_result() {
    let mut host = ScriptedHost::new();
    handle_invocation(&mut host, &DefaultRunnable {}, b"input".to_vec(), 42);
    assert_eq!(host.delivered_log.len(), 1);
    assert_eq!(host.delivered_log[0].1, 42);
}

#[test]
fn no_output_delivers_fallback_payload() {
    let mut host = ScriptedHost::new();
    handle_invocation(&mut host, &DefaultRunnable {}, b"anything".to_vec(), 1);
    assert_eq!(host.delivered_log[0].0, b"run returned no data".to_vec());
}

#[test]
fn log_levels_are_inverted_on_the_wire() {
    let mut host = ScriptedHost::new();
    let c = ctx(2);
    logging::info(&mut host, &c, "i");
    logging::warn(&mut host, &c, "w");
    logging::error(&mut host, &c, "e");
    logging::warn(&mut host, &c, "w2");
    logging::info(&mut host, &c, "i2");
    let levels: Vec<i32> = host.logged_log.iter().map(|l| l.1).collect();
    assert_eq!(levels, vec![3, 2, 1, 2, 3]);
    assert_eq!(host.logged_log[0].0, b"i".to_vec());
    assert_eq!(host.logged_log[2].0, b"e".to_vec());
    assert_eq!(host.logged_log[0].2, 2);
}

#[test]
fn field_lookup_uses_category_and_key() {
    let mut host = ScriptedHost::new();
    host.add_answer(
        Query::Field { category: 0, key: b"method".to_vec() },
        b"GET".to_vec(),
    );
    host.add_answer(
        Query::Field { category: 2, key: b"accept".to_vec() },
        b"text/html".to_vec(),
    );
    host.add_answer(
        Query::Field { category: 4, key: b"hello".to_vec() },
        b"world".to_vec(),
    );
    let c = ctx(6);
    assert_eq!(req::method(&mut host, &c), Some("GET".to_string()));
    assert_eq!(req::header(&mut host, &c, "accept"), Some("text/html".to_string()));
    assert_eq!(req::state(&mut host, &c, "hello"), Some("world".to_string()));
    assert_eq!(host.call_log[0].0, Query::Field { category: 0, key: b"method".to_vec() });
}

#[test]
fn missing_field_reads_as_empty_text() {
    let mut host = ScriptedHost::new();
    let c = ctx(0);
    assert_eq!(req::url(&mut host, &c), Some(String::new()));
    assert_eq!(req::id(&mut host, &c), Some(String::new()));
    assert_eq!(req::body_field(&mut host, &c, "nope"), Some(String::new()));
    assert_eq!(req::url_param(&mut host, &c, "nope"), Some(String::new()));
}

#[test]
fn undecodable_field_is_unrecoverable() {
    let mut host = ScriptedHost::new();
    host.add_answer(
        Query::Field { category: 0, key: b"url".to_vec() },
        vec![0xff, 0xfe],
    );
    assert_eq!(req::url(&mut host, &ctx(0)), None);
}

#[test]
fn body_raw_returns_bytes_or_nothing() {
    let mut host = ScriptedHost::new();
    host.add_answer(
        Query::Field { category: 0, key: b"body".to_vec() },
        vec![0, 159, 146, 150],
    );
    assert_eq!(req::body_raw(&mut host, &ctx(0)), vec![0, 159, 146, 150]);
    let mut empty_host = ScriptedHost::new();
    assert_eq!(req::body_raw(&mut empty_host, &ctx(0)), Vec::<u8>::new());
}

#[test]
fn to_string_decodes_utf8() {
    assert_eq!(util::to_string(b"hi".to_vec()), "hi".to_string());
    assert_eq!(util::to_string(vec![0xc3, 0xa9]), "\u{e9}".to_string());
}

#[test]
fn to_vec_and_str_to_vec_encode_utf8() {
    assert_eq!(util::to_vec("abc".to_string()), b"abc".to_vec());
    assert_eq!(util::str_to_vec("a\u{e9}b"), vec![97, 0xc3, 0xa9, 98]);
}

#[test]
fn byte_and_query_equality() {
    assert!(bytes_eq(&b"ab".to_vec(), &b"ab".to_vec()));
    assert!(!bytes_eq(&b"ab".to_vec(), &b"ac".to_vec()));
    assert!(!bytes_eq(&b"ab".to_vec(), &b"abc".to_vec()));
    let a = Query::Field { category: 1, key: b"k".to_vec() };
    let b = Query::Field { category: 1, key: b"k".to_vec() };
    let c = Query::Field { category: 2, key: b"k".to_vec() };
    let d = Query::CacheGet { key: b"k".to_vec() };
    assert!(query_eq(&a, &b));
    assert!(!query_eq(&a, &c));
    assert!(!query_eq(&a, &d));
}

#[test]
fn retrieve_reports_the_negative_code_on_absence() {
    let mut host = ScriptedHost::new();
    let q = Query::CacheGet { key: b"nope".to_vec() };
    let r = suborbital::protocol::retrieve(&mut host, &q, 16, &ctx(4));
    assert_eq!(r, Err(-1));
    assert_eq!(host.call_log.len(), 1);
    assert_eq!(host.call_log[0].1, 16);
    assert_eq!(host.call_log[0].2, 4);
}

#[test]
fn retrieve_copies_exactly_the_reported_bytes() {
    let mut host = ScriptedHost::new();
    host.add_answer(Query::CacheGet { key: b"k".to_vec() }, b"abc".to_vec());
    let q = Query::CacheGet { key: b"k".to_vec() };
    let r = suborbital::protocol::retrieve(&mut host, &q, 16, &ctx(0));
    assert_eq!(r, Ok(b"abc".to_vec()));
}
