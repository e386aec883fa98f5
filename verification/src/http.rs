//! The HTTP fetch client.
//!
//! The wire call accepts a single address string, so request headers are
//! multiplexed into the URL argument: each header is serialised as
//! `key:value`, the pairs are joined with the separator `::`, and the joined
//! string is appended to the URL after one more `::`; trailing separators are
//! trimmed. No escaping exists for `:` or `::` inside keys or values, a known
//! limitation of the format that is preserved here for compatibility (see
//! [`lemma_header_round_trip`] for the inputs on which the encoding is
//! faithfully reversible).
//!
//! Unlike the other retrieval clients, a transport failure is not surfaced as
//! absence: the literal text `request_failed:<code>` is returned as the body,
//! so callers always receive bytes.

use vstd::prelude::*;
use vstd::utf8::encode_utf8;

use crate::host::{Host, InvocationContext, Query, QueryV};
use crate::protocol::{retrieval_calls, retrieve};
use crate::util::{push_bytes, str_to_vec};

verus! {

/// Method wire code for GET.
pub const METHOD_GET: i32 = 1;

/// Method wire code for POST.
pub const METHOD_POST: i32 = 2;

/// Method wire code for PATCH.
pub const METHOD_PATCH: i32 = 3;

/// Method wire code for DELETE.
pub const METHOD_DELETE: i32 = 4;

/// The byte the header format reserves: `:`.
pub const COLON: u8 = 58;

/// Initial destination-buffer guess for HTTP bodies, which tend to be large.
pub const HTTP_INITIAL_CAPACITY: usize = 256000;

/// The pair separator `::`.
pub open spec fn sep() -> Seq<u8> {
    seq![COLON, COLON]
}

/// One serialised header pair, `key:value`.
pub open spec fn pair_bytes(k: Seq<u8>, v: Seq<u8>) -> Seq<u8> {
    k + seq![COLON] + v
}

/// All pairs serialised in order, each followed by one separator.
pub open spec fn flat_headers(hs: Seq<(Seq<u8>, Seq<u8>)>) -> Seq<u8>
    decreases hs.len(),
{
    if hs.len() == 0 {
        Seq::empty()
    } else {
        flat_headers(hs.drop_last()) + pair_bytes(hs.last().0, hs.last().1) + sep()
    }
}

/// Whether the string ends with the separator.
pub open spec fn ends_with_sep(s: Seq<u8>) -> bool {
    s.len() >= 2 && s[s.len() - 2] == COLON && s[s.len() - 1] == COLON
}

/// The string with every trailing separator removed.
pub open spec fn trim_sep(s: Seq<u8>) -> Seq<u8>
    decreases s.len(),
{
    if ends_with_sep(s) {
        trim_sep(s.take(s.len() - 2))
    } else {
        s
    }
}

/// The rendered header string: serialise, join, trim.
pub open spec fn rendered_headers(hs: Seq<(Seq<u8>, Seq<u8>)>) -> Seq<u8> {
    trim_sep(flat_headers(hs))
}

/// Header pairs as byte sequences, by UTF-8 encoding.
pub open spec fn header_views(hs: Seq<(String, String)>) -> Seq<(Seq<u8>, Seq<u8>)> {
    hs.map_values(|p: (String, String)| (encode_utf8(p.0@), encode_utf8(p.1@)))
}

/// The header list an optional header argument stands for.
pub open spec fn headers_view(headers: Option<&Vec<(String, String)>>) -> Option<
    Seq<(Seq<u8>, Seq<u8>)>,
> {
    match headers {
        Option::None => None,
        Option::Some(hs) => Some(header_views(hs@)),
    }
}

/// The single address string the host receives: the URL, and when headers
/// were given, one separator followed by the rendered header string.
pub open spec fn encoded_url(url: Seq<char>, headers: Option<Seq<(Seq<u8>, Seq<u8>)>>) -> Seq<
    u8,
> {
    match headers {
        Option::None => encode_utf8(url),
        Option::Some(hs) => encode_utf8(url) + sep() + rendered_headers(hs),
    }
}

/// Render the header pairs into the wire's joined form, `None` when no
/// headers were given at all.
pub fn render_header_string(headers: Option<&Vec<(String, String)>>) -> (r: Option<Vec<u8>>)
    ensures
        match headers {
            Option::None => r is None,
            Option::Some(hs) => r matches Some(v) && v@ == rendered_headers(header_views(hs@)),
        },
{
    let hs = match headers {
        Some(hs) => hs,
        None => {
            return None;
        },
    };
    let ghost views = header_views(hs@);
    let mut acc: Vec<u8> = Vec::new();
    let mut i: usize = 0;
    while i < hs.len()
        invariant
            i <= hs@.len(),
            views == header_views(hs@),
            acc@ == flat_headers(views.take(i as int)),
        decreases hs@.len() - i,
    {
        let ghost acc0 = acc@;
        let pair = &hs[i];
        let kb = str_to_vec(pair.0.as_str());
        push_bytes(&mut acc, &kb);
        acc.push(COLON);
        let vb = str_to_vec(pair.1.as_str());
        push_bytes(&mut acc, &vb);
        acc.push(COLON);
        acc.push(COLON);
        proof {
            assert(views.take(i + 1 as int).drop_last() =~= views.take(i as int));
            assert(views.take(i + 1 as int).last() == views[i as int]);
            assert(acc@ =~= acc0 + pair_bytes(views[i as int].0, views[i as int].1) + sep());
        }
        i = i + 1;
    }
    proof {
        assert(views.take(hs@.len() as int) =~= views);
    }
    let ghost flat = flat_headers(views);
    while acc.len() >= 2 && acc[acc.len() - 2] == COLON && acc[acc.len() - 1] == COLON
        invariant
            trim_sep(acc@) == trim_sep(flat),
        decreases acc@.len(),
    {
        proof {
            assert(ends_with_sep(acc@));
        }
        let ghost before = acc@;
        acc.pop();
        acc.pop();
        proof {
            assert(acc@ =~= before.take(before.len() - 2));
        }
    }
    proof {
        assert(!ends_with_sep(acc@));
    }
    Some(acc)
}

/// The decimal digits of a non-negative number, most significant first.
pub open spec fn dec_digits(n: nat) -> Seq<u8>
    decreases n,
{
    if n < 10 {
        seq![(48 + n) as u8]
    } else {
        dec_digits(n / 10).push((48 + n % 10) as u8)
    }
}

/// The decimal rendering of an integer, with a leading minus sign when it is
/// negative.
pub open spec fn dec_bytes(n: int) -> Seq<u8> {
    if n < 0 {
        seq![45u8] + dec_digits((-n) as nat)
    } else {
        dec_digits(n as nat)
    }
}

/// The inline failure payload for a transport error: the literal text
/// `request_failed:` followed by the host's reported code.
pub open spec fn failure_message(code: int) -> Seq<u8> {
    encode_utf8("request_failed:"@) + dec_bytes(code)
}

/// Append the decimal digits of `n`.
pub fn push_decimal(n: u32, out: &mut Vec<u8>)
    ensures
        final(out)@ == old(out)@ + dec_digits(n as nat),
    decreases n,
{
    if n < 10 {
        out.push((48 + n) as u8);
        proof {
            assert(final(out)@ =~= old(out)@ + dec_digits(n as nat));
        }
    } else {
        push_decimal(n / 10, out);
        out.push(48u8 + ((n % 10) as u8));
        proof {
            assert(final(out)@ =~= old(out)@ + dec_digits(n as nat));
        }
    }
}

/// Build the `request_failed:<code>` payload.
pub fn failure_payload(code: i32) -> (r: Vec<u8>)
    ensures
        r@ == failure_message(code as int),
{
    let mut out = str_to_vec("request_failed:");
    if code < 0 {
        out.push(45u8);
        let magnitude: u32 = (-(code as i64)) as u32;
        proof {
            assert(magnitude as int == -(code as int));
        }
        let ghost mark = out@;
        push_decimal(magnitude, &mut out);
        proof {
            assert(out@ =~= encode_utf8("request_failed:"@) + dec_bytes(code as int));
        }
    } else {
        push_decimal(code as u32, &mut out);
    }
    out
}

/// What one HTTP request does to the host and hands back: it runs the
/// retrieval protocol on the encoded query at the HTTP capacity guess, and
/// the result is the host's answer, or the inline failure payload carrying
/// the host's negative code when there is none.
pub open spec fn http_result<H: Host>(pre: H, post: H, q: QueryV, r: Seq<u8>, ident: int) -> bool {
    &&& post.inv()
    &&& crate::host::same_answers(pre, post)
    &&& post.delivered() == pre.delivered()
    &&& post.logged() == pre.logged()
    &&& post.cache_writes() == pre.cache_writes()
    &&& retrieval_calls(pre.calls(), post.calls(), q, pre.answer(q), HTTP_INITIAL_CAPACITY as int, ident)
    &&& match pre.answer(q) {
        Option::Some(v) => r == v,
        Option::None => exists|code: int| code < 0 && r == failure_message(code),
    }
}

/// The query a request with these arguments puts on the wire.
pub open spec fn http_query(
    method: int,
    url: Seq<char>,
    body: Option<Vec<u8>>,
    headers: Option<Seq<(Seq<u8>, Seq<u8>)>>,
) -> QueryV {
    QueryV::Http {
        method,
        url: encoded_url(url, headers),
        body: match body {
            Option::Some(b) => b@,
            Option::None => Seq::empty(),
        },
    }
}

/// Issue one HTTP request: encode headers into the URL, run the retrieval
/// protocol, and turn a transport failure into the inline failure payload.
pub fn do_request<H: Host>(
    host: &mut H,
    ctx: &InvocationContext,
    method: i32,
    url: &str,
    body: Option<Vec<u8>>,
    headers: Option<&Vec<(String, String)>>,
) -> (r: Vec<u8>)
    requires
        old(host).inv(),
    ensures
        http_result(
            *old(host),
            *final(host),
            http_query(method as int, url@, body, headers_view(headers)),
            r@,
            ctx.ident as int,
        ),
{
    let ghost q = http_query(method as int, url@, body, headers_view(headers));
    let url_string: Vec<u8> = match render_header_string(headers) {
        Some(h) => {
            let mut u = str_to_vec(url);
            u.push(COLON);
            u.push(COLON);
            push_bytes(&mut u, &h);
            proof {
                assert(u@ =~= encoded_url(url@, headers_view(headers)));
            }
            u
        },
        None => str_to_vec(url),
    };
    let body_bytes: Vec<u8> = match body {
        Some(b) => b,
        None => Vec::new(),
    };
    let query = Query::Http { method, url: url_string, body: body_bytes };
    proof {
        assert(query@ == q);
    }
    match retrieve(host, &query, HTTP_INITIAL_CAPACITY, ctx) {
        Ok(v) => v,
        Err(code) => {
            let payload = failure_payload(code);
            proof {
                assert(code < 0 && payload@ == failure_message(code as int));
            }
            payload
        },
    }
}

/// Perform a GET request.
pub fn get<H: Host>(
    host: &mut H,
    ctx: &InvocationContext,
    url: &str,
    headers: Option<&Vec<(String, String)>>,
) -> (r: Vec<u8>)
    requires
        old(host).inv(),
    ensures
        http_result(
            *old(host),
            *final(host),
            http_query(METHOD_GET as int, url@, None, headers_view(headers)),
            r@,
            ctx.ident as int,
        ),
{
    do_request(host, ctx, METHOD_GET, url, None, headers)
}

/// Perform a POST request.
pub fn post<H: Host>(
    host: &mut H,
    ctx: &InvocationContext,
    url: &str,
    body: Option<Vec<u8>>,
    headers: Option<&Vec<(String, String)>>,
) -> (r: Vec<u8>)
    requires
        old(host).inv(),
    ensures
        http_result(
            *old(host),
            *final(host),
            http_query(METHOD_POST as int, url@, body, headers_view(headers)),
            r@,
            ctx.ident as int,
        ),
{
    do_request(host, ctx, METHOD_POST, url, body, headers)
}

/// Perform a PATCH request.
pub fn patch<H: Host>(
    host: &mut H,
    ctx: &InvocationContext,
    url: &str,
    body: Option<Vec<u8>>,
    headers: Option<&Vec<(String, String)>>,
) -> (r: Vec<u8>)
    requires
        old(host).inv(),
    ensures
        http_result(
            *old(host),
            *final(host),
            http_query(METHOD_PATCH as int, url@, body, headers_view(headers)),
            r@,
            ctx.ident as int,
        ),
{
    do_request(host, ctx, METHOD_PATCH, url, body, headers)
}

/// Perform a DELETE request.
pub fn delete<H: Host>(
    host: &mut H,
    ctx: &InvocationContext,
    url: &str,
    headers: Option<&Vec<(String, String)>>,
) -> (r: Vec<u8>)
    requires
        old(host).inv(),
    ensures
        http_result(
            *old(host),
            *final(host),
            http_query(METHOD_DELETE as int, url@, None, headers_view(headers)),
            r@,
            ctx.ident as int,
        ),
{
    do_request(host, ctx, METHOD_DELETE, url, None, headers)
}

/// Whether a separator occurrence starts at position `i`.
pub open spec fn has_sep_at(s: Seq<u8>, i: int) -> bool {
    0 <= i && i + 2 <= s.len() && s[i] == COLON && s[i + 1] == COLON
}

/// No separator occurs anywhere in the string.
pub open spec fn sep_free(s: Seq<u8>) -> bool {
    forall|i: int| !has_sep_at(s, i)
}

/// The reserved byte occurs nowhere in the string.
pub open spec fn colon_free(s: Seq<u8>) -> bool {
    forall|i: int| 0 <= i < s.len() ==> s[i] != COLON
}

/// Split a string on every separator occurrence, leftmost first.
pub open spec fn split_sep(s: Seq<u8>) -> Seq<Seq<u8>>
    decreases s.len(),
{
    if s.len() < 2 {
        seq![s]
    } else if s[0] == COLON && s[1] == COLON {
        seq![Seq::<u8>::empty()] + split_sep(s.skip(2))
    } else {
        let rest = split_sep(s.drop_first());
        seq![seq![s[0]] + rest[0]] + rest.drop_first()
    }
}

/// Split one segment at its first reserved byte into a key and a value; a
/// segment without one is all key.
pub open spec fn split_pair(p: Seq<u8>) -> (Seq<u8>, Seq<u8>)
    decreases p.len(),
{
    if p.len() == 0 {
        (Seq::<u8>::empty(), Seq::<u8>::empty())
    } else if p[0] == COLON {
        (Seq::<u8>::empty(), p.drop_first())
    } else {
        let r = split_pair(p.drop_first());
        (seq![p[0]] + r.0, r.1)
    }
}

/// How the host is expected to demultiplex the single address string: the
/// first separator-delimited segment is the URL, and each later segment is
/// one header pair, split at its first reserved byte.
pub open spec fn decode_address(s: Seq<u8>) -> (Seq<u8>, Seq<(Seq<u8>, Seq<u8>)>) {
    let parts = split_sep(s);
    (parts[0], parts.drop_first().map_values(|p: Seq<u8>| split_pair(p)))
}

/// Splitting never loses the one segment a separator-free string is.
proof fn lemma_split_sep_free(s: Seq<u8>)
    requires
        sep_free(s),
    ensures
        split_sep(s) == seq![s],
    decreases s.len(),
{
    if s.len() >= 2 {
        assert(!has_sep_at(s, 0));
        assert(sep_free(s.drop_first())) by {
            assert forall|i: int| !has_sep_at(s.drop_first(), i) by {
                if 0 <= i && i + 2 <= s.drop_first().len() {
                    assert(s.drop_first()[i] == s[i + 1]);
                    assert(s.drop_first()[i + 1] == s[i + 2]);
                    assert(!has_sep_at(s, i + 1));
                }
            }
        }
        lemma_split_sep_free(s.drop_first());
        let rest = split_sep(s.drop_first());
        assert(rest[0] == s.drop_first());
        assert(seq![s[0]] + rest[0] =~= s);
        assert(rest.drop_first() =~= Seq::<Seq<u8>>::empty());
        assert(split_sep(s) =~= seq![s]);
    }
}

/// Splitting peels a separator-free prefix off at its separator, provided the
/// prefix does not itself end in the reserved byte.
proof fn lemma_split_sep_concat(a: Seq<u8>, b: Seq<u8>)
    requires
        sep_free(a),
        a.len() == 0 || a.last() != COLON,
    ensures
        split_sep(a + sep() + b) == seq![a] + split_sep(b),
    decreases a.len(),
{
    let s = a + sep() + b;
    if a.len() == 0 {
        assert(a =~= Seq::<u8>::empty());
        assert(s[0] == COLON && s[1] == COLON);
        assert(s.skip(2) =~= b);
        assert(split_sep(s) =~= seq![a] + split_sep(b));
    } else {
        assert(s[0] == a[0]);
        if a.len() == 1 {
            assert(s[0] == a.last());
        } else {
            assert(s[1] == a[1]);
            assert(!has_sep_at(a, 0));
        }
        assert(!(s[0] == COLON && s[1] == COLON));
        assert(sep_free(a.drop_first())) by {
            assert forall|i: int| !has_sep_at(a.drop_first(), i) by {
                if 0 <= i && i + 2 <= a.drop_first().len() {
                    assert(a.drop_first()[i] == a[i + 1]);
                    assert(a.drop_first()[i + 1] == a[i + 2]);
                    assert(!has_sep_at(a, i + 1));
                }
            }
        }
        assert(a.drop_first().len() == 0 || a.drop_first().last() != COLON);
        lemma_split_sep_concat(a.drop_first(), b);
        assert(s.drop_first() =~= a.drop_first() + sep() + b);
        let rest = split_sep(s.drop_first());
        assert(rest == seq![a.drop_first()] + split_sep(b));
        assert(rest[0] == a.drop_first());
        assert(seq![s[0]] + rest[0] =~= a);
        assert(rest.drop_first() =~= split_sep(b));
        assert(split_sep(s) =~= seq![a] + split_sep(b));
    }
}

/// Splitting a serialised pair at its first reserved byte recovers the key
/// and the value, for keys free of that byte.
proof fn lemma_split_pair(k: Seq<u8>, v: Seq<u8>)
    requires
        colon_free(k),
    ensures
        split_pair(pair_bytes(k, v)) == (k, v),
    decreases k.len(),
{
    let p = pair_bytes(k, v);
    if k.len() == 0 {
        assert(p[0] == COLON);
        assert(p.drop_first() =~= v);
        assert(split_pair(p).0 =~= k);
    } else {
        assert(p[0] == k[0]);
        assert(colon_free(k.drop_first())) by {
            assert forall|i: int| 0 <= i < k.drop_first().len() implies k.drop_first()[i]
                != COLON by {
                assert(k.drop_first()[i] == k[i + 1]);
            }
        }
        lemma_split_pair(k.drop_first(), v);
        assert(p.drop_first() =~= pair_bytes(k.drop_first(), v));
        assert(seq![p[0]] + split_pair(p.drop_first()).0 =~= k);
    }
}

/// A serialised pair with a non-empty, reserved-byte-free key and value has
/// no separator inside it and neither starts nor ends with the reserved byte.
proof fn lemma_seg_clean(k: Seq<u8>, v: Seq<u8>)
    requires
        colon_free(k),
        colon_free(v),
        k.len() > 0,
        v.len() > 0,
    ensures
        sep_free(pair_bytes(k, v)),
        pair_bytes(k, v)[0] != COLON,
        pair_bytes(k, v).last() != COLON,
        pair_bytes(k, v).len() > 0,
{
    let p = pair_bytes(k, v);
    assert forall|i: int| !has_sep_at(p, i) by {
        if 0 <= i && i + 2 <= p.len() {
            if p[i] == COLON && p[i + 1] == COLON {
                assert(i == k.len() ==> p[i + 1] == v[0]);
                assert(i < k.len() ==> p[i] == k[i]);
                assert(i > k.len() ==> p[i] == v[i - k.len() - 1]);
                assert(false);
            }
        }
    }
    assert(p[0] == k[0]);
    assert(p.last() == v.last());
}

/// The pairs joined with single separators between them.
pub open spec fn joined_headers(hs: Seq<(Seq<u8>, Seq<u8>)>) -> Seq<u8>
    decreases hs.len(),
{
    if hs.len() == 0 {
        Seq::empty()
    } else if hs.len() == 1 {
        pair_bytes(hs[0].0, hs[0].1)
    } else {
        pair_bytes(hs[0].0, hs[0].1) + sep() + joined_headers(hs.drop_first())
    }
}

/// The join decomposes at its last pair as well as at its first.
proof fn lemma_joined_snoc(hs: Seq<(Seq<u8>, Seq<u8>)>)
    requires
        hs.len() >= 2,
    ensures
        joined_headers(hs) == joined_headers(hs.drop_last()) + sep() + pair_bytes(
            hs.last().0,
            hs.last().1,
        ),
    decreases hs.len(),
{
    if hs.len() == 2 {
        assert(hs.drop_first().len() == 1);
        assert(hs.drop_first()[0] == hs[1]);
        assert(hs.drop_last().len() == 1);
        assert(hs.drop_last()[0] == hs[0]);
        assert(joined_headers(hs.drop_first()) == pair_bytes(hs[1].0, hs[1].1));
        assert(joined_headers(hs.drop_last()) == pair_bytes(hs[0].0, hs[0].1));
        assert(hs.last() == hs[1]);
        assert(joined_headers(hs) =~= joined_headers(hs.drop_last()) + sep() + pair_bytes(
            hs.last().0,
            hs.last().1,
        ));
    } else {
        let tail = hs.drop_first();
        lemma_joined_snoc(tail);
        assert(tail.drop_last() =~= hs.drop_last().drop_first());
        assert(tail.last() == hs.last());
        assert(hs.drop_last().len() >= 2);
        assert(hs.drop_last()[0] == hs[0]);
        assert(joined_headers(tail) == joined_headers(hs.drop_last().drop_first()) + sep()
            + pair_bytes(hs.last().0, hs.last().1));
        assert(joined_headers(hs.drop_last()) == pair_bytes(hs[0].0, hs[0].1) + sep()
            + joined_headers(hs.drop_last().drop_first()));
        assert(joined_headers(hs) =~= joined_headers(hs.drop_last()) + sep() + pair_bytes(
            hs.last().0,
            hs.last().1,
        ));
    }
}

/// The rendered flat form is the join followed by one trailing separator.
proof fn lemma_flat_joined(hs: Seq<(Seq<u8>, Seq<u8>)>)
    requires
        hs.len() > 0,
    ensures
        flat_headers(hs) == joined_headers(hs) + sep(),
    decreases hs.len(),
{
    if hs.len() == 1 {
        assert(hs.drop_last().len() == 0);
        assert(flat_headers(hs.drop_last()) =~= Seq::<u8>::empty());
        assert(flat_headers(hs) =~= joined_headers(hs) + sep());
    } else {
        lemma_flat_joined(hs.drop_last());
        lemma_joined_snoc(hs);
        assert(hs.drop_last().last() == hs[hs.len() - 2]);
        assert(flat_headers(hs) =~= joined_headers(hs) + sep());
    }
}

/// Trimming removes exactly the one trailing separator after a string that
/// does not end in the reserved byte.
proof fn lemma_trim_one(x: Seq<u8>)
    requires
        x.len() == 0 || x.last() != COLON,
    ensures
        trim_sep(x + sep()) == x,
{
    let s = x + sep();
    assert(ends_with_sep(s));
    assert(s.take(s.len() - 2) =~= x);
    assert(!ends_with_sep(x));
    assert(trim_sep(x) == x);
    assert(trim_sep(s) == trim_sep(x));
}

/// Well-formed pairs: non-empty keys and values, free of the reserved byte.
pub open spec fn clean_pairs(hs: Seq<(Seq<u8>, Seq<u8>)>) -> bool {
    forall|i: int|
        0 <= i < hs.len() ==> colon_free(#[trigger] hs[i].0) && colon_free(hs[i].1) && hs[i].0.len()
            > 0 && hs[i].1.len() > 0
}

/// A join of well-formed pairs ends with a value's last byte.
proof fn lemma_joined_last(hs: Seq<(Seq<u8>, Seq<u8>)>)
    requires
        hs.len() > 0,
        clean_pairs(hs),
    ensures
        joined_headers(hs).len() > 0,
        joined_headers(hs).last() != COLON,
{
    if hs.len() == 1 {
        lemma_seg_clean(hs[0].0, hs[0].1);
    } else {
        lemma_joined_snoc(hs);
        lemma_seg_clean(hs.last().0, hs.last().1);
        let j = joined_headers(hs.drop_last()) + sep() + pair_bytes(hs.last().0, hs.last().1);
        assert(j.last() == pair_bytes(hs.last().0, hs.last().1).last());
    }
}

/// Splitting a join of well-formed pairs recovers exactly the serialised
/// segments.
proof fn lemma_split_joined(hs: Seq<(Seq<u8>, Seq<u8>)>)
    requires
        hs.len() > 0,
        clean_pairs(hs),
    ensures
        split_sep(joined_headers(hs)) == hs.map_values(
            |p: (Seq<u8>, Seq<u8>)| pair_bytes(p.0, p.1),
        ),
    decreases hs.len(),
{
    let segf = |p: (Seq<u8>, Seq<u8>)| pair_bytes(p.0, p.1);
    if hs.len() == 1 {
        lemma_seg_clean(hs[0].0, hs[0].1);
        lemma_split_sep_free(pair_bytes(hs[0].0, hs[0].1));
        assert(split_sep(joined_headers(hs)) =~= hs.map_values(segf));
    } else {
        let tail = hs.drop_first();
        assert(clean_pairs(tail)) by {
            assert forall|i: int| 0 <= i < tail.len() implies colon_free(#[trigger] tail[i].0)
                && colon_free(tail[i].1) && tail[i].0.len() > 0 && tail[i].1.len() > 0 by {
                assert(tail[i] == hs[i + 1]);
            }
        }
        lemma_split_joined(tail);
        lemma_seg_clean(hs[0].0, hs[0].1);
        lemma_split_sep_concat(pair_bytes(hs[0].0, hs[0].1), joined_headers(tail));
        assert(split_sep(joined_headers(hs)) =~= hs.map_values(segf));
    }
}

/// The header wire format is a faithful round trip on its well-formed inputs:
/// for a URL free of the separator and not ending in the reserved byte, and
/// header pairs with non-empty keys and values containing no reserved byte,
/// the expected demultiplexing of the encoded address string recovers the
/// URL's bytes and every pair, in order. (Outside these inputs the format is
/// ambiguous — there is no escaping — which is a known limitation.)
pub proof fn lemma_header_round_trip(url: Seq<char>, hs: Seq<(Seq<u8>, Seq<u8>)>)
    requires
        sep_free(encode_utf8(url)),
        encode_utf8(url).len() == 0 || encode_utf8(url).last() != COLON,
        hs.len() > 0,
        clean_pairs(hs),
    ensures
        decode_address(encoded_url(url, Some(hs))) == (encode_utf8(url), hs),
{
    let u = encode_utf8(url);
    let segf = |p: (Seq<u8>, Seq<u8>)| pair_bytes(p.0, p.1);
    lemma_flat_joined(hs);
    lemma_joined_last(hs);
    lemma_trim_one(joined_headers(hs));
    assert(rendered_headers(hs) == joined_headers(hs));
    lemma_split_sep_concat(u, joined_headers(hs));
    lemma_split_joined(hs);
    let parts = split_sep(encoded_url(url, Some(hs)));
    assert(parts == seq![u] + hs.map_values(segf));
    assert(parts[0] == u);
    assert(parts.drop_first() =~= hs.map_values(segf));
    let decoded = parts.drop_first().map_values(|p: Seq<u8>| split_pair(p));
    assert(decoded =~= hs) by {
        assert forall|i: int| 0 <= i < hs.len() implies decoded[i] == hs[i] by {
            assert(parts.drop_first()[i] == pair_bytes(hs[i].0, hs[i].1));
            lemma_split_pair(hs[i].0, hs[i].1);
        }
    }
}

/// Without headers the address string is the URL alone, and demultiplexing
/// yields it back with no pairs, provided the URL is free of the separator.
pub proof fn lemma_url_round_trip_no_headers(url: Seq<char>)
    requires
        sep_free(encode_utf8(url)),
    ensures
        decode_address(encoded_url(url, None)) == (
            encode_utf8(url),
            Seq::<(Seq<u8>, Seq<u8>)>::empty(),
        ),
{
    lemma_split_sep_free(encode_utf8(url));
    let parts = split_sep(encoded_url(url, None));
    assert(parts.drop_first() =~= Seq::<Seq<u8>>::empty());
    assert(parts.drop_first().map_values(|p: Seq<u8>| split_pair(p)) =~= Seq::<
        (Seq<u8>, Seq<u8>),
    >::empty());
}

} // verus!
