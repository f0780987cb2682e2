//! The HTTP side of the PAC server: what a request asks for (read from its
//! first line, as a tolerant server does) and the response it gets.

use vstd::prelude::*;
use vstd::string::StringExecFns;
use vstd::utf8::{decode_utf8, encode_utf8, is_ascii_chars, valid_utf8};
use crate::pac::{make_setup_html, setup_html_text};
use crate::text::{
    ascii_upper, ascii_upper_seq, chars_of, decimal, decimal_reads_back, digits_value, is_digit, has_prefix, same_chars, is_white_space, lemma_trim_start_skip, push_decimal,
    starts_with, trim_start, white_space,
};
use crate::unicode::{unicode_uppercase, uppercase, utf8_text};

verus! {

/// What a request is answered with.
#[derive(PartialEq, Eq, Structural, Clone, Copy, Debug)]
pub enum Route {
    /// The application logo (`GET /logo`).
    Logo,
    /// The PAC script (`GET /proxy.pac`).
    PacScript,
    /// The setup page (`GET /`, or an empty path).
    SetupPage,
    /// Anything else, and every request that is not a `GET`.
    NotFound,
}

/// The answer to one request: for the logo, the header to send before the
/// image bytes; otherwise the whole response.
pub enum PacReply {
    Logo { header: String },
    Page { response: String },
}

pub const RESPONSE_START: &'static str = "HTTP/1.1 ";

pub const CONTENT_TYPE_FIELD: &'static str = "\r\nContent-Type: ";

/// The fields between the content type and the length: the connection
/// closes, and nothing may be cached, so devices always fetch the current
/// PAC script.
pub const NO_CACHE_FIELDS: &'static str =
    "\r\nConnection: close\r\nCache-Control: no-cache, no-store, must-revalidate\r\nPragma: no-cache\r\nExpires: 0\r\nContent-Length: ";

pub const HEADER_END: &'static str = "\r\n\r\n";

pub const LOGO_HEADER_START: &'static str =
    "HTTP/1.1 200 OK\r\nContent-Type: image/png\r\nConnection: close\r\nContent-Length: ";

pub const STATUS_OK: &'static str = "200 OK";

pub const STATUS_NOT_FOUND: &'static str = "404 Not Found";

pub const CONTENT_TYPE_TEXT: &'static str = "text/plain";

pub const CONTENT_TYPE_PAC: &'static str = "application/x-ns-proxy-autoconfig";

pub const CONTENT_TYPE_HTML: &'static str = "text/html; charset=utf-8";

/// The request as text: its UTF-8 decoding, or nothing when the bytes are
/// not well-formed UTF-8.
pub open spec fn request_text(bytes: Seq<u8>) -> Seq<char> {
    if valid_utf8(bytes) {
        decode_utf8(bytes)
    } else {
        seq![]
    }
}

/// The characters of `s` before the first `c` (all of `s` if there is none).
pub open spec fn take_until(s: Seq<char>, c: char) -> Seq<char>
    decreases s.len(),
{
    if s.len() == 0 || s[0] == c {
        seq![]
    } else {
        seq![s[0]] + take_until(s.drop_first(), c)
    }
}

/// The first line of `s` as `str::lines` yields it: up to the first line
/// feed, without a carriage return just before it; empty for empty text.
pub open spec fn first_line(s: Seq<char>) -> Seq<char> {
    let l = take_until(s, '\n');
    if s.contains('\n') && l.len() > 0 && l.last() == '\r' {
        l.drop_last()
    } else {
        l
    }
}

/// The number of leading characters of `s` that are not white space.
pub open spec fn word_len(s: Seq<char>) -> nat
    decreases s.len(),
{
    if s.len() == 0 || is_white_space(s[0]) {
        0
    } else {
        1 + word_len(s.drop_first())
    }
}

/// The second white-space separated word of `s`, if any.
pub open spec fn second_word(s: Seq<char>) -> Option<Seq<char>> {
    let t = trim_start(s);
    let u = trim_start(t.skip(word_len(t) as int));
    if t.len() == 0 || u.len() == 0 {
        None
    } else {
        Some(u.take(word_len(u) as int))
    }
}

/// The requested path: the second word of the request line, without its
/// query; `/` when the line has no second word.
pub open spec fn path_of(line: Seq<char>) -> Seq<char> {
    match second_word(line) {
        Some(target) => take_until(target, '?'),
        None => seq!['/'],
    }
}

pub open spec fn get_prefix() -> Seq<char> {
    seq!['G', 'E', 'T', ' ']
}

pub open spec fn logo_path() -> Seq<char> {
    seq!['/', 'l', 'o', 'g', 'o']
}

pub open spec fn pac_path() -> Seq<char> {
    seq!['/', 'p', 'r', 'o', 'x', 'y', '.', 'p', 'a', 'c']
}

/// Whether a request line, once upper-cased, names the `GET` method.
pub open spec fn is_get_line(upper_line: Seq<char>) -> bool {
    starts_with(upper_line, get_prefix())
}

/// What a request with this method test and path is answered with.
pub open spec fn route_for(is_get: bool, path: Seq<char>) -> Route {
    if is_get && path == logo_path() {
        Route::Logo
    } else if !is_get {
        Route::NotFound
    } else if path == pac_path() {
        Route::PacScript
    } else if path == seq!['/'] || path.len() == 0 {
        Route::SetupPage
    } else {
        Route::NotFound
    }
}

/// Whether the first four characters of the line, with ASCII letters
/// raised to capitals, are `GET `: the method test on a line that begins
/// with ASCII.
pub open spec fn ascii_get_line(line: Seq<char>) -> bool {
    line.len() >= 4 && ascii_upper_seq(line.take(4)) == get_prefix()
}

/// What a request line that begins with ASCII is answered with.
pub open spec fn ascii_route(line: Seq<char>) -> Route {
    route_for(ascii_get_line(line), path_of(line))
}

/// Whether the method test of the line only reads ASCII characters.
pub open spec fn ascii_method_part(line: Seq<char>) -> bool {
    (line.len() >= 4 && is_ascii_chars(line.take(4))) || is_ascii_chars(line)
}

/// What the raw request bytes are answered with.
pub open spec fn route_of_request(request: Seq<u8>) -> Route {
    let line = first_line(request_text(request));
    route_for(is_get_line(unicode_uppercase(line)), path_of(line))
}

/// A complete response: status line, content type, the no-cache fields, the
/// length of the body in bytes, and the body.
pub open spec fn response_text(status: Seq<char>, content_type: Seq<char>, body: Seq<char>) -> Seq<
    char,
> {
    RESPONSE_START@ + status + CONTENT_TYPE_FIELD@ + content_type + NO_CACHE_FIELDS@ + decimal(
        encode_utf8(body).len(),
    ) + HEADER_END@ + body
}

/// The header that precedes an image of `len` bytes.
pub open spec fn logo_header_text(len: nat) -> Seq<char> {
    LOGO_HEADER_START@ + decimal(len) + HEADER_END@
}

/// The full response for a route other than the logo.
pub open spec fn page_text(route: Route, pac_body: Seq<char>, pac_url: Seq<char>) -> Seq<char> {
    match route {
        Route::PacScript => response_text(STATUS_OK@, CONTENT_TYPE_PAC@, pac_body),
        Route::SetupPage => response_text(STATUS_OK@, CONTENT_TYPE_HTML@, setup_html_text(pac_url)),
        _ => response_text(STATUS_NOT_FOUND@, CONTENT_TYPE_TEXT@, seq![]),
    }
}

proof fn lemma_take_until(s: Seq<char>, c: char, k: int)
    requires
        0 <= k <= s.len(),
        forall|j: int| 0 <= j < k ==> s[j] != c,
        k == s.len() || s[k] == c,
    ensures
        take_until(s, c) == s.take(k),
        s.contains(c) <==> k < s.len(),
    decreases k,
{
    if k > 0 {
        lemma_take_until(s.drop_first(), c, k - 1);
        assert(seq![s[0]] + s.drop_first().take(k - 1) == s.take(k));
        if s.contains(c) {
            let j = choose|j: int| 0 <= j < s.len() && s[j] == c;
            if j > 0 {
                assert(s.drop_first()[j - 1] == c);
            }
        }
        if s.drop_first().contains(c) {
            let j = choose|j: int| 0 <= j < s.drop_first().len() && s.drop_first()[j] == c;
            assert(s[j + 1] == c);
        }
    } else {
        if k < s.len() {
            assert(s[0] == c);
        }
    }
}

proof fn lemma_word_len(s: Seq<char>, k: int)
    requires
        0 <= k <= s.len(),
        forall|j: int| 0 <= j < k ==> !is_white_space(#[trigger] s[j]),
        k == s.len() || is_white_space(s[k]),
    ensures
        word_len(s) == k,
    decreases k,
{
    if k > 0 {
        assert(!is_white_space(s[0]));
        assert forall|j: int| 0 <= j < k - 1 implies !is_white_space(
            #[trigger] s.drop_first()[j],
        ) by {
            assert(s.drop_first()[j] == s[j + 1]);
        }
        lemma_word_len(s.drop_first(), k - 1);
    }
}

/// What each request is answered with, the paths written out: the PAC
/// script for a `GET` of `/proxy.pac`, the logo for a `GET` of `/logo`, the
/// setup page for a `GET` of `/` or of the empty path, and "not found"
/// otherwise.
pub proof fn routes_by_method_and_path(is_get: bool, path: Seq<char>)
    ensures
        route_for(is_get, path) == Route::PacScript <==> is_get && path == seq![
            '/',
            'p',
            'r',
            'o',
            'x',
            'y',
            '.',
            'p',
            'a',
            'c',
        ],
        route_for(is_get, path) == Route::Logo <==> is_get && path == seq!['/', 'l', 'o', 'g', 'o'],
        route_for(is_get, path) == Route::SetupPage <==> is_get && (path == seq!['/'] || path.len()
            == 0),
        route_for(is_get, path) == Route::NotFound <==> !is_get || (path != seq![
            '/',
            'p',
            'r',
            'o',
            'x',
            'y',
            '.',
            'p',
            'a',
            'c',
        ] && path != seq!['/', 'l', 'o', 'g', 'o'] && path != seq!['/'] && path.len() != 0),
{
    assert(seq!['/', 'l', 'o', 'g', 'o'] != seq!['/', 'p', 'r', 'o', 'x', 'y', '.', 'p', 'a', 'c']) by {
        assert(seq!['/', 'l', 'o', 'g', 'o'].len() != seq!['/', 'p', 'r', 'o', 'x', 'y', '.', 'p', 'a', 'c'].len());
    }
    assert(seq!['/'] != seq!['/', 'l', 'o', 'g', 'o']) by {
        assert(seq!['/'].len() != seq!['/', 'l', 'o', 'g', 'o'].len());
    }
    assert(seq!['/'] != seq!['/', 'p', 'r', 'o', 'x', 'y', '.', 'p', 'a', 'c']) by {
        assert(seq!['/'].len() != seq!['/', 'p', 'r', 'o', 'x', 'y', '.', 'p', 'a', 'c'].len());
    }
}

/// A response declares, in decimal digits, exactly the number of bytes of
/// its body's UTF-8 encoding, and ends with the body.
pub proof fn response_declares_body_length(status: Seq<char>, content_type: Seq<char>, body: Seq<char>)
    ensures
        exists|digits: Seq<char>|
            #[trigger] (RESPONSE_START@ + status + CONTENT_TYPE_FIELD@ + content_type
                + NO_CACHE_FIELDS@ + digits + HEADER_END@ + body) == response_text(
                status,
                content_type,
                body,
            ) && digits.len() > 0 && (forall|i: int|
                0 <= i < digits.len() ==> is_digit(#[trigger] digits[i])) && digits_value(digits)
                == encode_utf8(body).len(),
{
    decimal_reads_back(encode_utf8(body).len());
    let d = decimal(encode_utf8(body).len());
    assert(RESPONSE_START@ + status + CONTENT_TYPE_FIELD@ + content_type + NO_CACHE_FIELDS@ + d
        + HEADER_END@ + body == response_text(status, content_type, body));
}

/// Only `GET` requests are served: any other method gets "not found",
/// whatever the path.
pub proof fn only_get_requests_are_served(path: Seq<char>)
    ensures
        route_for(false, path) == Route::NotFound,
{
}

/// The query of a request target does not change what is served: the path
/// is the target up to its first `?`.
pub proof fn query_is_ignored(target: Seq<char>, query: Seq<char>)
    requires
        !target.contains('?'),
    ensures
        take_until(target + seq!['?'] + query, '?') == target,
    decreases target.len(),
{
    let whole = target + seq!['?'] + query;
    if target.len() == 0 {
        assert(whole[0] == '?');
    } else {
        assert(whole[0] == target[0]);
        assert(target[0] != '?') by {
            if target[0] == '?' {
                assert(target.contains('?'));
            }
        }
        let rest = target.drop_first();
        assert(!rest.contains('?')) by {
            if rest.contains('?') {
                let j = choose|j: int| 0 <= j < rest.len() && rest[j] == '?';
                assert(target[j + 1] == '?');
            }
        }
        query_is_ignored(rest, query);
        assert(whole.drop_first() == rest + seq!['?'] + query);
        assert(seq![target[0]] + rest == target);
    }
}

/// Every response other than the logo's is a complete response that forbids
/// caching and declares the length of its body in bytes.
pub proof fn pages_declare_length_and_forbid_caching(
    route: Route,
    pac_body: Seq<char>,
    pac_url: Seq<char>,
)
    ensures
        exists|status: Seq<char>, content_type: Seq<char>, body: Seq<char>|
            #[trigger] response_text(status, content_type, body) == page_text(route, pac_body, pac_url)
                && page_text(route, pac_body, pac_url) == RESPONSE_START@ + status
                + CONTENT_TYPE_FIELD@ + content_type + NO_CACHE_FIELDS@ + decimal(
                encode_utf8(body).len(),
            ) + HEADER_END@ + body,
{
    match route {
        Route::PacScript => {
            assert(response_text(STATUS_OK@, CONTENT_TYPE_PAC@, pac_body) == page_text(route, pac_body, pac_url));
        },
        Route::SetupPage => {
            let b = crate::pac::setup_html_text(pac_url);
            assert(response_text(STATUS_OK@, CONTENT_TYPE_HTML@, b) == page_text(route, pac_body, pac_url));
        },
        _ => {
            let e: Seq<char> = seq![];
            assert(response_text(STATUS_NOT_FOUND@, CONTENT_TYPE_TEXT@, e) == page_text(route, pac_body, pac_url));
        },
    }
}

proof fn lemma_ascii_upper_concat(a: Seq<char>, b: Seq<char>)
    ensures
        ascii_upper_seq(a + b) == ascii_upper_seq(a) + ascii_upper_seq(b),
{
    assert(ascii_upper_seq(a + b) =~= ascii_upper_seq(a) + ascii_upper_seq(b));
}

proof fn lemma_path_of_shape(m: Seq<char>, sep: Seq<char>, word: Seq<char>, tail: Seq<char>)
    requires
        m.len() > 0,
        forall|i: int| 0 <= i < m.len() ==> !is_white_space(#[trigger] m[i]),
        sep.len() > 0,
        forall|i: int| 0 <= i < sep.len() ==> is_white_space(#[trigger] sep[i]),
        word.len() > 0,
        forall|i: int| 0 <= i < word.len() ==> !is_white_space(#[trigger] word[i]),
        tail.len() == 0 || is_white_space(tail[0]),
    ensures
        second_word(m + sep + word + tail) == Some(word),
{
    let s = m + sep + word + tail;
    assert(s[0] == m[0]);
    assert(trim_start(s) == s);
    assert forall|j: int| 0 <= j < m.len() implies !is_white_space(#[trigger] s[j]) by {
        assert(s[j] == m[j]);
    }
    assert(s[m.len() as int] == sep[0]);
    lemma_word_len(s, m.len() as int);
    let after = s.skip(m.len() as int);
    assert(after == sep + word + tail);
    assert forall|j: int| 0 <= j < sep.len() implies is_white_space(#[trigger] after[j]) by {
        assert(after[j] == sep[j]);
    }
    lemma_trim_start_skip(after, sep.len() as int);
    let u = after.skip(sep.len() as int);
    assert(u == word + tail);
    assert(u[0] == word[0]);
    assert(trim_start(u) == u);
    assert forall|j: int| 0 <= j < word.len() implies !is_white_space(#[trigger] u[j]) by {
        assert(u[j] == word[j]);
    }
    if tail.len() > 0 {
        assert(u[word.len() as int] == tail[0]);
    }
    lemma_word_len(u, word.len() as int);
    assert(u.take(word.len() as int) == word);
}

proof fn lemma_take4_ascii(m: Seq<char>, sep: Seq<char>, t: Seq<char>, tail: Seq<char>)
    requires
        is_ascii_chars(m),
        is_ascii_chars(sep),
        m.len() + sep.len() >= 4 || (is_ascii_chars(t) && m.len() + sep.len() + t.len() >= 4),
    ensures
        (m + sep + t + tail).len() >= 4,
        is_ascii_chars((m + sep + t + tail).take(4)),
        (m + sep + t + tail).take(4) == (m + sep + t).take(4),
{
    let l = m + sep + t + tail;
    let p = m + sep + t;
    assert(l.take(4) == p.take(4));
    assert forall|i: int| 0 <= i < p.take(4).len() implies '\0' <= #[trigger] p.take(4)[i]
        <= '\u{7f}' by {
        if i < m.len() {
            assert(p.take(4)[i] == m[i]);
        } else if i < m.len() + sep.len() {
            assert(p.take(4)[i] == sep[i - m.len()]);
        } else {
            assert(p.take(4)[i] == t[i - m.len() - sep.len()]);
        }
    }
}

/// With a method of fewer than three characters before the white space, no
/// line can pass the `GET ` test.
proof fn lemma_short_method_is_not_get(m: Seq<char>, sep: Seq<char>, t: Seq<char>, tail: Seq<char>)
    requires
        m.len() + sep.len() < 4,
        sep.len() > 0,
        forall|i: int| 0 <= i < sep.len() ==> is_white_space(#[trigger] sep[i]),
    ensures
        !ascii_get_line(m + sep + t + tail),
{
    let l = m + sep + t + tail;
    if l.len() >= 4 {
        let k = m.len() as int;
        assert(l.take(4)[k] == sep[0]);
        assert(is_white_space(sep[0]));
        assert(ascii_upper(sep[0]) == sep[0]);
        assert(ascii_upper_seq(l.take(4))[k] == sep[0]);
        assert(!is_white_space(get_prefix()[k]));
    }
}

/// Two request lines that differ only in the letter case of the method and
/// in what follows a `?` in the request target are answered alike: both ask
/// for the target up to its first `?`, and either both pass the `GET ` test
/// or neither does. Both lines begin with ASCII, so `classify_request` and
/// `handle_pac_request` answer them by `ascii_route`. The target need not
/// be ASCII when method and white space already fill the four characters
/// that the method test reads.
pub proof fn method_case_and_query_do_not_matter(
    m1: Seq<char>,
    m2: Seq<char>,
    sep: Seq<char>,
    t1: Seq<char>,
    t2: Seq<char>,
    tail: Seq<char>,
)
    requires
        m1.len() > 0,
        ascii_upper_seq(m1) == ascii_upper_seq(m2),
        is_ascii_chars(m1),
        is_ascii_chars(m2),
        forall|i: int| 0 <= i < m1.len() ==> !is_white_space(#[trigger] m1[i]),
        forall|i: int| 0 <= i < m2.len() ==> !is_white_space(#[trigger] m2[i]),
        sep.len() > 0,
        is_ascii_chars(sep),
        forall|i: int| 0 <= i < sep.len() ==> is_white_space(#[trigger] sep[i]),
        t1.len() > 0,
        t2.len() > 0,
        forall|i: int| 0 <= i < t1.len() ==> !is_white_space(#[trigger] t1[i]),
        forall|i: int| 0 <= i < t2.len() ==> !is_white_space(#[trigger] t2[i]),
        take_until(t1, '?') == take_until(t2, '?'),
        tail.len() == 0 || is_white_space(tail[0]),
        m1.len() + sep.len() >= 4 || (is_ascii_chars(t1) && is_ascii_chars(t2) && m1.len()
            + sep.len() + t1.len() >= 4 && m1.len() + sep.len() + t2.len() >= 4),
    ensures
        ({
            let l1 = m1 + sep + t1 + tail;
            let l2 = m2 + sep + t2 + tail;
            &&& ascii_method_part(l1)
            &&& ascii_method_part(l2)
            &&& path_of(l1) == take_until(t1, '?')
            &&& path_of(l2) == take_until(t1, '?')
            &&& ascii_route(l1) == ascii_route(l2)
        }),
{
    let l1 = m1 + sep + t1 + tail;
    let l2 = m2 + sep + t2 + tail;
    assert(m2.len() == ascii_upper_seq(m2).len());
    lemma_path_of_shape(m1, sep, t1, tail);
    lemma_path_of_shape(m2, sep, t2, tail);
    lemma_take4_ascii(m1, sep, t1, tail);
    lemma_take4_ascii(m2, sep, t2, tail);
    if m1.len() + sep.len() >= 4 {
        let p1 = m1 + sep;
        let p2 = m2 + sep;
        assert((m1 + sep + t1).take(4) == p1.take(4));
        assert((m2 + sep + t2).take(4) == p2.take(4));
        lemma_ascii_upper_concat(m1, sep);
        lemma_ascii_upper_concat(m2, sep);
        assert(ascii_upper_seq(p1.take(4)) =~= ascii_upper_seq(p1).take(4));
        assert(ascii_upper_seq(p2.take(4)) =~= ascii_upper_seq(p2).take(4));
    } else {
        lemma_short_method_is_not_get(m1, sep, t1, tail);
        lemma_short_method_is_not_get(m2, sep, t2, tail);
    }
}

/// The index of the first `c` in `s` at or after `from`, or `s.len()`.
fn find_char(s: &[char], c: char, from: usize) -> (k: usize)
    requires
        from <= s.len(),
    ensures
        from <= k <= s.len(),
        forall|j: int| from <= j < k ==> s@[j] != c,
        k == s.len() || s@[k as int] == c,
{
    let mut k: usize = from;
    while k < s.len() && s[k] != c
        invariant
            from <= k <= s.len(),
            forall|j: int| from <= j < k ==> s@[j] != c,
        decreases s.len() - k,
    {
        k = k + 1;
    }
    k
}

/// The index of the first white-space character at or after `from`, or
/// `s.len()`.
fn find_white_space(s: &[char], from: usize) -> (k: usize)
    requires
        from <= s.len(),
    ensures
        from <= k <= s.len(),
        forall|j: int| from <= j < k ==> !is_white_space(#[trigger] s@[j]),
        k == s.len() || is_white_space(s@[k as int]),
{
    let mut k: usize = from;
    while k < s.len() && !white_space(s[k])
        invariant
            from <= k <= s.len(),
            forall|j: int| from <= j < k ==> !is_white_space(#[trigger] s@[j]),
        decreases s.len() - k,
    {
        k = k + 1;
    }
    k
}

/// The index of the first character that is not white space at or after
/// `from`, or `s.len()`.
fn skip_white_space(s: &[char], from: usize) -> (k: usize)
    requires
        from <= s.len(),
    ensures
        from <= k <= s.len(),
        forall|j: int| from <= j < k ==> is_white_space(#[trigger] s@[j]),
        k == s.len() || !is_white_space(s@[k as int]),
{
    let mut k: usize = from;
    while k < s.len() && white_space(s[k])
        invariant
            from <= k <= s.len(),
            forall|j: int| from <= j < k ==> is_white_space(#[trigger] s@[j]),
        decreases s.len() - k,
    {
        k = k + 1;
    }
    k
}

fn copy_range(s: &[char], from: usize, to: usize) -> (v: Vec<char>)
    requires
        from <= to <= s.len(),
    ensures
        v@ == s@.subrange(from as int, to as int),
{
    let mut v: Vec<char> = Vec::new();
    let mut k: usize = from;
    while k < to
        invariant
            from <= k <= to <= s.len(),
            v@ == s@.subrange(from as int, k as int),
        decreases to - k,
    {
        v.push(s[k]);
        assert(s@.subrange(from as int, k + 1) == s@.subrange(from as int, k as int).push(
            s@[k as int],
        ));
        k = k + 1;
    }
    v
}

/// The first line of the request, as the server reads it.
pub fn request_line(request: &[u8]) -> (line: Vec<char>)
    ensures
        line@ == first_line(request_text(request@)),
{
    let text: Vec<char> = match utf8_text(request) {
        Some(s) => chars_of(s),
        None => Vec::new(),
    };
    assert(text@ == request_text(request@));
    let k: usize = find_char(&text, '\n', 0);
    proof {
        lemma_take_until(text@, '\n', k as int);
    }
    if k < text.len() && k > 0 && text[k - 1] == '\r' {
        copy_range(&text, 0, k - 1)
    } else {
        copy_range(&text, 0, k)
    }
}

/// The path that a request line asks for.
pub fn request_path(line: &[char]) -> (path: Vec<char>)
    ensures
        path@ == path_of(line@),
{
    let n: usize = line.len();
    let a: usize = skip_white_space(line, 0);
    let b: usize = find_white_space(line, a);
    let c: usize = skip_white_space(line, b);
    let d: usize = find_white_space(line, c);
    proof {
        let s = line@;
        lemma_trim_start_skip(s, a as int);
        assert(trim_start(s.skip(a as int)) == s.skip(a as int));
        let t = s.skip(a as int);
        assert forall|j: int| 0 <= j < b - a implies !is_white_space(#[trigger] t[j]) by {
            assert(t[j] == s[j + a]);
        }
        lemma_word_len(t, b - a);
        assert(t.skip(b - a) == s.skip(b as int));
        lemma_trim_start_skip(s.skip(b as int), c - b);
        assert(s.skip(b as int).skip(c - b) == s.skip(c as int));
        let u = s.skip(c as int);
        assert forall|j: int| 0 <= j < c - b implies is_white_space(
            #[trigger] s.skip(b as int)[j],
        ) by {
            assert(s.skip(b as int)[j] == s[j + b]);
        }
        if c < n {
            assert(u[0] == s[c as int]);
        }
        assert(trim_start(u) == u);
        assert forall|j: int| 0 <= j < d - c implies !is_white_space(#[trigger] u[j]) by {
            assert(u[j] == s[j + c]);
        }
        lemma_word_len(u, d - c);
        assert(u.take(d - c) == s.subrange(c as int, d as int));
        if a < n {
            assert(t[0] == s[a as int]);
        }
    }
    if a == n || c == n {
        let mut root: Vec<char> = Vec::new();
        root.push('/');
        assert(root@ =~= seq!['/']);
        return root;
    }
    let target = copy_range(line, c, d);
    let q: usize = find_char(&target, '?', 0);
    proof {
        lemma_take_until(target@, '?', q as int);
    }
    copy_range(&target, 0, q)
}

/// Whether an upper-cased request line names the `GET` method.
pub fn is_get_request(upper_line: &str) -> (is_get: bool)
    ensures
        is_get == is_get_line(upper_line@),
{
    let chars = chars_of(upper_line);
    let prefix: [char; 4] = ['G', 'E', 'T', ' '];
    assert(prefix@ =~= get_prefix());
    has_prefix(&chars, &prefix)
}

/// What a request with this method test and path is answered with.
pub fn route_request(is_get: bool, path: &[char]) -> (route: Route)
    ensures
        route == route_for(is_get, path@),
{
    let logo: [char; 5] = ['/', 'l', 'o', 'g', 'o'];
    let pac: [char; 10] = ['/', 'p', 'r', 'o', 'x', 'y', '.', 'p', 'a', 'c'];
    let root: [char; 1] = ['/'];
    assert(logo@ =~= logo_path());
    assert(pac@ =~= pac_path());
    assert(root@ =~= seq!['/']);
    if is_get && same_chars(path, &logo) {
        Route::Logo
    } else if !is_get {
        Route::NotFound
    } else if same_chars(path, &pac) {
        Route::PacScript
    } else if same_chars(path, &root) || path.len() == 0 {
        Route::SetupPage
    } else {
        Route::NotFound
    }
}

/// What the raw bytes of a request are answered with.
pub fn classify_request(request: &[u8]) -> (route: Route)
    ensures
        route == route_of_request(request@),
        ascii_method_part(first_line(request_text(request@))) ==> route_of_request(request@)
            == ascii_route(first_line(request_text(request@))),
{
    let line = request_line(request);
    let line_text = crate::text::string_of(&line);
    let upper = uppercase(line_text.as_str());
    let is_get = is_get_request(upper.as_str());
    proof {
        let l = line@;
        let u = upper@;
        if ascii_method_part(l) {
            if l.len() >= 4 {
                if !is_ascii_chars(l.take(4)) {
                    assert(is_ascii_chars(l.take(4))) by {
                        assert forall|i: int| 0 <= i < l.take(4).len() implies '\0' <= #[trigger] l.take(
                            4,
                        )[i] <= '\u{7f}' by {
                            assert(l.take(4)[i] == l[i]);
                        }
                    }
                }
                assert(u.take(4) == ascii_upper_seq(l.take(4)));
                assert(is_get == ascii_get_line(l));
            } else {
                assert(u == ascii_upper_seq(l));
                assert(u.len() < 4);
                assert(is_get == ascii_get_line(l));
            }
        }
    }
    let path = request_path(&line);
    route_request(is_get, &path)
}

/// A complete response with the no-cache fields and the body's length in
/// bytes.
pub fn http_response(status: &str, content_type: &str, body: &str) -> (response: String)
    ensures
        response@ == response_text(status@, content_type@, body@),
{
    let mut response = String::from_str(RESPONSE_START);
    response.append(status);
    response.append(CONTENT_TYPE_FIELD);
    response.append(content_type);
    response.append(NO_CACHE_FIELDS);
    let len: usize = body.as_bytes().len();
    push_decimal(&mut response, len as u64);
    response.append(HEADER_END);
    response.append(body);
    response
}

/// The header sent before an image of `len` bytes.
pub fn logo_header(len: usize) -> (header: String)
    ensures
        header@ == logo_header_text(len as nat),
{
    let mut header = String::from_str(LOGO_HEADER_START);
    push_decimal(&mut header, len as u64);
    header.append(HEADER_END);
    header
}

fn page_response(route: Route, pac_body: &str, pac_url: &str) -> (response: String)
    ensures
        response@ == page_text(route, pac_body@, pac_url@),
{
    match route {
        Route::PacScript => http_response(STATUS_OK, CONTENT_TYPE_PAC, pac_body),
        Route::SetupPage => {
            let page = make_setup_html(pac_url);
            http_response(STATUS_OK, CONTENT_TYPE_HTML, page.as_str())
        },
        _ => {
            proof {
                reveal_strlit("");
            }
            assert(""@ =~= Seq::<char>::empty());
            http_response(STATUS_NOT_FOUND, CONTENT_TYPE_TEXT, "")
        },
    }
}

/// The answer of the PAC server to one request: the logo header, or the
/// PAC script `pac_body`, the setup page for `pac_url`, or "not found".
pub fn handle_pac_request(request: &[u8], pac_body: &str, pac_url: &str, logo_len: usize) -> (reply:
    PacReply)
    ensures
        route_of_request(request@) == Route::Logo ==> (reply matches PacReply::Logo { header }
            && header@ == logo_header_text(logo_len as nat)),
        route_of_request(request@) != Route::Logo ==> (reply matches PacReply::Page { response }
            && response@ == page_text(route_of_request(request@), pac_body@, pac_url@)),
        ascii_method_part(first_line(request_text(request@))) ==> route_of_request(request@)
            == ascii_route(first_line(request_text(request@))),
{
    let route = classify_request(request);
    if route == Route::Logo {
        PacReply::Logo { header: logo_header(logo_len) }
    } else {
        PacReply::Page { response: page_response(route, pac_body, pac_url) }
    }
}

} // verus!
