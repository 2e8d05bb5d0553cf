//! HTTP requests and the incremental request parser.
use vstd::prelude::*;
use vstd::slice::slice_subrange;
use vstd::string::*;
use vstd::utf8::{decode_utf8, valid_utf8};
use crate::bytes::{bytes_of, find_sequence, has_bytes, lemma_run_index, run_index, utf8_text};
use crate::error::{ServerError, ServerResult};
use crate::http::headers::{header_value, lookup_header};
use crate::number::{hex_digit, hex_value, parse_number, parse_u64};
use crate::session::cookie::{with_cookie_header, CookieJar, CookieModel};
use crate::split::{lines, split_chars, split_lines, split_on, split_words, words};
use crate::strmap::{put, Pairs, StrMap};
use crate::text::{
    chars_of, contains_str, find_char, has_run, index_of, lower, rows, slice_of, split_once_trim,
    split_once_trimmed, string_of, text_is, to_lower, to_upper, upper,
};

verus! {

/// HTTP request method.
#[derive(Debug, Clone, Copy, PartialEq, Eq, Structural)]
pub enum HttpMethod {
    GET,
    POST,
    DELETE,
    HEAD,
    PUT,
    OPTIONS,
    PATCH,
}

impl HttpMethod {
    /// The method's name as it stands in a request line.
    pub open spec fn name(self) -> Seq<char> {
        match self {
            HttpMethod::GET => "GET"@,
            HttpMethod::POST => "POST"@,
            HttpMethod::DELETE => "DELETE"@,
            HttpMethod::HEAD => "HEAD"@,
            HttpMethod::PUT => "PUT"@,
            HttpMethod::OPTIONS => "OPTIONS"@,
            HttpMethod::PATCH => "PATCH"@,
        }
    }

    /// The method that `s` names, whatever the case of its ASCII letters.
    pub open spec fn of_name(s: Seq<char>) -> Option<HttpMethod> {
        let u = upper(s);
        if u == "GET"@ {
            Some(HttpMethod::GET)
        } else if u == "POST"@ {
            Some(HttpMethod::POST)
        } else if u == "DELETE"@ {
            Some(HttpMethod::DELETE)
        } else if u == "HEAD"@ {
            Some(HttpMethod::HEAD)
        } else if u == "PUT"@ {
            Some(HttpMethod::PUT)
        } else if u == "OPTIONS"@ {
            Some(HttpMethod::OPTIONS)
        } else if u == "PATCH"@ {
            Some(HttpMethod::PATCH)
        } else {
            None
        }
    }

    pub fn from_str(s: &str) -> (r: Option<HttpMethod>)
        ensures
            r == HttpMethod::of_name(s@),
    {
        let u = to_upper(chars_of(s).as_slice());
        if text_is(u.as_slice(), "GET") {
            Some(HttpMethod::GET)
        } else if text_is(u.as_slice(), "POST") {
            Some(HttpMethod::POST)
        } else if text_is(u.as_slice(), "DELETE") {
            Some(HttpMethod::DELETE)
        } else if text_is(u.as_slice(), "HEAD") {
            Some(HttpMethod::HEAD)
        } else if text_is(u.as_slice(), "PUT") {
            Some(HttpMethod::PUT)
        } else if text_is(u.as_slice(), "OPTIONS") {
            Some(HttpMethod::OPTIONS)
        } else if text_is(u.as_slice(), "PATCH") {
            Some(HttpMethod::PATCH)
        } else {
            None
        }
    }

    pub fn as_str(&self) -> (r: &'static str)
        ensures
            r@ == self.name(),
    {
        match self {
            HttpMethod::GET => "GET",
            HttpMethod::POST => "POST",
            HttpMethod::DELETE => "DELETE",
            HttpMethod::HEAD => "HEAD",
            HttpMethod::PUT => "PUT",
            HttpMethod::OPTIONS => "OPTIONS",
            HttpMethod::PATCH => "PATCH",
        }
    }
}

/// HTTP version.
#[derive(Debug, Clone, Copy, PartialEq, Eq, Structural)]
pub enum HttpVersion {
    Http10,
    Http11,
}

impl HttpVersion {
    pub open spec fn name(self) -> Seq<char> {
        match self {
            HttpVersion::Http10 => "HTTP/1.0"@,
            HttpVersion::Http11 => "HTTP/1.1"@,
        }
    }

    /// The version that `s` spells.
    pub open spec fn of_name(s: Seq<char>) -> Option<HttpVersion> {
        if s == "HTTP/1.0"@ {
            Some(HttpVersion::Http10)
        } else if s == "HTTP/1.1"@ {
            Some(HttpVersion::Http11)
        } else {
            None
        }
    }

    pub fn from_str(s: &str) -> (r: Option<HttpVersion>)
        ensures
            r == HttpVersion::of_name(s@),
    {
        let v = chars_of(s);
        if text_is(v.as_slice(), "HTTP/1.0") {
            Some(HttpVersion::Http10)
        } else if text_is(v.as_slice(), "HTTP/1.1") {
            Some(HttpVersion::Http11)
        } else {
            None
        }
    }

    pub fn as_str(&self) -> (r: &'static str)
        ensures
            r@ == self.name(),
    {
        match self {
            HttpVersion::Http10 => "HTTP/1.0",
            HttpVersion::Http11 => "HTTP/1.1",
        }
    }
}

/// HTTP request structure.
#[derive(Debug)]
pub struct HttpRequest {
    pub method: HttpMethod,
    pub uri: String,
    pub version: HttpVersion,
    pub headers: StrMap,
    pub body: Vec<u8>,
    pub query_params: StrMap,
    pub path: String,
    pub cookies: CookieJar,
}

/// What a request holds.
pub struct RequestModel {
    pub method: HttpMethod,
    pub uri: Seq<char>,
    pub version: HttpVersion,
    pub headers: Pairs,
    pub body: Seq<u8>,
    pub query_params: Pairs,
    pub path: Seq<char>,
    pub cookies: Seq<CookieModel>,
}

impl RequestModel {
    /// The request that a parser starts from: `GET / HTTP/1.1`, nothing else.
    pub open spec fn blank() -> RequestModel {
        RequestModel {
            method: HttpMethod::GET,
            uri: "/"@,
            version: HttpVersion::Http11,
            headers: Seq::empty(),
            body: Seq::empty(),
            query_params: Seq::empty(),
            path: "/"@,
            cookies: Seq::empty(),
        }
    }

    /// Whether the connection stays open after this request. HTTP/1.1 keeps
    /// it open unless `Connection: close` is sent; HTTP/1.0 closes it unless
    /// `Connection: keep-alive` is sent. The value is read without regard
    /// to case.
    pub open spec fn keep_alive(self) -> bool {
        match self.version {
            HttpVersion::Http11 => match header_value(self.headers, "connection"@) {
                Some(v) => lower(v) != "close"@,
                None => true,
            },
            HttpVersion::Http10 => match header_value(self.headers, "connection"@) {
                Some(v) => lower(v) == "keep-alive"@,
                None => false,
            },
        }
    }

    /// The number that the `Content-Length` header gives, where there is one
    /// and it is a number.
    pub open spec fn content_length(self) -> Option<nat> {
        content_length_of(self.headers)
    }

    /// Whether a `Transfer-Encoding` header names `chunked`.
    pub open spec fn is_chunked(self) -> bool {
        chunked(self.headers)
    }
}

pub open spec fn content_length_of(h: Pairs) -> Option<nat> {
    match header_value(h, "content-length"@) {
        Some(v) => parse_number(v, usize::MAX as nat),
        None => None,
    }
}

pub open spec fn chunked(h: Pairs) -> bool {
    match header_value(h, "transfer-encoding"@) {
        Some(v) => has_run(lower(v), "chunked"@),
        None => false,
    }
}

impl View for HttpRequest {
    type V = RequestModel;

    open spec fn view(&self) -> RequestModel {
        RequestModel {
            method: self.method,
            uri: self.uri@,
            version: self.version,
            headers: self.headers@,
            body: self.body@,
            query_params: self.query_params@,
            path: self.path@,
            cookies: self.cookies@,
        }
    }
}

impl Clone for HttpRequest {
    fn clone(&self) -> (r: Self)
        ensures
            r@ == self@,
    {
        HttpRequest {
            method: self.method,
            uri: self.uri.clone(),
            version: self.version,
            headers: self.headers.clone(),
            body: self.body.clone(),
            query_params: self.query_params.clone(),
            path: self.path.clone(),
            cookies: self.cookies.clone(),
        }
    }
}

impl HttpRequest {
    pub fn new() -> (r: HttpRequest)
        ensures
            r@ == RequestModel::blank(),
    {
        HttpRequest {
            method: HttpMethod::GET,
            uri: String::from_str("/"),
            version: HttpVersion::Http11,
            headers: StrMap::new(),
            body: Vec::new(),
            query_params: StrMap::new(),
            path: String::from_str("/"),
            cookies: CookieJar::new(),
        }
    }

    /// Get header value (case-insensitive).
    pub fn get_header(&self, name: &str) -> (r: Option<&String>)
        ensures
            match r {
                Some(v) => header_value(self@.headers, name@) == Some(v@),
                None => header_value(self@.headers, name@) is None,
            },
    {
        lookup_header(&self.headers, name)
    }

    /// Sets a header. The name is stored in lowercase.
    pub fn add_header(&mut self, name: &str, value: &str)
        ensures
            final(self)@ == (RequestModel {
                headers: put(old(self)@.headers, lower(name@), value@),
                ..old(self)@
            }),
    {
        let key = string_of(to_lower(chars_of(name).as_slice()).as_slice());
        let _ = self.headers.insert(key, String::from_str(value));
    }

    /// Check if connection should be kept alive.
    pub fn keep_alive(&self) -> (b: bool)
        ensures
            b == self@.keep_alive(),
    {
        match self.version {
            HttpVersion::Http11 => match self.get_header("connection") {
                Some(v) => !text_is(to_lower(chars_of(v.as_str()).as_slice()).as_slice(), "close"),
                None => true,
            },
            HttpVersion::Http10 => match self.get_header("connection") {
                Some(v) => text_is(
                    to_lower(chars_of(v.as_str()).as_slice()).as_slice(),
                    "keep-alive",
                ),
                None => false,
            },
        }
    }

    /// Get content length.
    pub fn content_length(&self) -> (r: Option<usize>)
        ensures
            match r {
                Some(n) => self@.content_length() == Some(n as nat),
                None => self@.content_length() is None,
            },
    {
        match self.get_header("content-length") {
            Some(v) => match parse_u64(chars_of(v.as_str()).as_slice(), usize::MAX as u64) {
                Some(n) => Some(n as usize),
                None => None,
            },
            None => None,
        }
    }

    /// Check if request has chunked transfer encoding.
    pub fn is_chunked(&self) -> (b: bool)
        ensures
            b == self@.is_chunked(),
    {
        match self.get_header("transfer-encoding") {
            Some(v) => contains_str(to_lower(chars_of(v.as_str()).as_slice()).as_slice(), "chunked"),
            None => false,
        }
    }
}

// ---------------------------------------------------------------------------
// Percent-decoding
// ---------------------------------------------------------------------------

/// The character with the code of a byte.
pub open spec fn byte_char(n: nat) -> char {
    (n as u8) as char
}

/// `s` with each `%HH` replaced by the character whose code the two
/// hexadecimal digits give and, where `plus_is_space` holds, each `+` by a
/// space. `None` where a `%` is not followed by two hexadecimal digits.
pub open spec fn url_decoded(s: Seq<char>, plus_is_space: bool) -> Option<Seq<char>>
    decreases s.len(),
{
    if s.len() == 0 {
        Some(Seq::<char>::empty())
    } else if s[0] == '%' {
        if s.len() >= 3 && hex_value(s[1]) is Some && hex_value(s[2]) is Some {
            match url_decoded(s.skip(3), plus_is_space) {
                Some(t) => Some(
                    seq![byte_char(16 * hex_value(s[1])->0 + hex_value(s[2])->0)] + t,
                ),
                None => None,
            }
        } else {
            None
        }
    } else {
        match url_decoded(s.skip(1), plus_is_space) {
            Some(t) => Some(
                seq![
                    if s[0] == '+' && plus_is_space {
                        ' '
                    } else {
                        s[0]
                    },
                ] + t,
            ),
            None => None,
        }
    }
}

/// `out` followed by the decoding of `rest`.
pub open spec fn decoded_onto(out: Seq<char>, rest: Seq<char>, plus_is_space: bool) -> Option<
    Seq<char>,
> {
    match url_decoded(rest, plus_is_space) {
        Some(t) => Some(out + t),
        None => None,
    }
}

/// Percent-decodes `v`.
pub fn url_decode_chars(v: &[char], plus_is_space: bool) -> (r: Option<Vec<char>>)
    ensures
        match r {
            Some(d) => url_decoded(v@, plus_is_space) == Some(d@),
            None => url_decoded(v@, plus_is_space) is None,
        },
{
    let mut out: Vec<char> = Vec::new();
    let mut i: usize = 0;
    assert(v@.skip(0) =~= v@);
    assert(out@ + url_decoded(v@, plus_is_space)->0 =~= url_decoded(v@, plus_is_space)->0);
    while i < v.len()
        invariant
            i <= v.len(),
            url_decoded(v@, plus_is_space) == decoded_onto(out@, v@.skip(i as int), plus_is_space),
        decreases v.len() - i,
    {
        let ghost rest = v@.skip(i as int);
        let ghost before = out@;
        let c = v[i];
        if c == '%' {
            if v.len() - i < 3 {
                return None;
            }
            let (h1, h2) = match (hex_digit(v[i + 1]), hex_digit(v[i + 2])) {
                (Some(a), Some(b)) => (a, b),
                _ => {
                    return None;
                },
            };
            let x: u8 = 16 * h1 + h2;
            out.push(x as char);
            proof {
                assert(rest.skip(3) =~= v@.skip(i + 3));
                let t = url_decoded(rest.skip(3), plus_is_space);
                if t is Some {
                    assert(before + (seq![x as char] + t->0) =~= out@ + t->0);
                }
            }
            i += 3;
        } else {
            let d = if c == '+' && plus_is_space {
                ' '
            } else {
                c
            };
            out.push(d);
            proof {
                assert(rest.skip(1) =~= v@.skip(i + 1));
                let t = url_decoded(rest.skip(1), plus_is_space);
                if t is Some {
                    assert(before + (seq![d] + t->0) =~= out@ + t->0);
                }
            }
            i += 1;
        }
    }
    assert(out@ + Seq::<char>::empty() =~= out@);
    Some(out)
}

/// URL decode a string. `+` stands for a space only where `plus_is_space`
/// holds, as it does in a query string. An invalid escape is an HTTP error.
pub fn url_decode(s: &str, plus_is_space: bool) -> (r: ServerResult<String>)
    ensures
        match r {
            Ok(d) => url_decoded(s@, plus_is_space) == Some(d@),
            Err(e) => url_decoded(s@, plus_is_space) is None && e is Http && e.detail()
                == "Invalid URL encoding"@,
        },
{
    match url_decode_chars(chars_of(s).as_slice(), plus_is_space) {
        Some(d) => Ok(string_of(d.as_slice())),
        None => Err(ServerError::Http(String::from_str("Invalid URL encoding"))),
    }
}

/// Decoding text that holds neither `%` nor `+` changes nothing.
pub proof fn lemma_url_decoded_plain(s: Seq<char>, plus_is_space: bool)
    requires
        forall|i: int| 0 <= i < s.len() ==> #[trigger] s[i] != '%' && s[i] != '+',
    ensures
        url_decoded(s, plus_is_space) == Some(s),
    decreases s.len(),
{
    if s.len() > 0 {
        assert forall|i: int| 0 <= i < s.skip(1).len() implies #[trigger] s.skip(1)[i] != '%'
            && s.skip(1)[i] != '+' by {
            assert(s.skip(1)[i] == s[i + 1]);
        }
        lemma_url_decoded_plain(s.skip(1), plus_is_space);
        assert(seq![s[0]] + s.skip(1) =~= s);
    }
}

/// How often `c` stands in `s`.
pub open spec fn occurrences(s: Seq<char>, c: char) -> nat
    decreases s.len(),
{
    if s.len() == 0 {
        0
    } else {
        occurrences(s.skip(1), c) + if s[0] == c {
            1nat
        } else {
            0nat
        }
    }
}

/// How many escapes of `s` stand for the character `%` itself.
pub open spec fn escaped_percents(s: Seq<char>) -> nat
    decreases s.len(),
{
    if s.len() == 0 {
        0
    } else if s[0] == '%' {
        if s.len() >= 3 {
            escaped_percents(s.skip(3)) + if hex_value(s[1]) == Some(2nat) && hex_value(s[2])
                == Some(5nat) {
                1nat
            } else {
                0nat
            }
        } else {
            0
        }
    } else {
        escaped_percents(s.skip(1))
    }
}

/// Every `%` of a decoded text stands for an escape of `%` itself: there
/// are as many of the one as of the other, so no escape is left in it.
pub proof fn lemma_url_decoded_percents(s: Seq<char>, plus_is_space: bool)
    requires
        url_decoded(s, plus_is_space) is Some,
    ensures
        occurrences(url_decoded(s, plus_is_space)->0, '%') == escaped_percents(s),
    decreases s.len(),
{
    if s.len() > 0 {
        let d = url_decoded(s, plus_is_space)->0;
        let k: int = if s[0] == '%' {
            3
        } else {
            1
        };
        let t = url_decoded(s.skip(k), plus_is_space)->0;
        lemma_url_decoded_percents(s.skip(k), plus_is_space);
        assert(d.skip(1) =~= t);
        if s[0] == '%' {
            let a = hex_value(s[1])->0;
            let b = hex_value(s[2])->0;
            assert(a < 16 && b < 16);
            assert(d[0] == byte_char(16 * a + b));
            assert((d[0] == '%') == (a == 2 && b == 5)) by {
                assert(16 * a + b < 256);
                assert(((16 * a + b) as u8) as char == '%' <==> 16 * a + b == 37);
            }
        }
    }
}

/// Whether an escape of `s` stands for the character `%` itself.
pub open spec fn has_escaped_percent(s: Seq<char>) -> bool {
    exists|i: int|
        0 <= i && i + 3 <= s.len() && #[trigger] s[i] == '%' && hex_value(s[i + 1]) == Some(2nat)
            && hex_value(s[i + 2]) == Some(5nat)
}

/// Where no escape stands for `%` itself, the decoded text holds no `%`: no
/// escape is left in it.
pub proof fn lemma_url_decoded_no_percent(s: Seq<char>, plus_is_space: bool)
    requires
        url_decoded(s, plus_is_space) is Some,
        !has_escaped_percent(s),
    ensures
        forall|i: int|
            0 <= i < url_decoded(s, plus_is_space)->0.len() ==> #[trigger] url_decoded(
                s,
                plus_is_space,
            )->0[i] != '%',
    decreases s.len(),
{
    if s.len() > 0 {
        let d = url_decoded(s, plus_is_space)->0;
        let k: int = if s[0] == '%' {
            3
        } else {
            1
        };
        let rest = s.skip(k);
        assert(!has_escaped_percent(rest)) by {
            if has_escaped_percent(rest) {
                let i = choose|i: int|
                    0 <= i && i + 3 <= rest.len() && #[trigger] rest[i] == '%' && hex_value(
                        rest[i + 1],
                    ) == Some(2nat) && hex_value(rest[i + 2]) == Some(5nat);
                assert(s[i + k] == '%');
            }
        }
        lemma_url_decoded_no_percent(rest, plus_is_space);
        let t = url_decoded(rest, plus_is_space)->0;
        if s[0] == '%' {
            assert(s[0] == '%');
            let n = 16 * hex_value(s[1])->0 + hex_value(s[2])->0;
            assert(n != 37);
            assert(byte_char(n) != '%');
        }
        assert forall|i: int| 0 <= i < d.len() implies #[trigger] d[i] != '%' by {
            if i > 0 {
                assert(d[i] == t[i - 1]);
            }
        }
    }
}

// ---------------------------------------------------------------------------
// Request target, query string, header lines
// ---------------------------------------------------------------------------

/// The parameter that one piece of a query string gives: the decoded texts
/// before and after its first `=`; a piece without `=` is a name with an
/// empty value. `None` where an escape is invalid.
pub open spec fn query_pair(piece: Seq<char>) -> Option<(Seq<char>, Seq<char>)> {
    let i = index_of(piece, '=');
    if i < piece.len() {
        match (url_decoded(piece.take(i as int), true), url_decoded(piece.skip(i as int + 1), true)) {
            (Some(k), Some(v)) => Some((k, v)),
            _ => None,
        }
    } else {
        match url_decoded(piece, true) {
            Some(k) => Some((k, Seq::<char>::empty())),
            None => None,
        }
    }
}

/// The parameters after those of the given pieces were added in order.
pub open spec fn with_query_pieces(acc: Pairs, pieces: Seq<Seq<char>>) -> Option<Pairs>
    decreases pieces.len(),
{
    if pieces.len() == 0 {
        Some(acc)
    } else {
        match with_query_pieces(acc, pieces.drop_last()) {
            Some(a) => match query_pair(pieces.last()) {
                Some(p) => Some(put(a, p.0, p.1)),
                None => None,
            },
            None => None,
        }
    }
}

/// The parameters after those of a query string were added: the string is
/// cut at each `&`. A later parameter of the same name wins.
pub open spec fn with_query(acc: Pairs, query: Seq<char>) -> Option<Pairs> {
    with_query_pieces(acc, split_on(query, '&'))
}

proof fn lemma_query_pieces_fail(acc: Pairs, pieces: Seq<Seq<char>>, k: int)
    requires
        0 <= k <= pieces.len(),
        with_query_pieces(acc, pieces.take(k)) is None,
    ensures
        with_query_pieces(acc, pieces) is None,
    decreases pieces.len() - k,
{
    if k < pieces.len() {
        assert(pieces.take(k + 1).drop_last() =~= pieces.take(k));
        lemma_query_pieces_fail(acc, pieces, k + 1);
    } else {
        assert(pieces.take(k) =~= pieces);
    }
}

/// Adds the parameters of a query string to `params`.
pub fn parse_query_params(params: &mut StrMap, query: &str) -> (r: ServerResult<()>)
    ensures
        match r {
            Ok(_) => with_query(old(params)@, query@) == Some(final(params)@),
            Err(e) => with_query(old(params)@, query@) is None && e is Http && e.detail()
                == "Invalid URL encoding"@,
        },
{
    let q = chars_of(query);
    let pieces = split_chars(q.as_slice(), '&');
    let mut i: usize = 0;
    while i < pieces.len()
        invariant
            i <= pieces.len(),
            rows(pieces@) == split_on(query@, '&'),
            with_query_pieces(old(params)@, rows(pieces@).take(i as int)) == Some(params@),
        decreases pieces.len() - i,
    {
        let piece = pieces[i].as_slice();
        proof {
            assert(rows(pieces@).take(i + 1).drop_last() =~= rows(pieces@).take(i as int));
            assert(rows(pieces@).take(i + 1).last() == piece@);
        }
        let eq = find_char(piece, 0, '=');
        assert(piece@.skip(0) =~= piece@);
        let pair: Option<(Vec<char>, Vec<char>)> = if eq < piece.len() {
            let key_part = slice_of(piece, 0, eq);
            let value_part = slice_of(piece, eq + 1, piece.len());
            assert(key_part@ =~= piece@.take(eq as int));
            assert(value_part@ =~= piece@.skip(eq + 1));
            match (
                url_decode_chars(key_part.as_slice(), true),
                url_decode_chars(value_part.as_slice(), true),
            ) {
                (Some(k), Some(v)) => Some((k, v)),
                _ => None,
            }
        } else {
            match url_decode_chars(piece, true) {
                Some(k) => Some((k, Vec::new())),
                None => None,
            }
        };
        match pair {
            Some(p) => {
                assert(query_pair(piece@) == Some((p.0@, p.1@)));
                let _ = params.insert(string_of(p.0.as_slice()), string_of(p.1.as_slice()));
            },
            None => {
                proof {
                    assert(query_pair(piece@) is None);
                    lemma_query_pieces_fail(old(params)@, rows(pieces@), i + 1);
                }
                return Err(ServerError::Http(String::from_str("Invalid URL encoding")));
            },
        }
        i += 1;
    }
    assert(rows(pieces@).take(pieces.len() as int) =~= rows(pieces@));
    Ok(())
}

/// The part of a request target before its first `?`.
pub open spec fn raw_path(uri: Seq<char>) -> Seq<char> {
    uri.take(index_of(uri, '?') as int)
}

/// What is said of a request target whose path does not begin with `/`.
pub open spec fn bad_target(uri: Seq<char>) -> Seq<char> {
    "Invalid request target: "@ + uri
}

/// The decoded path and the query parameters that a request target gives,
/// starting from the parameters `params`. In the path, `+` stays `+`. A
/// target with an ill-formed escape is refused, and so is one whose decoded
/// path does not begin with `/`.
pub open spec fn uri_parts(params: Pairs, uri: Seq<char>) -> Result<
    (Seq<char>, Pairs),
    Seq<char>,
> {
    let i = index_of(uri, '?');
    let query = if i < uri.len() {
        with_query(params, uri.skip(i as int + 1))
    } else {
        Some(params)
    };
    match (query, url_decoded(raw_path(uri), false)) {
        (Some(q), Some(p)) => if p.len() > 0 && p[0] == '/' {
            Ok((p, q))
        } else {
            Err(bad_target(uri))
        },
        _ => Err("Invalid URL encoding"@),
    }
}

/// What a header line gives: the lowercase name before the first `:` and
/// the value after it, both trimmed. `None` for a line without `:`.
pub open spec fn header_line(line: Seq<char>) -> Option<(Seq<char>, Seq<char>)> {
    match split_once_trimmed(line, ':') {
        Some(p) => Some((lower(p.0), p.1)),
        None => None,
    }
}

/// Headers and cookies.
pub struct HeaderState {
    pub headers: Pairs,
    pub cookies: Seq<CookieModel>,
}

/// The headers and cookies after the given header lines were read in order.
/// Empty lines are skipped; a `cookie` header also fills the cookie jar.
/// Where a line has no `:`, the first such line is what is wrong.
pub open spec fn with_header_lines(acc: HeaderState, block: Seq<Seq<char>>) -> Result<
    HeaderState,
    Seq<char>,
>
    decreases block.len(),
{
    if block.len() == 0 {
        Ok(acc)
    } else {
        match with_header_lines(acc, block.drop_last()) {
            Ok(a) => if block.last().len() == 0 {
                Ok(a)
            } else {
                match header_line(block.last()) {
                    Some(p) => Ok(
                        HeaderState {
                            headers: put(a.headers, p.0, p.1),
                            cookies: if p.0 == "cookie"@ {
                                with_cookie_header(a.cookies, p.1)
                            } else {
                                a.cookies
                            },
                        },
                    ),
                    None => Err("Invalid header line: "@ + block.last()),
                }
            },
            Err(e) => Err(e),
        }
    }
}

proof fn lemma_header_lines_fail(acc: HeaderState, block: Seq<Seq<char>>, k: int)
    requires
        0 <= k <= block.len(),
        with_header_lines(acc, block.take(k)) is Err,
    ensures
        with_header_lines(acc, block) == with_header_lines(acc, block.take(k)),
    decreases block.len() - k,
{
    if k < block.len() {
        assert(block.take(k + 1).drop_last() =~= block.take(k));
        lemma_header_lines_fail(acc, block, k + 1);
    } else {
        assert(block.take(k) =~= block);
    }
}

/// The length of the body that the headers `h` announce, where
/// `Content-Length` gives a positive number.
pub open spec fn body_length(h: Pairs) -> Option<nat> {
    match content_length_of(h) {
        Some(n) => if n > 0 {
            Some(n)
        } else {
            None
        },
        None => None,
    }
}

/// The state a parser is in once the headers `h` are read: it awaits a body
/// where `Content-Length` gives a positive number. Where it does not,
/// chunked transfer encoding is refused, and without it the request is
/// done.
pub open spec fn state_after_headers(h: Pairs) -> Option<ParseState> {
    match body_length(h) {
        Some(n) => Some(ParseState::AwaitBody(n as usize)),
        None => if chunked(h) {
            None
        } else {
            Some(ParseState::Complete)
        },
    }
}

/// HTTP request parser state.
#[derive(Debug, Clone, Copy, PartialEq, Eq, Structural)]
pub enum ParseState {
    /// The request line has not been read yet.
    AwaitRequestLine,
    /// The request line is read, the header block is not.
    AwaitHeaders,
    /// The headers are read; this many bytes of body are to come.
    AwaitBody(usize),
    /// A whole request is read.
    Complete,
}

// ---------------------------------------------------------------------------
// The incremental parser
// ---------------------------------------------------------------------------

/// What a parser holds.
pub struct ParserModel {
    pub state: ParseState,
    pub request: RequestModel,
}

impl ParserModel {
    /// A parser that has read nothing.
    pub open spec fn fresh() -> ParserModel {
        ParserModel { state: ParseState::AwaitRequestLine, request: RequestModel::blank() }
    }
}

/// How a call of the parser ended.
pub enum Verdict {
    /// The bytes end before the request does.
    NeedMore,
    /// A whole request was read.
    Complete,
    /// The bytes are no HTTP request, for the reason given.
    Failed(Seq<char>),
}

/// What a call of the parser does: the parser after it, the number of bytes
/// it took from the front of the data, and how it ended.
pub struct Outcome {
    pub parser: ParserModel,
    pub consumed: nat,
    pub verdict: Verdict,
}

pub open spec fn crlf() -> Seq<u8> {
    seq![13u8, 10u8]
}

pub open spec fn crlf_crlf() -> Seq<u8> {
    seq![13u8, 10u8, 13u8, 10u8]
}

pub open spec fn failed(reason: Seq<char>) -> Outcome {
    Outcome { parser: ParserModel::fresh(), consumed: 0, verdict: Verdict::Failed(reason) }
}

pub open spec fn pending(m: ParserModel) -> Outcome {
    Outcome { parser: m, consumed: 0, verdict: Verdict::NeedMore }
}

pub open spec fn done(m: ParserModel) -> Outcome {
    Outcome { parser: m, consumed: 0, verdict: Verdict::Complete }
}

/// The outcome `o` of a call on data from which `k` bytes were taken before.
pub open spec fn after(o: Outcome, k: nat) -> Outcome {
    if o.verdict is Failed {
        o
    } else {
        Outcome { consumed: o.consumed + k, ..o }
    }
}

/// The request after its request line was read: three words, which are a
/// method, a request target whose path begins with `/`, and a version. For
/// any other line, what is wrong with it.
pub open spec fn request_line(req: RequestModel, line: Seq<char>) -> Result<
    RequestModel,
    Seq<char>,
> {
    let parts = words(line);
    if parts.len() != 3 {
        Err("Invalid request line"@)
    } else if HttpMethod::of_name(parts[0]) is None {
        Err("Unknown HTTP method: "@ + parts[0])
    } else if HttpVersion::of_name(parts[2]) is None {
        Err("Unsupported HTTP version: "@ + parts[2])
    } else {
        match uri_parts(req.query_params, parts[1]) {
            Ok(u) => Ok(
                RequestModel {
                    method: HttpMethod::of_name(parts[0])->0,
                    uri: parts[1],
                    path: u.0,
                    query_params: u.1,
                    version: HttpVersion::of_name(parts[2])->0,
                    ..req
                },
            ),
            Err(reason) => Err(reason),
        }
    }
}

/// Where the header block at the front of `data` ends: its length and the
/// number of bytes up to and including the blank line after it. The block is
/// empty where `data` starts with a line break; else it ends at the first
/// two line breaks in a row. `None` where the block is not complete.
pub open spec fn header_block(data: Seq<u8>) -> Option<(nat, nat)> {
    if crlf().is_prefix_of(data) {
        Some((0nat, 2nat))
    } else if has_bytes(data, crlf_crlf()) {
        Some((run_index(data, crlf_crlf()), run_index(data, crlf_crlf()) + 4))
    } else {
        None
    }
}

/// A parser that awaits `n` bytes of body, given `data`.
pub open spec fn read_body(m: ParserModel, data: Seq<u8>, n: usize) -> Outcome {
    if data.len() >= n {
        Outcome {
            parser: ParserModel {
                state: ParseState::Complete,
                request: RequestModel { body: data.take(n as int), ..m.request },
            },
            consumed: n as nat,
            verdict: Verdict::Complete,
        }
    } else {
        pending(m)
    }
}

/// A parser whose headers are read, given the data after them.
pub open spec fn read_after_headers(m: ParserModel, data: Seq<u8>) -> Outcome {
    match m.state {
        ParseState::AwaitBody(n) => read_body(m, data, n),
        _ => done(m),
    }
}

/// How far one stage of the parser gets.
pub enum Stage {
    /// The data end before the stage does.
    Wait,
    /// The data are no HTTP request, for the reason given.
    Fail(Seq<char>),
    /// The stage is through: the parser after it, and the number of bytes
    /// it took.
    Go(ParserModel, nat),
}

/// The stage that reads the request line: up to the first line break.
#[verifier::opaque]
pub open spec fn line_stage(m: ParserModel, data: Seq<u8>) -> Stage {
    if !has_bytes(data, crlf()) {
        Stage::Wait
    } else {
        let i = run_index(data, crlf());
        let line = data.take(i as int);
        if !valid_utf8(line) {
            Stage::Fail("Invalid UTF-8 in request line"@)
        } else {
            match request_line(m.request, decode_utf8(line)) {
                Err(reason) => Stage::Fail(reason),
                Ok(req) => Stage::Go(
                    ParserModel { state: ParseState::AwaitHeaders, request: req },
                    i + 2,
                ),
            }
        }
    }
}

/// The stage that reads the header block.
#[verifier::opaque]
pub open spec fn headers_stage(m: ParserModel, data: Seq<u8>) -> Stage {
    match header_block(data) {
        None => Stage::Wait,
        Some(b) => {
            let block = data.take(b.0 as int);
            if !valid_utf8(block) {
                Stage::Fail("Invalid UTF-8 in headers"@)
            } else {
                match with_header_lines(
                    HeaderState { headers: m.request.headers, cookies: m.request.cookies },
                    lines(decode_utf8(block)),
                ) {
                    Err(reason) => Stage::Fail(reason),
                    Ok(h) => match state_after_headers(h.headers) {
                        None => Stage::Fail("Chunked transfer encoding is not supported"@),
                        Some(st) => Stage::Go(
                            ParserModel {
                                state: st,
                                request: RequestModel {
                                    headers: h.headers,
                                    cookies: h.cookies,
                                    ..m.request
                                },
                            },
                            b.1,
                        ),
                    },
                }
            }
        },
    }
}

/// A parser that awaits the header block, given `data`.
pub open spec fn read_headers(m: ParserModel, data: Seq<u8>) -> Outcome {
    match headers_stage(m, data) {
        Stage::Wait => pending(m),
        Stage::Fail(reason) => failed(reason),
        Stage::Go(m2, k) => after(read_after_headers(m2, data.skip(k as int)), k),
    }
}

/// A parser that awaits the request line, given `data`.
pub open spec fn read_request_line(m: ParserModel, data: Seq<u8>) -> Outcome {
    match line_stage(m, data) {
        Stage::Wait => pending(m),
        Stage::Fail(reason) => failed(reason),
        Stage::Go(m1, k) => after(read_headers(m1, data.skip(k as int)), k),
    }
}

/// What the parser `m` does when it is given `data`, the bytes received and
/// not yet consumed: it reads as far as the data allow, and reports how many
/// bytes from the front it has used up.
pub open spec fn parsed(m: ParserModel, data: Seq<u8>) -> Outcome {
    match m.state {
        ParseState::AwaitRequestLine => read_request_line(m, data),
        ParseState::AwaitHeaders => read_headers(m, data),
        ParseState::AwaitBody(n) => read_body(m, data, n),
        ParseState::Complete => done(m),
    }
}

/// HTTP request parser.
#[derive(Debug)]
pub struct HttpRequestParser {
    state: ParseState,
    request: HttpRequest,
}

impl View for HttpRequestParser {
    type V = ParserModel;

    closed spec fn view(&self) -> ParserModel {
        ParserModel { state: self.state, request: self.request@ }
    }
}

impl HttpRequestParser {
    pub fn new() -> (p: HttpRequestParser)
        ensures
            p@ == ParserModel::fresh(),
    {
        HttpRequestParser { state: ParseState::AwaitRequestLine, request: HttpRequest::new() }
    }

    /// Reset parser for reuse.
    pub fn reset(&mut self)
        ensures
            final(self)@ == ParserModel::fresh(),
    {
        self.state = ParseState::AwaitRequestLine;
        self.request = HttpRequest::new();
    }

    /// Check if parsing is complete.
    pub fn is_complete(&self) -> (b: bool)
        ensures
            b == (self@.state is Complete),
    {
        match self.state {
            ParseState::Complete => true,
            _ => false,
        }
    }

    /// The state the parser is in.
    pub fn state(&self) -> (s: ParseState)
        ensures
            s == self@.state,
    {
        self.state
    }

    /// Parse a request target into the decoded path and the query
    /// parameters. A target whose decoded path does not begin with `/` is
    /// refused.
    pub fn parse_uri(&mut self, uri: &str) -> (r: ServerResult<()>)
        ensures
            match r {
                Ok(_) => {
                    let u = uri_parts(old(self)@.request.query_params, uri@);
                    &&& u is Ok
                    &&& final(self)@ == (ParserModel {
                        request: RequestModel {
                            path: (u->Ok_0).0,
                            query_params: (u->Ok_0).1,
                            ..old(self)@.request
                        },
                        ..old(self)@
                    })
                },
                Err(e) => e is Http && uri_parts(old(self)@.request.query_params, uri@) == Err::<
                    (Seq<char>, Pairs),
                    Seq<char>,
                >(e.detail()),
            },
    {
        let u = chars_of(uri);
        let i = find_char(u.as_slice(), 0, '?');
        assert(u@.skip(0) =~= u@);
        if i < u.len() {
            let query = string_of(slice_of(u.as_slice(), i + 1, u.len()).as_slice());
            assert(query@ =~= uri@.skip(i + 1));
            match parse_query_params(&mut self.request.query_params, query.as_str()) {
                Ok(_) => {},
                Err(e) => {
                    return Err(e);
                },
            }
        }
        let raw = slice_of(u.as_slice(), 0, i);
        assert(raw@ =~= raw_path(uri@));
        match url_decode_chars(raw.as_slice(), false) {
            Some(p) => {
                if p.len() == 0 || p[0] != '/' {
                    let mut m = String::from_str("Invalid request target: ");
                    m.append(uri);
                    return Err(ServerError::Http(m));
                }
                self.request.path = string_of(p.as_slice());
                Ok(())
            },
            None => Err(ServerError::Http(String::from_str("Invalid URL encoding"))),
        }
    }

    /// Parse the HTTP request line.
    pub fn parse_request_line(&mut self, line: &str) -> (r: ServerResult<()>)
        ensures
            match r {
                Ok(_) => {
                    &&& request_line(old(self)@.request, line@) == Ok::<RequestModel, Seq<char>>(
                        final(self)@.request,
                    )
                    &&& final(self)@.state == old(self)@.state
                },
                Err(e) => e is Http && request_line(old(self)@.request, line@) == Err::<
                    RequestModel,
                    Seq<char>,
                >(e.detail()),
            },
    {
        let parts = split_words(chars_of(line).as_slice());
        if parts.len() != 3 {
            return Err(ServerError::Http(String::from_str("Invalid request line")));
        }
        assert(rows(parts@)[0] == parts@[0]@);
        assert(rows(parts@)[1] == parts@[1]@);
        assert(rows(parts@)[2] == parts@[2]@);
        let method = match HttpMethod::from_str(string_of(parts[0].as_slice()).as_str()) {
            Some(m) => m,
            None => {
                let mut m = String::from_str("Unknown HTTP method: ");
                m.append(string_of(parts[0].as_slice()).as_str());
                return Err(ServerError::Http(m));
            },
        };
        let version = match HttpVersion::from_str(string_of(parts[2].as_slice()).as_str()) {
            Some(v) => v,
            None => {
                let mut m = String::from_str("Unsupported HTTP version: ");
                m.append(string_of(parts[2].as_slice()).as_str());
                return Err(ServerError::Http(m));
            },
        };
        let uri = string_of(parts[1].as_slice());
        match self.parse_uri(uri.as_str()) {
            Ok(_) => {},
            Err(e) => {
                return Err(e);
            },
        }
        self.request.method = method;
        self.request.version = version;
        self.request.uri = uri;
        Ok(())
    }

    /// Parse HTTP header lines.
    pub fn parse_headers(&mut self, headers_str: &str) -> (r: ServerResult<()>)
        ensures
            ({
                let h = with_header_lines(
                    HeaderState {
                        headers: old(self)@.request.headers,
                        cookies: old(self)@.request.cookies,
                    },
                    lines(headers_str@),
                );
                match r {
                    Ok(_) => {
                        &&& h is Ok
                        &&& final(self)@ == (ParserModel {
                            request: RequestModel {
                                headers: h->Ok_0.headers,
                                cookies: h->Ok_0.cookies,
                                ..old(self)@.request
                            },
                            ..old(self)@
                        })
                    },
                    Err(e) => e is Http && h == Err::<HeaderState, Seq<char>>(e.detail()),
                }
            }),
    {
        let block = split_lines(chars_of(headers_str).as_slice());
        let ghost start = HeaderState {
            headers: old(self)@.request.headers,
            cookies: old(self)@.request.cookies,
        };
        let mut i: usize = 0;
        while i < block.len()
            invariant
                i <= block.len(),
                rows(block@) == lines(headers_str@),
                start == (HeaderState {
                    headers: old(self)@.request.headers,
                    cookies: old(self)@.request.cookies,
                }),
                with_header_lines(start, rows(block@).take(i as int)) == Ok::<
                    HeaderState,
                    Seq<char>,
                >(HeaderState { headers: self@.request.headers, cookies: self@.request.cookies }),
                self@ == (ParserModel {
                    request: RequestModel {
                        headers: self@.request.headers,
                        cookies: self@.request.cookies,
                        ..old(self)@.request
                    },
                    ..old(self)@
                }),
            decreases block.len() - i,
        {
            let line = block[i].as_slice();
            proof {
                assert(rows(block@).take(i + 1).drop_last() =~= rows(block@).take(i as int));
                assert(rows(block@).take(i + 1).last() == line@);
            }
            if line.len() > 0 {
                match split_once_trim(line, ':') {
                    Some(p) => {
                        let name = to_lower(p.0.as_slice());
                        let value = string_of(p.1.as_slice());
                        if text_is(name.as_slice(), "cookie") {
                            self.request.cookies.parse_cookie_header(value.as_str());
                        }
                        let _ = self.request.headers.insert(string_of(name.as_slice()), value);
                    },
                    None => {
                        proof {
                            assert(header_line(line@) is None);
                            assert(with_header_lines(start, rows(block@).take(i + 1)) == Err::<
                                HeaderState,
                                Seq<char>,
                            >("Invalid header line: "@ + line@));
                            lemma_header_lines_fail(start, rows(block@), i + 1);
                        }
                        let mut m = String::from_str("Invalid header line: ");
                        m.append(string_of(line).as_str());
                        return Err(ServerError::Http(m));
                    },
                }
            }
            i += 1;
        }
        assert(rows(block@).take(block.len() as int) =~= rows(block@));
        Ok(())
    }

    /// Whether `data[at..]` starts with a line break.
    fn line_break_at(data: &[u8], at: usize) -> (b: bool)
        requires
            at <= data.len(),
        ensures
            b == crlf().is_prefix_of(data@.skip(at as int)),
    {
        if data.len() - at >= 2 && data[at] == 13 && data[at + 1] == 10 {
            assert(data@.skip(at as int).take(2) =~= crlf());
            assert(crlf() =~= data@.skip(at as int).subrange(0, 2));
            true
        } else {
            proof {
                if crlf().is_prefix_of(data@.skip(at as int)) {
                    assert(data@.skip(at as int)[0] == crlf()[0]);
                    assert(data@.skip(at as int)[1] == crlf()[1]);
                }
            }
            false
        }
    }

    /// Where the header block at the front of `data[at..]` ends.
    fn find_header_block(data: &[u8], at: usize) -> (r: Option<(usize, usize)>)
        requires
            at <= data.len(),
        ensures
            match r {
                Some(b) => header_block(data@.skip(at as int)) == Some((b.0 as nat, b.1 as nat))
                    && b.0 <= b.1 && at + b.1 <= data.len(),
                None => header_block(data@.skip(at as int)) is None,
            },
    {
        if Self::line_break_at(data, at) {
            return Some((0, 2));
        }
        let rest = slice_subrange(data, at, data.len());
        assert(rest@ =~= data@.skip(at as int));
        let pat: Vec<u8> = vec![13u8, 10u8, 13u8, 10u8];
        assert(pat@ =~= crlf_crlf());
        match find_sequence(rest, pat.as_slice()) {
            Some(i) => {
                proof {
                    lemma_run_index(rest@, crlf_crlf());
                }
                Some((i, i + 4))
            },
            None => None,
        }
    }

    /// Reads the request line from the front of `data`.
    fn read_line(&mut self, data: &[u8]) -> (r: ServerResult<Option<usize>>)
        ensures
            match r {
                Ok(Some(k)) => line_stage(old(self)@, data@) == Stage::Go(final(self)@, k as nat)
                    && k <= data@.len() && final(self)@.state is AwaitHeaders,
                Ok(None) => line_stage(old(self)@, data@) is Wait && final(self)@ == old(self)@,
                Err(e) => line_stage(old(self)@, data@) == Stage::Fail(e.detail()) && e is Http
                    && final(self)@ == ParserModel::fresh(),
            },
    {
        reveal(line_stage);
        let pat: Vec<u8> = vec![13u8, 10u8];
        assert(pat@ =~= crlf());
        assert(crlf().len() == 2);
        let i = match find_sequence(data, pat.as_slice()) {
            Some(i) => i,
            None => {
                return Ok(None);
            },
        };
        proof {
            lemma_run_index(data@, crlf());
        }
        assert(i + 2 <= data.len());
        let line_bytes = slice_subrange(data, 0, i);
        assert(line_bytes@ =~= data@.take(i as int));
        let line = match utf8_text(line_bytes) {
            Some(l) => l,
            None => {
                self.reset();
                return Err(ServerError::Http(String::from_str("Invalid UTF-8 in request line")));
            },
        };
        match self.parse_request_line(line.as_str()) {
            Ok(_) => {},
            Err(e) => {
                self.reset();
                return Err(e);
            },
        }
        self.state = ParseState::AwaitHeaders;
        Ok(Some(i + 2))
    }

    /// Reads the header block from the front of `data[at..]`.
    fn read_header_block(&mut self, data: &[u8], at: usize) -> (r: ServerResult<Option<usize>>)
        requires
            at <= data@.len(),
        ensures
            match r {
                Ok(Some(k)) => headers_stage(old(self)@, data@.skip(at as int)) == Stage::Go(
                    final(self)@,
                    k as nat,
                ) && at + k <= data@.len() && !(final(self)@.state is AwaitRequestLine) && !(
                final(self)@.state is AwaitHeaders),
                Ok(None) => headers_stage(old(self)@, data@.skip(at as int)) is Wait && final(self)@
                    == old(self)@,
                Err(e) => headers_stage(old(self)@, data@.skip(at as int)) == Stage::Fail(
                    e.detail(),
                ) && e is Http && final(self)@ == ParserModel::fresh(),
            },
    {
        reveal(headers_stage);
        let ghost rest = data@.skip(at as int);
        let (len, used) = match Self::find_header_block(data, at) {
            Some(b) => b,
            None => {
                return Ok(None);
            },
        };
        let block_bytes = slice_subrange(data, at, at + len);
        assert(block_bytes@ =~= rest.take(len as int));
        let block = match utf8_text(block_bytes) {
            Some(b) => b,
            None => {
                self.reset();
                return Err(ServerError::Http(String::from_str("Invalid UTF-8 in headers")));
            },
        };
        match self.parse_headers(block.as_str()) {
            Ok(_) => {},
            Err(e) => {
                self.reset();
                return Err(e);
            },
        }
        let length: usize = match self.request.content_length() {
            Some(n) => n,
            None => 0,
        };
        if length > 0 {
            self.state = ParseState::AwaitBody(length);
        } else if self.request.is_chunked() {
            self.reset();
            return Err(
                ServerError::Http(String::from_str("Chunked transfer encoding is not supported")),
            );
        } else {
            self.state = ParseState::Complete;
        }
        Ok(Some(used))
    }

    /// Reads the body, where one is awaited, from the front of `data[at..]`.
    fn read_rest(&mut self, data: &[u8], at: usize) -> (r: (Option<HttpRequest>, usize))
        requires
            at <= data@.len(),
            !(old(self)@.state is AwaitRequestLine),
            !(old(self)@.state is AwaitHeaders),
        ensures
            ({
                let o = read_after_headers(old(self)@, data@.skip(at as int));
                &&& final(self)@ == o.parser
                &&& r.1 == o.consumed
                &&& at + r.1 <= data@.len()
                &&& match r.0 {
                    Some(q) => o.verdict is Complete && q@ == o.parser.request,
                    None => o.verdict is NeedMore,
                }
            }),
    {
        let mut used: usize = 0;
        if let ParseState::AwaitBody(n) = self.state {
            if data.len() - at < n {
                return (None, 0);
            }
            self.request.body = bytes_of(data, at, at + n);
            assert(self.request.body@ =~= data@.skip(at as int).take(n as int));
            self.state = ParseState::Complete;
            used = n;
        }
        (Some(self.request.clone()), used)
    }

    /// Parse HTTP request from buffer data.
    ///
    /// `data` holds the bytes received and not yet consumed. The parser reads
    /// as far as they allow. It returns the request, where one is complete,
    /// and the number of bytes taken from the front of `data`; the caller
    /// drops those and passes what is left, with what arrives later, to the
    /// next call. After an error the parser is reset.
    pub fn parse(&mut self, data: &[u8]) -> (r: ServerResult<(Option<HttpRequest>, usize)>)
        ensures
            ({
                let o = parsed(old(self)@, data@);
                match r {
                    Ok(p) => {
                        &&& !(o.verdict is Failed)
                        &&& final(self)@ == o.parser
                        &&& p.1 == o.consumed
                        &&& p.1 <= data@.len()
                        &&& match p.0 {
                            Some(q) => o.verdict is Complete && q@ == o.parser.request,
                            None => o.verdict is NeedMore,
                        }
                    },
                    Err(e) => {
                        &&& o.verdict == Verdict::Failed(e.detail())
                        &&& e is Http
                        &&& final(self)@ == ParserModel::fresh()
                    },
                }
            }),
    {
        let mut pos: usize = 0;
        assert(data@.skip(0) =~= data@);
        if let ParseState::AwaitRequestLine = self.state {
            match self.read_line(data) {
                Ok(Some(k)) => {
                    pos = k;
                },
                Ok(None) => {
                    return Ok((None, 0));
                },
                Err(e) => {
                    return Err(e);
                },
            }
        }
        if let ParseState::AwaitHeaders = self.state {
            let ghost rest = data@.skip(pos as int);
            match self.read_header_block(data, pos) {
                Ok(Some(k)) => {
                    assert(rest.skip(k as int) =~= data@.skip(pos + k));
                    assert(pos + k <= data@.len());
                    assert(data@.len() == data.len());
                    pos = pos + k;
                },
                Ok(None) => {
                    return Ok((None, pos));
                },
                Err(e) => {
                    return Err(e);
                },
            }
        }
        let (request, used) = self.read_rest(data, pos);
        assert(pos + used <= data.len());
        Ok((request, pos + used))
    }
}

} // verus!
