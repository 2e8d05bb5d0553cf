//! HTTP header sets.
use vstd::prelude::*;
use vstd::string::*;
use crate::keyed::{find_key, lemma_find_key_unique, record_of, Keyed};
use crate::number::{parse_number, parse_u64};
use crate::session::cookie::cookie_pair;
use crate::split::{split_chars, split_on};
use crate::strmap::{has_key, pairs_of, put, value_of, without, Pairs, StrMap};
use crate::text::{
    chars_eq, chars_of, contains_str, has_run, lower, rows, slice_of, split_once_trim,
    starts_with_str, string_of, text_is, to_lower, trim, trimmed,
};

verus! {

/// A header is found by its name without regard to the case of ASCII letters.
impl Keyed for (Seq<char>, Seq<char>) {
    type Key = Seq<char>;

    open spec fn key(&self) -> Seq<char> {
        lower(self.0)
    }
}

/// The value of the first header called `name`, whatever the case of its letters.
pub open spec fn header_value(h: Pairs, name: Seq<char>) -> Option<Seq<char>> {
    match record_of(h, lower(name)) {
        Some(e) => Some(e.1),
        None => None,
    }
}

/// The position of the first header called `name`, or `headers.len()`.
pub fn header_position(headers: &StrMap, name: &str) -> (i: usize)
    ensures
        i == find_key(headers@, lower(name@)),
        i <= headers@.len(),
{
    let wanted = to_lower(chars_of(name).as_slice());
    let mut i: usize = 0;
    while i < headers.len()
        invariant
            i <= headers@.len(),
            wanted@ == lower(name@),
            forall|j: int| 0 <= j < i ==> (#[trigger] headers@[j]).key() != lower(name@),
        decreases headers@.len() - i,
    {
        let have = to_lower(chars_of(headers.key_at(i).as_str()).as_slice());
        if chars_eq(have.as_slice(), wanted.as_slice()) {
            proof {
                lemma_find_key_unique(headers@, lower(name@), i as int);
            }
            return i;
        }
        i += 1;
    }
    proof {
        lemma_find_key_unique(headers@, lower(name@), i as int);
    }
    i
}

/// The value of the first header called `name`, whatever the case of its letters.
pub fn lookup_header<'a>(headers: &'a StrMap, name: &str) -> (r: Option<&'a String>)
    ensures
        match r {
            Some(v) => header_value(headers@, name@) == Some(v@),
            None => header_value(headers@, name@) is None,
        },
{
    let i = header_position(headers, name);
    if i < headers.len() {
        Some(headers.value_at(i))
    } else {
        None
    }
}

/// Common HTTP header names.
pub struct HeaderNames;

impl HeaderNames {
    pub const ACCEPT: &'static str = "accept";

    pub const ACCEPT_ENCODING: &'static str = "accept-encoding";

    pub const ACCEPT_LANGUAGE: &'static str = "accept-language";

    pub const AUTHORIZATION: &'static str = "authorization";

    pub const CACHE_CONTROL: &'static str = "cache-control";

    pub const CONNECTION: &'static str = "connection";

    pub const CONTENT_ENCODING: &'static str = "content-encoding";

    pub const CONTENT_LENGTH: &'static str = "content-length";

    pub const CONTENT_TYPE: &'static str = "content-type";

    pub const COOKIE: &'static str = "cookie";

    pub const DATE: &'static str = "date";

    pub const ETAG: &'static str = "etag";

    pub const EXPIRES: &'static str = "expires";

    pub const HOST: &'static str = "host";

    pub const IF_MODIFIED_SINCE: &'static str = "if-modified-since";

    pub const IF_NONE_MATCH: &'static str = "if-none-match";

    pub const LAST_MODIFIED: &'static str = "last-modified";

    pub const LOCATION: &'static str = "location";

    pub const REFERER: &'static str = "referer";

    pub const SERVER: &'static str = "server";

    pub const SET_COOKIE: &'static str = "set-cookie";

    pub const TRANSFER_ENCODING: &'static str = "transfer-encoding";

    pub const USER_AGENT: &'static str = "user-agent";

    pub const WWW_AUTHENTICATE: &'static str = "www-authenticate";
}

/// The charset that the parameters of a content type name: the trimmed text
/// after `charset=` in the first parameter that starts with it.
pub open spec fn charset_of(params: Seq<Seq<char>>) -> Option<Seq<char>>
    decreases params.len(),
{
    if params.len() == 0 {
        None
    } else if "charset="@.is_prefix_of(trim(params[0])) {
        Some(trim(trim(params[0]).skip(8)))
    } else {
        charset_of(params.skip(1))
    }
}

/// The media type and the charset of a content type: the value is cut at
/// each `;`, and the first piece, trimmed, is the media type.
pub open spec fn content_type_parts(ct: Seq<char>) -> (Seq<char>, Option<Seq<char>>) {
    let pieces = split_on(ct, ';');
    (trim(pieces[0]), charset_of(pieces.skip(1)))
}

/// The cookies after those of the given pieces of a `Cookie` header were
/// added in order.
pub open spec fn with_cookie_pieces(acc: Pairs, pieces: Seq<Seq<char>>) -> Pairs
    decreases pieces.len(),
{
    if pieces.len() == 0 {
        acc
    } else {
        let a = with_cookie_pieces(acc, pieces.drop_last());
        match cookie_pair(pieces.last()) {
            Some(p) => put(a, p.0, p.1),
            None => a,
        }
    }
}

/// The headers after each of the pairs was added in turn.
pub open spec fn with_headers(h: Pairs, pairs: Pairs) -> Pairs
    decreases pairs.len(),
{
    if pairs.len() == 0 {
        h
    } else {
        put(with_headers(h, pairs.drop_last()), lower(pairs.last().0), pairs.last().1)
    }
}

/// HTTP headers collection with case-insensitive access: names are kept in
/// lowercase.
#[derive(Debug)]
pub struct Headers {
    headers: StrMap,
}

impl View for Headers {
    type V = Pairs;

    closed spec fn view(&self) -> Pairs {
        self.headers@
    }
}

impl Headers {
    /// Create a new headers collection.
    pub fn new() -> (h: Headers)
        ensures
            h@ == Seq::<(Seq<char>, Seq<char>)>::empty(),
    {
        Headers { headers: StrMap::new() }
    }

    fn lower_name(name: &str) -> (r: String)
        ensures
            r@ == lower(name@),
    {
        string_of(to_lower(chars_of(name).as_slice()).as_slice())
    }

    /// Add a header (case-insensitive).
    pub fn add(&mut self, name: &str, value: &str)
        ensures
            final(self)@ == put(old(self)@, lower(name@), value@),
    {
        let _ = self.headers.insert(Self::lower_name(name), String::from_str(value));
    }

    /// Get a header value (case-insensitive).
    pub fn get(&self, name: &str) -> (r: Option<&String>)
        ensures
            match r {
                Some(v) => value_of(self@, lower(name@)) == Some(v@),
                None => value_of(self@, lower(name@)) is None,
            },
    {
        self.headers.get(Self::lower_name(name).as_str())
    }

    /// Remove a header (case-insensitive).
    pub fn remove(&mut self, name: &str) -> (r: Option<String>)
        ensures
            final(self)@ == without(old(self)@, lower(name@)),
            match r {
                Some(v) => value_of(old(self)@, lower(name@)) == Some(v@),
                None => value_of(old(self)@, lower(name@)) is None,
            },
    {
        self.headers.remove(Self::lower_name(name).as_str())
    }

    /// Check if a header exists (case-insensitive).
    pub fn contains(&self, name: &str) -> (b: bool)
        ensures
            b == has_key(self@, lower(name@)),
    {
        self.headers.contains_key(Self::lower_name(name).as_str())
    }

    /// The headers with each of the given pairs added in turn: of two
    /// pairs whose names differ in case only, the later one stays.
    pub fn from(headers: Vec<(String, String)>) -> (r: Headers)
        ensures
            r@ == with_headers(Seq::<(Seq<char>, Seq<char>)>::empty(), pairs_of(headers@)),
    {
        let mut r = Headers::new();
        let ghost all = pairs_of(headers@);
        let mut i: usize = 0;
        assert(all.take(0) =~= Seq::<(Seq<char>, Seq<char>)>::empty());
        while i < headers.len()
            invariant
                i <= headers.len(),
                all == pairs_of(headers@),
                r@ == with_headers(Seq::<(Seq<char>, Seq<char>)>::empty(), all.take(i as int)),
            decreases headers.len() - i,
        {
            proof {
                assert(all.take(i + 1).drop_last() =~= all.take(i as int));
                assert(all.take(i + 1).last() == (headers@[i as int].0@, headers@[i as int].1@));
            }
            r.add(headers[i].0.as_str(), headers[i].1.as_str());
            i += 1;
        }
        assert(all.take(headers.len() as int) =~= all);
        r
    }

    /// Get all headers, in the order in which their names were first added.
    pub fn iter(&self) -> (r: Vec<(&String, &String)>)
        ensures
            r@.len() == self@.len(),
            forall|i: int|
                0 <= i < r@.len() ==> (#[trigger] r@[i]).0@ == self@[i].0 && r@[i].1@ == self@[i].1,
    {
        let mut r: Vec<(&String, &String)> = Vec::new();
        let mut i: usize = 0;
        while i < self.headers.len()
            invariant
                i <= self.headers@.len(),
                r@.len() == i,
                forall|j: int|
                    0 <= j < i ==> (#[trigger] r@[j]).0@ == self@[j].0 && r@[j].1@ == self@[j].1,
            decreases self.headers@.len() - i,
        {
            r.push((self.headers.key_at(i), self.headers.value_at(i)));
            i += 1;
        }
        r
    }

    /// Get content length: the number that the `content-length` header
    /// gives, where there is one and it is a number.
    pub fn content_length(&self) -> (r: Option<usize>)
        ensures
            r == match value_of(self@, "content-length"@) {
                Some(v) => match parse_number(v, usize::MAX as nat) {
                    Some(n) => Some(n as usize),
                    None => None,
                },
                None => None,
            },
    {
        match self.headers.get(HeaderNames::CONTENT_LENGTH) {
            Some(v) => match parse_u64(chars_of(v.as_str()).as_slice(), usize::MAX as u64) {
                Some(n) => Some(n as usize),
                None => None,
            },
            None => None,
        }
    }

    /// Check if connection should be kept alive: whether the `connection`
    /// header is `keep-alive`, in any case.
    pub fn keep_alive(&self) -> (b: bool)
        ensures
            b == match value_of(self@, "connection"@) {
                Some(v) => lower(v) == "keep-alive"@,
                None => false,
            },
    {
        match self.headers.get(HeaderNames::CONNECTION) {
            Some(v) => text_is(to_lower(chars_of(v.as_str()).as_slice()).as_slice(), "keep-alive"),
            None => false,
        }
    }

    /// Check if transfer encoding is chunked.
    pub fn is_chunked(&self) -> (b: bool)
        ensures
            b == match value_of(self@, "transfer-encoding"@) {
                Some(v) => has_run(lower(v), "chunked"@),
                None => false,
            },
    {
        match self.headers.get(HeaderNames::TRANSFER_ENCODING) {
            Some(v) => contains_str(to_lower(chars_of(v.as_str()).as_slice()).as_slice(), "chunked"),
            None => false,
        }
    }

    /// Get host header.
    pub fn host(&self) -> (r: Option<&String>)
        ensures
            match r {
                Some(v) => value_of(self@, "host"@) == Some(v@),
                None => value_of(self@, "host"@) is None,
            },
    {
        self.headers.get(HeaderNames::HOST)
    }

    /// Get user agent.
    pub fn user_agent(&self) -> (r: Option<&String>)
        ensures
            match r {
                Some(v) => value_of(self@, "user-agent"@) == Some(v@),
                None => value_of(self@, "user-agent"@) is None,
            },
    {
        self.headers.get(HeaderNames::USER_AGENT)
    }

    /// Get content type.
    pub fn content_type(&self) -> (r: Option<&String>)
        ensures
            match r {
                Some(v) => value_of(self@, "content-type"@) == Some(v@),
                None => value_of(self@, "content-type"@) is None,
            },
    {
        self.headers.get(HeaderNames::CONTENT_TYPE)
    }

    /// Parse content type to get media type and charset.
    pub fn parse_content_type(&self) -> (r: Option<(String, Option<String>)>)
        ensures
            match r {
                Some(p) => {
                    &&& value_of(self@, "content-type"@) is Some
                    &&& p.0@ == content_type_parts(value_of(self@, "content-type"@)->0).0
                    &&& match p.1 {
                        Some(c) => content_type_parts(value_of(self@, "content-type"@)->0).1
                            == Some(c@),
                        None => content_type_parts(value_of(self@, "content-type"@)->0).1 is None,
                    }
                },
                None => value_of(self@, "content-type"@) is None,
            },
    {
        let ct = match self.content_type() {
            Some(v) => chars_of(v.as_str()),
            None => {
                return None;
            },
        };
        let pieces = split_chars(ct.as_slice(), ';');
        assert(rows(pieces@)[0] == pieces@[0]@);
        let media = string_of(trimmed(pieces[0].as_slice()).as_slice());
        let ghost params = rows(pieces@).skip(1);
        let mut i: usize = 1;
        assert(params.skip(0) =~= params);
        while i < pieces.len()
            invariant
                1 <= i <= pieces.len(),
                params == rows(pieces@).skip(1),
                rows(pieces@) == split_on(ct@, ';'),
                value_of(self@, "content-type"@) == Some(ct@),
                media@ == trim(rows(pieces@)[0]),
                charset_of(params) == charset_of(params.skip(i - 1)),
            decreases pieces.len() - i,
        {
            let part = trimmed(pieces[i].as_slice());
            assert(params.skip(i - 1)[0] == pieces@[i as int]@);
            if starts_with_str(part.as_slice(), "charset=") {
                proof {
                    reveal_strlit("charset=");
                }
                let value = trimmed(slice_of(part.as_slice(), 8, part.len()).as_slice());
                assert(part@.subrange(8, part@.len() as int) =~= part@.skip(8));
                return Some((media, Some(string_of(value.as_slice()))));
            }
            assert(params.skip(i - 1).skip(1) =~= params.skip(i as int));
            i += 1;
        }
        Some((media, None))
    }

    /// Get cookies as a map: the names and values that the `cookie` header
    /// gives.
    pub fn cookies(&self) -> (r: StrMap)
        ensures
            r@ == match value_of(self@, "cookie"@) {
                Some(v) => with_cookie_pieces(Seq::empty(), split_on(v, ';')),
                None => Seq::empty(),
            },
    {
        let mut cookies = StrMap::new();
        if let Some(header) = self.headers.get(HeaderNames::COOKIE) {
            let hv = chars_of(header.as_str());
            let pieces = split_chars(hv.as_slice(), ';');
            let mut i: usize = 0;
            while i < pieces.len()
                invariant
                    i <= pieces.len(),
                    cookies@ == with_cookie_pieces(Seq::empty(), rows(pieces@).take(i as int)),
                decreases pieces.len() - i,
            {
                let piece = trimmed(pieces[i].as_slice());
                proof {
                    assert(rows(pieces@).take(i + 1).drop_last() =~= rows(pieces@).take(i as int));
                    assert(rows(pieces@).take(i + 1).last() == pieces@[i as int]@);
                }
                match split_once_trim(piece.as_slice(), '=') {
                    Some(p) => {
                        let _ = cookies.insert(
                            string_of(p.0.as_slice()),
                            string_of(p.1.as_slice()),
                        );
                    },
                    None => {},
                }
                i += 1;
            }
            assert(rows(pieces@).take(pieces.len() as int) =~= rows(pieces@));
        }
        cookies
    }

    /// Clear all headers.
    pub fn clear(&mut self)
        ensures
            final(self)@ == Seq::<(Seq<char>, Seq<char>)>::empty(),
    {
        self.headers.clear();
    }

    /// Get number of headers.
    pub fn len(&self) -> (n: usize)
        ensures
            n == self@.len(),
    {
        self.headers.len()
    }

    /// Check if headers collection is empty.
    pub fn is_empty(&self) -> (b: bool)
        ensures
            b == (self@.len() == 0),
    {
        self.headers.is_empty()
    }
}

impl Default for Headers {
    fn default() -> (h: Self)
        ensures
            h@ == Seq::<(Seq<char>, Seq<char>)>::empty(),
    {
        Headers::new()
    }
}

} // verus!
