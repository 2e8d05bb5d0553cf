//! HTTP responses and their encoding for the wire.
use vstd::prelude::*;
use vstd::string::*;
use vstd::utf8::encode_utf8;
use crate::error::HttpStatus;
use crate::http::headers::{header_position, header_value, lookup_header};
use crate::http::request::HttpVersion;
use crate::keyed::{
    distinct_keys, find_key, holds_key, lemma_find_key, lemma_found_at, lemma_upsert, upsert, Keyed,
};
use crate::number::{dec, u64_to_string};
use crate::strmap::{Pairs, StrMap};
use crate::text::{chars_of, lower, opt_str, text_is, to_lower};
use crate::utils::clock::now_secs;
use crate::utils::date::{fmt_http_date, http_date};

verus! {

/// What a response holds.
pub struct ResponseModel {
    pub version: HttpVersion,
    pub status: HttpStatus,
    pub headers: Pairs,
    pub body: Seq<u8>,
}

/// The header lines of `h`, each `name: value` followed by a line break.
pub open spec fn header_lines_text(h: Pairs) -> Seq<char>
    decreases h.len(),
{
    if h.len() == 0 {
        Seq::<char>::empty()
    } else {
        header_lines_text(h.drop_last()) + h.last().0 + ": "@ + h.last().1 + "\r\n"@
    }
}

impl ResponseModel {
    /// A response is well formed when no two of its headers have the same
    /// name, whatever the case of the letters; it has a `Server` and a
    /// `Date` header; and its `Content-Length` header gives the length of
    /// its body.
    pub open spec fn wf(self) -> bool {
        &&& distinct_keys(self.headers)
        &&& header_value(self.headers, "content-length"@) == Some(dec(self.body.len()))
        &&& holds_key(self.headers, "server"@)
        &&& holds_key(self.headers, "date"@)
    }

    /// A response with the given status and date, no body, and the headers
    /// `Server`, `Date` and `Content-Length`.
    pub open spec fn fresh(status: HttpStatus, date: Seq<char>) -> ResponseModel {
        ResponseModel {
            version: HttpVersion::Http11,
            status,
            headers: seq![
                ("Server"@, "localhost-http-server/0.1.0"@),
                ("Date"@, date),
                ("Content-Length"@, "0"@),
            ],
            body: Seq::empty(),
        }
    }

    /// The response with the header `name` set to `value`, in the place of a
    /// header of that name, whatever its case, or after all others. The
    /// `Content-Length` header is not set this way: it follows the body.
    pub open spec fn with_header(self, name: Seq<char>, value: Seq<char>) -> ResponseModel {
        if lower(name) == "content-length"@ {
            self
        } else {
            ResponseModel { headers: upsert(self.headers, (name, value)), ..self }
        }
    }

    /// The response with the given body and the `Content-Length` that goes
    /// with it.
    pub open spec fn with_body(self, body: Seq<u8>) -> ResponseModel {
        ResponseModel {
            body,
            headers: upsert(self.headers, ("Content-Length"@, dec(body.len()))),
            ..self
        }
    }

    /// The status line: version, code and reason phrase, then a line break.
    pub open spec fn status_line(self) -> Seq<char> {
        self.version.name() + " "@ + dec(self.status.code()) + " "@ + self.status.reason()
            + "\r\n"@
    }

    /// The head of the response: status line, header lines, blank line.
    pub open spec fn head(self) -> Seq<char> {
        self.status_line() + header_lines_text(self.headers) + "\r\n"@
    }

    /// The response as bytes for the wire: the head in UTF-8, then the body.
    pub open spec fn encoded(self) -> Seq<u8> {
        encode_utf8(self.head()) + self.body
    }
}

pub proof fn lemma_content_length_name()
    ensures
        lower("Content-Length"@) == "content-length"@,
        lower("content-length"@) == "content-length"@,
        dec(0) == "0"@,
{
    reveal_strlit("Content-Length");
    reveal_strlit("content-length");
    reveal_strlit("0");
    assert(lower("Content-Length"@) =~= "content-length"@);
    assert(lower("content-length"@) =~= "content-length"@);
    assert(dec(0) =~= "0"@);
}

/// A fresh response is well formed.
pub proof fn lemma_fresh_wf(status: HttpStatus, date: Seq<char>)
    ensures
        ResponseModel::fresh(status, date).wf(),
{
    lemma_content_length_name();
    reveal_strlit("Server");
    reveal_strlit("Date");
    reveal_strlit("Content-Length");
    reveal_strlit("content-length");
    let h = ResponseModel::fresh(status, date).headers;
    assert(lower("Server"@).len() == 6);
    assert(lower("Date"@).len() == 4);
    assert(lower("Content-Length"@).len() == 14);
    assert(h[0].key() != h[1].key());
    assert(h[0].key() != h[2].key());
    assert(h[1].key() != h[2].key());
    lemma_found_at(h, 2);
    lemma_found_at(h, 1);
    lemma_found_at(h, 0);
    reveal_strlit("server");
    reveal_strlit("date");
    assert(lower("Server"@) =~= "server"@);
    assert(lower("Date"@) =~= "date"@);
}

/// Setting a header keeps a response well formed.
pub proof fn lemma_with_header_wf(m: ResponseModel, name: Seq<char>, value: Seq<char>)
    requires
        m.wf(),
    ensures
        m.with_header(name, value).wf(),
        m.with_header(name, value).body == m.body,
        m.with_header(name, value).status == m.status,
{
    lemma_content_length_name();
    if lower(name) != "content-length"@ {
        lemma_upsert(m.headers, (name, value), "content-length"@);
        lemma_upsert(m.headers, (name, value), "server"@);
        lemma_upsert(m.headers, (name, value), "date"@);
    }
}

/// Setting the body keeps a response well formed.
pub proof fn lemma_with_body_wf(m: ResponseModel, body: Seq<u8>)
    requires
        m.wf(),
    ensures
        m.with_body(body).wf(),
{
    lemma_content_length_name();
    lemma_upsert(m.headers, ("Content-Length"@, dec(body.len())), "content-length"@);
    lemma_upsert(m.headers, ("Content-Length"@, dec(body.len())), "server"@);
    lemma_upsert(m.headers, ("Content-Length"@, dec(body.len())), "date"@);
}

/// What a search for a header finds after a header was set.
pub proof fn lemma_header_set(m: ResponseModel, name: Seq<char>, value: Seq<char>, q: Seq<char>)
    requires
        m.wf(),
        lower(name) != "content-length"@,
    ensures
        header_value(m.with_header(name, value).headers, q) == if lower(q) == lower(name) {
            Some(value)
        } else {
            header_value(m.headers, q)
        },
{
    lemma_upsert(m.headers, (name, value), lower(q));
}

/// What a search for a header finds after the body was set.
pub proof fn lemma_body_set(m: ResponseModel, body: Seq<u8>, q: Seq<char>)
    requires
        m.wf(),
    ensures
        header_value(m.with_body(body).headers, q) == if lower(q) == "content-length"@ {
            Some(dec(body.len()))
        } else {
            header_value(m.headers, q)
        },
{
    lemma_content_length_name();
    lemma_upsert(m.headers, ("Content-Length"@, dec(body.len())), lower(q));
}

/// A response with its `Connection` header set, as it is when it is sent,
/// is well formed and has exactly one `Connection` header, with that
/// value.
pub proof fn lemma_connection_header(m: ResponseModel, value: Seq<char>)
    requires
        m.wf(),
    ensures
        m.with_header("Connection"@, value).wf(),
        header_value(m.with_header("Connection"@, value).headers, "connection"@) == Some(value),
        ({
            let h = m.with_header("Connection"@, value).headers;
            exists|i: int|
                {
                    &&& 0 <= i < h.len()
                    &&& lower(#[trigger] h[i].0) == "connection"@
                    &&& h[i].1 == value
                    &&& forall|j: int|
                        0 <= j < h.len() && j != i ==> lower(#[trigger] h[j].0) != "connection"@
                }
        }),
{
    reveal_strlit("Connection");
    reveal_strlit("connection");
    reveal_strlit("content-length");
    assert(lower("Connection"@) =~= "connection"@);
    assert(lower("connection"@) =~= "connection"@);
    assert("connection"@.len() != "content-length"@.len());
    lemma_with_header_wf(m, "Connection"@, value);
    lemma_upsert(m.headers, ("Connection"@, value), "connection"@);
    let h = m.with_header("Connection"@, value).headers;
    lemma_find_key(h, "connection"@);
    let i = find_key(h, "connection"@) as int;
    assert(lower(h[i].0) == "connection"@);
    assert forall|j: int| 0 <= j < h.len() && j != i implies lower(#[trigger] h[j].0)
        != "connection"@ by {
        if j < i {
            assert(h[j].key() != h[i].key());
        } else {
            assert(h[i].key() != h[j].key());
        }
    }
}

/// A well-formed response has exactly one `Content-Length` header, and it
/// gives the length of the body.
pub proof fn lemma_one_content_length(m: ResponseModel)
    requires
        m.wf(),
    ensures
        exists|i: int|
            {
                &&& 0 <= i < m.headers.len()
                &&& lower(#[trigger] m.headers[i].0) == "content-length"@
                &&& m.headers[i].1 == dec(m.body.len())
                &&& forall|j: int|
                    0 <= j < m.headers.len() && j != i ==> lower(#[trigger] m.headers[j].0)
                        != "content-length"@
            },
{
    lemma_content_length_name();
    lemma_find_key(m.headers, "content-length"@);
    let i = find_key(m.headers, "content-length"@) as int;
    assert(lower(m.headers[i].0) == "content-length"@);
    assert forall|j: int| 0 <= j < m.headers.len() && j != i implies lower(
        #[trigger] m.headers[j].0,
    ) != "content-length"@ by {
        if j < i {
            assert(m.headers[j].key() != m.headers[i].key());
        } else {
            assert(m.headers[i].key() != m.headers[j].key());
        }
    }
}

/// HTTP response structure.
#[derive(Debug)]
pub struct HttpResponse {
    version: HttpVersion,
    status: HttpStatus,
    headers: StrMap,
    body: Vec<u8>,
}

impl View for HttpResponse {
    type V = ResponseModel;

    closed spec fn view(&self) -> ResponseModel {
        ResponseModel {
            version: self.version,
            status: self.status,
            headers: self.headers@,
            body: self.body@,
        }
    }
}

impl Clone for HttpResponse {
    fn clone(&self) -> (r: Self)
        ensures
            r@ == self@,
    {
        proof {
            use_type_invariant(self);
        }
        HttpResponse {
            version: self.version,
            status: self.status,
            headers: self.headers.clone(),
            body: self.body.clone(),
        }
    }
}

impl HttpResponse {
    #[verifier::type_invariant]
    spec fn inv(self) -> bool {
        self@.wf()
    }

    /// Every response is well formed. Calling this makes that known to the
    /// caller's proof; it does nothing at run time.
    pub fn is_well_formed(&self)
        ensures
            self@.wf(),
    {
        proof {
            use_type_invariant(self);
        }
    }

    /// Create a response with the given status, dated `now` seconds after
    /// the epoch.
    pub fn new_at(status: HttpStatus, now: u64) -> (r: HttpResponse)
        ensures
            r@ == ResponseModel::fresh(status, http_date(now as nat)),
    {
        let mut headers = StrMap::new();
        let date = fmt_http_date(now);
        proof {
            reveal_strlit("Server");
            reveal_strlit("Date");
            reveal_strlit("Content-Length");
            lemma_fresh_wf(status, date@);
        }
        let ghost target = ResponseModel::fresh(status, date@).headers;
        assert("Server"@ != "Date"@) by {
            assert("Server"@.len() != "Date"@.len());
        }
        assert("Server"@ != "Content-Length"@) by {
            assert("Server"@.len() != "Content-Length"@.len());
        }
        assert("Date"@ != "Content-Length"@) by {
            assert("Date"@.len() != "Content-Length"@.len());
        }
        let _ = headers.insert(
            String::from_str("Server"),
            String::from_str("localhost-http-server/0.1.0"),
        );
        let _ = headers.insert(String::from_str("Date"), date);
        let _ = headers.insert(String::from_str("Content-Length"), String::from_str("0"));
        proof {
            reveal_with_fuel(crate::strmap::key_index, 4);
            assert(headers@ =~= target);
        }
        HttpResponse { version: HttpVersion::Http11, status, headers, body: Vec::new() }
    }

    /// Create a new HTTP response, dated by the system clock.
    pub fn new(status: HttpStatus) -> (r: HttpResponse)
        ensures
            exists|t: nat| r@ == #[trigger] ResponseModel::fresh(status, http_date(t)),
    {
        let now = now_secs();
        let r = HttpResponse::new_at(status, now);
        assert(r@ == ResponseModel::fresh(status, http_date(now as nat)));
        r
    }

    pub fn status(&self) -> (s: HttpStatus)
        ensures
            s == self@.status,
    {
        self.status
    }

    pub fn version(&self) -> (v: HttpVersion)
        ensures
            v == self@.version,
    {
        self.version
    }

    pub fn body(&self) -> (b: &Vec<u8>)
        ensures
            b@ == self@.body,
    {
        &self.body
    }

    pub fn headers(&self) -> (h: &StrMap)
        ensures
            h@ == self@.headers,
    {
        &self.headers
    }

    /// The value of the header called `name`, whatever the case of its letters.
    pub fn header(&self, name: &str) -> (r: Option<&String>)
        ensures
            match r {
                Some(v) => header_value(self@.headers, name@) == Some(v@),
                None => header_value(self@.headers, name@) is None,
            },
    {
        lookup_header(&self.headers, name)
    }

    /// Moves the response out, leaving an empty one in its place.
    fn take(&mut self) -> (r: HttpResponse)
        ensures
            r@ == old(self)@,
            r@.wf(),
    {
        proof {
            use_type_invariant(&*self);
        }
        let mut t = HttpResponse::new_at(HttpStatus::Okay, 0);
        core::mem::swap(self, &mut t);
        t
    }

    /// Sets a header in the given header set.
    fn put_header(headers: &mut StrMap, name: &str, value: &str)
        requires
            distinct_keys(old(headers)@),
        ensures
            final(headers)@ == upsert(old(headers)@, (name@, value@)),
            distinct_keys(final(headers)@),
    {
        proof {
            lemma_find_key(headers@, lower(name@));
            lemma_upsert(headers@, (name@, value@), lower(name@));
        }
        let i = header_position(headers, name);
        if i < headers.len() {
            assert forall|j: int| 0 <= j < headers@.len() && j != i implies (
            #[trigger] headers@[j]).0 != name@ by {
                if j < i {
                    assert(headers@[j].key() != headers@[i as int].key());
                } else {
                    assert(headers@[i as int].key() != headers@[j].key());
                }
            }
            headers.replace_at(i, String::from_str(name), String::from_str(value));
        } else {
            assert(!crate::strmap::has_key(headers@, name@)) by {
                crate::strmap::lemma_key_index(headers@, name@);
                let k = crate::strmap::key_index(headers@, name@) as int;
                if k < headers@.len() {
                    assert(headers@[k].key() == lower(name@));
                }
            }
            headers.push(String::from_str(name), String::from_str(value));
        }
    }

    /// Add a header.
    pub fn add_header(&mut self, name: &str, value: &str)
        ensures
            final(self)@ == old(self)@.with_header(name@, value@),
    {
        if text_is(to_lower(chars_of(name).as_slice()).as_slice(), "content-length") {
            return ;
        }
        let t = self.take();
        proof {
            lemma_with_header_wf(t@, name@, value@);
        }
        let HttpResponse { version, status, headers, body } = t;
        let mut headers = headers;
        Self::put_header(&mut headers, name, value);
        *self = HttpResponse { version, status, headers, body };
    }

    /// Set the response body.
    pub fn set_body(&mut self, body: Vec<u8>)
        ensures
            final(self)@ == old(self)@.with_body(body@),
    {
        let t = self.take();
        proof {
            lemma_with_body_wf(t@, body@);
        }
        let HttpResponse { version, status, headers, body: _ } = t;
        let mut headers = headers;
        let len = u64_to_string(body.len() as u64);
        Self::put_header(&mut headers, "Content-Length", len.as_str());
        *self = HttpResponse { version, status, headers, body };
    }

    /// Set the response body from string.
    pub fn set_body_string(&mut self, body: String)
        ensures
            final(self)@ == old(self)@.with_body(encode_utf8(body@)),
    {
        let bytes = body.as_str().as_bytes_vec();
        self.set_body(bytes);
    }

    /// Set the status.
    pub fn set_status(&mut self, status: HttpStatus)
        ensures
            final(self)@ == (ResponseModel { status, ..old(self)@ }),
    {
        let t = self.take();
        let HttpResponse { version, status: _, headers, body } = t;
        *self = HttpResponse { version, status, headers, body };
    }

    /// Set content type.
    pub fn set_content_type(&mut self, content_type: &str)
        ensures
            final(self)@ == old(self)@.with_header("Content-Type"@, content_type@),
    {
        self.add_header("Content-Type", content_type);
    }

    /// Enable/disable keep-alive.
    pub fn set_keep_alive(&mut self, keep_alive: bool)
        ensures
            final(self)@ == old(self)@.with_header(
                "Connection"@,
                if keep_alive {
                    "keep-alive"@
                } else {
                    "close"@
                },
            ),
    {
        if keep_alive {
            self.add_header("Connection", "keep-alive");
        } else {
            self.add_header("Connection", "close");
        }
    }

    /// The response without its body, as it answers a `HEAD` request.
    pub fn clear_body(&mut self)
        ensures
            final(self)@ == old(self)@.with_body(Seq::<u8>::empty()),
    {
        self.set_body(Vec::new());
    }

    /// Convert response to bytes for transmission.
    pub fn to_bytes(&self) -> (r: Vec<u8>)
        ensures
            r@ == self@.encoded(),
            self@.wf(),
    {
        proof {
            use_type_invariant(self);
        }
        let mut head = String::from_str(self.version.as_str());
        head.append(" ");
        head.append(u64_to_string(self.status.as_u16() as u64).as_str());
        head.append(" ");
        head.append(self.status.reason_phrase());
        head.append("\r\n");
        let ghost line = head@;
        assert(line == self@.status_line());
        let mut i: usize = 0;
        assert(self.headers@.take(0) =~= Seq::<(Seq<char>, Seq<char>)>::empty());
        assert(head@ =~= line + header_lines_text(self.headers@.take(0)));
        while i < self.headers.len()
            invariant
                i <= self.headers@.len(),
                head@ == line + header_lines_text(self.headers@.take(i as int)),
            decreases self.headers@.len() - i,
        {
            let ghost prev = header_lines_text(self.headers@.take(i as int));
            let ghost e = self.headers@[i as int];
            proof {
                assert(self.headers@.take(i + 1).drop_last() =~= self.headers@.take(i as int));
                assert(self.headers@.take(i + 1).last() == e);
            }
            let mut piece = String::from_str(self.headers.key_at(i).as_str());
            piece.append(": ");
            piece.append(self.headers.value_at(i).as_str());
            piece.append("\r\n");
            head.append(piece.as_str());
            assert(head@ =~= line + (prev + e.0 + ": "@ + e.1 + "\r\n"@));
            i += 1;
        }
        assert(self.headers@.take(self.headers@.len() as int) =~= self.headers@);
        head.append("\r\n");
        assert(head@ =~= self@.head());
        let mut bytes = head.as_str().as_bytes_vec();
        let mut k: usize = 0;
        let ghost start = bytes@;
        while k < self.body.len()
            invariant
                k <= self.body@.len(),
                bytes@ =~= start + self.body@.take(k as int),
            decreases self.body@.len() - k,
        {
            bytes.push(self.body[k]);
            k += 1;
        }
        assert(self.body@.take(self.body@.len() as int) =~= self.body@);
        bytes
    }

    /// Create a response with a body of the given content type, dated `now`.
    pub fn page_at(status: HttpStatus, content_type: &str, body: Vec<u8>, now: u64) -> (r:
        HttpResponse)
        ensures
            r@ == page(status, content_type@, body@, http_date(now as nat)),
    {
        let mut r = HttpResponse::new_at(status, now);
        r.set_content_type(content_type);
        r.set_body(body);
        r
    }

    /// Create a simple text response, dated `now`.
    pub fn text_at(status: HttpStatus, text: &str, now: u64) -> (r: HttpResponse)
        ensures
            r@ == page(
                status,
                "text/plain; charset=utf-8"@,
                encode_utf8(text@),
                http_date(now as nat),
            ),
    {
        HttpResponse::page_at(status, "text/plain; charset=utf-8", text.as_bytes_vec(), now)
    }

    /// Create an HTML response, dated `now`.
    pub fn html_at(status: HttpStatus, html: &str, now: u64) -> (r: HttpResponse)
        ensures
            r@ == page(
                status,
                "text/html; charset=utf-8"@,
                encode_utf8(html@),
                http_date(now as nat),
            ),
    {
        HttpResponse::page_at(status, "text/html; charset=utf-8", html.as_bytes_vec(), now)
    }

    /// Create a redirect response, dated `now`.
    pub fn redirect_at(location: &str, permanent: bool, now: u64) -> (r: HttpResponse)
        ensures
            r@ == redirection(location@, permanent, http_date(now as nat)),
    {
        let status = if permanent {
            HttpStatus::MovedPermanently
        } else {
            HttpStatus::Found
        };
        let mut r = HttpResponse::new_at(status, now);
        r.add_header("Location", location);
        let mut html = String::from_str(
            "<!DOCTYPE html>\n<html><head><title>Redirect</title></head>\n<body><h1>Redirect</h1><p>This page has moved to <a href=\"",
        );
        html.append(location);
        html.append("\">");
        html.append(location);
        html.append("</a></p></body></html>");
        r.set_body_string(html);
        r.set_content_type("text/html; charset=utf-8");
        r
    }

    /// Create an error response, dated `now`.
    pub fn error_at(status: HttpStatus, message: Option<&str>, now: u64) -> (r: HttpResponse)
        ensures
            r@ == error_page(status, opt_str(message), http_date(now as nat)),
    {
        let mut title = u64_to_string(status.as_u16() as u64);
        title.append(" ");
        title.append(status.reason_phrase());
        let mut html = String::from_str("<!DOCTYPE html>\n<html><head><title>");
        html.append(title.as_str());
        html.append("</title></head>\n<body><h1>");
        html.append(title.as_str());
        html.append("</h1><p>");
        match message {
            Some(m) => {
                html.append(m);
            },
            None => {
                html.append(title.as_str());
            },
        }
        html.append("</p></body></html>");
        HttpResponse::html_at(status, html.as_str(), now)
    }

    /// Create a simple text response.
    pub fn text(status: HttpStatus, text: &str) -> (r: HttpResponse)
        ensures
            exists|t: nat|
                r@ == #[trigger] page(
                    status,
                    "text/plain; charset=utf-8"@,
                    encode_utf8(text@),
                    http_date(t),
                ),
    {
        let now = now_secs();
        let r = HttpResponse::text_at(status, text, now);
        assert(r@ == page(
            status,
            "text/plain; charset=utf-8"@,
            encode_utf8(text@),
            http_date(now as nat),
        ));
        r
    }

    /// Create an HTML response.
    pub fn html(status: HttpStatus, html: &str) -> (r: HttpResponse)
        ensures
            exists|t: nat|
                r@ == #[trigger] page(
                    status,
                    "text/html; charset=utf-8"@,
                    encode_utf8(html@),
                    http_date(t),
                ),
    {
        let now = now_secs();
        let r = HttpResponse::html_at(status, html, now);
        assert(r@ == page(
            status,
            "text/html; charset=utf-8"@,
            encode_utf8(html@),
            http_date(now as nat),
        ));
        r
    }

    /// Create a JSON response.
    pub fn json(status: HttpStatus, json: &str) -> (r: HttpResponse)
        ensures
            exists|t: nat|
                r@ == #[trigger] page(
                    status,
                    "application/json; charset=utf-8"@,
                    encode_utf8(json@),
                    http_date(t),
                ),
    {
        let now = now_secs();
        let r = HttpResponse::page_at(
            status,
            "application/json; charset=utf-8",
            json.as_bytes_vec(),
            now,
        );
        assert(r@ == page(
            status,
            "application/json; charset=utf-8"@,
            encode_utf8(json@),
            http_date(now as nat),
        ));
        r
    }

    /// Create a file response.
    pub fn file(status: HttpStatus, content: Vec<u8>, content_type: &str) -> (r: HttpResponse)
        ensures
            exists|t: nat| r@ == #[trigger] page(status, content_type@, content@, http_date(t)),
    {
        let now = now_secs();
        let ghost bytes = content@;
        let r = HttpResponse::page_at(status, content_type, content, now);
        assert(r@ == page(status, content_type@, bytes, http_date(now as nat)));
        r
    }

    /// Create a redirect response.
    pub fn redirect(location: &str, permanent: bool) -> (r: HttpResponse)
        ensures
            exists|t: nat| r@ == #[trigger] redirection(location@, permanent, http_date(t)),
    {
        let now = now_secs();
        let r = HttpResponse::redirect_at(location, permanent, now);
        assert(r@ == redirection(location@, permanent, http_date(now as nat)));
        r
    }

    /// Create an error response.
    pub fn error(status: HttpStatus, message: Option<&str>) -> (r: HttpResponse)
        ensures
            exists|t: nat| r@ == #[trigger] error_page(status, opt_str(message), http_date(t)),
    {
        let now = now_secs();
        let r = HttpResponse::error_at(status, message, now);
        assert(r@ == error_page(status, opt_str(message), http_date(now as nat)));
        r
    }
}

/// A response with a body of the given content type.
pub open spec fn page(
    status: HttpStatus,
    content_type: Seq<char>,
    body: Seq<u8>,
    date: Seq<char>,
) -> ResponseModel {
    ResponseModel::fresh(status, date).with_header("Content-Type"@, content_type).with_body(body)
}

/// The page that a redirect response shows.
pub open spec fn redirect_html(location: Seq<char>) -> Seq<char> {
    "<!DOCTYPE html>\n<html><head><title>Redirect</title></head>\n<body><h1>Redirect</h1><p>This page has moved to <a href=\""@
        + location + "\">"@ + location + "</a></p></body></html>"@
}

/// A redirect to `location`: `301 Moved Permanently` where `permanent`
/// holds, else `302 Found`, with a `Location` header and a short page.
pub open spec fn redirection(location: Seq<char>, permanent: bool, date: Seq<char>) -> ResponseModel {
    ResponseModel::fresh(
        if permanent {
            HttpStatus::MovedPermanently
        } else {
            HttpStatus::Found
        },
        date,
    ).with_header("Location"@, location).with_body(
        encode_utf8(redirect_html(location)),
    ).with_header("Content-Type"@, "text/html; charset=utf-8"@)
}

/// The code and reason phrase of a status, as in `404 Not Found`.
pub open spec fn status_title(status: HttpStatus) -> Seq<char> {
    dec(status.code()) + " "@ + status.reason()
}

/// The short page of an error response: the status as title and heading,
/// then the message, or the status again where there is no message.
pub open spec fn error_html(status: HttpStatus, message: Option<Seq<char>>) -> Seq<char> {
    "<!DOCTYPE html>\n<html><head><title>"@ + status_title(status)
        + "</title></head>\n<body><h1>"@ + status_title(status) + "</h1><p>"@ + (match message {
        Some(m) => m,
        None => status_title(status),
    }) + "</p></body></html>"@
}

/// The short error response for a status.
pub open spec fn error_page(
    status: HttpStatus,
    message: Option<Seq<char>>,
    date: Seq<char>,
) -> ResponseModel {
    page(status, "text/html; charset=utf-8"@, encode_utf8(error_html(status, message)), date)
}

} // verus!
