//! HTTP cookies.
use vstd::prelude::*;
use vstd::string::*;
use crate::keyed::{
    delete, distinct_keys, find_key, keep, lemma_delete, lemma_find_key_unique, lemma_keep_distinct,
    lemma_upsert, record_of, upsert, Keyed,
};
use crate::number::{dec, u64_to_string};
use crate::split::{split_chars, split_on};
use crate::text::{
    chars_of, clone_opt, ends_with, flagged, labelled, opt_text, push_flagged, push_labelled, rows,
    split_once_trim, split_once_trimmed, starts_with, str_eq, string_of, trim, trimmed,
};
use crate::utils::clock::now_secs;
use crate::utils::date::{fmt_http_date, http_date};

verus! {

/// The `SameSite` attribute of a cookie.
#[derive(Debug, Clone, Copy, PartialEq, Eq, Structural)]
pub enum SameSite {
    Strict,
    Lax,
    /// Sent with every request; written `None` in a header.
    Unrestricted,
}

impl SameSite {
    /// The attribute's value as written in a header.
    pub open spec fn text(self) -> Seq<char> {
        match self {
            SameSite::Strict => "Strict"@,
            SameSite::Lax => "Lax"@,
            SameSite::Unrestricted => "None"@,
        }
    }

    pub fn as_str(self) -> (r: &'static str)
        ensures
            r@ == self.text(),
    {
        match self {
            SameSite::Strict => "Strict",
            SameSite::Lax => "Lax",
            SameSite::Unrestricted => "None",
        }
    }
}

/// An HTTP cookie. Times are in seconds: `expires` since the epoch,
/// `max_age` from now.
#[derive(Debug)]
pub struct Cookie {
    pub name: String,
    pub value: String,
    pub domain: Option<String>,
    pub path: Option<String>,
    pub expires: Option<u64>,
    pub max_age: Option<u64>,
    pub secure: bool,
    pub http_only: bool,
    pub same_site: Option<SameSite>,
}

/// What a cookie holds.
pub struct CookieModel {
    pub name: Seq<char>,
    pub value: Seq<char>,
    pub domain: Option<Seq<char>>,
    pub path: Option<Seq<char>>,
    pub expires: Option<u64>,
    pub max_age: Option<u64>,
    pub secure: bool,
    pub http_only: bool,
    pub same_site: Option<SameSite>,
}

impl Keyed for CookieModel {
    type Key = Seq<char>;

    open spec fn key(&self) -> Seq<char> {
        self.name
    }
}

impl CookieModel {
    /// A cookie with a name and a value and no attributes.
    pub open spec fn plain(name: Seq<char>, value: Seq<char>) -> CookieModel {
        CookieModel {
            name,
            value,
            domain: None,
            path: None,
            expires: None,
            max_age: None,
            secure: false,
            http_only: false,
            same_site: None,
        }
    }

    /// The cookie as the value of a `Set-Cookie` header: `name=value`, then
    /// each attribute that is set, in a fixed order, joined by `"; "`.
    pub open spec fn header_value(self) -> Seq<char> {
        self.name + "="@ + self.value + labelled("; Domain="@, self.domain) + labelled(
            "; Path="@,
            self.path,
        ) + labelled(
            "; Expires="@,
            match self.expires {
                Some(t) => Some(http_date(t as nat)),
                None => None,
            },
        ) + labelled(
            "; Max-Age="@,
            match self.max_age {
                Some(n) => Some(dec(n as nat)),
                None => None,
            },
        ) + flagged("; Secure"@, self.secure) + flagged("; HttpOnly"@, self.http_only) + labelled(
            "; SameSite="@,
            match self.same_site {
                Some(s) => Some(s.text()),
                None => None,
            },
        )
    }

    /// Whether the cookie's expiry time lies before `now`.
    pub open spec fn expired_at(self, now: u64) -> bool {
        match self.expires {
            Some(t) => now > t,
            None => false,
        }
    }

    /// Whether the cookie is sent to `domain` for `path` at time `now`: the
    /// domain ends with the cookie's domain, the path starts with the
    /// cookie's path, and the cookie has not expired.
    pub open spec fn valid_for_at(self, domain: Seq<char>, path: Seq<char>, now: u64) -> bool {
        &&& match self.domain {
            Some(d) => d.is_suffix_of(domain),
            None => true,
        }
        &&& match self.path {
            Some(p) => p.is_prefix_of(path),
            None => true,
        }
        &&& !self.expired_at(now)
    }
}

impl View for Cookie {
    type V = CookieModel;

    open spec fn view(&self) -> CookieModel {
        CookieModel {
            name: self.name@,
            value: self.value@,
            domain: opt_text(self.domain),
            path: opt_text(self.path),
            expires: self.expires,
            max_age: self.max_age,
            secure: self.secure,
            http_only: self.http_only,
            same_site: self.same_site,
        }
    }
}

impl Clone for Cookie {
    fn clone(&self) -> (r: Self)
        ensures
            r@ == self@,
    {
        Cookie {
            name: self.name.clone(),
            value: self.value.clone(),
            domain: clone_opt(&self.domain),
            path: clone_opt(&self.path),
            expires: self.expires,
            max_age: self.max_age,
            secure: self.secure,
            http_only: self.http_only,
            same_site: self.same_site,
        }
    }
}

impl Cookie {
    /// Create a new cookie.
    pub fn new(name: String, value: String) -> (c: Cookie)
        ensures
            c@ == CookieModel::plain(name@, value@),
    {
        Cookie {
            name,
            value,
            domain: None,
            path: None,
            expires: None,
            max_age: None,
            secure: false,
            http_only: false,
            same_site: None,
        }
    }

    /// Create a session cookie (one that ends with the browser session).
    pub fn session(name: String, value: String) -> (c: Cookie)
        ensures
            c@ == CookieModel::plain(name@, value@),
    {
        Cookie::new(name, value)
    }

    /// Create a persistent cookie that lives `max_age` seconds.
    pub fn persistent(name: String, value: String, max_age: u64) -> (c: Cookie)
        ensures
            c@ == (CookieModel { max_age: Some(max_age), ..CookieModel::plain(name@, value@) }),
    {
        let mut cookie = Cookie::new(name, value);
        cookie.max_age = Some(max_age);
        cookie
    }

    /// Set the domain for the cookie.
    pub fn domain(self, domain: String) -> (c: Cookie)
        ensures
            c@ == (CookieModel { domain: Some(domain@), ..self@ }),
    {
        let mut c = self;
        c.domain = Some(domain);
        c
    }

    /// Set the path for the cookie.
    pub fn path(self, path: String) -> (c: Cookie)
        ensures
            c@ == (CookieModel { path: Some(path@), ..self@ }),
    {
        let mut c = self;
        c.path = Some(path);
        c
    }

    /// Set the expiry time, in seconds since the epoch.
    pub fn expires(self, expires: u64) -> (c: Cookie)
        ensures
            c@ == (CookieModel { expires: Some(expires), ..self@ }),
    {
        let mut c = self;
        c.expires = Some(expires);
        c
    }

    /// Set the lifetime in seconds.
    pub fn max_age(self, max_age: u64) -> (c: Cookie)
        ensures
            c@ == (CookieModel { max_age: Some(max_age), ..self@ }),
    {
        let mut c = self;
        c.max_age = Some(max_age);
        c
    }

    /// Mark the cookie as secure (HTTPS only).
    pub fn secure(self, secure: bool) -> (c: Cookie)
        ensures
            c@ == (CookieModel { secure, ..self@ }),
    {
        let mut c = self;
        c.secure = secure;
        c
    }

    /// Mark the cookie as HTTP-only.
    pub fn http_only(self, http_only: bool) -> (c: Cookie)
        ensures
            c@ == (CookieModel { http_only, ..self@ }),
    {
        let mut c = self;
        c.http_only = http_only;
        c
    }

    /// Set the SameSite attribute.
    pub fn same_site(self, same_site: SameSite) -> (c: Cookie)
        ensures
            c@ == (CookieModel { same_site: Some(same_site), ..self@ }),
    {
        let mut c = self;
        c.same_site = Some(same_site);
        c
    }

    /// Convert the cookie to a `Set-Cookie` header value.
    pub fn to_header_value(&self) -> (r: String)
        ensures
            r@ == self@.header_value(),
    {
        let mut r = self.name.clone();
        r.append("=");
        r.append(self.value.as_str());
        push_labelled(
            &mut r,
            "; Domain=",
            match &self.domain {
                Some(d) => Some(d.as_str()),
                None => None,
            },
        );
        push_labelled(
            &mut r,
            "; Path=",
            match &self.path {
                Some(p) => Some(p.as_str()),
                None => None,
            },
        );
        let date: Option<String> = match self.expires {
            Some(t) => Some(fmt_http_date(t)),
            None => None,
        };
        push_labelled(
            &mut r,
            "; Expires=",
            match &date {
                Some(d) => Some(d.as_str()),
                None => None,
            },
        );
        let age: Option<String> = match self.max_age {
            Some(n) => Some(u64_to_string(n)),
            None => None,
        };
        push_labelled(
            &mut r,
            "; Max-Age=",
            match &age {
                Some(a) => Some(a.as_str()),
                None => None,
            },
        );
        push_flagged(&mut r, "; Secure", self.secure);
        push_flagged(&mut r, "; HttpOnly", self.http_only);
        push_labelled(
            &mut r,
            "; SameSite=",
            match self.same_site {
                Some(s) => Some(s.as_str()),
                None => None,
            },
        );
        r
    }

    /// Whether the cookie has expired at time `now` (seconds since the epoch).
    pub fn is_expired_at(&self, now: u64) -> (b: bool)
        ensures
            b == self@.expired_at(now),
    {
        match self.expires {
            Some(t) => now > t,
            None => false,
        }
    }

    /// Whether the cookie has expired by the system clock.
    pub fn is_expired(&self) -> (b: bool)
        ensures
            exists|now: u64| b == #[trigger] self@.expired_at(now),
            self@.expires is None ==> !b,
    {
        let now = now_secs();
        let b = self.is_expired_at(now);
        assert(b == self@.expired_at(now));
        b
    }

    /// Whether the cookie is valid for the given domain and path at `now`.
    pub fn is_valid_for_at(&self, domain: &str, path: &str, now: u64) -> (b: bool)
        ensures
            b == self@.valid_for_at(domain@, path@, now),
    {
        if let Some(d) = &self.domain {
            let dv = chars_of(domain);
            let cd = chars_of(d.as_str());
            if !ends_with(dv.as_slice(), cd.as_slice()) {
                return false;
            }
        }
        if let Some(p) = &self.path {
            let pv = chars_of(path);
            let cp = chars_of(p.as_str());
            if !starts_with(pv.as_slice(), cp.as_slice()) {
                return false;
            }
        }
        !self.is_expired_at(now)
    }

    /// Whether the cookie is valid for the given domain and path now.
    pub fn is_valid_for(&self, domain: &str, path: &str) -> (b: bool)
        ensures
            exists|now: u64| b == #[trigger] self@.valid_for_at(domain@, path@, now),
    {
        let now = now_secs();
        let b = self.is_valid_for_at(domain, path, now);
        assert(b == self@.valid_for_at(domain@, path@, now));
        b
    }
}

/// The models of a vector of cookies.
pub open spec fn cookie_models(v: Seq<Cookie>) -> Seq<CookieModel> {
    Seq::new(v.len(), |i: int| v[i]@)
}

/// The name and value that one piece of a `Cookie` header gives: the trimmed
/// texts around its first `=`. A piece without `=` gives nothing.
pub open spec fn cookie_pair(piece: Seq<char>) -> Option<(Seq<char>, Seq<char>)> {
    split_once_trimmed(trim(piece), '=')
}

/// The jar after the cookies of the given header pieces were added in order.
pub open spec fn with_pairs(jar: Seq<CookieModel>, pieces: Seq<Seq<char>>) -> Seq<CookieModel>
    decreases pieces.len(),
{
    if pieces.len() == 0 {
        jar
    } else {
        let j = with_pairs(jar, pieces.drop_last());
        match cookie_pair(pieces.last()) {
            Some(p) => upsert(j, CookieModel::plain(p.0, p.1)),
            None => j,
        }
    }
}

/// The jar after the cookies of a `Cookie` header value were added: the
/// value is cut at each `;`.
pub open spec fn with_cookie_header(jar: Seq<CookieModel>, header: Seq<char>) -> Seq<CookieModel> {
    with_pairs(jar, split_on(header, ';'))
}

/// The `name=value` pairs of the cookies valid for `domain` and `path` at
/// `now`, joined by `"; "`. Empty where no cookie is valid.
pub open spec fn cookie_line(
    s: Seq<CookieModel>,
    domain: Seq<char>,
    path: Seq<char>,
    now: u64,
) -> Seq<char>
    decreases s.len(),
{
    if s.len() == 0 {
        Seq::<char>::empty()
    } else {
        let rest = cookie_line(s.drop_last(), domain, path, now);
        let c = s.last();
        if c.valid_for_at(domain, path, now) {
            rest + flagged("; "@, rest.len() > 0) + c.name + "="@ + c.value
        } else {
            rest
        }
    }
}

/// The cookies of `s` that have not expired at `now`.
pub open spec fn unexpired(s: Seq<CookieModel>, now: u64) -> Seq<CookieModel> {
    keep(s, |c: CookieModel| !c.expired_at(now))
}

/// Cookie jar for managing multiple cookies. No two cookies share a name.
#[derive(Debug)]
pub struct CookieJar {
    cookies: Vec<Cookie>,
}

impl View for CookieJar {
    type V = Seq<CookieModel>;

    closed spec fn view(&self) -> Seq<CookieModel> {
        cookie_models(self.cookies@)
    }
}

impl Clone for CookieJar {
    fn clone(&self) -> (r: Self)
        ensures
            r@ == self@,
    {
        proof {
            use_type_invariant(self);
        }
        let mut cookies: Vec<Cookie> = Vec::new();
        let mut i: usize = 0;
        while i < self.cookies.len()
            invariant
                i <= self.cookies.len(),
                cookies@.len() == i,
                forall|j: int| 0 <= j < i ==> (#[trigger] cookies@[j])@ == self.cookies@[j]@,
            decreases self.cookies.len() - i,
        {
            cookies.push(self.cookies[i].clone());
            i += 1;
        }
        assert(cookie_models(cookies@) =~= self@);
        CookieJar { cookies }
    }
}

impl CookieJar {
    #[verifier::type_invariant]
    spec fn inv(self) -> bool {
        distinct_keys(self@)
    }

    /// No two cookies share a name. Calling this makes that known to the
    /// caller's proof; it does nothing at run time.
    pub fn names_are_distinct(&self)
        ensures
            distinct_keys(self@),
    {
        proof {
            use_type_invariant(self);
        }
    }

    fn take_cookies(&mut self) -> (e: Vec<Cookie>)
        ensures
            cookie_models(e@) == old(self)@,
            final(self)@ == Seq::<CookieModel>::empty(),
    {
        let mut e: Vec<Cookie> = Vec::new();
        assert(cookie_models(e@) =~= Seq::<CookieModel>::empty());
        core::mem::swap(&mut self.cookies, &mut e);
        e
    }

    fn set_cookies(&mut self, e: Vec<Cookie>)
        requires
            distinct_keys(cookie_models(e@)),
        ensures
            final(self)@ == cookie_models(e@),
    {
        let mut e = e;
        core::mem::swap(&mut self.cookies, &mut e);
    }

    /// Create a new cookie jar.
    pub fn new() -> (j: CookieJar)
        ensures
            j@ == Seq::<CookieModel>::empty(),
    {
        let j = CookieJar { cookies: Vec::new() };
        assert(j@ =~= Seq::<CookieModel>::empty());
        j
    }

    /// The position of the cookie called `name`, or `len()`.
    pub fn position(&self, name: &str) -> (i: usize)
        ensures
            i == find_key(self@, name@),
            i <= self@.len(),
    {
        let mut i: usize = 0;
        while i < self.cookies.len()
            invariant
                i <= self.cookies.len(),
                forall|j: int| 0 <= j < i ==> (#[trigger] self@[j]).key() != name@,
            decreases self.cookies.len() - i,
        {
            if str_eq(self.cookies[i].name.as_str(), name) {
                proof {
                    lemma_find_key_unique(self@, name@, i as int);
                }
                return i;
            }
            i += 1;
        }
        proof {
            lemma_find_key_unique(self@, name@, i as int);
        }
        i
    }

    /// Add a cookie to the jar, in place of one with the same name.
    pub fn add(&mut self, cookie: Cookie)
        ensures
            final(self)@ == upsert(old(self)@, cookie@),
    {
        proof {
            use_type_invariant(&*self);
            lemma_upsert(self@, cookie@, cookie@.name);
        }
        let i = self.position(cookie.name.as_str());
        let ghost before = self@;
        let mut e = self.take_cookies();
        if i < e.len() {
            let _ = e.remove(i);
            e.insert(i, cookie);
        } else {
            e.push(cookie);
        }
        assert(cookie_models(e@) =~= upsert(before, cookie@));
        self.set_cookies(e);
    }

    /// Get a cookie by name.
    pub fn get(&self, name: &str) -> (r: Option<&Cookie>)
        ensures
            match r {
                Some(c) => record_of(self@, name@) == Some(c@),
                None => record_of(self@, name@) is None,
            },
    {
        let i = self.position(name);
        if i < self.cookies.len() {
            Some(&self.cookies[i])
        } else {
            None
        }
    }

    /// Remove a cookie by name.
    pub fn remove(&mut self, name: &str) -> (r: Option<Cookie>)
        ensures
            final(self)@ == delete(old(self)@, name@),
            match r {
                Some(c) => record_of(old(self)@, name@) == Some(c@),
                None => record_of(old(self)@, name@) is None,
            },
    {
        proof {
            use_type_invariant(&*self);
            lemma_delete(self@, name@, name@);
        }
        let i = self.position(name);
        let ghost before = self@;
        if i < self.cookies.len() {
            let mut e = self.take_cookies();
            let c = e.remove(i);
            assert(cookie_models(e@) =~= delete(before, name@));
            self.set_cookies(e);
            Some(c)
        } else {
            None
        }
    }

    /// Get all cookies, in the order in which their names were first added.
    pub fn cookies(&self) -> (r: &Vec<Cookie>)
        ensures
            cookie_models(r@) == self@,
    {
        &self.cookies
    }

    /// Parse cookies from a `Cookie` header value and add them.
    pub fn parse_cookie_header(&mut self, header_value: &str)
        ensures
            final(self)@ == with_cookie_header(old(self)@, header_value@),
    {
        let hv = chars_of(header_value);
        let pieces = split_chars(hv.as_slice(), ';');
        let mut i: usize = 0;
        while i < pieces.len()
            invariant
                i <= pieces.len(),
                rows(pieces@) == split_on(header_value@, ';'),
                self@ == with_pairs(old(self)@, rows(pieces@).take(i as int)),
            decreases pieces.len() - i,
        {
            let piece = trimmed(pieces[i].as_slice());
            proof {
                assert(rows(pieces@).take(i + 1).drop_last() =~= rows(pieces@).take(i as int));
                assert(rows(pieces@).take(i + 1).last() == pieces@[i as int]@);
            }
            match split_once_trim(piece.as_slice(), '=') {
                Some(p) => {
                    let name = string_of(p.0.as_slice());
                    let value = string_of(p.1.as_slice());
                    self.add(Cookie::new(name, value));
                },
                None => {},
            }
            i += 1;
        }
        assert(rows(pieces@).take(pieces.len() as int) =~= rows(pieces@));
    }

    /// Generate the `Cookie` header value for a request to `domain` and
    /// `path` at time `now`; `None` where no cookie is valid for it.
    pub fn to_cookie_header_at(&self, domain: &str, path: &str, now: u64) -> (r: Option<String>)
        ensures
            match r {
                Some(t) => t@.len() > 0 && t@ == cookie_line(self@, domain@, path@, now),
                None => cookie_line(self@, domain@, path@, now).len() == 0,
            },
    {
        let mut r = String::new();
        let mut i: usize = 0;
        while i < self.cookies.len()
            invariant
                i <= self.cookies.len(),
                r@ == cookie_line(self@.take(i as int), domain@, path@, now),
            decreases self.cookies.len() - i,
        {
            let c = &self.cookies[i];
            proof {
                assert(self@.take(i + 1).drop_last() =~= self@.take(i as int));
                assert(self@.take(i + 1).last() == c@);
            }
            if c.is_valid_for_at(domain, path, now) {
                let started = r.as_str().unicode_len() > 0;
                push_flagged(&mut r, "; ", started);
                r.append(c.name.as_str());
                r.append("=");
                r.append(c.value.as_str());
            }
            i += 1;
        }
        assert(self@.take(self.cookies.len() as int) =~= self@);
        if r.as_str().unicode_len() > 0 {
            Some(r)
        } else {
            None
        }
    }

    /// Generate the `Cookie` header value for a request to `domain` and
    /// `path` now.
    pub fn to_cookie_header(&self, domain: &str, path: &str) -> (r: Option<String>)
        ensures
            exists|now: u64|
                match r {
                    Some(t) => t@.len() > 0 && t@ == #[trigger] cookie_line(
                        self@,
                        domain@,
                        path@,
                        now,
                    ),
                    None => (#[trigger] cookie_line(self@, domain@, path@, now)).len() == 0,
                },
    {
        let now = now_secs();
        let r = self.to_cookie_header_at(domain, path, now);
        assert(match r {
            Some(t) => t@.len() > 0 && t@ == cookie_line(self@, domain@, path@, now),
            None => cookie_line(self@, domain@, path@, now).len() == 0,
        });
        r
    }

    /// Generate the `Set-Cookie` header values, one for each cookie.
    pub fn to_set_cookie_headers(&self) -> (r: Vec<String>)
        ensures
            r@.len() == self@.len(),
            forall|i: int| 0 <= i < r@.len() ==> (#[trigger] r@[i])@ == self@[i].header_value(),
    {
        let mut r: Vec<String> = Vec::new();
        let mut i: usize = 0;
        while i < self.cookies.len()
            invariant
                i <= self.cookies.len(),
                r@.len() == i,
                forall|j: int| 0 <= j < i ==> (#[trigger] r@[j])@ == self@[j].header_value(),
            decreases self.cookies.len() - i,
        {
            r.push(self.cookies[i].to_header_value());
            i += 1;
        }
        r
    }

    /// Remove the cookies that have expired at time `now`.
    pub fn clear_expired_at(&mut self, now: u64)
        ensures
            final(self)@ == unexpired(old(self)@, now),
    {
        proof {
            use_type_invariant(&*self);
        }
        let ghost before = self@;
        let ghost p = |c: CookieModel| !c.expired_at(now);
        let e = self.take_cookies();
        let mut kept: Vec<Cookie> = Vec::new();
        assert(cookie_models(kept@) =~= keep(before.take(0), p));
        let mut i: usize = 0;
        while i < e.len()
            invariant
                i <= e.len(),
                cookie_models(e@) == before,
                p == |c: CookieModel| !c.expired_at(now),
                cookie_models(kept@) == keep(before.take(i as int), p),
            decreases e.len() - i,
        {
            proof {
                assert(before.take(i + 1).drop_last() =~= before.take(i as int));
                assert(before.take(i + 1).last() == e@[i as int]@);
            }
            let ghost prev = cookie_models(kept@);
            if !e[i].is_expired_at(now) {
                kept.push(e[i].clone());
                assert(cookie_models(kept@) =~= prev.push(e@[i as int]@));
            }
            i += 1;
        }
        proof {
            assert(before.take(e.len() as int) =~= before);
            lemma_keep_distinct(before, p);
        }
        self.set_cookies(kept);
    }

    /// Remove the cookies that have expired by the system clock.
    pub fn clear_expired(&mut self)
        ensures
            exists|now: u64| final(self)@ == #[trigger] unexpired(old(self)@, now),
    {
        let now = now_secs();
        self.clear_expired_at(now);
        assert(self@ == unexpired(old(self)@, now));
    }

    /// Get the number of cookies.
    pub fn len(&self) -> (n: usize)
        ensures
            n == self@.len(),
    {
        self.cookies.len()
    }

    /// Check if the jar is empty.
    pub fn is_empty(&self) -> (b: bool)
        ensures
            b == (self@.len() == 0),
    {
        self.cookies.len() == 0
    }

    /// Clear all cookies.
    pub fn clear(&mut self)
        ensures
            final(self)@ == Seq::<CookieModel>::empty(),
    {
        let _ = self.take_cookies();
    }
}

impl Default for CookieJar {
    fn default() -> (j: Self)
        ensures
            j@ == Seq::<CookieModel>::empty(),
    {
        CookieJar::new()
    }
}

} // verus!
