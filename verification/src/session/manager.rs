//! Sessions.
//!
//! Times are in milliseconds: a point in time since the epoch, a span as a
//! count.
use vstd::prelude::*;
use vstd::string::*;
use crate::keyed::{
    delete, distinct_keys, find_key, holds_key, keep, lemma_delete, lemma_find_key,
    lemma_find_key_unique, lemma_keep_distinct, lemma_upsert, record_of, upsert, Keyed,
};
use crate::session::cookie::{Cookie, CookieJar, CookieModel, SameSite};
use crate::strmap::{has_key, put, value_of, without, Pairs, StrMap};
use crate::text::{opt_text, push_char, str_eq};
use crate::utils::clock::now_millis;

verus! {

/// Session data storage.
pub type SessionData = StrMap;

/// Individual session.
#[derive(Debug)]
pub struct Session {
    pub id: String,
    pub data: SessionData,
    pub created_at: u64,
    pub last_accessed: u64,
    pub expires_at: Option<u64>,
}

/// What a session holds.
pub struct SessionModel {
    pub id: Seq<char>,
    pub data: Pairs,
    pub created_at: u64,
    pub last_accessed: u64,
    pub expires_at: Option<u64>,
}

impl Keyed for SessionModel {
    type Key = Seq<char>;

    open spec fn key(&self) -> Seq<char> {
        self.id
    }
}

impl SessionModel {
    /// A session without data that was made at `now`.
    pub open spec fn made(id: Seq<char>, now: u64, expires_at: Option<u64>) -> SessionModel {
        SessionModel {
            id,
            data: Seq::empty(),
            created_at: now,
            last_accessed: now,
            expires_at,
        }
    }

    /// Whether the session's expiry time lies before `now`.
    pub open spec fn expired_at(self, now: u64) -> bool {
        match self.expires_at {
            Some(t) => now > t,
            None => false,
        }
    }

    /// The session after it was accessed at `now`.
    pub open spec fn touched(self, now: u64) -> SessionModel {
        SessionModel { last_accessed: now, ..self }
    }
}

impl View for Session {
    type V = SessionModel;

    open spec fn view(&self) -> SessionModel {
        SessionModel {
            id: self.id@,
            data: self.data@,
            created_at: self.created_at,
            last_accessed: self.last_accessed,
            expires_at: self.expires_at,
        }
    }
}

impl Clone for Session {
    fn clone(&self) -> (r: Self)
        ensures
            r@ == self@,
    {
        Session {
            id: self.id.clone(),
            data: self.data.clone(),
            created_at: self.created_at,
            last_accessed: self.last_accessed,
            expires_at: self.expires_at,
        }
    }
}

impl Session {
    /// Create a new session at `now`.
    pub fn new_at(id: String, now: u64) -> (s: Session)
        ensures
            s@ == SessionModel::made(id@, now, None),
    {
        Session { id, data: StrMap::new(), created_at: now, last_accessed: now, expires_at: None }
    }

    /// Create a new session.
    pub fn new(id: String) -> (s: Session)
        ensures
            s@ == SessionModel::made(id@, s@.created_at, None),
    {
        Session::new_at(id, now_millis())
    }

    /// Create a session at `now` that expires `expires_in` milliseconds later.
    pub fn with_expiration_at(id: String, expires_in: u64, now: u64) -> (s: Session)
        ensures
            s@ == SessionModel::made(id@, now, Some(now.saturating_add(expires_in))),
    {
        Session {
            id,
            data: StrMap::new(),
            created_at: now,
            last_accessed: now,
            expires_at: Some(now.saturating_add(expires_in)),
        }
    }

    /// Create a session with expiration.
    pub fn with_expiration(id: String, expires_in: u64) -> (s: Session)
        ensures
            s@ == SessionModel::made(
                id@,
                s@.created_at,
                Some(s@.created_at.saturating_add(expires_in)),
            ),
    {
        Session::with_expiration_at(id, expires_in, now_millis())
    }

    /// Update last accessed time to `now`.
    pub fn touch_at(&mut self, now: u64)
        ensures
            final(self)@ == old(self)@.touched(now),
    {
        self.last_accessed = now;
    }

    /// Update last accessed time.
    pub fn touch(&mut self)
        ensures
            final(self)@ == old(self)@.touched(final(self)@.last_accessed),
    {
        self.last_accessed = now_millis();
    }

    /// Check if session has expired at `now`.
    pub fn is_expired_at(&self, now: u64) -> (b: bool)
        ensures
            b == self@.expired_at(now),
    {
        match self.expires_at {
            Some(t) => now > t,
            None => false,
        }
    }

    /// Check if session has expired.
    pub fn is_expired(&self) -> (b: bool)
        ensures
            exists|now: u64| b == #[trigger] self@.expired_at(now),
            self@.expires_at is None ==> !b,
    {
        let now = now_millis();
        let b = self.is_expired_at(now);
        assert(b == self@.expired_at(now));
        b
    }

    /// Get a value from session data.
    pub fn get(&self, key: &str) -> (r: Option<&String>)
        ensures
            match r {
                Some(v) => value_of(self@.data, key@) == Some(v@),
                None => value_of(self@.data, key@) is None,
            },
    {
        self.data.get(key)
    }

    /// Set a value in session data, at `now`.
    pub fn set_at(&mut self, key: String, value: String, now: u64)
        ensures
            final(self)@ == (SessionModel {
                data: put(old(self)@.data, key@, value@),
                last_accessed: now,
                ..old(self)@
            }),
    {
        let _ = self.data.insert(key, value);
        self.last_accessed = now;
    }

    /// Set a value in session data.
    pub fn set(&mut self, key: String, value: String)
        ensures
            final(self)@ == (SessionModel {
                data: put(old(self)@.data, key@, value@),
                last_accessed: final(self)@.last_accessed,
                ..old(self)@
            }),
    {
        self.set_at(key, value, now_millis());
    }

    /// Remove a value from session data, at `now`. The session counts as
    /// accessed where there was a value.
    pub fn remove_at(&mut self, key: &str, now: u64) -> (r: Option<String>)
        ensures
            final(self)@ == (SessionModel {
                data: without(old(self)@.data, key@),
                last_accessed: if has_key(old(self)@.data, key@) {
                    now
                } else {
                    old(self)@.last_accessed
                },
                ..old(self)@
            }),
            match r {
                Some(v) => value_of(old(self)@.data, key@) == Some(v@),
                None => value_of(old(self)@.data, key@) is None,
            },
    {
        let r = self.data.remove(key);
        if r.is_some() {
            self.last_accessed = now;
        }
        r
    }

    /// Remove a value from session data.
    pub fn remove(&mut self, key: &str) -> (r: Option<String>)
        ensures
            final(self)@.data == without(old(self)@.data, key@),
            final(self)@.id == old(self)@.id,
            match r {
                Some(v) => value_of(old(self)@.data, key@) == Some(v@),
                None => value_of(old(self)@.data, key@) is None,
            },
    {
        self.remove_at(key, now_millis())
    }

    /// Clear all session data, at `now`.
    pub fn clear_at(&mut self, now: u64)
        ensures
            final(self)@ == (SessionModel {
                data: Seq::empty(),
                last_accessed: now,
                ..old(self)@
            }),
    {
        self.data.clear();
        self.last_accessed = now;
    }

    /// Clear all session data.
    pub fn clear(&mut self)
        ensures
            final(self)@ == (SessionModel {
                data: Seq::empty(),
                last_accessed: final(self)@.last_accessed,
                ..old(self)@
            }),
    {
        self.clear_at(now_millis());
    }

    /// Check if session contains a key.
    pub fn contains_key(&self, key: &str) -> (b: bool)
        ensures
            b == has_key(self@.data, key@),
    {
        self.data.contains_key(key)
    }

    /// Get all keys in the session.
    pub fn keys(&self) -> (r: Vec<&String>)
        ensures
            r@.len() == self@.data.len(),
            forall|i: int| 0 <= i < r@.len() ==> (#[trigger] r@[i])@ == self@.data[i].0,
    {
        self.data.keys()
    }

    /// Get the age of the session at `now`, in milliseconds.
    pub fn age_at(&self, now: u64) -> (t: u64)
        ensures
            t == now.saturating_sub(self@.created_at),
    {
        now.saturating_sub(self.created_at)
    }

    /// Get the age of the session.
    pub fn age(&self) -> (t: u64)
        ensures
            exists|now: u64| t == #[trigger] elapsed(now, self@.created_at),
    {
        let now = now_millis();
        let t = self.age_at(now);
        assert(t == elapsed(now, self@.created_at));
        t
    }

    /// Get time since last access at `now`, in milliseconds.
    pub fn idle_time_at(&self, now: u64) -> (t: u64)
        ensures
            t == now.saturating_sub(self@.last_accessed),
    {
        now.saturating_sub(self.last_accessed)
    }

    /// Get time since last access.
    pub fn idle_time(&self) -> (t: u64)
        ensures
            exists|now: u64| t == #[trigger] elapsed(now, self@.last_accessed),
    {
        let now = now_millis();
        let t = self.idle_time_at(now);
        assert(t == elapsed(now, self@.last_accessed));
        t
    }
}

/// The time from `since` to `now`; none where `now` lies before.
pub open spec fn elapsed(now: u64, since: u64) -> u64 {
    now.saturating_sub(since)
}

/// Session manager configuration.
#[derive(Debug)]
pub struct SessionConfig {
    pub cookie_name: String,
    pub cookie_path: String,
    pub cookie_domain: Option<String>,
    pub cookie_secure: bool,
    pub cookie_http_only: bool,
    pub cookie_same_site: Option<SameSite>,
    pub session_timeout: u64,
    pub cleanup_interval: u64,
    pub max_sessions: usize,
}

/// What a session configuration holds.
pub struct SessionConfigModel {
    pub cookie_name: Seq<char>,
    pub cookie_path: Seq<char>,
    pub cookie_domain: Option<Seq<char>>,
    pub cookie_secure: bool,
    pub cookie_http_only: bool,
    pub cookie_same_site: Option<SameSite>,
    pub session_timeout: u64,
    pub cleanup_interval: u64,
    pub max_sessions: usize,
}

impl View for SessionConfig {
    type V = SessionConfigModel;

    open spec fn view(&self) -> SessionConfigModel {
        SessionConfigModel {
            cookie_name: self.cookie_name@,
            cookie_path: self.cookie_path@,
            cookie_domain: opt_text(self.cookie_domain),
            cookie_secure: self.cookie_secure,
            cookie_http_only: self.cookie_http_only,
            cookie_same_site: self.cookie_same_site,
            session_timeout: self.session_timeout,
            cleanup_interval: self.cleanup_interval,
            max_sessions: self.max_sessions,
        }
    }
}

impl SessionConfigModel {
    /// The settings that a manager has unless told otherwise: a cookie
    /// `SESSIONID` for `/`, HTTP-only and `SameSite=Lax`; sessions of one
    /// hour; a cleanup every five minutes; ten thousand sessions.
    pub open spec fn initial() -> SessionConfigModel {
        SessionConfigModel {
            cookie_name: "SESSIONID"@,
            cookie_path: "/"@,
            cookie_domain: None,
            cookie_secure: false,
            cookie_http_only: true,
            cookie_same_site: Some(SameSite::Lax),
            session_timeout: 3600000,
            cleanup_interval: 300000,
            max_sessions: 10000,
        }
    }

    /// The cookie that carries the session `id`, set at `now`: it expires
    /// when the session does.
    pub open spec fn session_cookie(self, id: Seq<char>, now: u64) -> CookieModel {
        CookieModel {
            name: self.cookie_name,
            value: id,
            domain: self.cookie_domain,
            path: Some(self.cookie_path),
            expires: Some((now.saturating_add(self.session_timeout) / 1000) as u64),
            max_age: None,
            secure: self.cookie_secure,
            http_only: self.cookie_http_only,
            same_site: self.cookie_same_site,
        }
    }

    /// The cookie that ends a session, set at `now`: it has no value and
    /// expired an hour ago.
    pub open spec fn destroy_cookie(self, now: u64) -> CookieModel {
        CookieModel {
            name: self.cookie_name,
            value: Seq::empty(),
            domain: self.cookie_domain,
            path: Some(self.cookie_path),
            expires: Some((now / 1000).saturating_sub(3600)),
            max_age: None,
            secure: false,
            http_only: false,
            same_site: None,
        }
    }
}

impl Default for SessionConfig {
    fn default() -> (c: Self)
        ensures
            c@ == SessionConfigModel::initial(),
    {
        SessionConfig {
            cookie_name: String::from_str("SESSIONID"),
            cookie_path: String::from_str("/"),
            cookie_domain: None,
            cookie_secure: false,
            cookie_http_only: true,
            cookie_same_site: Some(SameSite::Lax),
            session_timeout: 3600000,
            cleanup_interval: 300000,
            max_sessions: 10000,
        }
    }
}

/// Session statistics.
#[derive(Debug, Clone, Copy, PartialEq, Eq, Structural)]
pub struct SessionStats {
    pub total_sessions: usize,
    pub active_sessions: usize,
    pub expired_sessions: usize,
    pub max_sessions: usize,
}

/// The models of a vector of sessions.
pub open spec fn session_models(v: Seq<Session>) -> Seq<SessionModel> {
    Seq::new(v.len(), |i: int| v[i]@)
}

/// The sessions that have not expired at `now`.
pub open spec fn live(s: Seq<SessionModel>, now: u64) -> Seq<SessionModel> {
    keep(s, |x: SessionModel| !x.expired_at(now))
}

/// The sessions that have expired at `now`.
pub open spec fn dead(s: Seq<SessionModel>, now: u64) -> Seq<SessionModel> {
    keep(s, |x: SessionModel| x.expired_at(now))
}

/// The sessions after the session `id` was asked for at `now`: a session
/// that has expired is removed, any other counts as accessed.
pub open spec fn after_fetch(s: Seq<SessionModel>, id: Seq<char>, now: u64) -> Seq<SessionModel> {
    match record_of(s, id) {
        None => s,
        Some(x) => if x.expired_at(now) {
            delete(s, id)
        } else {
            upsert(s, x.touched(now))
        },
    }
}

/// The session that is handed out when the session `id` is asked for at
/// `now`: the one with that identifier, as accessed at `now`, unless it
/// has expired.
pub open spec fn fetched(s: Seq<SessionModel>, id: Seq<char>, now: u64) -> Option<SessionModel> {
    match record_of(s, id) {
        None => None,
        Some(x) => if x.expired_at(now) {
            None
        } else {
            Some(x.touched(now))
        },
    }
}

/// Whether a cleanup is due at `now`: the interval has passed since the
/// last one.
pub open spec fn cleanup_due(last_cleanup: u64, interval: u64, now: u64) -> bool {
    now.saturating_sub(last_cleanup) > interval
}

/// The sessions after a cleanup at `now`, where one is due.
pub open spec fn cleaned(
    s: Seq<SessionModel>,
    last_cleanup: u64,
    interval: u64,
    now: u64,
) -> Seq<SessionModel> {
    if cleanup_due(last_cleanup, interval, now) {
        live(s, now)
    } else {
        s
    }
}

/// The session that a new session at `now` with the given sequence number is.
pub open spec fn created(now: u64, sequence: u64, timeout: u64) -> SessionModel {
    SessionModel::made(session_id(now, sequence), now, Some(now.saturating_add(timeout)))
}

/// The statistics of the given sessions at `now`.
pub open spec fn stats_at(s: Seq<SessionModel>, now: u64, max_sessions: usize) -> SessionStats {
    SessionStats {
        total_sessions: s.len() as usize,
        active_sessions: (s.len() - dead(s, now).len()) as usize,
        expired_sessions: dead(s, now).len() as usize,
        max_sessions,
    }
}

/// The hexadecimal digit for a value below sixteen.
pub open spec fn hex_char(d: nat) -> char {
    if d < 10 {
        (d + 48) as u8 as char
    } else {
        (d + 87) as u8 as char
    }
}

/// The hexadecimal digits of `n`, in lowercase, without leading zeros.
pub open spec fn hex(n: nat) -> Seq<char>
    decreases n,
{
    if n < 16 {
        seq![hex_char(n)]
    } else {
        hex(n / 16).push(hex_char(n % 16))
    }
}

/// The identifier of the session with the given sequence number that was
/// made at `now`.
pub open spec fn session_id(now: u64, sequence: u64) -> Seq<char> {
    hex(now as nat) + "-"@ + hex(sequence as nat)
}

/// The hexadecimal digits of `n`.
pub fn to_hex(n: u64) -> (r: String)
    ensures
        r@ == hex(n as nat),
        r@.len() > 0,
    decreases n,
{
    let d: u8 = (n % 16) as u8;
    let c: char = if d < 10 {
        (d + 48) as char
    } else {
        (d + 87) as char
    };
    if n < 16 {
        let mut r = String::new();
        push_char(&mut r, c);
        assert(r@ =~= hex(n as nat));
        r
    } else {
        let mut r = to_hex(n / 16);
        push_char(&mut r, c);
        r
    }
}

/// Session manager. No two sessions share an identifier.
pub struct SessionManager {
    sessions: Vec<Session>,
    config: SessionConfig,
    last_cleanup: u64,
    sequence: u64,
}

impl View for SessionManager {
    type V = Seq<SessionModel>;

    closed spec fn view(&self) -> Seq<SessionModel> {
        session_models(self.sessions@)
    }
}

impl SessionManager {
    #[verifier::type_invariant]
    spec fn inv(self) -> bool {
        distinct_keys(self@)
    }

    pub closed spec fn settings(&self) -> SessionConfigModel {
        self.config@
    }

    /// When the expired sessions were last removed.
    pub closed spec fn last_cleanup(&self) -> u64 {
        self.last_cleanup
    }

    /// The sequence number of the next session.
    pub closed spec fn sequence(&self) -> u64 {
        self.sequence
    }

    /// No two sessions share an identifier. Calling this makes that known
    /// to the caller's proof; it does nothing at run time.
    pub fn ids_are_distinct(&self)
        ensures
            distinct_keys(self@),
    {
        proof {
            use_type_invariant(self);
        }
    }

    /// Create a new session manager at `now`.
    pub fn new_at(config: SessionConfig, now: u64) -> (m: SessionManager)
        ensures
            m@ == Seq::<SessionModel>::empty(),
            m.settings() == config@,
            m.last_cleanup() == now,
            m.sequence() == 0,
    {
        let m = SessionManager { sessions: Vec::new(), config, last_cleanup: now, sequence: 0 };
        assert(m@ =~= Seq::<SessionModel>::empty());
        m
    }

    /// Create a new session manager.
    pub fn new(config: SessionConfig) -> (m: SessionManager)
        ensures
            m@ == Seq::<SessionModel>::empty(),
            m.settings() == config@,
            m.sequence() == 0,
    {
        SessionManager::new_at(config, now_millis())
    }

    /// Create a session manager with default configuration.
    pub fn with_defaults() -> (m: SessionManager)
        ensures
            m@ == Seq::<SessionModel>::empty(),
            m.settings() == SessionConfigModel::initial(),
            m.sequence() == 0,
    {
        SessionManager::new(SessionConfig::default())
    }

    fn take(&mut self) -> (e: Vec<Session>)
        ensures
            session_models(e@) == old(self)@,
            final(self)@ == Seq::<SessionModel>::empty(),
            final(self).settings() == old(self).settings(),
            final(self).last_cleanup() == old(self).last_cleanup(),
            final(self).sequence() == old(self).sequence(),
    {
        let mut e: Vec<Session> = Vec::new();
        assert(session_models(e@) =~= Seq::<SessionModel>::empty());
        core::mem::swap(&mut self.sessions, &mut e);
        e
    }

    fn set(&mut self, e: Vec<Session>)
        requires
            distinct_keys(session_models(e@)),
        ensures
            final(self)@ == session_models(e@),
            final(self).settings() == old(self).settings(),
            final(self).last_cleanup() == old(self).last_cleanup(),
            final(self).sequence() == old(self).sequence(),
    {
        let mut e = e;
        core::mem::swap(&mut self.sessions, &mut e);
    }

    /// The position of the session `id`, or the number of sessions.
    pub fn position(&self, id: &str) -> (i: usize)
        ensures
            i == find_key(self@, id@),
            i <= self@.len(),
    {
        let mut i: usize = 0;
        while i < self.sessions.len()
            invariant
                i <= self.sessions.len(),
                forall|j: int| 0 <= j < i ==> (#[trigger] self@[j]).key() != id@,
            decreases self.sessions.len() - i,
        {
            if str_eq(self.sessions[i].id.as_str(), id) {
                proof {
                    lemma_find_key_unique(self@, id@, i as int);
                }
                return i;
            }
            i += 1;
        }
        proof {
            lemma_find_key_unique(self@, id@, i as int);
        }
        i
    }

    fn put(&mut self, session: Session)
        ensures
            final(self)@ == upsert(old(self)@, session@),
            final(self).settings() == old(self).settings(),
            final(self).last_cleanup() == old(self).last_cleanup(),
            final(self).sequence() == old(self).sequence(),
    {
        proof {
            use_type_invariant(&*self);
            lemma_upsert(self@, session@, session@.id);
        }
        let i = self.position(session.id.as_str());
        let ghost before = self@;
        let ghost model = session@;
        let mut e = self.take();
        if i < e.len() {
            let _ = e.remove(i);
            e.insert(i, session);
        } else {
            e.push(session);
        }
        assert(session_models(e@) =~= upsert(before, model));
        self.set(e);
    }

    /// Create a new session at `now`. Fails once the maximum number of
    /// sessions is reached.
    pub fn create_session_at(&mut self, now: u64) -> (r: Result<String, String>)
        ensures
            final(self).settings() == old(self).settings(),
            final(self).last_cleanup() == old(self).last_cleanup(),
            match r {
                Ok(id) => {
                    &&& old(self)@.len() < old(self).settings().max_sessions
                    &&& id@ == session_id(now, old(self).sequence())
                    &&& id@.len() > 0
                    &&& final(self)@ == upsert(
                        old(self)@,
                        created(now, old(self).sequence(), old(self).settings().session_timeout),
                    )
                    &&& final(self).sequence() == old(self).sequence().wrapping_add(1)
                },
                Err(m) => {
                    &&& old(self)@.len() >= old(self).settings().max_sessions
                    &&& final(self)@ == old(self)@
                    &&& final(self).sequence() == old(self).sequence()
                    &&& m@ == "Maximum number of sessions reached"@
                },
            },
    {
        proof {
            use_type_invariant(&*self);
        }
        if self.sessions.len() >= self.config.max_sessions {
            return Err(String::from_str("Maximum number of sessions reached"));
        }
        let mut id = to_hex(now);
        id.append("-");
        id.append(to_hex(self.sequence).as_str());
        self.sequence = self.sequence.wrapping_add(1);
        let session = Session::with_expiration_at(id.clone(), self.config.session_timeout, now);
        self.put(session);
        Ok(id)
    }

    /// Create a new session.
    pub fn create_session(&mut self) -> (r: Result<String, String>)
        ensures
            final(self).settings() == old(self).settings(),
            final(self).last_cleanup() == old(self).last_cleanup(),
            match r {
                Ok(id) => {
                    &&& old(self)@.len() < old(self).settings().max_sessions
                    &&& id@.len() > 0
                    &&& final(self).sequence() == old(self).sequence().wrapping_add(1)
                    &&& exists|now: u64|
                        id@ == session_id(now, old(self).sequence()) && final(self)@ == upsert(
                            old(self)@,
                            #[trigger] created(
                                now,
                                old(self).sequence(),
                                old(self).settings().session_timeout,
                            ),
                        )
                },
                Err(m) => {
                    &&& old(self)@.len() >= old(self).settings().max_sessions
                    &&& final(self)@ == old(self)@
                    &&& final(self).sequence() == old(self).sequence()
                    &&& m@ == "Maximum number of sessions reached"@
                },
            },
    {
        let now = now_millis();
        let r = self.create_session_at(now);
        proof {
            if let Ok(id) = &r {
                assert(id@ == session_id(now, old(self).sequence()) && self@ == upsert(
                    old(self)@,
                    created(now, old(self).sequence(), old(self).settings().session_timeout),
                ));
            }
        }
        r
    }

    /// Get a session by ID at `now`. A session that has expired is removed
    /// and not returned; any other counts as accessed.
    pub fn get_session_at(&mut self, session_id: &str, now: u64) -> (r: Result<
        Option<Session>,
        String,
    >)
        ensures
            r is Ok,
            final(self).settings() == old(self).settings(),
            final(self).sequence() == old(self).sequence(),
            final(self).last_cleanup() == old(self).last_cleanup(),
            final(self)@ == after_fetch(old(self)@, session_id@, now),
            match r->Ok_0 {
                Some(x) => fetched(old(self)@, session_id@, now) == Some(x@),
                None => fetched(old(self)@, session_id@, now) is None,
            },
    {
        proof {
            use_type_invariant(&*self);
            lemma_delete(self@, session_id@, session_id@);
            lemma_find_key(self@, session_id@);
        }
        let i = self.position(session_id);
        if i >= self.sessions.len() {
            return Ok(None);
        }
        let ghost before = self@;
        let mut e = self.take();
        let mut s = e.remove(i);
        assert(session_models(e@) =~= delete(before, session_id@));
        if s.is_expired_at(now) {
            self.set(e);
            return Ok(None);
        }
        s.touch_at(now);
        let copy = s.clone();
        proof {
            lemma_upsert(before, s@, session_id@);
        }
        e.insert(i, s);
        assert(session_models(e@) =~= upsert(before, copy@));
        self.set(e);
        Ok(Some(copy))
    }

    /// Get a session by ID.
    pub fn get_session(&mut self, session_id: &str) -> (r: Result<Option<Session>, String>)
        ensures
            r is Ok,
            final(self).settings() == old(self).settings(),
            final(self).sequence() == old(self).sequence(),
            final(self).last_cleanup() == old(self).last_cleanup(),
            exists|now: u64|
                final(self)@ == #[trigger] after_fetch(old(self)@, session_id@, now) && match r->Ok_0 {
                    Some(x) => fetched(old(self)@, session_id@, now) == Some(x@),
                    None => fetched(old(self)@, session_id@, now) is None,
                },
    {
        let now = now_millis();
        let r = self.get_session_at(session_id, now);
        assert(self@ == after_fetch(old(self)@, session_id@, now));
        r
    }

    /// Update a session: it takes the place of the session with its
    /// identifier, or is added.
    pub fn update_session(&mut self, session: Session) -> (r: Result<(), String>)
        ensures
            r is Ok,
            final(self)@ == upsert(old(self)@, session@),
            final(self).settings() == old(self).settings(),
            final(self).sequence() == old(self).sequence(),
            final(self).last_cleanup() == old(self).last_cleanup(),
    {
        self.put(session);
        Ok(())
    }

    /// Destroy a session. Returns whether there was one.
    pub fn destroy_session(&mut self, session_id: &str) -> (r: Result<bool, String>)
        ensures
            r == Ok::<bool, String>(holds_key(old(self)@, session_id@)),
            final(self)@ == delete(old(self)@, session_id@),
            final(self).settings() == old(self).settings(),
            final(self).sequence() == old(self).sequence(),
            final(self).last_cleanup() == old(self).last_cleanup(),
    {
        proof {
            use_type_invariant(&*self);
            lemma_delete(self@, session_id@, session_id@);
        }
        let i = self.position(session_id);
        if i >= self.sessions.len() {
            return Ok(false);
        }
        let ghost before = self@;
        let mut e = self.take();
        let _ = e.remove(i);
        assert(session_models(e@) =~= delete(before, session_id@));
        self.set(e);
        Ok(true)
    }

    /// Get session from cookie jar, at `now`: the session that the session
    /// cookie names.
    pub fn get_session_from_cookies_at(&mut self, cookie_jar: &CookieJar, now: u64) -> (r: Result<
        Option<Session>,
        String,
    >)
        ensures
            r is Ok,
            final(self).settings() == old(self).settings(),
            final(self).sequence() == old(self).sequence(),
            final(self).last_cleanup() == old(self).last_cleanup(),
            match record_of(cookie_jar@, old(self).settings().cookie_name) {
                None => r->Ok_0 is None && final(self)@ == old(self)@,
                Some(c) => {
                    &&& final(self)@ == after_fetch(old(self)@, c.value, now)
                    &&& match r->Ok_0 {
                        Some(x) => fetched(old(self)@, c.value, now) == Some(x@),
                        None => fetched(old(self)@, c.value, now) is None,
                    }
                },
            },
    {
        let id: Option<String> = match cookie_jar.get(self.config.cookie_name.as_str()) {
            Some(c) => Some(c.value.clone()),
            None => None,
        };
        match id {
            Some(i) => self.get_session_at(i.as_str(), now),
            None => Ok(None),
        }
    }

    /// Get session from cookie jar.
    pub fn get_session_from_cookies(&mut self, cookie_jar: &CookieJar) -> (r: Result<
        Option<Session>,
        String,
    >)
        ensures
            r is Ok,
            final(self).settings() == old(self).settings(),
            final(self).sequence() == old(self).sequence(),
            final(self).last_cleanup() == old(self).last_cleanup(),
            match record_of(cookie_jar@, old(self).settings().cookie_name) {
                None => r->Ok_0 is None && final(self)@ == old(self)@,
                Some(c) => exists|now: u64|
                    final(self)@ == #[trigger] after_fetch(old(self)@, c.value, now) && match r->Ok_0 {
                        Some(x) => fetched(old(self)@, c.value, now) == Some(x@),
                        None => fetched(old(self)@, c.value, now) is None,
                    },
            },
    {
        let now = now_millis();
        let r = self.get_session_from_cookies_at(cookie_jar, now);
        proof {
            if let Some(c) = record_of(cookie_jar@, old(self).settings().cookie_name) {
                assert(self@ == after_fetch(old(self)@, c.value, now));
            }
        }
        r
    }

    /// Create session cookie at `now`.
    pub fn create_session_cookie_at(&self, session_id: &str, now: u64) -> (c: Cookie)
        ensures
            c@ == self.settings().session_cookie(session_id@, now),
    {
        let mut cookie = Cookie::new(self.config.cookie_name.clone(), String::from_str(session_id))
            .path(self.config.cookie_path.clone()).http_only(self.config.cookie_http_only).secure(
            self.config.cookie_secure,
        );
        if let Some(domain) = &self.config.cookie_domain {
            cookie = cookie.domain(domain.clone());
        }
        if let Some(same_site) = self.config.cookie_same_site {
            cookie = cookie.same_site(same_site);
        }
        cookie.expires(now.saturating_add(self.config.session_timeout) / 1000)
    }

    /// Create session cookie.
    pub fn create_session_cookie(&self, session_id: &str) -> (c: Cookie)
        ensures
            exists|now: u64| c@ == #[trigger] self.settings().session_cookie(session_id@, now),
    {
        let now = now_millis();
        let c = self.create_session_cookie_at(session_id, now);
        assert(c@ == self.settings().session_cookie(session_id@, now));
        c
    }

    /// Create session destruction cookie at `now`.
    pub fn create_destroy_cookie_at(&self, now: u64) -> (c: Cookie)
        ensures
            c@ == self.settings().destroy_cookie(now),
    {
        let mut cookie = Cookie::new(self.config.cookie_name.clone(), String::new()).path(
            self.config.cookie_path.clone(),
        ).expires((now / 1000).saturating_sub(3600));
        if let Some(domain) = &self.config.cookie_domain {
            cookie = cookie.domain(domain.clone());
        }
        cookie
    }

    /// Create session destruction cookie (expires immediately).
    pub fn create_destroy_cookie(&self) -> (c: Cookie)
        ensures
            exists|now: u64| c@ == #[trigger] self.settings().destroy_cookie(now),
    {
        let now = now_millis();
        let c = self.create_destroy_cookie_at(now);
        assert(c@ == self.settings().destroy_cookie(now));
        c
    }

    /// Clean up expired sessions at `now`; returns how many they were.
    pub fn cleanup_expired_sessions_at(&mut self, now: u64) -> (r: Result<usize, String>)
        ensures
            r is Ok,
            final(self)@ == live(old(self)@, now),
            r->Ok_0 == old(self)@.len() - final(self)@.len(),
            final(self).settings() == old(self).settings(),
            final(self).sequence() == old(self).sequence(),
            final(self).last_cleanup() == now,
    {
        proof {
            use_type_invariant(&*self);
        }
        let ghost before = self@;
        let ghost p = |x: SessionModel| !x.expired_at(now);
        let e = self.take();
        let mut kept: Vec<Session> = Vec::new();
        assert(before.take(0) =~= Seq::<SessionModel>::empty());
        assert(session_models(kept@) =~= keep(before.take(0), p));
        let mut i: usize = 0;
        while i < e.len()
            invariant
                i <= e.len(),
                session_models(e@) == before,
                p == |x: SessionModel| !x.expired_at(now),
                session_models(kept@) == keep(before.take(i as int), p),
                kept@.len() <= i,
            decreases e.len() - i,
        {
            proof {
                assert(before.take(i + 1).drop_last() =~= before.take(i as int));
                assert(before.take(i + 1).last() == e@[i as int]@);
            }
            let ghost prev = session_models(kept@);
            if !e[i].is_expired_at(now) {
                kept.push(e[i].clone());
                assert(session_models(kept@) =~= prev.push(e@[i as int]@));
            }
            i += 1;
        }
        proof {
            assert(before.take(e.len() as int) =~= before);
            lemma_keep_distinct(before, p);
        }
        let removed: usize = e.len() - kept.len();
        self.set(kept);
        self.last_cleanup = now;
        Ok(removed)
    }

    /// Clean up expired sessions.
    pub fn cleanup_expired_sessions(&mut self) -> (r: Result<usize, String>)
        ensures
            r is Ok,
            exists|now: u64|
                final(self)@ == #[trigger] live(old(self)@, now) && final(self).last_cleanup()
                    == now,
            r->Ok_0 == old(self)@.len() - final(self)@.len(),
            final(self).settings() == old(self).settings(),
            final(self).sequence() == old(self).sequence(),
    {
        let now = now_millis();
        let r = self.cleanup_expired_sessions_at(now);
        assert(self@ == live(old(self)@, now) && self.last_cleanup() == now);
        r
    }

    /// Check at `now` if cleanup is needed, and perform it: it is needed
    /// once the cleanup interval has passed since the last one.
    pub fn maybe_cleanup_at(&mut self, now: u64) -> (r: Result<usize, String>)
        ensures
            r is Ok,
            final(self).settings() == old(self).settings(),
            final(self).sequence() == old(self).sequence(),
            final(self)@ == cleaned(
                old(self)@,
                old(self).last_cleanup(),
                old(self).settings().cleanup_interval,
                now,
            ),
            r->Ok_0 == old(self)@.len() - final(self)@.len(),
            final(self).last_cleanup() == if cleanup_due(
                old(self).last_cleanup(),
                old(self).settings().cleanup_interval,
                now,
            ) {
                now
            } else {
                old(self).last_cleanup()
            },
    {
        if now.saturating_sub(self.last_cleanup) > self.config.cleanup_interval {
            self.cleanup_expired_sessions_at(now)
        } else {
            Ok(0)
        }
    }

    /// Check if cleanup is needed and perform it.
    pub fn maybe_cleanup(&mut self) -> (r: Result<usize, String>)
        ensures
            r is Ok,
            final(self).settings() == old(self).settings(),
            final(self).sequence() == old(self).sequence(),
            exists|now: u64|
                final(self)@ == #[trigger] cleaned(
                    old(self)@,
                    old(self).last_cleanup(),
                    old(self).settings().cleanup_interval,
                    now,
                ) && final(self).last_cleanup() == if cleanup_due(
                    old(self).last_cleanup(),
                    old(self).settings().cleanup_interval,
                    now,
                ) {
                    now
                } else {
                    old(self).last_cleanup()
                },
            r->Ok_0 == old(self)@.len() - final(self)@.len(),
    {
        let now = now_millis();
        let r = self.maybe_cleanup_at(now);
        assert(self@ == cleaned(
            old(self)@,
            old(self).last_cleanup(),
            old(self).settings().cleanup_interval,
            now,
        ) && self.last_cleanup() == if cleanup_due(
            old(self).last_cleanup(),
            old(self).settings().cleanup_interval,
            now,
        ) {
            now
        } else {
            old(self).last_cleanup()
        });
        r
    }

    /// Get session statistics at `now`.
    pub fn get_stats_at(&self, now: u64) -> (r: Result<SessionStats, String>)
        ensures
            r is Ok,
            dead(self@, now).len() <= self@.len() <= usize::MAX,
            r->Ok_0 == stats_at(self@, now, self.settings().max_sessions),
    {
        let ghost p = |x: SessionModel| x.expired_at(now);
        let mut expired: usize = 0;
        let mut i: usize = 0;
        assert(self@.take(0) =~= Seq::<SessionModel>::empty());
        while i < self.sessions.len()
            invariant
                i <= self.sessions.len(),
                p == |x: SessionModel| x.expired_at(now),
                expired == keep(self@.take(i as int), p).len(),
                expired <= i,
            decreases self.sessions.len() - i,
        {
            proof {
                assert(self@.take(i + 1).drop_last() =~= self@.take(i as int));
                assert(self@.take(i + 1).last() == self.sessions@[i as int]@);
            }
            if self.sessions[i].is_expired_at(now) {
                expired += 1;
            }
            i += 1;
        }
        assert(self@.take(self.sessions.len() as int) =~= self@);
        let total = self.sessions.len();
        Ok(
            SessionStats {
                total_sessions: total,
                active_sessions: total - expired,
                expired_sessions: expired,
                max_sessions: self.config.max_sessions,
            },
        )
    }

    /// Get session statistics.
    pub fn get_stats(&self) -> (r: Result<SessionStats, String>)
        ensures
            r is Ok,
            exists|now: u64|
                r->Ok_0 == #[trigger] stats_at(self@, now, self.settings().max_sessions),
    {
        let now = now_millis();
        let r = self.get_stats_at(now);
        assert(r->Ok_0 == stats_at(self@, now, self.settings().max_sessions));
        r
    }

    /// Get configuration.
    pub fn config(&self) -> (c: &SessionConfig)
        ensures
            c@ == self.settings(),
    {
        &self.config
    }
}

} // verus!
