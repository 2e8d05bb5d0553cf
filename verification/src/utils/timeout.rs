//! Timeouts and resource counters.
//!
//! Times are in milliseconds: a point in time since the epoch, a span as a
//! count. Counters stop at the largest value they can hold.
use vstd::prelude::*;
use crate::keyed::{
    delete, distinct_keys, find_key, keep, lemma_delete, lemma_find_key_unique, lemma_keep_distinct,
    lemma_upsert, record_of, upsert, Keyed,
};
use crate::utils::clock::now_millis;

verus! {

/// Connection state.
#[derive(Debug, Clone, Copy, PartialEq, Eq, Structural)]
pub enum ConnectionState {
    Reading,
    Processing,
    Writing,
    KeepAlive,
    Closing,
}

/// Information about a connection.
#[derive(Debug, Clone, Copy, PartialEq, Eq, Structural)]
pub struct ConnectionInfo {
    pub fd: i32,
    pub created_at: u64,
    pub last_activity: u64,
    pub request_count: usize,
    pub bytes_read: usize,
    pub bytes_written: usize,
    pub state: ConnectionState,
}

impl Keyed for ConnectionInfo {
    type Key = i32;

    open spec fn key(&self) -> i32 {
        self.fd
    }
}

impl ConnectionInfo {
    /// A connection that was accepted at `now` and has done nothing yet.
    pub open spec fn accepted(fd: i32, now: u64) -> ConnectionInfo {
        ConnectionInfo {
            fd,
            created_at: now,
            last_activity: now,
            request_count: 0,
            bytes_read: 0,
            bytes_written: 0,
            state: ConnectionState::Reading,
        }
    }

    /// The time the connection has been idle at `now`; none where the clock
    /// stands before its last activity.
    pub open spec fn idle_at(self, now: u64) -> int {
        if now >= self.last_activity {
            now - self.last_activity
        } else {
            0
        }
    }

    /// The age of the connection at `now`.
    pub open spec fn age_at(self, now: u64) -> int {
        if now >= self.created_at {
            now - self.created_at
        } else {
            0
        }
    }

    /// Whether the connection has been idle at `now` for longer than it
    /// may: longer than `keep_alive_timeout` between requests, longer than
    /// `request_timeout` in any other state.
    pub open spec fn timed_out(self, now: u64, request_timeout: u64, keep_alive_timeout: u64) -> bool {
        self.idle_at(now) > (if self.state == ConnectionState::KeepAlive {
            keep_alive_timeout
        } else {
            request_timeout
        })
    }

    /// The connection after `bytes` bytes were read or written at `now`.
    pub open spec fn after_transfer(self, bytes: usize, is_read: bool, now: u64) -> ConnectionInfo {
        if is_read {
            ConnectionInfo {
                last_activity: now,
                bytes_read: self.bytes_read.saturating_add(bytes),
                ..self
            }
        } else {
            ConnectionInfo {
                last_activity: now,
                bytes_written: self.bytes_written.saturating_add(bytes),
                ..self
            }
        }
    }

    /// The connection after it went over to `state` at `now`.
    pub open spec fn after_state(self, state: ConnectionState, now: u64) -> ConnectionInfo {
        ConnectionInfo { state, last_activity: now, ..self }
    }

    /// The connection after it completed a request at `now`.
    pub open spec fn after_request(self, now: u64) -> ConnectionInfo {
        ConnectionInfo {
            request_count: self.request_count.saturating_add(1),
            last_activity: now,
            ..self
        }
    }

    pub fn is_timed_out(&self, now: u64, request_timeout: u64, keep_alive_timeout: u64) -> (b:
        bool)
        ensures
            b == self.timed_out(now, request_timeout, keep_alive_timeout),
    {
        let limit = match self.state {
            ConnectionState::KeepAlive => keep_alive_timeout,
            _ => request_timeout,
        };
        now.saturating_sub(self.last_activity) > limit
    }
}

/// The file descriptors of the given connections, in order.
pub open spec fn fds_of(s: Seq<ConnectionInfo>) -> Seq<i32> {
    Seq::new(s.len(), |i: int| s[i].fd)
}

/// The connections that have timed out at `now`.
pub open spec fn expired(
    s: Seq<ConnectionInfo>,
    now: u64,
    request_timeout: u64,
    keep_alive_timeout: u64,
) -> Seq<ConnectionInfo> {
    keep(s, |c: ConnectionInfo| c.timed_out(now, request_timeout, keep_alive_timeout))
}

/// The connections that are no older than `max_age` at `now`.
pub open spec fn young(s: Seq<ConnectionInfo>, now: u64, max_age: u64) -> Seq<ConnectionInfo> {
    keep(s, |c: ConnectionInfo| c.age_at(now) <= max_age)
}

/// Timeout statistics.
#[derive(Debug, Clone, Copy, PartialEq, Eq, Structural)]
pub struct TimeoutStats {
    pub total_connections: usize,
    pub total_requests: usize,
    pub total_bytes_read: usize,
    pub total_bytes_written: usize,
    pub max_connection_age: u64,
    pub max_idle_time: u64,
    pub max_connections: usize,
    pub reading_connections: usize,
    pub processing_connections: usize,
    pub writing_connections: usize,
    pub keepalive_connections: usize,
    pub closing_connections: usize,
}

pub open spec fn count_if(n: usize, counts: bool) -> usize {
    if counts {
        n.saturating_add(1)
    } else {
        n
    }
}

pub open spec fn larger(a: u64, b: int) -> u64 {
    if b > a {
        b as u64
    } else {
        a
    }
}

impl TimeoutStats {
    /// The statistics of no connections.
    pub open spec fn none(max_connections: usize) -> TimeoutStats {
        TimeoutStats {
            total_connections: 0,
            total_requests: 0,
            total_bytes_read: 0,
            total_bytes_written: 0,
            max_connection_age: 0,
            max_idle_time: 0,
            max_connections,
            reading_connections: 0,
            processing_connections: 0,
            writing_connections: 0,
            keepalive_connections: 0,
            closing_connections: 0,
        }
    }

    /// The statistics with one more connection counted in.
    pub open spec fn with(self, c: ConnectionInfo, now: u64) -> TimeoutStats {
        TimeoutStats {
            total_connections: self.total_connections.saturating_add(1),
            total_requests: self.total_requests.saturating_add(c.request_count),
            total_bytes_read: self.total_bytes_read.saturating_add(c.bytes_read),
            total_bytes_written: self.total_bytes_written.saturating_add(c.bytes_written),
            max_connection_age: larger(self.max_connection_age, c.age_at(now)),
            max_idle_time: larger(self.max_idle_time, c.idle_at(now)),
            max_connections: self.max_connections,
            reading_connections: count_if(
                self.reading_connections,
                c.state == ConnectionState::Reading,
            ),
            processing_connections: count_if(
                self.processing_connections,
                c.state == ConnectionState::Processing,
            ),
            writing_connections: count_if(
                self.writing_connections,
                c.state == ConnectionState::Writing,
            ),
            keepalive_connections: count_if(
                self.keepalive_connections,
                c.state == ConnectionState::KeepAlive,
            ),
            closing_connections: count_if(
                self.closing_connections,
                c.state == ConnectionState::Closing,
            ),
        }
    }

    /// The statistics of the given connections at `now`.
    pub open spec fn of(s: Seq<ConnectionInfo>, now: u64, max_connections: usize) -> TimeoutStats
        decreases s.len(),
    {
        if s.len() == 0 {
            TimeoutStats::none(max_connections)
        } else {
            TimeoutStats::of(s.drop_last(), now, max_connections).with(s.last(), now)
        }
    }

    fn count(n: usize, counts: bool) -> (r: usize)
        ensures
            r == count_if(n, counts),
    {
        if counts {
            n.saturating_add(1)
        } else {
            n
        }
    }

    /// Counts one more connection in.
    pub fn add(&mut self, c: &ConnectionInfo, now: u64)
        ensures
            *final(self) == old(self).with(*c, now),
    {
        let age = now.saturating_sub(c.created_at);
        let idle = now.saturating_sub(c.last_activity);
        self.total_connections = self.total_connections.saturating_add(1);
        self.total_requests = self.total_requests.saturating_add(c.request_count);
        self.total_bytes_read = self.total_bytes_read.saturating_add(c.bytes_read);
        self.total_bytes_written = self.total_bytes_written.saturating_add(c.bytes_written);
        if age > self.max_connection_age {
            self.max_connection_age = age;
        }
        if idle > self.max_idle_time {
            self.max_idle_time = idle;
        }
        self.reading_connections = Self::count(
            self.reading_connections,
            matches!(c.state, ConnectionState::Reading),
        );
        self.processing_connections = Self::count(
            self.processing_connections,
            matches!(c.state, ConnectionState::Processing),
        );
        self.writing_connections = Self::count(
            self.writing_connections,
            matches!(c.state, ConnectionState::Writing),
        );
        self.keepalive_connections = Self::count(
            self.keepalive_connections,
            matches!(c.state, ConnectionState::KeepAlive),
        );
        self.closing_connections = Self::count(
            self.closing_connections,
            matches!(c.state, ConnectionState::Closing),
        );
    }

    /// The statistics of no connections.
    pub fn empty(max_connections: usize) -> (s: TimeoutStats)
        ensures
            s == TimeoutStats::none(max_connections),
    {
        TimeoutStats {
            total_connections: 0,
            total_requests: 0,
            total_bytes_read: 0,
            total_bytes_written: 0,
            max_connection_age: 0,
            max_idle_time: 0,
            max_connections,
            reading_connections: 0,
            processing_connections: 0,
            writing_connections: 0,
            keepalive_connections: 0,
            closing_connections: 0,
        }
    }

    /// Get total bytes transferred.
    pub fn total_bytes_transferred(&self) -> (n: usize)
        ensures
            n == self.total_bytes_read.saturating_add(self.total_bytes_written),
    {
        self.total_bytes_read.saturating_add(self.total_bytes_written)
    }
}

impl Default for TimeoutStats {
    fn default() -> (s: Self)
        ensures
            s == TimeoutStats::none(0),
    {
        TimeoutStats::empty(0)
    }
}

/// Connection timeout manager. No two connections share a file descriptor.
#[derive(Debug)]
pub struct TimeoutManager {
    connections: Vec<ConnectionInfo>,
    request_timeout: u64,
    keep_alive_timeout: u64,
    max_connections: usize,
}

impl View for TimeoutManager {
    type V = Seq<ConnectionInfo>;

    closed spec fn view(&self) -> Seq<ConnectionInfo> {
        self.connections@
    }
}

impl TimeoutManager {
    #[verifier::type_invariant]
    spec fn inv(self) -> bool {
        distinct_keys(self.connections@)
    }

    pub closed spec fn request_timeout(&self) -> u64 {
        self.request_timeout
    }

    pub closed spec fn keep_alive_timeout(&self) -> u64 {
        self.keep_alive_timeout
    }

    pub closed spec fn max_connections(&self) -> usize {
        self.max_connections
    }

    /// Whether `other` has the settings of this manager.
    pub open spec fn same_settings(&self, other: &TimeoutManager) -> bool {
        &&& self.request_timeout() == other.request_timeout()
        &&& self.keep_alive_timeout() == other.keep_alive_timeout()
        &&& self.max_connections() == other.max_connections()
    }

    /// No two connections share a file descriptor. Calling this makes that
    /// known to the caller's proof; it does nothing at run time.
    pub fn fds_are_distinct(&self)
        ensures
            distinct_keys(self@),
    {
        proof {
            use_type_invariant(self);
        }
    }

    /// Create a new timeout manager. Timeouts are in milliseconds.
    pub fn new(request_timeout: u64, keep_alive_timeout: u64, max_connections: usize) -> (m:
        TimeoutManager)
        ensures
            m@ == Seq::<ConnectionInfo>::empty(),
            m.request_timeout() == request_timeout,
            m.keep_alive_timeout() == keep_alive_timeout,
            m.max_connections() == max_connections,
    {
        TimeoutManager {
            connections: Vec::new(),
            request_timeout,
            keep_alive_timeout,
            max_connections,
        }
    }

    /// Create with default timeouts: 30 seconds for a request, 60 seconds
    /// between requests, 1000 connections.
    pub fn with_defaults() -> (m: TimeoutManager)
        ensures
            m@ == Seq::<ConnectionInfo>::empty(),
            m.request_timeout() == 30000,
            m.keep_alive_timeout() == 60000,
            m.max_connections() == 1000,
    {
        TimeoutManager::new(30000, 60000, 1000)
    }

    fn take(&mut self) -> (e: Vec<ConnectionInfo>)
        ensures
            e@ == old(self)@,
            final(self)@ == Seq::<ConnectionInfo>::empty(),
            final(self).same_settings(old(self)),
    {
        let mut e: Vec<ConnectionInfo> = Vec::new();
        core::mem::swap(&mut self.connections, &mut e);
        e
    }

    fn set(&mut self, e: Vec<ConnectionInfo>)
        requires
            distinct_keys(e@),
        ensures
            final(self)@ == e@,
            final(self).same_settings(old(self)),
    {
        let mut e = e;
        core::mem::swap(&mut self.connections, &mut e);
    }

    /// The position of the connection `fd`, or the number of connections.
    pub fn position(&self, fd: i32) -> (i: usize)
        ensures
            i == find_key(self@, fd),
            i <= self@.len(),
    {
        let mut i: usize = 0;
        while i < self.connections.len()
            invariant
                i <= self.connections.len(),
                forall|j: int| 0 <= j < i ==> (#[trigger] self@[j]).key() != fd,
            decreases self.connections.len() - i,
        {
            if self.connections[i].fd == fd {
                proof {
                    lemma_find_key_unique(self@, fd, i as int);
                }
                return i;
            }
            i += 1;
        }
        proof {
            lemma_find_key_unique(self@, fd, i as int);
        }
        i
    }

    fn put(&mut self, info: ConnectionInfo)
        ensures
            final(self)@ == upsert(old(self)@, info),
            final(self).same_settings(old(self)),
    {
        proof {
            use_type_invariant(&*self);
            lemma_upsert(self@, info, info.fd);
        }
        let i = self.position(info.fd);
        let ghost before = self@;
        let mut e = self.take();
        if i < e.len() {
            e.set(i, info);
        } else {
            e.push(info);
        }
        assert(e@ =~= upsert(before, info));
        self.set(e);
    }

    /// Add a new connection, accepted at `now`. Fails once the maximum
    /// number of connections is reached.
    pub fn add_connection_at(&mut self, fd: i32, now: u64) -> (r: Result<(), String>)
        ensures
            final(self).same_settings(old(self)),
            match r {
                Ok(_) => old(self)@.len() < old(self).max_connections() && final(self)@ == upsert(
                    old(self)@,
                    ConnectionInfo::accepted(fd, now),
                ),
                Err(m) => old(self)@.len() >= old(self).max_connections() && final(self)@ == old(
                    self,
                )@ && m@ == "Maximum connections reached"@,
            },
    {
        if self.connections.len() >= self.max_connections {
            return Err(String::from_str("Maximum connections reached"));
        }
        self.put(
            ConnectionInfo {
                fd,
                created_at: now,
                last_activity: now,
                request_count: 0,
                bytes_read: 0,
                bytes_written: 0,
                state: ConnectionState::Reading,
            },
        );
        Ok(())
    }

    /// Add a new connection, accepted now.
    pub fn add_connection(&mut self, fd: i32) -> (r: Result<(), String>)
        ensures
            final(self).same_settings(old(self)),
            match r {
                Ok(_) => old(self)@.len() < old(self).max_connections() && exists|now: u64|
                    final(self)@ == upsert(
                        old(self)@,
                        #[trigger] ConnectionInfo::accepted(fd, now),
                    ),
                Err(m) => old(self)@.len() >= old(self).max_connections() && final(self)@ == old(
                    self,
                )@ && m@ == "Maximum connections reached"@,
            },
    {
        let now = now_millis();
        let r = self.add_connection_at(fd, now);
        if r.is_ok() {
            assert(self@ == upsert(old(self)@, ConnectionInfo::accepted(fd, now)));
        }
        r
    }

    /// Remove a connection.
    pub fn remove_connection(&mut self, fd: i32) -> (r: Option<ConnectionInfo>)
        ensures
            final(self)@ == delete(old(self)@, fd),
            r == record_of(old(self)@, fd),
            final(self).same_settings(old(self)),
    {
        proof {
            use_type_invariant(&*self);
            lemma_delete(self@, fd, fd);
        }
        let i = self.position(fd);
        let ghost before = self@;
        if i < self.connections.len() {
            let mut e = self.take();
            let info = e.remove(i);
            assert(e@ =~= delete(before, fd));
            self.set(e);
            Some(info)
        } else {
            None
        }
    }

    /// Update connection activity: `bytes_transferred` bytes were read, or
    /// written, at `now`. Nothing changes where there is no connection `fd`.
    pub fn update_activity_at(&mut self, fd: i32, bytes_transferred: usize, is_read: bool, now: u64)
        ensures
            final(self)@ == match record_of(old(self)@, fd) {
                Some(c) => upsert(old(self)@, c.after_transfer(bytes_transferred, is_read, now)),
                None => old(self)@,
            },
            final(self).same_settings(old(self)),
    {
        let i = self.position(fd);
        if i < self.connections.len() {
            let mut info = self.connections[i];
            info.last_activity = now;
            if is_read {
                info.bytes_read = info.bytes_read.saturating_add(bytes_transferred);
            } else {
                info.bytes_written = info.bytes_written.saturating_add(bytes_transferred);
            }
            self.put(info);
        }
    }

    /// Update connection activity, now.
    pub fn update_activity(&mut self, fd: i32, bytes_transferred: usize, is_read: bool)
        ensures
            match record_of(old(self)@, fd) {
                Some(c) => exists|now: u64|
                    final(self)@ == upsert(
                        old(self)@,
                        #[trigger] c.after_transfer(bytes_transferred, is_read, now),
                    ),
                None => final(self)@ == old(self)@,
            },
            final(self).same_settings(old(self)),
    {
        let now = now_millis();
        self.update_activity_at(fd, bytes_transferred, is_read, now);
        proof {
            if let Some(c) = record_of(old(self)@, fd) {
                assert(self@ == upsert(
                    old(self)@,
                    c.after_transfer(bytes_transferred, is_read, now),
                ));
            }
        }
    }

    /// Update connection state, at `now`.
    pub fn update_state_at(&mut self, fd: i32, state: ConnectionState, now: u64)
        ensures
            final(self)@ == match record_of(old(self)@, fd) {
                Some(c) => upsert(old(self)@, ConnectionInfo { state, last_activity: now, ..c }),
                None => old(self)@,
            },
            final(self).same_settings(old(self)),
    {
        let i = self.position(fd);
        if i < self.connections.len() {
            let mut info = self.connections[i];
            info.state = state;
            info.last_activity = now;
            self.put(info);
        }
    }

    /// Update connection state, now. The connection keeps everything but
    /// its state and the time of its last activity.
    pub fn update_state(&mut self, fd: i32, state: ConnectionState)
        ensures
            match record_of(old(self)@, fd) {
                Some(c) => exists|now: u64|
                    final(self)@ == upsert(
                        old(self)@,
                        #[trigger] c.after_state(state, now),
                    ),
                None => final(self)@ == old(self)@,
            },
            final(self).same_settings(old(self)),
    {
        let now = now_millis();
        self.update_state_at(fd, state, now);
        proof {
            if let Some(c) = record_of(old(self)@, fd) {
                assert(self@ == upsert(old(self)@, c.after_state(state, now)));
            }
        }
    }

    /// Increment request count, at `now`.
    pub fn increment_requests_at(&mut self, fd: i32, now: u64)
        ensures
            final(self)@ == match record_of(old(self)@, fd) {
                Some(c) => upsert(old(self)@, c.after_request(now)),
                None => old(self)@,
            },
            final(self).same_settings(old(self)),
    {
        let i = self.position(fd);
        if i < self.connections.len() {
            let mut info = self.connections[i];
            info.request_count = info.request_count.saturating_add(1);
            info.last_activity = now;
            self.put(info);
        }
    }

    /// Increment request count, now.
    pub fn increment_requests(&mut self, fd: i32)
        ensures
            match record_of(old(self)@, fd) {
                Some(c) => exists|now: u64|
                    final(self)@ == upsert(old(self)@, #[trigger] c.after_request(now)),
                None => final(self)@ == old(self)@,
            },
            final(self).same_settings(old(self)),
    {
        let now = now_millis();
        self.increment_requests_at(fd, now);
        proof {
            if let Some(c) = record_of(old(self)@, fd) {
                assert(self@ == upsert(old(self)@, c.after_request(now)));
            }
        }
    }

    /// Get connections that have timed out at `now`.
    pub fn get_timed_out_connections_at(&self, now: u64) -> (r: Vec<i32>)
        ensures
            r@ == fds_of(expired(self@, now, self.request_timeout(), self.keep_alive_timeout())),
    {
        let ghost p = |c: ConnectionInfo|
            c.timed_out(now, self.request_timeout, self.keep_alive_timeout);
        let mut r: Vec<i32> = Vec::new();
        let mut i: usize = 0;
        assert(self@.take(0) =~= Seq::<ConnectionInfo>::empty());
        assert(r@ =~= fds_of(keep(self@.take(0), p)));
        while i < self.connections.len()
            invariant
                i <= self.connections.len(),
                p == |c: ConnectionInfo|
                    c.timed_out(now, self.request_timeout, self.keep_alive_timeout),
                r@ == fds_of(keep(self@.take(i as int), p)),
            decreases self.connections.len() - i,
        {
            let c = &self.connections[i];
            proof {
                assert(self@.take(i + 1).drop_last() =~= self@.take(i as int));
                assert(self@.take(i + 1).last() == *c);
            }
            let ghost prev = keep(self@.take(i as int), p);
            if c.is_timed_out(now, self.request_timeout, self.keep_alive_timeout) {
                r.push(c.fd);
                assert(r@ =~= fds_of(prev.push(*c)));
            }
            i += 1;
        }
        assert(self@.take(self.connections.len() as int) =~= self@);
        r
    }

    /// Get connections that have timed out.
    pub fn get_timed_out_connections(&self) -> (r: Vec<i32>)
        ensures
            exists|now: u64|
                r@ == fds_of(
                    #[trigger] expired(
                        self@,
                        now,
                        self.request_timeout(),
                        self.keep_alive_timeout(),
                    ),
                ),
    {
        let now = now_millis();
        let r = self.get_timed_out_connections_at(now);
        assert(r@ == fds_of(
            expired(self@, now, self.request_timeout(), self.keep_alive_timeout()),
        ));
        r
    }

    /// Get timeout statistics at `now`.
    pub fn get_stats_at(&self, now: u64) -> (s: TimeoutStats)
        ensures
            s == TimeoutStats::of(self@, now, self.max_connections()),
    {
        let mut stats = TimeoutStats::empty(self.max_connections);
        let mut i: usize = 0;
        assert(self@.take(0) =~= Seq::<ConnectionInfo>::empty());
        while i < self.connections.len()
            invariant
                i <= self.connections.len(),
                stats == TimeoutStats::of(self@.take(i as int), now, self.max_connections),
            decreases self.connections.len() - i,
        {
            proof {
                assert(self@.take(i + 1).drop_last() =~= self@.take(i as int));
            }
            stats.add(&self.connections[i], now);
            i += 1;
        }
        assert(self@.take(self.connections.len() as int) =~= self@);
        stats
    }

    /// Get timeout statistics.
    pub fn get_stats(&self) -> (s: TimeoutStats)
        ensures
            exists|now: u64| s == #[trigger] TimeoutStats::of(self@, now, self.max_connections()),
    {
        let now = now_millis();
        let s = self.get_stats_at(now);
        assert(s == TimeoutStats::of(self@, now, self.max_connections()));
        s
    }

    /// Clean up the connections that are older than `max_age` at `now`;
    /// returns how many they were.
    pub fn cleanup_old_connections_at(&mut self, max_age: u64, now: u64) -> (n: usize)
        ensures
            final(self)@ == young(old(self)@, now, max_age),
            n == old(self)@.len() - final(self)@.len(),
            final(self).same_settings(old(self)),
    {
        proof {
            use_type_invariant(&*self);
        }
        let ghost before = self@;
        let ghost p = |c: ConnectionInfo| c.age_at(now) <= max_age;
        let e = self.take();
        let mut kept: Vec<ConnectionInfo> = Vec::new();
        assert(before.take(0) =~= Seq::<ConnectionInfo>::empty());
        let mut i: usize = 0;
        while i < e.len()
            invariant
                i <= e.len(),
                e@ == before,
                p == |c: ConnectionInfo| c.age_at(now) <= max_age,
                kept@ == keep(before.take(i as int), p),
                kept@.len() <= i,
            decreases e.len() - i,
        {
            proof {
                assert(before.take(i + 1).drop_last() =~= before.take(i as int));
            }
            if now.saturating_sub(e[i].created_at) <= max_age {
                kept.push(e[i]);
            }
            i += 1;
        }
        proof {
            assert(before.take(e.len() as int) =~= before);
            lemma_keep_distinct(before, p);
        }
        let removed: usize = e.len() - kept.len();
        self.set(kept);
        removed
    }

    /// Clean up the connections that are older than `max_age` now.
    pub fn cleanup_old_connections(&mut self, max_age: u64) -> (n: usize)
        ensures
            exists|now: u64| final(self)@ == #[trigger] young(old(self)@, now, max_age),
            n == old(self)@.len() - final(self)@.len(),
            final(self).same_settings(old(self)),
    {
        let now = now_millis();
        let n = self.cleanup_old_connections_at(max_age, now);
        assert(self@ == young(old(self)@, now, max_age));
        n
    }

    /// Get connection info.
    pub fn get_connection(&self, fd: i32) -> (r: Option<&ConnectionInfo>)
        ensures
            match r {
                Some(c) => record_of(self@, fd) == Some(*c),
                None => record_of(self@, fd) is None,
            },
    {
        let i = self.position(fd);
        if i < self.connections.len() {
            Some(&self.connections[i])
        } else {
            None
        }
    }

    /// Get all connections.
    pub fn get_all_connections(&self) -> (r: &Vec<ConnectionInfo>)
        ensures
            r@ == self@,
    {
        &self.connections
    }

    /// Get connection count.
    pub fn connection_count(&self) -> (n: usize)
        ensures
            n == self@.len(),
    {
        self.connections.len()
    }

    /// Check if at connection limit.
    pub fn is_at_limit(&self) -> (b: bool)
        ensures
            b == (self@.len() >= self.max_connections()),
    {
        self.connections.len() >= self.max_connections
    }
}

/// Resource statistics.
#[derive(Debug, Clone, Copy, PartialEq, Eq, Structural)]
pub struct ResourceStats {
    /// Milliseconds since the monitor was started.
    pub uptime: u64,
    pub peak_connections: usize,
    pub total_requests_served: usize,
    pub total_bytes_transferred: usize,
    pub error_count: usize,
    /// When the monitor was started, in milliseconds since the epoch.
    pub start_time: u64,
}

/// Resource monitor for tracking system resources.
#[derive(Debug)]
pub struct ResourceMonitor {
    start_time: u64,
    peak_connections: usize,
    total_requests_served: usize,
    total_bytes_transferred: usize,
    error_count: usize,
}

impl View for ResourceMonitor {
    type V = ResourceStats;

    /// The counters of the monitor, with no uptime.
    closed spec fn view(&self) -> ResourceStats {
        ResourceStats {
            uptime: 0,
            peak_connections: self.peak_connections,
            total_requests_served: self.total_requests_served,
            total_bytes_transferred: self.total_bytes_transferred,
            error_count: self.error_count,
            start_time: self.start_time,
        }
    }
}

impl ResourceMonitor {
    /// Create a new resource monitor, started at `now`.
    pub fn new_at(now: u64) -> (m: ResourceMonitor)
        ensures
            m@ == (ResourceStats {
                uptime: 0,
                peak_connections: 0,
                total_requests_served: 0,
                total_bytes_transferred: 0,
                error_count: 0,
                start_time: now,
            }),
    {
        ResourceMonitor {
            start_time: now,
            peak_connections: 0,
            total_requests_served: 0,
            total_bytes_transferred: 0,
            error_count: 0,
        }
    }

    /// Create a new resource monitor.
    pub fn new() -> (m: ResourceMonitor)
        ensures
            m@ == (ResourceStats {
                uptime: 0,
                peak_connections: 0,
                total_requests_served: 0,
                total_bytes_transferred: 0,
                error_count: 0,
                start_time: m@.start_time,
            }),
    {
        ResourceMonitor::new_at(now_millis())
    }

    /// Update peak connections.
    pub fn update_peak_connections(&mut self, current: usize)
        ensures
            final(self)@ == (ResourceStats {
                peak_connections: if current > old(self)@.peak_connections {
                    current
                } else {
                    old(self)@.peak_connections
                },
                ..old(self)@
            }),
    {
        if current > self.peak_connections {
            self.peak_connections = current;
        }
    }

    /// Record a served request.
    pub fn record_request(&mut self, bytes_transferred: usize)
        ensures
            final(self)@ == (ResourceStats {
                total_requests_served: old(self)@.total_requests_served.saturating_add(1),
                total_bytes_transferred: old(self)@.total_bytes_transferred.saturating_add(
                    bytes_transferred,
                ),
                ..old(self)@
            }),
    {
        self.total_requests_served = self.total_requests_served.saturating_add(1);
        self.total_bytes_transferred = self.total_bytes_transferred.saturating_add(
            bytes_transferred,
        );
    }

    /// Record an error.
    pub fn record_error(&mut self)
        ensures
            final(self)@ == (ResourceStats {
                error_count: old(self)@.error_count.saturating_add(1),
                ..old(self)@
            }),
    {
        self.error_count = self.error_count.saturating_add(1);
    }

    /// Get uptime at `now`, in milliseconds.
    pub fn uptime_at(&self, now: u64) -> (t: u64)
        ensures
            t == now.saturating_sub(self@.start_time),
    {
        now.saturating_sub(self.start_time)
    }

    /// Get uptime, in milliseconds.
    pub fn uptime(&self) -> (t: u64)
        ensures
            exists|now: u64| t == #[trigger] now.saturating_sub(self@.start_time),
    {
        let now = now_millis();
        let t = self.uptime_at(now);
        assert(t == now.saturating_sub(self@.start_time));
        t
    }

    /// Get resource statistics at `now`.
    pub fn get_stats_at(&self, now: u64) -> (s: ResourceStats)
        ensures
            s == (ResourceStats { uptime: now.saturating_sub(self@.start_time), ..self@ }),
    {
        ResourceStats {
            uptime: self.uptime_at(now),
            peak_connections: self.peak_connections,
            total_requests_served: self.total_requests_served,
            total_bytes_transferred: self.total_bytes_transferred,
            error_count: self.error_count,
            start_time: self.start_time,
        }
    }

    /// Get resource statistics: the counters, and whatever the uptime is.
    pub fn get_stats(&self) -> (s: ResourceStats)
        ensures
            s == (ResourceStats { uptime: s.uptime, ..self@ }),
    {
        self.get_stats_at(now_millis())
    }
}

impl Default for ResourceMonitor {
    fn default() -> (m: Self)
        ensures
            m@ == (ResourceStats {
                uptime: 0,
                peak_connections: 0,
                total_requests_served: 0,
                total_bytes_transferred: 0,
                error_count: 0,
                start_time: m@.start_time,
            }),
    {
        ResourceMonitor::new()
    }
}

} // verus!
