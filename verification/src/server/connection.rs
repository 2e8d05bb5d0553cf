//! Client connections and their life cycle.
//!
//! A connection is `Reading` while a request is awaited or under way,
//! `Writing` while a response is sent, `KeepAlive` between requests, and
//! `Closed` when it is to be torn down. Reading from and writing to the
//! socket is the caller's part: it hands in what it has read and reports
//! what it has written.
use vstd::prelude::*;
use crate::http::request::{parsed, HttpRequest, HttpRequestParser, ParserModel};
use crate::http::response::HttpResponse;
use crate::keyed::{
    delete, distinct_keys, find_key, holds_key, keep, lemma_delete, lemma_find_key,
    lemma_find_key_unique, lemma_keep, lemma_keep_distinct, lemma_upsert, record_of, upsert, Keyed,
};
use crate::utils::buffer::Buffer;
use crate::utils::clock::now_millis;
use crate::utils::timeout::{ConnectionInfo, ResourceMonitor, ResourceStats, TimeoutStats};

verus! {

/// Connection state.
#[derive(Debug, Clone, Copy, PartialEq, Eq, Structural)]
pub enum ConnectionState {
    Reading,
    Writing,
    KeepAlive,
    Closed,
}

/// Individual client connection.
#[derive(Debug)]
pub struct Connection {
    pub fd: i32,
    pub state: ConnectionState,
    pub read_buffer: Buffer,
    pub write_buffer: Buffer,
    /// Milliseconds since the epoch.
    pub last_activity: u64,
    pub keep_alive: bool,
    pub request_count: usize,
    pub http_parser: HttpRequestParser,
    /// Milliseconds since the epoch.
    pub created_at: u64,
    pub bytes_read: usize,
    pub bytes_written: usize,
}

/// What a connection holds.
pub struct ConnectionModel {
    pub fd: i32,
    pub state: ConnectionState,
    /// The bytes received and not yet parsed.
    pub input: Seq<u8>,
    /// The bytes to send and not yet sent.
    pub output: Seq<u8>,
    pub last_activity: u64,
    pub keep_alive: bool,
    pub request_count: usize,
    pub parser: ParserModel,
    pub created_at: u64,
    pub bytes_read: usize,
    pub bytes_written: usize,
}

impl Keyed for ConnectionModel {
    type Key = i32;

    open spec fn key(&self) -> i32 {
        self.fd
    }
}

impl ConnectionModel {
    /// A connection between requests has a parser that awaits a request
    /// line, and nothing buffered in either direction.
    pub open spec fn wf(self) -> bool {
        self.state is KeepAlive ==> {
            &&& self.parser.state is AwaitRequestLine
            &&& self.input.len() == 0
            &&& self.output.len() == 0
        }
    }

    /// A connection that was accepted at `now`.
    pub open spec fn accepted(fd: i32, now: u64) -> ConnectionModel {
        ConnectionModel {
            fd,
            state: ConnectionState::Reading,
            input: Seq::empty(),
            output: Seq::empty(),
            last_activity: now,
            keep_alive: false,
            request_count: 0,
            parser: ParserModel::fresh(),
            created_at: now,
            bytes_read: 0,
            bytes_written: 0,
        }
    }

    /// The connection as the timeout statistics see it.
    pub open spec fn info(self) -> ConnectionInfo {
        ConnectionInfo {
            fd: self.fd,
            created_at: self.created_at,
            last_activity: self.last_activity,
            request_count: self.request_count,
            bytes_read: self.bytes_read,
            bytes_written: self.bytes_written,
            state: match self.state {
                ConnectionState::Reading => crate::utils::timeout::ConnectionState::Reading,
                ConnectionState::Writing => crate::utils::timeout::ConnectionState::Writing,
                ConnectionState::KeepAlive => crate::utils::timeout::ConnectionState::KeepAlive,
                ConnectionState::Closed => crate::utils::timeout::ConnectionState::Closing,
            },
        }
    }

    /// The time the connection has been idle at `now`.
    pub open spec fn idle_at(self, now: u64) -> int {
        if now >= self.last_activity {
            now - self.last_activity
        } else {
            0
        }
    }

    /// Whether the connection has been idle at `now` for longer than it
    /// may: longer than `keep_alive_timeout` between requests, longer than
    /// `request_timeout` in any other state.
    pub open spec fn timed_out(self, now: u64, request_timeout: u64, keep_alive_timeout: u64) -> bool {
        self.idle_at(now) > (if self.state is KeepAlive {
            keep_alive_timeout
        } else {
            request_timeout
        })
    }

    /// The connection after it was active at `now`.
    pub open spec fn active_at(self, now: u64) -> ConnectionModel {
        ConnectionModel { last_activity: now, ..self }
    }

    /// Whether the connection is to be torn down: it is closed, or it is
    /// not kept alive and has nothing left to send.
    pub open spec fn should_close(self) -> bool {
        self.state is Closed || (!self.keep_alive && self.output.len() == 0)
    }

    /// The connection after `bytes` were received at `now`: they are
    /// buffered behind what was received before, and a connection between
    /// requests is reading again.
    pub open spec fn received(self, bytes: Seq<u8>, now: u64) -> ConnectionModel {
        ConnectionModel {
            input: self.input + bytes,
            state: if self.state is KeepAlive {
                ConnectionState::Reading
            } else {
                self.state
            },
            last_activity: now,
            bytes_read: self.bytes_read.saturating_add(bytes.len() as usize),
            ..self
        }
    }

    /// The connection after the parser was run on what is buffered.
    pub open spec fn after_parse(self) -> ConnectionModel {
        let o = parsed(self.parser, self.input);
        if o.verdict is Failed {
            ConnectionModel { parser: ParserModel::fresh(), ..self }
        } else {
            ConnectionModel { parser: o.parser, input: self.input.skip(o.consumed as int), ..self }
        }
    }

    /// The connection after the response bytes `wire` were queued at `now`:
    /// it is writing, and remembers whether to stay open afterwards.
    pub open spec fn responding(self, wire: Seq<u8>, keep_alive: bool, now: u64) -> ConnectionModel {
        ConnectionModel {
            output: self.output + wire,
            keep_alive,
            state: ConnectionState::Writing,
            last_activity: now,
            ..self
        }
    }

    /// The connection once a response is sent and it stays open at `now`:
    /// its parser is reset and the request counted; it goes on reading
    /// where bytes of a further request are buffered already, and waits
    /// between requests where none are.
    pub open spec fn kept_alive(self, now: u64) -> ConnectionModel {
        ConnectionModel {
            output: Seq::empty(),
            parser: ParserModel::fresh(),
            request_count: self.request_count.saturating_add(1),
            state: if self.input.len() > 0 {
                ConnectionState::Reading
            } else {
                ConnectionState::KeepAlive
            },
            last_activity: now,
            ..self
        }
    }

    /// The connection after `n` bytes of its output were sent at `now`.
    /// With output left it goes on writing. With none left it is kept
    /// alive, or closed where it is not to stay open.
    pub open spec fn after_write(self, n: usize, now: u64) -> ConnectionModel {
        let rest = self.output.skip(
            if n <= self.output.len() {
                n as int
            } else {
                self.output.len() as int
            },
        );
        let c = ConnectionModel { bytes_written: self.bytes_written.saturating_add(n), ..self };
        if rest.len() > 0 {
            ConnectionModel { output: rest, last_activity: now, ..c }
        } else if self.keep_alive {
            c.kept_alive(now)
        } else {
            ConnectionModel { output: rest, state: ConnectionState::Closed, last_activity: now, ..c }
        }
    }
}

impl View for Connection {
    type V = ConnectionModel;

    open spec fn view(&self) -> ConnectionModel {
        ConnectionModel {
            fd: self.fd,
            state: self.state,
            input: self.read_buffer@,
            output: self.write_buffer@,
            last_activity: self.last_activity,
            keep_alive: self.keep_alive,
            request_count: self.request_count,
            parser: self.http_parser@,
            created_at: self.created_at,
            bytes_read: self.bytes_read,
            bytes_written: self.bytes_written,
        }
    }
}

/// What running the parser on a connection's input gave.
#[derive(Debug)]
pub enum ParseStep {
    /// More bytes are needed.
    NeedMore,
    /// A request is complete.
    Request(HttpRequest),
    /// The input is no HTTP request.
    Invalid,
}

/// What is to be done after output was sent.
#[derive(Debug, Clone, Copy, PartialEq, Eq, Structural)]
pub enum WriteStep {
    /// Output is left: go on watching for writability.
    More,
    /// The response is sent and the connection stays open with nothing
    /// buffered: watch for readability.
    Await,
    /// The response is sent and the connection stays open with bytes of a
    /// further request buffered: parse them, then watch for readability.
    Pipelined,
    /// The response is sent and the connection does not stay open: tear it
    /// down.
    Close,
}

impl Connection {
    /// A connection accepted at `now`.
    pub fn new_at(fd: i32, now: u64) -> (c: Connection)
        ensures
            c@ == ConnectionModel::accepted(fd, now),
            c@.wf(),
    {
        Connection {
            fd,
            state: ConnectionState::Reading,
            read_buffer: Buffer::new(8192),
            write_buffer: Buffer::new(8192),
            last_activity: now,
            keep_alive: false,
            request_count: 0,
            http_parser: HttpRequestParser::new(),
            created_at: now,
            bytes_read: 0,
            bytes_written: 0,
        }
    }

    /// The connection as the timeout statistics see it.
    pub fn info(&self) -> (r: ConnectionInfo)
        ensures
            r == self@.info(),
    {
        ConnectionInfo {
            fd: self.fd,
            created_at: self.created_at,
            last_activity: self.last_activity,
            request_count: self.request_count,
            bytes_read: self.bytes_read,
            bytes_written: self.bytes_written,
            state: match self.state {
                ConnectionState::Reading => crate::utils::timeout::ConnectionState::Reading,
                ConnectionState::Writing => crate::utils::timeout::ConnectionState::Writing,
                ConnectionState::KeepAlive => crate::utils::timeout::ConnectionState::KeepAlive,
                ConnectionState::Closed => crate::utils::timeout::ConnectionState::Closing,
            },
        }
    }

    /// A connection accepted now.
    pub fn new(fd: i32) -> (c: Connection)
        ensures
            c@ == ConnectionModel::accepted(fd, c@.created_at),
            c@.wf(),
    {
        Connection::new_at(fd, now_millis())
    }

    /// Update last activity timestamp to `now`.
    pub fn touch_at(&mut self, now: u64)
        ensures
            final(self)@ == (ConnectionModel { last_activity: now, ..old(self)@ }),
    {
        self.last_activity = now;
    }

    /// Update last activity timestamp.
    pub fn touch(&mut self)
        ensures
            final(self)@ == (ConnectionModel {
                last_activity: final(self)@.last_activity,
                ..old(self)@
            }),
    {
        self.last_activity = now_millis();
    }

    /// Check if connection has been idle for longer than `timeout`
    /// milliseconds at `now`.
    pub fn is_timed_out_at(&self, timeout: u64, now: u64) -> (b: bool)
        ensures
            b == (self@.idle_at(now) > timeout),
    {
        now.saturating_sub(self.last_activity) > timeout
    }

    /// Check if connection has timed out. One that was active this very
    /// moment has not.
    pub fn is_timed_out(&self, timeout: u64) -> (b: bool)
        ensures
            exists|now: u64| b == (#[trigger] self@.idle_at(now) > timeout),
    {
        let now = now_millis();
        let b = self.is_timed_out_at(timeout, now);
        assert(b == (self@.idle_at(now) > timeout));
        b
    }

    /// Reset connection for keep-alive, at `now`.
    pub fn reset_for_keep_alive_at(&mut self, now: u64)
        requires
            old(self)@.wf(),
        ensures
            final(self)@ == old(self)@.kept_alive(now),
            final(self)@.wf(),
    {
        self.write_buffer.clear();
        self.http_parser.reset();
        self.request_count = self.request_count.saturating_add(1);
        self.state = if self.read_buffer.is_empty() {
            ConnectionState::KeepAlive
        } else {
            ConnectionState::Reading
        };
        self.last_activity = now;
    }

    /// Reset connection for keep-alive.
    pub fn reset_for_keep_alive(&mut self)
        requires
            old(self)@.wf(),
        ensures
            final(self)@ == old(self)@.kept_alive(final(self)@.last_activity),
            final(self)@.wf(),
    {
        self.reset_for_keep_alive_at(now_millis());
    }

    /// Check if connection should be closed.
    pub fn should_close(&self) -> (b: bool)
        ensures
            b == self@.should_close(),
    {
        matches!(self.state, ConnectionState::Closed) || (!self.keep_alive
            && self.write_buffer.is_empty())
    }

    /// Marks the connection for teardown.
    pub fn close(&mut self)
        ensures
            final(self)@ == (ConnectionModel { state: ConnectionState::Closed, ..old(self)@ }),
            final(self)@.wf(),
    {
        self.state = ConnectionState::Closed;
    }

    /// Takes in bytes that were read from the socket at `now`. Returns
    /// whether they were taken; bytes too many to buffer close the
    /// connection.
    pub fn receive_at(&mut self, bytes: &[u8], now: u64) -> (ok: bool)
        requires
            old(self)@.wf(),
        ensures
            final(self)@.wf(),
            ok == (old(self)@.input.len() + bytes@.len() <= usize::MAX),
            final(self)@ == if ok {
                old(self)@.received(bytes@, now)
            } else {
                ConnectionModel { state: ConnectionState::Closed, ..old(self)@ }
            },
    {
        if bytes.len() > usize::MAX - self.read_buffer.readable_bytes() {
            self.state = ConnectionState::Closed;
            return false;
        }
        self.read_buffer.append(bytes);
        if let ConnectionState::KeepAlive = self.state {
            self.state = ConnectionState::Reading;
        }
        self.last_activity = now;
        self.bytes_read = self.bytes_read.saturating_add(bytes.len());
        true
    }

    /// Runs the parser on what is buffered. This is for a connection that
    /// is reading: while a response is being sent, what arrives is kept
    /// for later.
    pub fn next_request(&mut self) -> (r: ParseStep)
        requires
            old(self)@.wf(),
            old(self)@.state is Reading,
        ensures
            final(self)@ == old(self)@.after_parse(),
            final(self)@.wf(),
            match r {
                ParseStep::NeedMore => parsed(old(self)@.parser, old(self)@.input).verdict
                    is NeedMore,
                ParseStep::Request(q) => {
                    &&& parsed(old(self)@.parser, old(self)@.input).verdict is Complete
                    &&& q@ == parsed(old(self)@.parser, old(self)@.input).parser.request
                },
                ParseStep::Invalid => parsed(old(self)@.parser, old(self)@.input).verdict
                    is Failed,
            },
    {
        let result = self.http_parser.parse(self.read_buffer.readable_data());
        match result {
            Ok((request, consumed)) => {
                self.read_buffer.consume(consumed);
                match request {
                    Some(q) => ParseStep::Request(q),
                    None => ParseStep::NeedMore,
                }
            },
            Err(_) => ParseStep::Invalid,
        }
    }

    /// Queues a response at `now`: it gets its `Connection` header, is
    /// encoded, and the connection turns to writing. Returns whether it
    /// was queued; a response too large to buffer closes the connection.
    pub fn send_response_at(&mut self, response: HttpResponse, keep_alive: bool, now: u64) -> (ok:
        bool)
        requires
            old(self)@.wf(),
        ensures
            final(self)@.wf(),
            ({
                let wire = response@.with_header(
                    "Connection"@,
                    if keep_alive {
                        "keep-alive"@
                    } else {
                        "close"@
                    },
                ).encoded();
                &&& ok == (old(self)@.output.len() + wire.len() <= usize::MAX)
                &&& final(self)@ == if ok {
                    old(self)@.responding(wire, keep_alive, now)
                } else {
                    ConnectionModel { state: ConnectionState::Closed, ..old(self)@ }
                }
            }),
    {
        let mut response = response;
        response.set_keep_alive(keep_alive);
        let wire = response.to_bytes();
        if wire.len() > usize::MAX - self.write_buffer.readable_bytes() {
            self.state = ConnectionState::Closed;
            return false;
        }
        self.write_buffer.append(wire.as_slice());
        self.keep_alive = keep_alive;
        self.state = ConnectionState::Writing;
        self.last_activity = now;
        true
    }

    /// The bytes to send next.
    pub fn pending_output(&self) -> (r: &[u8])
        ensures
            r@ == self@.output,
    {
        self.write_buffer.readable_data()
    }

    /// Takes note at `now` that `n` bytes of the output were sent, and says
    /// what is to be done next.
    pub fn wrote_at(&mut self, n: usize, now: u64) -> (r: WriteStep)
        requires
            old(self)@.wf(),
            old(self)@.state is Writing,
        ensures
            final(self)@ == old(self)@.after_write(n, now),
            final(self)@.wf(),
            r == write_step(final(self)@),
    {
        self.write_buffer.consume(n);
        self.bytes_written = self.bytes_written.saturating_add(n);
        if !self.write_buffer.is_empty() {
            self.last_activity = now;
            return WriteStep::More;
        }
        if self.keep_alive {
            self.reset_for_keep_alive_at(now);
            if self.read_buffer.is_empty() {
                WriteStep::Await
            } else {
                WriteStep::Pipelined
            }
        } else {
            self.state = ConnectionState::Closed;
            self.last_activity = now;
            WriteStep::Close
        }
    }
}

/// What is to be done about a connection after output was sent: that
/// depends on the state it is then in.
pub open spec fn write_step(c: ConnectionModel) -> WriteStep {
    match c.state {
        ConnectionState::Writing => WriteStep::More,
        ConnectionState::KeepAlive => WriteStep::Await,
        ConnectionState::Reading => WriteStep::Pipelined,
        ConnectionState::Closed => WriteStep::Close,
    }
}

/// The models of a vector of connections.
pub open spec fn connection_models(v: Seq<Connection>) -> Seq<ConnectionModel> {
    Seq::new(v.len(), |i: int| v[i]@)
}

/// The file descriptors of the given connections, in order.
pub open spec fn connection_fds(s: Seq<ConnectionModel>) -> Seq<i32> {
    Seq::new(s.len(), |i: int| s[i].fd)
}

/// Whether every connection is well formed.
pub open spec fn all_wf(s: Seq<ConnectionModel>) -> bool {
    forall|i: int| 0 <= i < s.len() ==> (#[trigger] s[i]).wf()
}

/// The connections that have not timed out at `now`.
pub open spec fn alive(
    s: Seq<ConnectionModel>,
    now: u64,
    request_timeout: u64,
    keep_alive_timeout: u64,
) -> Seq<ConnectionModel> {
    keep(s, |c: ConnectionModel| !c.timed_out(now, request_timeout, keep_alive_timeout))
}

/// The connections that have timed out at `now`.
pub open spec fn overdue(
    s: Seq<ConnectionModel>,
    now: u64,
    request_timeout: u64,
    keep_alive_timeout: u64,
) -> Seq<ConnectionModel> {
    keep(s, |c: ConnectionModel| c.timed_out(now, request_timeout, keep_alive_timeout))
}

/// After a timeout sweep no connection is left that has been idle for
/// longer than it may: each one that is left was active within the request
/// timeout, or within the keep-alive timeout where it is between requests.
pub proof fn lemma_sweep_leaves_none_overdue(
    s: Seq<ConnectionModel>,
    now: u64,
    request_timeout: u64,
    keep_alive_timeout: u64,
)
    ensures
        forall|i: int|
            0 <= i < alive(s, now, request_timeout, keep_alive_timeout).len() ==> {
                let c = #[trigger] alive(s, now, request_timeout, keep_alive_timeout)[i];
                &&& !c.timed_out(now, request_timeout, keep_alive_timeout)
                &&& now <= c.last_activity + (if c.state is KeepAlive {
                    keep_alive_timeout
                } else {
                    request_timeout
                })
            },
        overdue(alive(s, now, request_timeout, keep_alive_timeout), now, request_timeout, keep_alive_timeout).len()
            == 0,
{
    let p = |c: ConnectionModel| !c.timed_out(now, request_timeout, keep_alive_timeout);
    let q = |c: ConnectionModel| c.timed_out(now, request_timeout, keep_alive_timeout);
    lemma_keep(s, p);
    let a = alive(s, now, request_timeout, keep_alive_timeout);
    lemma_keep(a, q);
    if keep(a, q).len() > 0 {
        let c = keep(a, q)[0];
        assert(q(c));
        assert(a.contains(c));
        let i = choose|i: int| 0 <= i < a.len() && a[i] == c;
        assert(p(a[i]));
    }
}

/// Connection manager: the registry of the connections that are open. No
/// two of them share a file descriptor, and there are never more than the
/// maximum.
pub struct ConnectionManager {
    connections: Vec<Connection>,
    request_timeout: u64,
    keep_alive_timeout: u64,
    max_connections: usize,
    resource_monitor: ResourceMonitor,
}

impl View for ConnectionManager {
    type V = Seq<ConnectionModel>;

    closed spec fn view(&self) -> Seq<ConnectionModel> {
        connection_models(self.connections@)
    }
}

impl ConnectionManager {
    #[verifier::type_invariant]
    spec fn inv(self) -> bool {
        &&& distinct_keys(self@)
        &&& all_wf(self@)
        &&& self@.len() <= self.max_connections
    }

    pub closed spec fn request_timeout(&self) -> u64 {
        self.request_timeout
    }

    pub closed spec fn keep_alive_timeout(&self) -> u64 {
        self.keep_alive_timeout
    }

    pub closed spec fn max_connections(&self) -> usize {
        self.max_connections
    }

    /// The counters of the registry.
    pub closed spec fn counters(&self) -> ResourceStats {
        self.resource_monitor@
    }

    /// Whether `other` has the settings of this registry.
    pub open spec fn same_settings(&self, other: &ConnectionManager) -> bool {
        &&& self.request_timeout() == other.request_timeout()
        &&& self.keep_alive_timeout() == other.keep_alive_timeout()
        &&& self.max_connections() == other.max_connections()
    }

    /// The registry holds no more connections than the maximum, no two with
    /// the same file descriptor, and each of them well formed. Calling this
    /// makes that known to the caller's proof; it does nothing at run time.
    pub fn bounds(&self)
        ensures
            self@.len() <= self.max_connections(),
            distinct_keys(self@),
            all_wf(self@),
    {
        proof {
            use_type_invariant(self);
        }
    }

    /// A registry with the given timeouts, in milliseconds, and the given
    /// maximum number of connections, started at `now`.
    pub fn with_limits_at(
        request_timeout: u64,
        keep_alive_timeout: u64,
        max_connections: usize,
        now: u64,
    ) -> (m: ConnectionManager)
        ensures
            m@ == Seq::<ConnectionModel>::empty(),
            m.request_timeout() == request_timeout,
            m.keep_alive_timeout() == keep_alive_timeout,
            m.max_connections() == max_connections,
            m.counters() == started(now),
    {
        let m = ConnectionManager {
            connections: Vec::new(),
            request_timeout,
            keep_alive_timeout,
            max_connections,
            resource_monitor: ResourceMonitor::new_at(now),
        };
        assert(m@ =~= Seq::<ConnectionModel>::empty());
        m
    }

    /// A registry with a request timeout of `timeout_seconds`, a keep-alive
    /// timeout of 60 seconds and room for 1000 connections.
    pub fn new(timeout_seconds: u64) -> (m: ConnectionManager)
        ensures
            m@ == Seq::<ConnectionModel>::empty(),
            m.request_timeout() == if timeout_seconds * 1000 <= u64::MAX {
                (timeout_seconds * 1000) as u64
            } else {
                u64::MAX
            },
            m.keep_alive_timeout() == 60000,
            m.max_connections() == 1000,
            exists|now: u64| m.counters() == #[trigger] started(now),
    {
        let request_timeout: u64 = if timeout_seconds <= u64::MAX / 1000 {
            timeout_seconds * 1000
        } else {
            u64::MAX
        };
        let now = now_millis();
        let m = ConnectionManager::with_limits_at(request_timeout, 60000, 1000, now);
        assert(m.counters() == started(now));
        m
    }

    fn take(&mut self) -> (e: Vec<Connection>)
        ensures
            connection_models(e@) == old(self)@,
            final(self)@ == Seq::<ConnectionModel>::empty(),
            final(self).same_settings(old(self)),
            final(self).counters() == old(self).counters(),
    {
        let mut e: Vec<Connection> = Vec::new();
        assert(connection_models(e@) =~= Seq::<ConnectionModel>::empty());
        core::mem::swap(&mut self.connections, &mut e);
        e
    }

    fn set(&mut self, e: Vec<Connection>)
        requires
            distinct_keys(connection_models(e@)),
            all_wf(connection_models(e@)),
            e@.len() <= old(self).max_connections(),
        ensures
            final(self)@ == connection_models(e@),
            final(self).same_settings(old(self)),
            final(self).counters() == old(self).counters(),
    {
        let mut e = e;
        core::mem::swap(&mut self.connections, &mut e);
    }

    fn take_monitor(&mut self) -> (m: ResourceMonitor)
        ensures
            m@ == old(self).counters(),
            final(self)@ == old(self)@,
            final(self).same_settings(old(self)),
    {
        proof {
            use_type_invariant(&*self);
        }
        let mut m = ResourceMonitor::new_at(0);
        core::mem::swap(&mut self.resource_monitor, &mut m);
        m
    }

    fn set_monitor(&mut self, m: ResourceMonitor)
        ensures
            final(self).counters() == m@,
            final(self)@ == old(self)@,
            final(self).same_settings(old(self)),
    {
        proof {
            use_type_invariant(&*self);
        }
        let mut m = m;
        core::mem::swap(&mut self.resource_monitor, &mut m);
    }

    fn count_error(&mut self)
        ensures
            final(self)@ == old(self)@,
            final(self).same_settings(old(self)),
            final(self).counters() == erred(old(self).counters()),
    {
        let mut m = self.take_monitor();
        m.record_error();
        self.set_monitor(m);
    }

    /// The position of the connection `fd`, or the number of connections.
    pub fn position(&self, fd: i32) -> (i: usize)
        ensures
            i == find_key(self@, fd),
            i <= self@.len(),
    {
        let mut i: usize = 0;
        while i < self.connections.len()
            invariant
                i <= self.connections.len(),
                forall|j: int| 0 <= j < i ==> (#[trigger] self@[j]).key() != fd,
            decreases self.connections.len() - i,
        {
            if self.connections[i].fd == fd {
                proof {
                    lemma_find_key_unique(self@, fd, i as int);
                }
                return i;
            }
            i += 1;
        }
        proof {
            lemma_find_key_unique(self@, fd, i as int);
        }
        i
    }

    /// Add a new connection, accepted at `now`. At the maximum the
    /// connection is refused: the registry stays as it is, the error
    /// counter goes up, and the caller is to close the socket.
    pub fn add_connection_at(&mut self, fd: i32, now: u64) -> (r: Result<(), String>)
        ensures
            final(self).same_settings(old(self)),
            final(self)@.len() <= final(self).max_connections(),
            match r {
                Ok(_) => {
                    &&& old(self)@.len() < old(self).max_connections() || holds_key(old(self)@, fd)
                    &&& final(self)@ == upsert(old(self)@, ConnectionModel::accepted(fd, now))
                    &&& final(self).counters() == peaked(
                        old(self).counters(),
                        final(self)@.len() as usize,
                    )
                },
                Err(m) => {
                    &&& m@ == "Maximum connections reached"@
                    &&& old(self)@.len() >= old(self).max_connections()
                    &&& !holds_key(old(self)@, fd)
                    &&& final(self)@ == old(self)@
                    &&& final(self).counters() == erred(old(self).counters())
                },
            },
    {
        proof {
            use_type_invariant(&*self);
            lemma_upsert(self@, ConnectionModel::accepted(fd, now), fd);
        }
        let i = self.position(fd);
        if i >= self.connections.len() && self.connections.len() >= self.max_connections {
            self.count_error();
            return Err(String::from_str("Maximum connections reached"));
        }
        let ghost before = self@;
        let c = Connection::new_at(fd, now);
        let mut e = self.take();
        if i < e.len() {
            let _ = e.remove(i);
            e.insert(i, c);
        } else {
            e.push(c);
        }
        assert(connection_models(e@) =~= upsert(before, ConnectionModel::accepted(fd, now)));
        let peak = e.len();
        self.set(e);
        let mut m = self.take_monitor();
        m.update_peak_connections(peak);
        self.set_monitor(m);
        Ok(())
    }

    /// Add a new connection, accepted now.
    pub fn add_connection(&mut self, fd: i32) -> (r: Result<(), String>)
        ensures
            final(self).same_settings(old(self)),
            final(self)@.len() <= final(self).max_connections(),
            match r {
                Ok(_) => {
                    &&& old(self)@.len() < old(self).max_connections() || holds_key(old(self)@, fd)
                    &&& exists|now: u64|
                        final(self)@ == upsert(
                            old(self)@,
                            #[trigger] ConnectionModel::accepted(fd, now),
                        )
                    &&& final(self).counters() == peaked(
                        old(self).counters(),
                        final(self)@.len() as usize,
                    )
                },
                Err(m) => {
                    &&& m@ == "Maximum connections reached"@
                    &&& old(self)@.len() >= old(self).max_connections()
                    &&& !holds_key(old(self)@, fd)
                    &&& final(self)@ == old(self)@
                    &&& final(self).counters() == erred(old(self).counters())
                },
            },
    {
        let now = now_millis();
        let r = self.add_connection_at(fd, now);
        if r.is_ok() {
            assert(self@ == upsert(old(self)@, ConnectionModel::accepted(fd, now)));
        }
        r
    }

    /// Get a connection by file descriptor.
    pub fn get_connection(&self, fd: i32) -> (r: Option<&Connection>)
        ensures
            match r {
                Some(c) => record_of(self@, fd) == Some(c@) && c@.wf(),
                None => record_of(self@, fd) is None,
            },
    {
        proof {
            use_type_invariant(self);
        }
        let i = self.position(fd);
        if i < self.connections.len() {
            assert(self@[i as int].wf());
            Some(&self.connections[i])
        } else {
            None
        }
    }

    /// Remove a connection.
    pub fn remove_connection(&mut self, fd: i32) -> (r: Option<Connection>)
        ensures
            final(self)@ == delete(old(self)@, fd),
            final(self).same_settings(old(self)),
            final(self).counters() == old(self).counters(),
            match r {
                Some(c) => record_of(old(self)@, fd) == Some(c@) && c@.wf(),
                None => record_of(old(self)@, fd) is None,
            },
    {
        proof {
            use_type_invariant(&*self);
            lemma_delete(self@, fd, fd);
        }
        let i = self.position(fd);
        let ghost before = self@;
        if i < self.connections.len() {
            let mut e = self.take();
            let c = e.remove(i);
            assert(connection_models(e@) =~= delete(before, fd));
            assert(before[i as int].wf());
            assert(all_wf(connection_models(e@))) by {
                assert forall|k: int| 0 <= k < e@.len() implies (#[trigger] connection_models(
                    e@,
                )[k]).wf() by {
                    let k0 = if k < i { k } else { k + 1 };
                    assert(connection_models(e@)[k] == before[k0]);
                }
            }
            self.set(e);
            Some(c)
        } else {
            None
        }
    }

    /// Puts a connection back in the place of the one with its file
    /// descriptor.
    pub fn restore(&mut self, c: Connection)
        requires
            c@.wf(),
            holds_key(old(self)@, c@.fd),
        ensures
            final(self)@ == upsert(old(self)@, c@),
            final(self).same_settings(old(self)),
            final(self).counters() == old(self).counters(),
    {
        proof {
            use_type_invariant(&*self);
            lemma_upsert(self@, c@, c@.fd);
        }
        let i = self.position(c.fd);
        let ghost before = self@;
        let ghost model = c@;
        let mut e = self.take();
        let _ = e.remove(i);
        e.insert(i, c);
        assert(connection_models(e@) =~= upsert(before, model));
        assert(all_wf(connection_models(e@))) by {
            assert forall|k: int| 0 <= k < e@.len() implies (#[trigger] connection_models(e@)[k]).wf() by {
                if k != i {
                    assert(connection_models(e@)[k] == before[k]);
                }
            }
        }
        self.set(e);
    }

    /// Removes every connection; returns their file descriptors, for the
    /// caller to close.
    pub fn remove_all(&mut self) -> (r: Vec<i32>)
        ensures
            r@ == connection_fds(old(self)@),
            final(self)@ == Seq::<ConnectionModel>::empty(),
            final(self).same_settings(old(self)),
            final(self).counters() == old(self).counters(),
    {
        let r = self.get_all_fds();
        let _ = self.take();
        r
    }

    /// Get all connection file descriptors.
    pub fn get_all_fds(&self) -> (r: Vec<i32>)
        ensures
            r@ == connection_fds(self@),
    {
        let mut r: Vec<i32> = Vec::new();
        let mut i: usize = 0;
        while i < self.connections.len()
            invariant
                i <= self.connections.len(),
                r@ =~= connection_fds(self@.take(i as int)),
            decreases self.connections.len() - i,
        {
            r.push(self.connections[i].fd);
            i += 1;
        }
        assert(self@.take(self.connections.len() as int) =~= self@);
        r
    }

    /// Get connection count.
    pub fn connection_count(&self) -> (n: usize)
        ensures
            n == self@.len(),
            n <= self.max_connections(),
    {
        proof {
            use_type_invariant(self);
        }
        self.connections.len()
    }

    /// Check if a connection exists.
    pub fn has_connection(&self, fd: i32) -> (b: bool)
        ensures
            b == holds_key(self@, fd),
    {
        self.position(fd) < self.connections.len()
    }

    /// Check if at connection limit.
    pub fn is_at_limit(&self) -> (b: bool)
        ensures
            b == (self@.len() >= self.max_connections()),
    {
        self.connections.len() >= self.max_connections
    }

    /// Record an error.
    pub fn record_error(&mut self)
        ensures
            final(self)@ == old(self)@,
            final(self).same_settings(old(self)),
            final(self).counters() == erred(old(self).counters()),
    {
        self.count_error();
    }

    /// Get resource statistics.
    pub fn get_resource_stats(&self) -> (s: ResourceStats)
        ensures
            s == (ResourceStats { uptime: s.uptime, ..self.counters() }),
    {
        self.resource_monitor.get_stats()
    }

    /// The connections that have timed out at `now` by the given timeouts.
    fn overdue_fds(&self, now: u64, rt: u64, kt: u64) -> (r: Vec<i32>)
        ensures
            r@ == connection_fds(overdue(self@, now, rt, kt)),
    {
        let ghost p = |c: ConnectionModel| c.timed_out(now, rt, kt);
        let mut r: Vec<i32> = Vec::new();
        let mut i: usize = 0;
        assert(self@.take(0) =~= Seq::<ConnectionModel>::empty());
        assert(r@ =~= connection_fds(keep(self@.take(0), p)));
        while i < self.connections.len()
            invariant
                i <= self.connections.len(),
                p == |c: ConnectionModel| c.timed_out(now, rt, kt),
                r@ == connection_fds(keep(self@.take(i as int), p)),
            decreases self.connections.len() - i,
        {
            let c = &self.connections[i];
            proof {
                assert(self@.take(i + 1).drop_last() =~= self@.take(i as int));
                assert(self@.take(i + 1).last() == c@);
            }
            let ghost prev = keep(self@.take(i as int), p);
            if Self::overdue_at(c, now, rt, kt) {
                r.push(c.fd);
                assert(r@ =~= connection_fds(prev.push(c@)));
            }
            i += 1;
        }
        assert(self@.take(self.connections.len() as int) =~= self@);
        r
    }

    /// Get the connections that have timed out at `now`.
    pub fn get_timed_out_connections_at(&self, now: u64) -> (r: Vec<i32>)
        ensures
            r@ == connection_fds(
                overdue(self@, now, self.request_timeout(), self.keep_alive_timeout()),
            ),
    {
        self.overdue_fds(now, self.request_timeout, self.keep_alive_timeout)
    }

    fn overdue_at(c: &Connection, now: u64, request_timeout: u64, keep_alive_timeout: u64) -> (b:
        bool)
        ensures
            b == c@.timed_out(now, request_timeout, keep_alive_timeout),
    {
        let limit = match c.state {
            ConnectionState::KeepAlive => keep_alive_timeout,
            _ => request_timeout,
        };
        now.saturating_sub(c.last_activity) > limit
    }

    /// Get the connections that have timed out.
    pub fn get_timed_out_connections(&self) -> (r: Vec<i32>)
        ensures
            exists|now: u64|
                r@ == connection_fds(
                    #[trigger] overdue(
                        self@,
                        now,
                        self.request_timeout(),
                        self.keep_alive_timeout(),
                    ),
                ),
    {
        let now = now_millis();
        let r = self.get_timed_out_connections_at(now);
        assert(r@ == connection_fds(
            overdue(self@, now, self.request_timeout(), self.keep_alive_timeout()),
        ));
        r
    }

    /// Removes the connections that have timed out at `now` by the given
    /// timeouts, and returns their file descriptors.
    fn sweep(&mut self, now: u64, rt: u64, kt: u64) -> (r: Vec<i32>)
        ensures
            final(self)@ == alive(old(self)@, now, rt, kt),
            r@ == connection_fds(overdue(old(self)@, now, rt, kt)),
            final(self).same_settings(old(self)),
            final(self).counters() == old(self).counters(),
    {
        proof {
            use_type_invariant(&*self);
        }
        let r = self.overdue_fds(now, rt, kt);
        let ghost before = self@;
        let ghost p = |c: ConnectionModel| !c.timed_out(now, rt, kt);
        let e = self.take();
        let mut e = e;
        let mut kept: Vec<Connection> = Vec::new();
        assert(before.take(0) =~= Seq::<ConnectionModel>::empty());
        assert(connection_models(kept@) =~= keep(before.take(0), p));
        let ghost total = e@.len();
        let mut i: usize = 0;
        // Connections are moved over from the back, then put in order again.
        let mut back: Vec<Connection> = Vec::new();
        while e.len() > 0
            invariant
                e@.len() + back@.len() == total,
                total == before.len(),
                forall|k: int| 0 <= k < e@.len() ==> (#[trigger] e@[k])@ == before[k],
                forall|k: int|
                    0 <= k < back@.len() ==> (#[trigger] back@[k])@ == before[total - 1 - k],
            decreases e@.len(),
        {
            let c = e.pop().unwrap();
            back.push(c);
        }
        while back.len() > 0
            invariant
                i + back@.len() == total,
                total == before.len(),
                total <= usize::MAX,
                p == |c: ConnectionModel| !c.timed_out(now, rt, kt),
                forall|k: int|
                    0 <= k < back@.len() ==> (#[trigger] back@[k])@ == before[total - 1 - k],
                connection_models(kept@) == keep(before.take(i as int), p),
                kept@.len() <= i,
            decreases back@.len(),
        {
            let c = back.pop().unwrap();
            proof {
                assert(before.take(i + 1).drop_last() =~= before.take(i as int));
                assert(before.take(i + 1).last() == c@);
            }
            let ghost prev = connection_models(kept@);
            if !Self::overdue_at(&c, now, rt, kt) {
                kept.push(c);
                assert(connection_models(kept@) =~= prev.push(before[i as int]));
            }
            i += 1;
        }
        proof {
            assert(before.take(total as int) =~= before);
            lemma_keep_distinct(before, p);
            lemma_keep(before, p);
            assert forall|k: int| 0 <= k < keep(before, p).len() implies (#[trigger] keep(
                before,
                p,
            )[k]).wf() by {
                let c = keep(before, p)[k];
                assert(before.contains(c));
                let j = choose|j: int| 0 <= j < before.len() && before[j] == c;
                assert(before[j].wf());
            }
        }
        self.set(kept);
        r
    }

    /// The timeout sweep at `now`: removes the connections that have timed
    /// out and returns their file descriptors, for the caller to close.
    pub fn cleanup_expired_at(&mut self, now: u64) -> (r: Vec<i32>)
        ensures
            final(self)@ == alive(
                old(self)@,
                now,
                old(self).request_timeout(),
                old(self).keep_alive_timeout(),
            ),
            r@ == connection_fds(
                overdue(
                    old(self)@,
                    now,
                    old(self).request_timeout(),
                    old(self).keep_alive_timeout(),
                ),
            ),
            final(self).same_settings(old(self)),
            final(self).counters() == old(self).counters(),
    {
        let rt = self.request_timeout;
        let kt = self.keep_alive_timeout;
        self.sweep(now, rt, kt)
    }

    /// Removes the connections that have been idle at `now` for longer
    /// than the request timeout, whatever state they are in, and returns
    /// their file descriptors.
    pub fn cleanup_timed_out_at(&mut self, now: u64) -> (r: Vec<i32>)
        ensures
            final(self)@ == alive(
                old(self)@,
                now,
                old(self).request_timeout(),
                old(self).request_timeout(),
            ),
            r@ == connection_fds(
                overdue(old(self)@, now, old(self).request_timeout(), old(self).request_timeout()),
            ),
            final(self).same_settings(old(self)),
            final(self).counters() == old(self).counters(),
    {
        let rt = self.request_timeout;
        self.sweep(now, rt, rt)
    }

    /// Removes the connections that have been idle for longer than the
    /// request timeout.
    pub fn cleanup_timed_out(&mut self) -> (r: Vec<i32>)
        ensures
            exists|now: u64|
                final(self)@ == #[trigger] alive(
                    old(self)@,
                    now,
                    old(self).request_timeout(),
                    old(self).request_timeout(),
                ) && r@ == connection_fds(
                    overdue(
                        old(self)@,
                        now,
                        old(self).request_timeout(),
                        old(self).request_timeout(),
                    ),
                ),
            final(self).same_settings(old(self)),
            final(self).counters() == old(self).counters(),
    {
        let now = now_millis();
        let r = self.cleanup_timed_out_at(now);
        assert(self@ == alive(
            old(self)@,
            now,
            old(self).request_timeout(),
            old(self).request_timeout(),
        ));
        r
    }

    /// The timeout sweep, now.
    pub fn cleanup_expired(&mut self) -> (r: Vec<i32>)
        ensures
            exists|now: u64|
                final(self)@ == #[trigger] alive(
                    old(self)@,
                    now,
                    old(self).request_timeout(),
                    old(self).keep_alive_timeout(),
                ) && r@ == connection_fds(
                    overdue(
                        old(self)@,
                        now,
                        old(self).request_timeout(),
                        old(self).keep_alive_timeout(),
                    ),
                ),
            final(self).same_settings(old(self)),
            final(self).counters() == old(self).counters(),
    {
        let now = now_millis();
        let r = self.cleanup_expired_at(now);
        assert(self@ == alive(
            old(self)@,
            now,
            old(self).request_timeout(),
            old(self).keep_alive_timeout(),
        ));
        r
    }

    /// Takes the `i`-th connection out of the registry, and the others with it.
    fn checkout(&mut self, i: usize) -> (r: (Vec<Connection>, Connection))
        requires
            i < old(self)@.len(),
        ensures
            r.1@ == old(self)@[i as int],
            r.1@.wf(),
            connection_models(r.0@) == old(self)@.remove(i as int),
            final(self)@ == Seq::<ConnectionModel>::empty(),
            final(self).same_settings(old(self)),
            final(self).counters() == old(self).counters(),
            distinct_keys(old(self)@),
            all_wf(old(self)@),
            old(self)@.len() <= old(self).max_connections(),
    {
        proof {
            use_type_invariant(&*self);
        }
        let ghost before = self@;
        let mut e = self.take();
        let c = e.remove(i);
        assert(connection_models(e@) =~= before.remove(i as int));
        assert(before[i as int].wf());
        (e, c)
    }

    /// Puts a connection back in the `i`-th place.
    fn checkin(&mut self, e: Vec<Connection>, i: usize, c: Connection, Ghost(before): Ghost<
        Seq<ConnectionModel>,
    >)
        requires
            i < before.len(),
            distinct_keys(before),
            all_wf(before),
            before.len() <= old(self).max_connections(),
            connection_models(e@) == before.remove(i as int),
            c@.wf(),
            c@.fd == before[i as int].fd,
        ensures
            final(self)@ == before.update(i as int, c@),
            final(self)@ == upsert(before, c@),
            final(self).same_settings(old(self)),
            final(self).counters() == old(self).counters(),
    {
        let mut e = e;
        let ghost model = c@;
        let ghost rest = connection_models(e@);
        assert(rest.len() == e@.len());
        assert(before.remove(i as int).len() == before.len() - 1);
        e.insert(i, c);
        let ghost after = connection_models(e@);
        assert forall|k: int| 0 <= k < after.len() implies #[trigger] after[k] == before.update(
            i as int,
            model,
        )[k] by {
            if k < i {
                assert(after[k] == rest[k]);
            } else if k > i {
                assert(after[k] == rest[k - 1]);
            }
        }
        assert(after =~= before.update(i as int, model));
        proof {
            crate::keyed::lemma_found_at(before, i as int);
            assert forall|a: int, b: int| 0 <= a < b < after.len() implies (#[trigger] after[a]).key()
                != (#[trigger] after[b]).key() by {
                assert(after[a].key() == before[a].key());
                assert(after[b].key() == before[b].key());
            }
            assert forall|k: int| 0 <= k < after.len() implies (#[trigger] after[k]).wf() by {
                if k != i {
                    assert(after[k] == before[k]);
                }
            }
        }
        self.set(e);
    }

    /// Takes in bytes that were read from the socket of `fd` at `now`.
    /// `None` where there is no such connection; else whether the bytes
    /// were taken.
    pub fn receive_at(&mut self, fd: i32, bytes: &[u8], now: u64) -> (r: Option<bool>)
        ensures
            final(self).same_settings(old(self)),
            final(self).counters() == old(self).counters(),
            match record_of(old(self)@, fd) {
                None => r is None && final(self)@ == old(self)@,
                Some(c) => {
                    &&& r == Some(c.input.len() + bytes@.len() <= usize::MAX)
                    &&& final(self)@ == upsert(
                        old(self)@,
                        if r->0 {
                            c.received(bytes@, now)
                        } else {
                            ConnectionModel { state: ConnectionState::Closed, ..c }
                        },
                    )
                },
            },
    {
        let i = self.position(fd);
        if i >= self.connections.len() {
            return None;
        }
        let ghost before = self@;
        proof {
            lemma_find_key(before, fd);
        }
        let (e, mut c) = self.checkout(i);
        let ok = c.receive_at(bytes, now);
        self.checkin(e, i, c, Ghost(before));
        Some(ok)
    }

    /// Runs the parser of `fd` on what is buffered. `None` where there is
    /// no such connection or it is not reading.
    pub fn next_request(&mut self, fd: i32) -> (r: Option<ParseStep>)
        ensures
            final(self).same_settings(old(self)),
            final(self).counters() == old(self).counters(),
            match record_of(old(self)@, fd) {
                None => r is None && final(self)@ == old(self)@,
                Some(c) => if !(c.state is Reading) {
                    r is None && final(self)@ == old(self)@
                } else {
                    &&& final(self)@ == upsert(old(self)@, c.after_parse())
                    &&& r is Some
                    &&& match r->0 {
                        ParseStep::NeedMore => parsed(c.parser, c.input).verdict is NeedMore,
                        ParseStep::Request(q) => {
                            &&& parsed(c.parser, c.input).verdict is Complete
                            &&& q@ == parsed(c.parser, c.input).parser.request
                        },
                        ParseStep::Invalid => parsed(c.parser, c.input).verdict is Failed,
                    }
                },
            },
    {
        let i = self.position(fd);
        if i >= self.connections.len() {
            return None;
        }
        match self.connections[i].state {
            ConnectionState::Reading => {},
            _ => {
                return None;
            },
        }
        let ghost before = self@;
        proof {
            lemma_find_key(before, fd);
        }
        let (e, mut c) = self.checkout(i);
        let step = c.next_request();
        self.checkin(e, i, c, Ghost(before));
        Some(step)
    }

    /// Queues a response on `fd` at `now`. `None` where there is no such
    /// connection; else whether the response was queued.
    pub fn send_response_at(&mut self, fd: i32, response: HttpResponse, keep_alive: bool, now: u64) -> (r:
        Option<bool>)
        ensures
            final(self).same_settings(old(self)),
            final(self).counters() == old(self).counters(),
            match record_of(old(self)@, fd) {
                None => r is None && final(self)@ == old(self)@,
                Some(c) => {
                    let wire = response@.with_header(
                        "Connection"@,
                        if keep_alive {
                            "keep-alive"@
                        } else {
                            "close"@
                        },
                    ).encoded();
                    &&& r == Some(c.output.len() + wire.len() <= usize::MAX)
                    &&& final(self)@ == upsert(
                        old(self)@,
                        if r->0 {
                            c.responding(wire, keep_alive, now)
                        } else {
                            ConnectionModel { state: ConnectionState::Closed, ..c }
                        },
                    )
                },
            },
    {
        let i = self.position(fd);
        if i >= self.connections.len() {
            return None;
        }
        let ghost before = self@;
        proof {
            lemma_find_key(before, fd);
        }
        let (e, mut c) = self.checkout(i);
        let ok = c.send_response_at(response, keep_alive, now);
        self.checkin(e, i, c, Ghost(before));
        Some(ok)
    }

    /// Takes note at `now` that `n` bytes of the output of `fd` were sent.
    /// `None` where there is no such connection or it is not writing.
    pub fn wrote_at(&mut self, fd: i32, n: usize, now: u64) -> (r: Option<WriteStep>)
        ensures
            final(self).same_settings(old(self)),
            final(self).counters() == old(self).counters(),
            match record_of(old(self)@, fd) {
                None => r is None && final(self)@ == old(self)@,
                Some(c) => if c.state is Writing {
                    &&& final(self)@ == upsert(old(self)@, c.after_write(n, now))
                    &&& r == Some(write_step(c.after_write(n, now)))
                } else {
                    r is None && final(self)@ == old(self)@
                },
            },
    {
        let i = self.position(fd);
        if i >= self.connections.len() {
            return None;
        }
        match self.connections[i].state {
            ConnectionState::Writing => {},
            _ => {
                return None;
            },
        }
        let ghost before = self@;
        proof {
            lemma_find_key(before, fd);
        }
        let (e, mut c) = self.checkout(i);
        let step = c.wrote_at(n, now);
        self.checkin(e, i, c, Ghost(before));
        Some(step)
    }

    /// Update connection activity: the connection was active at `now`.
    pub fn update_activity_at(&mut self, fd: i32, now: u64)
        ensures
            final(self).same_settings(old(self)),
            final(self).counters() == old(self).counters(),
            final(self)@ == match record_of(old(self)@, fd) {
                None => old(self)@,
                Some(c) => upsert(old(self)@, ConnectionModel { last_activity: now, ..c }),
            },
    {
        let i = self.position(fd);
        if i >= self.connections.len() {
            return ;
        }
        let ghost before = self@;
        proof {
            lemma_find_key(before, fd);
        }
        let (e, mut c) = self.checkout(i);
        c.touch_at(now);
        self.checkin(e, i, c, Ghost(before));
    }

    /// Update connection activity, now.
    pub fn update_activity(&mut self, fd: i32)
        ensures
            final(self).same_settings(old(self)),
            final(self).counters() == old(self).counters(),
            match record_of(old(self)@, fd) {
                None => final(self)@ == old(self)@,
                Some(c) => exists|now: u64|
                    final(self)@ == upsert(old(self)@, #[trigger] c.active_at(now)),
            },
    {
        let now = now_millis();
        self.update_activity_at(fd, now);
        proof {
            if let Some(c) = record_of(old(self)@, fd) {
                assert(self@ == upsert(old(self)@, c.active_at(now)));
            }
        }
    }

    /// Record a completed request at `now`: the counters of the registry
    /// and of the connection go up.
    pub fn record_request_at(&mut self, fd: i32, bytes_transferred: usize, now: u64)
        ensures
            final(self).same_settings(old(self)),
            final(self).counters() == served(old(self).counters(), bytes_transferred),
            final(self)@ == requested(old(self)@, fd, now),
    {
        let mut m = self.take_monitor();
        m.record_request(bytes_transferred);
        self.set_monitor(m);
        let i = self.position(fd);
        if i >= self.connections.len() {
            return ;
        }
        let ghost before = self@;
        proof {
            lemma_find_key(before, fd);
        }
        let (e, mut c) = self.checkout(i);
        c.request_count = c.request_count.saturating_add(1);
        c.last_activity = now;
        self.checkin(e, i, c, Ghost(before));
    }

    /// Record a completed request, now.
    pub fn record_request(&mut self, fd: i32, bytes_transferred: usize)
        ensures
            final(self).same_settings(old(self)),
            final(self).counters() == served(old(self).counters(), bytes_transferred),
            exists|now: u64| final(self)@ == #[trigger] requested(old(self)@, fd, now),
    {
        let now = now_millis();
        self.record_request_at(fd, bytes_transferred, now);
        assert(self@ == requested(old(self)@, fd, now));
    }

    /// Get timeout statistics at `now`.
    pub fn get_timeout_stats_at(&self, now: u64) -> (s: TimeoutStats)
        ensures
            s == TimeoutStats::of(connection_infos(self@), now, self.max_connections()),
    {
        let mut stats = TimeoutStats::empty(self.max_connections);
        let mut i: usize = 0;
        let ghost infos = connection_infos(self@);
        assert(infos.take(0) =~= Seq::<ConnectionInfo>::empty());
        while i < self.connections.len()
            invariant
                i <= self.connections.len(),
                infos == connection_infos(self@),
                stats == TimeoutStats::of(infos.take(i as int), now, self.max_connections),
            decreases self.connections.len() - i,
        {
            proof {
                assert(infos.take(i + 1).drop_last() =~= infos.take(i as int));
            }
            let info = self.connections[i].info();
            stats.add(&info, now);
            i += 1;
        }
        assert(infos.take(self.connections.len() as int) =~= infos);
        stats
    }

    /// Get timeout statistics.
    pub fn get_timeout_stats(&self) -> (s: TimeoutStats)
        ensures
            exists|now: u64|
                s == #[trigger] TimeoutStats::of(
                    connection_infos(self@),
                    now,
                    self.max_connections(),
                ),
    {
        let now = now_millis();
        let s = self.get_timeout_stats_at(now);
        assert(s == TimeoutStats::of(connection_infos(self@), now, self.max_connections()));
        s
    }
}

/// The connections after the connection `fd` completed a request at `now`.
pub open spec fn requested(s: Seq<ConnectionModel>, fd: i32, now: u64) -> Seq<ConnectionModel> {
    match record_of(s, fd) {
        None => s,
        Some(c) => upsert(
            s,
            ConnectionModel {
                last_activity: now,
                request_count: c.request_count.saturating_add(1),
                ..c
            },
        ),
    }
}

/// The counters of a registry that was started at `now`.
pub open spec fn started(now: u64) -> ResourceStats {
    ResourceStats {
        uptime: 0,
        peak_connections: 0,
        total_requests_served: 0,
        total_bytes_transferred: 0,
        error_count: 0,
        start_time: now,
    }
}

/// The counters after an error was counted.
pub open spec fn erred(counters: ResourceStats) -> ResourceStats {
    ResourceStats { error_count: counters.error_count.saturating_add(1), ..counters }
}

/// The counters once `open` connections are open at a time: the peak is
/// that number where it was lower.
pub open spec fn peaked(counters: ResourceStats, open: usize) -> ResourceStats {
    ResourceStats {
        peak_connections: if open > counters.peak_connections {
            open
        } else {
            counters.peak_connections
        },
        ..counters
    }
}

/// The counters after a request that took `bytes` bytes was served.
pub open spec fn served(counters: ResourceStats, bytes: usize) -> ResourceStats {
    ResourceStats {
        total_requests_served: counters.total_requests_served.saturating_add(1),
        total_bytes_transferred: counters.total_bytes_transferred.saturating_add(bytes),
        ..counters
    }
}

/// The given connections as the timeout statistics see them.
pub open spec fn connection_infos(s: Seq<ConnectionModel>) -> Seq<ConnectionInfo> {
    Seq::new(s.len(), |i: int| s[i].info())
}

} // verus!
