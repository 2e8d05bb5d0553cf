//! The decisions of the event loop.
//!
//! The loop itself waits for readiness, accepts, reads and writes. What it
//! is to do with what it gets is decided here: which kind of event a
//! readiness report is, whether an accepted connection is admitted, what
//! follows from bytes that were read or written, and which connections a
//! timeout sweep tears down.
use vstd::prelude::*;
use vstd::string::*;
use crate::config::types::{Config, ConfigModel};
use crate::config::validate::{endpoint_models, endpoints_of};
use crate::error::{HttpStatus, ServerError, ServerResult};
use crate::error::pages::{error_page_content, error_response};
use crate::text::opt_str;
use crate::http::methods::MethodHandler;
use crate::http::request::{parsed, HttpRequest};
use crate::http::response::{HttpResponse, ResponseModel};
use crate::keyed::{
    delete, holds_key, lemma_delete_upsert, lemma_record_key, lemma_upsert, lemma_upsert_upsert,
    record_of, upsert,
};
use crate::server::connection::{
    alive, connection_fds, connection_infos, erred, overdue, peaked, requested, served, started,
    ConnectionManager, ConnectionModel, ConnectionState, ParseStep, WriteStep,
};
use crate::utils::date::http_date;
use crate::utils::timeout::{ResourceStats, TimeoutStats};

verus! {

/// What a readiness report says of a file descriptor.
#[derive(Debug, Clone, Copy, PartialEq, Eq, Structural)]
pub struct Readiness {
    pub readable: bool,
    pub writable: bool,
    pub error: bool,
    pub hangup: bool,
}

/// What a file descriptor is watched for.
#[derive(Debug, Clone, Copy, PartialEq, Eq, Structural)]
pub enum Interest {
    Readable,
    Writable,
}

/// What is to be done about a readiness report.
#[derive(Debug, Clone, Copy, PartialEq, Eq, Structural)]
pub enum EventStep {
    /// Tear the connection down.
    Teardown,
    /// Accept the connections that are pending on this listener.
    Accept,
    /// Read from the connection, write to it, or both; reading comes first.
    Transfer { read: bool, write: bool },
    /// Nothing.
    Ignore,
}

/// What follows from an error or a hangup is decided before anything else:
/// the connection is torn down. A readable listener has connections to
/// accept. Any other descriptor is read from and written to as reported.
pub open spec fn event_step(listener: bool, r: Readiness) -> EventStep {
    if r.error || r.hangup {
        EventStep::Teardown
    } else if listener {
        if r.readable {
            EventStep::Accept
        } else {
            EventStep::Ignore
        }
    } else if r.readable || r.writable {
        EventStep::Transfer { read: r.readable, write: r.writable }
    } else {
        EventStep::Ignore
    }
}

/// What follows from bytes that were read.
#[derive(Debug)]
pub enum ReadStep {
    /// There is no such connection.
    Unknown,
    /// The request is not complete: go on watching for readability.
    Wait,
    /// A request is complete: have it handled, then respond.
    Handle(HttpRequest),
    /// The bytes are no HTTP request: answer `400` and close.
    Reject,
    /// The connection cannot go on and was removed: close the socket.
    Gone,
}

/// A listening socket.
pub struct Listener {
    pub fd: i32,
    pub host: String,
    pub port: u16,
}

/// The file descriptors of the given listeners.
pub open spec fn listener_fds(v: Seq<Listener>) -> Seq<i32> {
    Seq::new(v.len(), |i: int| v[i].fd)
}

/// The response to bytes that are no HTTP request: the custom error page
/// where one is configured and its contents are given, else the default
/// page.
pub open spec fn bad_request(
    pages: Map<u16, Seq<char>>,
    custom_page: Option<Seq<char>>,
    date: Seq<char>,
) -> ResponseModel {
    error_response(
        HttpStatus::BadRequest,
        error_page_content(
            pages,
            HttpStatus::BadRequest,
            Some("Invalid HTTP request"@),
            custom_page,
        ),
        date,
    )
}

/// The bytes of a response as they are queued on a connection that stays
/// open or does not.
pub open spec fn wire(response: ResponseModel, keep_alive: bool) -> Seq<u8> {
    response.with_header(
        "Connection"@,
        if keep_alive {
            "keep-alive"@
        } else {
            "close"@
        },
    ).encoded()
}

/// Main HTTP server structure: configuration, listeners, and the registry
/// of connections.
pub struct Server {
    config: Config,
    listeners: Vec<Listener>,
    connection_manager: ConnectionManager,
    method_handler: MethodHandler,
    running: bool,
}

impl Server {
    /// The connections that are open.
    pub closed spec fn connections(&self) -> Seq<ConnectionModel> {
        self.connection_manager@
    }

    /// The file descriptors of the listening sockets.
    pub closed spec fn listeners(&self) -> Seq<i32> {
        listener_fds(self.listeners@)
    }

    pub closed spec fn running(&self) -> bool {
        self.running
    }

    pub closed spec fn configuration(&self) -> ConfigModel {
        self.config@
    }

    /// The registry of connections.
    pub closed spec fn registry(&self) -> ConnectionManager {
        self.connection_manager
    }

    /// Whether `other` differs from this server in its connections at most.
    pub open spec fn same_setup(&self, other: &Server) -> bool {
        &&& self.listeners() == other.listeners()
        &&& self.running() == other.running()
        &&& self.configuration() == other.configuration()
        &&& self.registry().same_settings(&other.registry())
        &&& self.dispatcher() == other.dispatcher()
    }

    /// Create a new server with the given configuration: no listeners, no
    /// connections, a request timeout of 30 seconds.
    pub fn new(config: Config) -> (s: Server)
        ensures
            s.connections() == Seq::<ConnectionModel>::empty(),
            s.listeners() == Seq::<i32>::empty(),
            !s.running(),
            s.configuration() == config@,
            s.registry().request_timeout() == 30000,
            s.registry().keep_alive_timeout() == 60000,
            s.registry().max_connections() == 1000,
            exists|now: u64| s.registry().counters() == #[trigger] started(now),
            s.dispatcher().servers() == config@.servers,
    {
        let connection_manager = ConnectionManager::new(30);
        let ghost now = choose|now: u64| connection_manager.counters() == #[trigger] started(now);
        let s = Server {
            method_handler: MethodHandler::new(config.clone()),
            config,
            listeners: Vec::new(),
            connection_manager,
            running: false,
        };
        assert(s.listeners() =~= Seq::<i32>::empty());
        assert(s.registry().counters() == started(now));
        s
    }

    /// The addresses to listen on: each port of each binding, in order.
    pub fn endpoints(&self) -> (r: Vec<(String, u16)>)
        ensures
            endpoint_models(r@) == endpoints_of(self.configuration()),
    {
        self.config.endpoints()
    }

    /// Takes note of a listening socket.
    pub fn add_listener(&mut self, fd: i32, host: String, port: u16)
        ensures
            final(self).listeners() == old(self).listeners().push(fd),
            final(self).connections() == old(self).connections(),
            final(self).registry() == old(self).registry(),
            final(self).running() == old(self).running(),
            final(self).configuration() == old(self).configuration(),
            final(self).registry().same_settings(&old(self).registry()),
    {
        self.listeners.push(Listener { fd, host, port });
        assert(self.listeners() =~= old(self).listeners().push(fd));
    }

    /// Whether `fd` is a listening socket.
    pub fn is_listener(&self, fd: i32) -> (b: bool)
        ensures
            b == self.listeners().contains(fd),
    {
        let mut i: usize = 0;
        while i < self.listeners.len()
            invariant
                i <= self.listeners.len(),
                forall|j: int| 0 <= j < i ==> self.listeners()[j] != fd,
            decreases self.listeners.len() - i,
        {
            if self.listeners[i].fd == fd {
                assert(self.listeners()[i as int] == fd);
                return true;
            }
            i += 1;
        }
        false
    }

    /// Starts the server once its sockets listen. A server without a
    /// listening socket cannot run.
    pub fn start(&mut self) -> (r: ServerResult<()>)
        ensures
            final(self).listeners() == old(self).listeners(),
            final(self).connections() == old(self).connections(),
            final(self).registry() == old(self).registry(),
            final(self).configuration() == old(self).configuration(),
            final(self).dispatcher() == old(self).dispatcher(),
            match r {
                Ok(_) => old(self).listeners().len() > 0 && final(self).running(),
                Err(e) => {
                    &&& old(self).listeners().len() == 0
                    &&& e is Config
                    &&& e.detail() == "No server sockets configured"@
                    &&& final(self).running() == old(self).running()
                },
            },
    {
        if self.listeners.len() == 0 {
            return Err(ServerError::Config(String::from_str("No server sockets configured")));
        }
        self.running = true;
        Ok(())
    }

    /// What is to be done about a readiness report for `fd`.
    pub fn handle_event(&self, fd: i32, readiness: Readiness) -> (r: EventStep)
        ensures
            r == event_step(self.listeners().contains(fd), readiness),
    {
        if readiness.error || readiness.hangup {
            return EventStep::Teardown;
        }
        if self.is_listener(fd) {
            if readiness.readable {
                EventStep::Accept
            } else {
                EventStep::Ignore
            }
        } else if readiness.readable || readiness.writable {
            EventStep::Transfer { read: readiness.readable, write: readiness.writable }
        } else {
            EventStep::Ignore
        }
    }

    /// Admits a connection that was accepted at `now`, where there is room.
    /// Where there is none, the error counter goes up and the caller is to
    /// close the socket.
    pub fn accept_at(&mut self, fd: i32, now: u64) -> (admitted: bool)
        ensures
            final(self).same_setup(old(self)),
            final(self).connections().len() <= final(self).registry().max_connections(),
            if admitted {
                &&& final(self).connections() == upsert(
                    old(self).connections(),
                    ConnectionModel::accepted(fd, now),
                )
                &&& final(self).registry().counters() == peaked(
                    old(self).registry().counters(),
                    final(self).connections().len() as usize,
                )
            } else {
                &&& old(self).connections().len() >= old(self).registry().max_connections()
                &&& !holds_key(old(self).connections(), fd)
                &&& final(self).connections() == old(self).connections()
                &&& final(self).registry().counters() == erred(old(self).registry().counters())
            },
    {
        self.connection_manager.add_connection_at(fd, now).is_ok()
    }

    /// Removes a connection. Returns whether there was one; its socket is
    /// then to be closed.
    pub fn teardown(&mut self, fd: i32) -> (had: bool)
        ensures
            final(self).same_setup(old(self)),
            final(self).registry().counters() == old(self).registry().counters(),
            had == holds_key(old(self).connections(), fd),
            final(self).connections() == delete(old(self).connections(), fd),
    {
        self.connection_manager.remove_connection(fd).is_some()
    }

    /// Takes in bytes that were read from `fd` at `now`, and runs the
    /// parser on what is buffered. Bytes that are no HTTP request count as
    /// an error; nothing else changes the counters.
    pub fn handle_read_at(&mut self, fd: i32, bytes: &[u8], now: u64) -> (r: ReadStep)
        ensures
            final(self).same_setup(old(self)),
            final(self).registry().counters() == if r is Reject {
                erred(old(self).registry().counters())
            } else {
                old(self).registry().counters()
            },
            match record_of(old(self).connections(), fd) {
                None => r is Unknown && final(self).connections() == old(self).connections(),
                Some(c) => read_outcome(
                    old(self).connections(),
                    c,
                    bytes@,
                    now,
                    final(self).connections(),
                    r,
                ),
            },
    {
        let ghost before = self.connection_manager@;
        self.connection_manager.bounds();
        proof {
            lemma_record_key(before, fd);
        }
        match self.connection_manager.receive_at(fd, bytes, now) {
            None => {
                return ReadStep::Unknown;
            },
            Some(false) => {
                proof {
                    let c = record_of(before, fd)->0;
                    lemma_delete_upsert(
                        before,
                        ConnectionModel { state: ConnectionState::Closed, ..c },
                    );
                }
                let _ = self.connection_manager.remove_connection(fd);
                return ReadStep::Gone;
            },
            Some(true) => {},
        }
        proof {
            let c = record_of(before, fd)->0;
            lemma_upsert(before, c.received(bytes@, now), fd);
        }
        self.continue_read(fd)
    }

    /// Runs the parser on what is buffered for `fd`, where that connection
    /// is reading; bytes that are no HTTP request count as an error. A
    /// connection that is not reading waits.
    pub fn continue_read(&mut self, fd: i32) -> (r: ReadStep)
        ensures
            final(self).same_setup(old(self)),
            final(self).registry().counters() == if r is Reject {
                erred(old(self).registry().counters())
            } else {
                old(self).registry().counters()
            },
            match record_of(old(self).connections(), fd) {
                None => r is Unknown && final(self).connections() == old(self).connections(),
                Some(c) => if !(c.state is Reading) {
                    r is Wait && final(self).connections() == old(self).connections()
                } else {
                    parse_outcome(old(self).connections(), c, final(self).connections(), r)
                },
            },
    {
        let ghost before = self.connection_manager@;
        self.connection_manager.bounds();
        proof {
            lemma_record_key(before, fd);
        }
        if !self.connection_manager.has_connection(fd) {
            return ReadStep::Unknown;
        }
        match self.connection_manager.next_request(fd) {
            None => ReadStep::Wait,
            Some(ParseStep::NeedMore) => ReadStep::Wait,
            Some(ParseStep::Request(q)) => ReadStep::Handle(q),
            Some(ParseStep::Invalid) => {
                self.connection_manager.record_error();
                ReadStep::Reject
            },
        }
    }

    /// Answers bytes that are no HTTP request, at `now`: a `400` response
    /// is queued, with the custom error page where one is configured and
    /// its contents are given, on a connection that closes once it is sent. Returns what the
    /// socket is to be watched for, as `send_response_at` does.
    pub fn reject_at(&mut self, fd: i32, custom_page: Option<&str>, now: u64) -> (r: Option<
        Interest,
    >)
        ensures
            final(self).same_setup(old(self)),
            final(self).registry().counters() == old(self).registry().counters(),
            match record_of(old(self).connections(), fd) {
                None => r is None && final(self).connections() == old(self).connections(),
                Some(c) => {
                    let reply = wire(
                        bad_request(
                            old(self).dispatcher().error_pages(),
                            opt_str(custom_page),
                            http_date((now / 1000) as nat),
                        ),
                        false,
                    );
                    if c.output.len() + reply.len() <= usize::MAX {
                        &&& r == Some(Interest::Writable)
                        &&& final(self).connections() == upsert(
                            old(self).connections(),
                            c.responding(reply, false, now),
                        )
                    } else {
                        &&& r is None
                        &&& final(self).connections() == delete(old(self).connections(), fd)
                    }
                },
            },
    {
        let response = self.method_handler.fail_response_at(
            HttpStatus::BadRequest,
            "Invalid HTTP request",
            custom_page,
            now / 1000,
        );
        self.send_response_at(fd, response, false, now)
    }

    /// Queues the response to a request on `fd` at `now`. Returns what the
    /// socket is to be watched for; `None` where the connection is gone or
    /// could not take the response and was removed.
    pub fn send_response_at(&mut self, fd: i32, response: HttpResponse, keep_alive: bool, now: u64) -> (r:
        Option<Interest>)
        ensures
            final(self).same_setup(old(self)),
            final(self).registry().counters() == old(self).registry().counters(),
            match record_of(old(self).connections(), fd) {
                None => r is None && final(self).connections() == old(self).connections(),
                Some(c) => if c.output.len() + wire(response@, keep_alive).len() <= usize::MAX {
                    &&& r == Some(Interest::Writable)
                    &&& final(self).connections() == upsert(
                        old(self).connections(),
                        c.responding(wire(response@, keep_alive), keep_alive, now),
                    )
                } else {
                    &&& r is None
                    &&& final(self).connections() == delete(old(self).connections(), fd)
                },
            },
    {
        let ghost before = self.connection_manager@;
        self.connection_manager.bounds();
        proof {
            lemma_record_key(before, fd);
        }
        match self.connection_manager.send_response_at(fd, response, keep_alive, now) {
            None => None,
            Some(true) => {
                Some(Interest::Writable)
            },
            Some(false) => {
                let ghost c = record_of(before, fd)->0;
                proof {
                    lemma_delete_upsert(
                        before,
                        ConnectionModel { state: ConnectionState::Closed, ..c },
                    );
                }
                let _ = self.connection_manager.remove_connection(fd);
                None
            },
        }
    }

    /// The bytes to write to `fd` next.
    pub fn pending_output(&self, fd: i32) -> (r: Option<&[u8]>)
        ensures
            match r {
                Some(b) => record_of(self.connections(), fd) is Some && b@ == record_of(
                    self.connections(),
                    fd,
                )->0.output,
                None => record_of(self.connections(), fd) is None,
            },
    {
        match self.connection_manager.get_connection(fd) {
            Some(c) => Some(c.pending_output()),
            None => None,
        }
    }

    /// Takes note at `now` that `n` bytes were written to `fd`, and says
    /// what is to be done next. A connection that is not to stay open is
    /// removed once its response is sent. `None` where there is no such
    /// connection or it is not writing.
    pub fn handle_write_at(&mut self, fd: i32, n: usize, now: u64) -> (r: Option<WriteStep>)
        ensures
            final(self).same_setup(old(self)),
            final(self).registry().counters() == old(self).registry().counters(),
            match record_of(old(self).connections(), fd) {
                None => r is None && final(self).connections() == old(self).connections(),
                Some(c) => if c.state is Writing {
                    &&& r == Some(crate::server::connection::write_step(c.after_write(n, now)))
                    &&& final(self).connections() == if c.after_write(n, now).state is Closed {
                        delete(old(self).connections(), fd)
                    } else {
                        upsert(old(self).connections(), c.after_write(n, now))
                    }
                } else {
                    r is None && final(self).connections() == old(self).connections()
                },
            },
    {
        let ghost before = self.connection_manager@;
        self.connection_manager.bounds();
        proof {
            lemma_record_key(before, fd);
        }
        let step = self.connection_manager.wrote_at(fd, n, now);
        if let Some(WriteStep::Close) = step {
            let ghost c = record_of(before, fd)->0;
            proof {
                lemma_delete_upsert(before, c.after_write(n, now));
            }
            let _ = self.connection_manager.remove_connection(fd);
        }
        step
    }

    /// The timeout sweep at `now`: removes the connections that have been
    /// idle for too long and returns their file descriptors, for the
    /// caller to close.
    pub fn cleanup_timed_out_connections_at(&mut self, now: u64) -> (r: Vec<i32>)
        ensures
            final(self).same_setup(old(self)),
            final(self).registry().counters() == old(self).registry().counters(),
            final(self).connections() == alive(
                old(self).connections(),
                now,
                old(self).registry().request_timeout(),
                old(self).registry().keep_alive_timeout(),
            ),
            r@ == connection_fds(
                overdue(
                    old(self).connections(),
                    now,
                    old(self).registry().request_timeout(),
                    old(self).registry().keep_alive_timeout(),
                ),
            ),
    {
        self.connection_manager.cleanup_expired_at(now)
    }

    /// Stops the server: every connection is removed. Returns the file
    /// descriptors to close, those of the connections first, then those of
    /// the listeners.
    pub fn shutdown(&mut self) -> (r: Vec<i32>)
        ensures
            r@ == connection_fds(old(self).connections()) + old(self).listeners(),
            final(self).registry().counters() == old(self).registry().counters(),
            !final(self).running(),
            final(self).listeners() == Seq::<i32>::empty(),
            final(self).connections() == Seq::<ConnectionModel>::empty(),
    {
        let mut fds = self.connection_manager.remove_all();
        let ghost clients = fds@;
        let mut i: usize = 0;
        while i < self.listeners.len()
            invariant
                i <= self.listeners.len(),
                fds@ =~= clients + self.listeners().take(i as int),
            decreases self.listeners.len() - i,
        {
            fds.push(self.listeners[i].fd);
            i += 1;
        }
        assert(self.listeners().take(self.listeners.len() as int) =~= self.listeners());
        self.listeners = Vec::new();
        assert(self.listeners() =~= Seq::<i32>::empty());
        self.running = false;
        fds
    }

    /// Get server statistics: those of the connections at this moment, and
    /// the counters.
    pub fn get_stats(&self) -> (r: (TimeoutStats, ResourceStats))
        ensures
            r.1 == (ResourceStats { uptime: r.1.uptime, ..self.registry().counters() }),
            exists|now: u64|
                r.0 == #[trigger] TimeoutStats::of(
                    connection_infos(self.connections()),
                    now,
                    self.registry().max_connections(),
                ),
    {
        let timeouts = self.connection_manager.get_timeout_stats();
        proof {
            let now = choose|now: u64|
                timeouts == #[trigger] TimeoutStats::of(
                    connection_infos(self.connection_manager@),
                    now,
                    self.connection_manager.max_connections(),
                );
            assert(timeouts == TimeoutStats::of(
                connection_infos(self.connections()),
                now,
                self.registry().max_connections(),
            ));
        }
        (timeouts, self.connection_manager.get_resource_stats())
    }

    /// The registry holds no more connections than its maximum, no two
    /// with the same file descriptor, and each of them well formed: one
    /// that waits between requests has a parser that awaits a request
    /// line. Calling this makes that known to the caller's proof; it does
    /// nothing at run time.
    pub fn bounds(&self)
        ensures
            self.connections().len() <= self.registry().max_connections(),
            crate::keyed::distinct_keys(self.connections()),
            crate::server::connection::all_wf(self.connections()),
    {
        self.connection_manager.bounds();
    }

    /// The dispatcher of requests.
    pub closed spec fn dispatcher(&self) -> MethodHandler {
        self.method_handler
    }

    /// The dispatcher of requests.
    pub fn method_handler(&self) -> (r: &MethodHandler)
        ensures
            *r == self.dispatcher(),
    {
        &self.method_handler
    }

    /// The registry of connections.
    pub fn connection_manager(&self) -> (r: &ConnectionManager)
        ensures
            *r == self.registry(),
    {
        &self.connection_manager
    }

    /// Record a completed request.
    pub fn record_request(&mut self, fd: i32, bytes_transferred: usize)
        ensures
            final(self).same_setup(old(self)),
            final(self).registry().counters() == served(
                old(self).registry().counters(),
                bytes_transferred,
            ),
            exists|now: u64|
                final(self).connections() == #[trigger] requested(old(self).connections(), fd, now),
    {
        let ghost before = self.connection_manager@;
        self.connection_manager.record_request(fd, bytes_transferred);
        proof {
            let now = choose|now: u64|
                self.connection_manager@ == #[trigger] requested(before, fd, now);
            assert(self.connections() == requested(old(self).connections(), fd, now));
        }
    }
}

/// What running the parser on the connection `c` leads to: with a request
/// under way, the connection waits for more; with a request complete, it
/// is handed out for handling; bytes that are no request are to be
/// answered `400`.
pub open spec fn parse_outcome(
    before: Seq<ConnectionModel>,
    c: ConnectionModel,
    after: Seq<ConnectionModel>,
    r: ReadStep,
) -> bool {
    let o = parsed(c.parser, c.input);
    match o.verdict {
        crate::http::request::Verdict::NeedMore => r is Wait && after == upsert(
            before,
            c.after_parse(),
        ),
        crate::http::request::Verdict::Complete => {
            &&& r matches ReadStep::Handle(q)
            &&& q@ == o.parser.request
            &&& after == upsert(before, c.after_parse())
        },
        crate::http::request::Verdict::Failed(_) => r is Reject && after == upsert(
            before,
            c.after_parse(),
        ),
    }
}

/// What bytes that were read on the connection `c` lead to: they are
/// buffered, and the parser is run where the connection is reading. Bytes
/// too many to buffer end the connection.
pub open spec fn read_outcome(
    before: Seq<ConnectionModel>,
    c: ConnectionModel,
    bytes: Seq<u8>,
    now: u64,
    after: Seq<ConnectionModel>,
    r: ReadStep,
) -> bool {
    if c.input.len() + bytes.len() > usize::MAX {
        r is Gone && after == delete(before, c.fd)
    } else if c.received(bytes, now).state is Reading {
        parse_outcome(upsert(before, c.received(bytes, now)), c.received(bytes, now), after, r)
    } else {
        r is Wait && after == upsert(before, c.received(bytes, now))
    }
}

} // verus!
