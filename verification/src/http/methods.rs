//! Request dispatch: from a parsed request to what is to be done about it.
//!
//! The dispatcher finds the route of a request, applies the limits of the
//! binding and the route, and selects the handler. Where the handler has
//! to look at the file system or run a script, the dispatcher says what is
//! to be looked at or run; the caller does that and comes back with what
//! it found.
use vstd::prelude::*;
use vstd::string::*;
use vstd::utf8::encode_utf8;
use crate::cgi::executor::CgiExecutor;
use crate::config::types::{Config, RouteConfig, RouteModel, ServerModel};
use crate::error::{HttpStatus, ServerError, ServerResult};
use crate::error::pages::{error_page_content, error_response, ErrorPageManager};
use crate::http::headers::header_value;
use crate::http::request::{HttpMethod, HttpRequest, RequestModel};
use crate::http::response::{page, redirection, HttpResponse, ResponseModel};
use crate::number::{dec, u64_to_string};
use crate::routing::router::{best_route, server_for, Router};
use crate::routing::static_files::{resolved, within_root, StaticFileServer};
use crate::text::{opt_str, str_eq};
use crate::utils::clock::now_secs;
use crate::utils::date::http_date;

verus! {

/// A place in the file system: a route's root, and a path below it.
#[derive(Debug)]
pub struct FileTarget {
    pub root: String,
    pub path: String,
}

/// What a file target holds.
pub struct TargetModel {
    pub root: Seq<char>,
    pub path: Seq<char>,
}

impl View for FileTarget {
    type V = TargetModel;

    open spec fn view(&self) -> TargetModel {
        TargetModel { root: self.root@, path: self.path@ }
    }
}

/// What is to be done about a request.
#[derive(Debug)]
pub enum Dispatch {
    /// Send this response.
    Respond(HttpResponse),
    /// Send the error page of this status, with this message.
    Fail(HttpStatus, String),
    /// The handler failed, for the reason given. The answer is the error
    /// page of `500`, which does not show the reason.
    Error(String),
    /// Serve the file or directory at the target. `head` says that the
    /// response goes without its body.
    Static { target: FileTarget, index: Option<String>, listing: bool, url_path: String, head: bool },
    /// Run the script at the target, for the route with the given index in
    /// the binding with the given index.
    Cgi { target: FileTarget, server: usize, route: usize },
    /// Delete the file at the target, where `allowed` holds.
    Delete { target: FileTarget, allowed: bool },
    /// Store the request body in a new file below the root.
    Upload { root: String },
}

/// What a dispatch holds.
pub enum DispatchModel {
    Respond(ResponseModel),
    Fail(HttpStatus, Seq<char>),
    Error(Seq<char>),
    Static {
        target: TargetModel,
        index: Option<Seq<char>>,
        listing: bool,
        url_path: Seq<char>,
        head: bool,
    },
    Cgi { target: TargetModel, server: int, route: int },
    Delete { target: TargetModel, allowed: bool },
    Upload { root: Seq<char> },
}

impl View for Dispatch {
    type V = DispatchModel;

    open spec fn view(&self) -> DispatchModel {
        match self {
            Dispatch::Respond(r) => DispatchModel::Respond(r@),
            Dispatch::Fail(s, m) => DispatchModel::Fail(*s, m@),
            Dispatch::Error(m) => DispatchModel::Error(m@),
            Dispatch::Static { target, index, listing, url_path, head } => DispatchModel::Static {
                target: target@,
                index: crate::text::opt_text(*index),
                listing: *listing,
                url_path: url_path@,
                head: *head,
            },
            Dispatch::Cgi { target, server, route } => DispatchModel::Cgi {
                target: target@,
                server: *server as int,
                route: *route as int,
            },
            Dispatch::Delete { target, allowed } => DispatchModel::Delete {
                target: target@,
                allowed: *allowed,
            },
            Dispatch::Upload { root } => DispatchModel::Upload { root: root@ },
        }
    }
}

/// What the error page says where a handler failed.
pub const HANDLER_FAILURE: &'static str = "Internal server error";

/// The message of the response to a body above the limit.
pub open spec fn too_large_message(size: nat, limit: nat) -> Seq<char> {
    "Request body size ("@ + dec(size) + " bytes) exceeds limit ("@ + dec(limit) + " bytes)"@
}

/// The message of the response to a method that the route does not allow.
pub open spec fn not_allowed_message(method: HttpMethod) -> Seq<char> {
    "Method "@ + method.name() + " not allowed for this route"@
}

/// The message of the response to a method that has no handler.
pub open spec fn no_handler_message(method: HttpMethod) -> Seq<char> {
    "Method "@ + method.name() + " not implemented"@
}

/// The target of a request below the root of its route; a route without a
/// root cannot serve it.
pub open spec fn target_of(route: RouteModel, req: RequestModel) -> Option<TargetModel> {
    match route.root {
        Some(root) => Some(TargetModel { root, path: resolved(root, req.path, route.path) }),
        None => None,
    }
}

/// The failure of a handler on a route without a root.
pub open spec fn no_root() -> DispatchModel {
    DispatchModel::Error("Route has no root directory"@)
}

/// The failure of a script on a route without a root.
pub open spec fn no_script_root() -> DispatchModel {
    DispatchModel::Error("CGI route has no root directory"@)
}

/// The failure of an upload on a route without a root.
pub open spec fn no_upload_root() -> DispatchModel {
    DispatchModel::Error("Upload route has no root directory"@)
}

/// The handler of a request on its route, once the limits are passed. The
/// first that applies is taken: a redirect; a script; for `DELETE`, the
/// deletion of the file; for `POST` on a route with uploads, the upload;
/// for `GET` and `HEAD`, the file or directory. Anything else is a method
/// that is not allowed.
pub open spec fn handler_for(
    route: RouteModel,
    req: RequestModel,
    server: int,
    route_index: int,
    date: Seq<char>,
) -> DispatchModel {
    if route.redirect is Some {
        DispatchModel::Respond(redirection(route.redirect->0, false, date))
    } else if route.cgi is Some {
        match target_of(route, req) {
            Some(target) => DispatchModel::Cgi { target, server, route: route_index },
            None => no_script_root(),
        }
    } else {
        match req.method {
            HttpMethod::DELETE => match target_of(route, req) {
                Some(target) => DispatchModel::Delete { target, allowed: route.upload_enabled },
                None => no_root(),
            },
            HttpMethod::POST => if route.upload_enabled {
                match route.root {
                    Some(root) => DispatchModel::Upload { root },
                    None => no_upload_root(),
                }
            } else {
                DispatchModel::Fail(HttpStatus::MethodNotAllowed, no_handler_message(req.method))
            },
            HttpMethod::GET | HttpMethod::HEAD => match target_of(route, req) {
                Some(target) => DispatchModel::Static {
                    target,
                    index: route.index,
                    listing: route.directory_listing,
                    url_path: req.path,
                    head: req.method == HttpMethod::HEAD,
                },
                None => no_root(),
            },
            _ => DispatchModel::Fail(HttpStatus::MethodNotAllowed, no_handler_message(req.method)),
        }
    }
}

/// What is to be done about a request on the route with index `ri` of the
/// binding `server` with index `si`: `413` for a body above the limit of
/// the binding, `405` for a method that the route does not list, else what
/// the handler says.
pub open spec fn routed(
    server: ServerModel,
    si: int,
    ri: int,
    req: RequestModel,
    date: Seq<char>,
) -> DispatchModel {
    let route = server.routes[ri];
    if req.body.len() > server.max_body_size {
        DispatchModel::Fail(
            HttpStatus::RequestEntityTooLarge,
            too_large_message(req.body.len(), server.max_body_size as nat),
        )
    } else if !route.methods.contains(req.method.name()) {
        DispatchModel::Fail(HttpStatus::MethodNotAllowed, not_allowed_message(req.method))
    } else {
        handler_for(route, req, si, ri, date)
    }
}

/// What is to be done about a request: the binding is found by the `Host`
/// header and the route by the path; a request without a route is
/// answered `404`.
pub open spec fn dispatched(servers: Seq<ServerModel>, req: RequestModel, date: Seq<char>) -> DispatchModel {
    match server_for(servers, header_value(req.headers, "host"@)) {
        None => DispatchModel::Error("No servers configured"@),
        Some(si) => match best_route(servers[si].routes, req.path) {
            None => DispatchModel::Fail(HttpStatus::NotFound, "No matching route found"@),
            Some(ri) => routed(servers[si], si, ri, req, date),
        },
    }
}

/// The name of the file that holds an upload: made of the time in seconds
/// and a sequence number, which together are not used twice.
pub open spec fn upload_name(secs: u64, sequence: u64) -> Seq<char> {
    "upload_"@ + dec(secs as nat) + "_"@ + dec(sequence as nat) + ".bin"@
}

/// The outcome of a deletion: `404` where nothing is there, `403` where
/// the route does not allow it, `204` where the file was removed, `500`
/// where it could not be.
pub open spec fn deletion(exists: bool, allowed: bool, removed: bool, date: Seq<char>) -> DispatchModel {
    if !exists {
        DispatchModel::Fail(HttpStatus::NotFound, "File not found"@)
    } else if !allowed {
        DispatchModel::Fail(HttpStatus::Forbidden, "Deletion not allowed in this directory"@)
    } else if removed {
        DispatchModel::Respond(
            page(
                HttpStatus::NoContent,
                "text/plain; charset=utf-8"@,
                Seq::<u8>::empty(),
                date,
            ),
        )
    } else {
        DispatchModel::Fail(HttpStatus::InternalServerError, "Failed to delete file"@)
    }
}

/// The outcome of an upload: `201` with the path of the new file, or a
/// failure where it could not be written.
pub open spec fn uploading(path: Seq<char>, written: bool, date: Seq<char>) -> DispatchModel {
    if written {
        DispatchModel::Respond(
            page(
                HttpStatus::Created,
                "text/plain; charset=utf-8"@,
                encode_utf8("File uploaded successfully: "@ + path),
                date,
            ),
        )
    } else {
        DispatchModel::Error("Failed to save uploaded file"@)
    }
}

/// HTTP method handler.
pub struct MethodHandler {
    router: Router,
    static_server: StaticFileServer,
    error_manager: ErrorPageManager,
    cgi_executor: CgiExecutor,
}

impl MethodHandler {
    /// The bindings that requests are routed to.
    pub closed spec fn servers(&self) -> Seq<ServerModel> {
        self.router@
    }

    /// The custom error pages, by status code.
    pub closed spec fn error_pages(&self) -> Map<u16, Seq<char>> {
        self.error_manager@
    }

    pub fn new(config: Config) -> (h: MethodHandler)
        ensures
            h.servers() == config@.servers,
            h.error_pages() == if config@.servers.len() > 0 {
                config@.servers[0].error_pages
            } else {
                Map::<u16, Seq<char>>::empty()
            },
            h.files().types() == crate::utils::mime::default_types(),
            h.scripts().spec_timeout() == 30000,
            h.scripts().spec_max_output_size() == 1048576,
    {
        let error_manager = if config.servers.len() > 0 {
            ErrorPageManager::from_config(&config.servers[0])
        } else {
            ErrorPageManager::new()
        };
        MethodHandler {
            router: Router::new(&config),
            static_server: StaticFileServer::new(),
            error_manager,
            cgi_executor: CgiExecutor::new(),
        }
    }

    pub fn router(&self) -> (r: &Router)
        ensures
            r@ == self.servers(),
    {
        &self.router
    }

    /// The server of static files.
    pub closed spec fn files(&self) -> StaticFileServer {
        self.static_server
    }

    /// The executor of scripts.
    pub closed spec fn scripts(&self) -> CgiExecutor {
        self.cgi_executor
    }

    pub fn static_server(&self) -> (r: &StaticFileServer)
        ensures
            *r == self.files(),
    {
        &self.static_server
    }

    pub fn error_manager(&self) -> (r: &ErrorPageManager)
        ensures
            r@ == self.error_pages(),
    {
        &self.error_manager
    }

    pub fn cgi_executor(&self) -> (r: &CgiExecutor)
        ensures
            *r == self.scripts(),
    {
        &self.cgi_executor
    }

    /// The target of a request below the root of its route.
    fn target(&self, route: &RouteConfig, request: &HttpRequest) -> (r: Option<FileTarget>)
        ensures
            match r {
                Some(t) => target_of(route@, request@) == Some(t@),
                None => target_of(route@, request@) is None,
            },
    {
        match &route.root {
            Some(root) => Some(
                FileTarget {
                    root: root.clone(),
                    path: self.static_server.resolve_path(
                        root.as_str(),
                        request.path.as_str(),
                        route.path.as_str(),
                    ),
                },
            ),
            None => None,
        }
    }

    fn fail_no_root() -> (d: Dispatch)
        ensures
            d@ == no_root(),
    {
        Dispatch::Error(String::from_str("Route has no root directory"))
    }

    fn fail_no_handler(method: HttpMethod) -> (d: Dispatch)
        ensures
            d@ == DispatchModel::Fail(HttpStatus::MethodNotAllowed, no_handler_message(method)),
    {
        let mut m = String::from_str("Method ");
        m.append(method.as_str());
        m.append(" not implemented");
        Dispatch::Fail(HttpStatus::MethodNotAllowed, m)
    }

    /// Handle GET requests, and HEAD requests where `head` holds: the file
    /// or directory below the root of the route is to be served.
    pub fn handle_get(&self, request: &HttpRequest, route: &RouteConfig, head: bool) -> (d:
        Dispatch)
        ensures
            d@ == match target_of(route@, request@) {
                Some(target) => DispatchModel::Static {
                    target,
                    index: route@.index,
                    listing: route@.directory_listing,
                    url_path: request@.path,
                    head,
                },
                None => no_root(),
            },
    {
        match self.target(route, request) {
            Some(target) => Dispatch::Static {
                target,
                index: crate::text::clone_opt(&route.index),
                listing: route.directory_listing,
                url_path: request.path.clone(),
                head,
            },
            None => Self::fail_no_root(),
        }
    }

    /// Handle HEAD requests: as GET requests, and the response goes
    /// without its body.
    pub fn handle_head(&self, request: &HttpRequest, route: &RouteConfig) -> (d: Dispatch)
        ensures
            d@ == match target_of(route@, request@) {
                Some(target) => DispatchModel::Static {
                    target,
                    index: route@.index,
                    listing: route@.directory_listing,
                    url_path: request@.path,
                    head: true,
                },
                None => no_root(),
            },
    {
        self.handle_get(request, route, true)
    }

    /// Handle POST requests: on a route with uploads the body is to be
    /// stored; on any other route the method has no handler.
    pub fn handle_post(&self, request: &HttpRequest, route: &RouteConfig) -> (d: Dispatch)
        ensures
            d@ == if route@.upload_enabled {
                match route@.root {
                    Some(root) => DispatchModel::Upload { root },
                    None => no_upload_root(),
                }
            } else {
                DispatchModel::Fail(HttpStatus::MethodNotAllowed, no_handler_message(request@.method))
            },
    {
        if route.upload_enabled {
            match &route.root {
                Some(root) => Dispatch::Upload { root: root.clone() },
                None => Dispatch::Error(String::from_str("Upload route has no root directory")),
            }
        } else {
            Self::fail_no_handler(request.method)
        }
    }

    /// Handle DELETE requests: the file below the root of the route is to
    /// be deleted, where the route has uploads.
    pub fn handle_delete(&self, request: &HttpRequest, route: &RouteConfig) -> (d: Dispatch)
        ensures
            d@ == match target_of(route@, request@) {
                Some(target) => DispatchModel::Delete { target, allowed: route@.upload_enabled },
                None => no_root(),
            },
    {
        match self.target(route, request) {
            Some(target) => Dispatch::Delete { target, allowed: route.upload_enabled },
            None => Self::fail_no_root(),
        }
    }

    /// Handle CGI requests: the script below the root of the route is to
    /// be run.
    pub fn handle_cgi(&self, request: &HttpRequest, route: &RouteConfig, si: usize, ri: usize) -> (d:
        Dispatch)
        ensures
            d@ == match target_of(route@, request@) {
                Some(target) => DispatchModel::Cgi { target, server: si as int, route: ri as int },
                None => no_script_root(),
            },
    {
        match self.target(route, request) {
            Some(target) => Dispatch::Cgi { target, server: si, route: ri },
            None => Dispatch::Error(String::from_str("CGI route has no root directory")),
        }
    }

    /// Whether the route lists the method.
    fn allows(route: &RouteConfig, method: HttpMethod) -> (b: bool)
        ensures
            b == route@.methods.contains(method.name()),
    {
        let name = method.as_str();
        let mut i: usize = 0;
        while i < route.methods.len()
            invariant
                i <= route.methods.len(),
                name@ == method.name(),
                forall|j: int| 0 <= j < i ==> route@.methods[j] != method.name(),
            decreases route.methods.len() - i,
        {
            if str_eq(route.methods[i].as_str(), name) {
                assert(route@.methods[i as int] == method.name());
                return true;
            }
            i += 1;
        }
        false
    }

    /// What is to be done about a request on the route `ri` of the binding
    /// `si`, dated `now`.
    fn handle_routed(&self, request: &HttpRequest, si: usize, ri: usize, now: u64) -> (d: Dispatch)
        requires
            si < self.servers().len(),
            ri < self.servers()[si as int].routes.len(),
        ensures
            d@ == routed(
                self.servers()[si as int],
                si as int,
                ri as int,
                request@,
                http_date(now as nat),
            ),
    {
        let server = &self.router.servers()[si];
        let route = &server.routes[ri];
        assert(server@ == self.servers()[si as int]);
        assert(route@ == self.servers()[si as int].routes[ri as int]);
        if request.body.len() > server.max_body_size {
            let mut m = String::from_str("Request body size (");
            m.append(u64_to_string(request.body.len() as u64).as_str());
            m.append(" bytes) exceeds limit (");
            m.append(u64_to_string(server.max_body_size as u64).as_str());
            m.append(" bytes)");
            return Dispatch::Fail(HttpStatus::RequestEntityTooLarge, m);
        }
        if !Self::allows(route, request.method) {
            let mut m = String::from_str("Method ");
            m.append(request.method.as_str());
            m.append(" not allowed for this route");
            return Dispatch::Fail(HttpStatus::MethodNotAllowed, m);
        }
        if let Some(location) = &route.redirect {
            return Dispatch::Respond(HttpResponse::redirect_at(location.as_str(), false, now));
        }
        if route.cgi.is_some() {
            return self.handle_cgi(request, route, si, ri);
        }
        match request.method {
            HttpMethod::DELETE => self.handle_delete(request, route),
            HttpMethod::POST => self.handle_post(request, route),
            HttpMethod::GET => self.handle_get(request, route, false),
            HttpMethod::HEAD => self.handle_head(request, route),
            _ => Self::fail_no_handler(request.method),
        }
    }

    /// Handle an HTTP request, dated `now`.
    pub fn handle_request_at(&self, request: &HttpRequest, now: u64) -> (d: Dispatch)
        ensures
            d@ == dispatched(self.servers(), request@, http_date(now as nat)),
    {
        let host: Option<&str> = match request.get_header("host") {
            Some(h) => Some(h.as_str()),
            None => None,
        };
        let si = match self.router.find_server(host) {
            Ok(i) => i,
            Err(_) => {
                return Dispatch::Error(String::from_str("No servers configured"));
            },
        };
        let server = &self.router.servers()[si];
        assert(server@ == self.servers()[si as int]);
        let ri = match Router::find_best_route(server, request.path.as_str()) {
            Ok(i) => i,
            Err(_) => {
                return Dispatch::Fail(
                    HttpStatus::NotFound,
                    String::from_str("No matching route found"),
                );
            },
        };
        self.handle_routed(request, si, ri, now)
    }

    /// Handle an HTTP request: say what is to be done about it.
    pub fn handle_request(&self, request: &HttpRequest) -> (d: Dispatch)
        ensures
            exists|t: nat| d@ == #[trigger] dispatched(self.servers(), request@, http_date(t)),
    {
        let now = now_secs();
        let d = self.handle_request_at(request, now);
        assert(d@ == dispatched(self.servers(), request@, http_date(now as nat)));
        d
    }

    /// The name of the file for an upload.
    pub fn upload_filename(secs: u64, sequence: u64) -> (r: String)
        ensures
            r@ == upload_name(secs, sequence),
    {
        let mut r = String::from_str("upload_");
        r.append(u64_to_string(secs).as_str());
        r.append("_");
        r.append(u64_to_string(sequence).as_str());
        r.append(".bin");
        r
    }

    /// The outcome of a deletion, dated `now`.
    pub fn finish_delete_at(exists: bool, allowed: bool, removed: bool, now: u64) -> (d: Dispatch)
        ensures
            d@ == deletion(exists, allowed, removed, http_date(now as nat)),
    {
        if !exists {
            Dispatch::Fail(HttpStatus::NotFound, String::from_str("File not found"))
        } else if !allowed {
            Dispatch::Fail(
                HttpStatus::Forbidden,
                String::from_str("Deletion not allowed in this directory"),
            )
        } else if removed {
            Dispatch::Respond(
                HttpResponse::page_at(
                    HttpStatus::NoContent,
                    "text/plain; charset=utf-8",
                    Vec::new(),
                    now,
                ),
            )
        } else {
            Dispatch::Fail(
                HttpStatus::InternalServerError,
                String::from_str("Failed to delete file"),
            )
        }
    }

    /// The outcome of an upload to `path`, dated `now`.
    pub fn finish_upload_at(path: &str, written: bool, now: u64) -> (d: Dispatch)
        ensures
            d@ == uploading(path@, written, http_date(now as nat)),
    {
        if written {
            let mut text = String::from_str("File uploaded successfully: ");
            text.append(path);
            Dispatch::Respond(HttpResponse::text_at(HttpStatus::Created, text.as_str(), now))
        } else {
            Dispatch::Error(String::from_str("Failed to save uploaded file"))
        }
    }

    /// The error response for a failure, dated `now`: the custom page of
    /// the status where one is configured and its contents are given, else
    /// the default page with the message.
    pub fn fail_response_at(
        &self,
        status: HttpStatus,
        message: &str,
        custom_page: Option<&str>,
        now: u64,
    ) -> (r: HttpResponse)
        ensures
            r@ == error_response(
                status,
                error_page_content(
                    self.error_pages(),
                    status,
                    Some(message@),
                    opt_str(custom_page),
                ),
                http_date(now as nat),
            ),
    {
        let content = self.error_manager.generate_error_page(status, Some(message), custom_page);
        ErrorPageManager::response_with_page_at(status, content.as_str(), now)
    }

    /// The response to a request whose handler failed, dated `now`: the
    /// error page of `500`, which says no more than that.
    pub fn error_response_at(&self, custom_page: Option<&str>, now: u64) -> (r: HttpResponse)
        ensures
            r@ == error_response(
                HttpStatus::InternalServerError,
                error_page_content(
                    self.error_pages(),
                    HttpStatus::InternalServerError,
                    Some(HANDLER_FAILURE@),
                    opt_str(custom_page),
                ),
                http_date(now as nat),
            ),
    {
        self.fail_response_at(HttpStatus::InternalServerError, HANDLER_FAILURE, custom_page, now)
    }

    /// Whether a target stays below its root, given the root, its
    /// canonical form where it has one and, where the path exists, that of
    /// the path: `None` where it does, else the failure to answer with. A
    /// path that leaves the root is forbidden.
    pub fn check_target(
        root: &str,
        canonical_root: Option<&str>,
        canonical_path: Option<&str>,
    ) -> (r: Option<Dispatch>)
        ensures
            match r {
                None => canonical_root is Some && (canonical_path is Some ==> within_root(
                    canonical_root->0@,
                    canonical_path->0@,
                )),
                Some(d) => d@ == if canonical_root is None {
                    DispatchModel::Error("Invalid root directory: "@ + root@)
                } else {
                    DispatchModel::Fail(HttpStatus::Forbidden, "Path traversal attempt detected"@)
                } && (canonical_root is Some ==> canonical_path is Some && !within_root(
                    canonical_root->0@,
                    canonical_path->0@,
                )),
            },
    {
        match StaticFileServer::check_traversal(root, canonical_root, canonical_path) {
            Ok(_) => None,
            Err(e) => {
                if canonical_root.is_none() {
                    Some(Dispatch::Error(Self::detail_of(e.1)))
                } else {
                    Some(
                        Dispatch::Fail(
                            HttpStatus::Forbidden,
                            String::from_str("Path traversal attempt detected"),
                        ),
                    )
                }
            },
        }
    }

    /// Whether a script can be run: `404` where nothing is there, `403`
    /// where it is no regular file.
    pub fn check_script(exists: bool, is_file: bool) -> (r: Option<Dispatch>)
        ensures
            match r {
                None => exists && is_file,
                Some(d) => d@ == if !exists {
                    DispatchModel::Fail(HttpStatus::NotFound, "CGI script not found"@)
                } else {
                    DispatchModel::Fail(HttpStatus::Forbidden, "Not a valid CGI script"@)
                } && !(exists && is_file),
            },
    {
        if !exists {
            Some(Dispatch::Fail(HttpStatus::NotFound, String::from_str("CGI script not found")))
        } else if !is_file {
            Some(Dispatch::Fail(HttpStatus::Forbidden, String::from_str("Not a valid CGI script")))
        } else {
            None
        }
    }

    /// Whether there is something to serve: `404` where nothing is there.
    pub fn check_file(exists: bool) -> (r: Option<Dispatch>)
        ensures
            match r {
                None => exists,
                Some(d) => !exists && d@ == DispatchModel::Fail(
                    HttpStatus::NotFound,
                    "File not found"@,
                ),
            },
    {
        if exists {
            None
        } else {
            Some(Dispatch::Fail(HttpStatus::NotFound, String::from_str("File not found")))
        }
    }

    /// What a script that was run stands for: its response, or `500` where
    /// running it failed in any way.
    pub fn finish_cgi(outcome: ServerResult<HttpResponse>) -> (d: Dispatch)
        ensures
            d@ == match outcome {
                Ok(r) => DispatchModel::Respond(r@),
                Err(_) => DispatchModel::Fail(
                    HttpStatus::InternalServerError,
                    "CGI script execution failed"@,
                ),
            },
    {
        match outcome {
            Ok(r) => Dispatch::Respond(r),
            Err(_) => Dispatch::Fail(
                HttpStatus::InternalServerError,
                String::from_str("CGI script execution failed"),
            ),
        }
    }

    /// The text of an error.
    fn detail_of(e: ServerError) -> (r: String)
        ensures
            r@ == e.detail(),
    {
        match e {
            ServerError::Config(m) => m,
            ServerError::Io(m) => m,
            ServerError::Http(m) => m,
            ServerError::Cgi(_, m) => m,
            ServerError::Routing(m) => m,
            ServerError::Internal(m) => m,
        }
    }

    /// What a file or directory that was served stands for: its response,
    /// without the body where the request was a `HEAD` request; or the
    /// failure that serving it ran into.
    pub fn finish_static(outcome: ServerResult<HttpResponse>, head: bool) -> (d: Dispatch)
        ensures
            d@ == match outcome {
                Ok(r) => DispatchModel::Respond(
                    if head {
                        r@.with_body(Seq::<u8>::empty())
                    } else {
                        r@
                    },
                ),
                Err(e) => DispatchModel::Error(e.detail()),
            },
    {
        match outcome {
            Ok(r) => {
                let mut r = r;
                if head {
                    r.clear_body();
                }
                Dispatch::Respond(r)
            },
            Err(e) => Dispatch::Error(Self::detail_of(e)),
        }
    }

    /// What a directory that cannot be served stands for: a failure where
    /// its entries could not be read, for the reason given; `403` where
    /// listing is not allowed.
    pub fn directory_failure(read_error: Option<&str>) -> (d: Dispatch)
        ensures
            d@ == match read_error {
                Some(reason) => DispatchModel::Error("Failed to read directory: "@ + reason@),
                None => DispatchModel::Fail(HttpStatus::Forbidden, "Directory listing disabled"@),
            },
    {
        match read_error {
            Some(reason) => {
                let mut m = String::from_str("Failed to read directory: ");
                m.append(reason);
                Dispatch::Error(m)
            },
            None => Dispatch::Fail(
                HttpStatus::Forbidden,
                String::from_str("Directory listing disabled"),
            ),
        }
    }
}

} // verus!
