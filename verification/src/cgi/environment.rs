//! CGI environment variables.
use vstd::prelude::*;
use vstd::string::*;
use crate::config::types::{ServerConfig, ServerModel};
use crate::http::headers::header_value;
use crate::http::request::{HttpRequest, RequestModel};
use crate::number::{dec, u64_to_string};
use crate::strmap::{has_key, put, value_of, without, Pairs, StrMap};
use crate::text::{chars_of, find_char, index_of, slice_of, string_of};

verus! {

/// The character of a header name as it stands in the name of a CGI
/// variable: uppercase, with `_` for `-`.
pub open spec fn cgi_char(c: char) -> char {
    if c == '-' {
        '_'
    } else {
        crate::text::upper_char(c)
    }
}

/// The name of the CGI variable that carries the header `name`: `HTTP_`,
/// then the name in uppercase with `_` for `-`.
pub open spec fn cgi_name(name: Seq<char>) -> Seq<char> {
    "HTTP_"@ + Seq::new(name.len(), |i: int| cgi_char(name[i]))
}

/// The environment after a variable for each of the given headers was set,
/// in order.
pub open spec fn with_http_headers(env: Pairs, headers: Pairs) -> Pairs
    decreases headers.len(),
{
    if headers.len() == 0 {
        env
    } else {
        put(
            with_http_headers(env, headers.drop_last()),
            cgi_name(headers.last().0),
            headers.last().1,
        )
    }
}

/// The query string of a request target: what follows its first `?`.
pub open spec fn query_string(uri: Seq<char>) -> Seq<char> {
    if index_of(uri, '?') < uri.len() {
        uri.skip(index_of(uri, '?') as int + 1)
    } else {
        Seq::<char>::empty()
    }
}

/// The variables that describe the server and the request line.
pub open spec fn request_variables(
    req: RequestModel,
    server: ServerModel,
    script_path: Seq<char>,
    path_info: Seq<char>,
) -> Pairs {
    let e0 = Seq::<(Seq<char>, Seq<char>)>::empty();
    let e1 = put(e0, "GATEWAY_INTERFACE"@, "CGI/1.1"@);
    let e2 = put(e1, "SERVER_SOFTWARE"@, "localhost-http-server/0.1.0"@);
    let e3 = put(e2, "SERVER_PROTOCOL"@, req.version.name());
    let e4 = put(e3, "REQUEST_METHOD"@, req.method.name());
    let e5 = put(e4, "REQUEST_URI"@, req.uri);
    let e6 = put(e5, "SCRIPT_NAME"@, script_path);
    let e7 = put(e6, "PATH_INFO"@, path_info);
    let e8 = put(
        e7,
        "SERVER_NAME"@,
        match server.server_name {
            Some(n) => n,
            None => "localhost"@,
        },
    );
    let e9 = put(
        e8,
        "SERVER_PORT"@,
        dec(
            if server.ports.len() > 0 {
                server.ports[0] as nat
            } else {
                80
            },
        ),
    );
    put(e9, "QUERY_STRING"@, query_string(req.uri))
}

/// The variables that describe the body, where there is one.
pub open spec fn with_content_variables(env: Pairs, req: RequestModel) -> Pairs {
    let e1 = if req.body.len() > 0 {
        put(env, "CONTENT_LENGTH"@, dec(req.body.len()))
    } else {
        env
    };
    match header_value(req.headers, "content-type"@) {
        Some(t) => put(e1, "CONTENT_TYPE"@, t),
        None => e1,
    }
}

/// The variables that describe the peer and the script.
pub open spec fn with_peer_variables(
    env: Pairs,
    req: RequestModel,
    script_path: Seq<char>,
) -> Pairs {
    let e1 = put(env, "REMOTE_ADDR"@, "127.0.0.1"@);
    let e2 = put(e1, "REMOTE_HOST"@, "localhost"@);
    let e3 = if header_value(req.headers, "authorization"@) is Some {
        put(put(e2, "AUTH_TYPE"@, "Basic"@), "REMOTE_USER"@, Seq::<char>::empty())
    } else {
        e2
    };
    put(e3, "PATH_TRANSLATED"@, script_path)
}

/// The CGI/1.1 environment of a request: the variables of the server and
/// the request line, those of the body, one `HTTP_…` variable for each
/// request header, and those of the peer and the script.
pub open spec fn request_environment(
    req: RequestModel,
    server: ServerModel,
    script_path: Seq<char>,
    path_info: Seq<char>,
) -> Pairs {
    with_peer_variables(
        with_http_headers(
            with_content_variables(
                request_variables(req, server, script_path, path_info),
                req,
            ),
            req.headers,
        ),
        req,
        script_path,
    )
}

/// `name`, where the environment lacks it.
pub open spec fn if_missing(env: Pairs, name: Seq<char>) -> Seq<Seq<char>> {
    if has_key(env, name) {
        Seq::<Seq<char>>::empty()
    } else {
        seq![name]
    }
}

/// The variables that every CGI environment needs and this one lacks.
pub open spec fn missing_variables(env: Pairs) -> Seq<Seq<char>> {
    if_missing(env, "GATEWAY_INTERFACE"@) + if_missing(env, "SERVER_SOFTWARE"@) + if_missing(
        env,
        "SERVER_PROTOCOL"@,
    ) + if_missing(env, "REQUEST_METHOD"@) + if_missing(env, "SCRIPT_NAME"@)
}

/// CGI environment variable builder.
#[derive(Debug)]
pub struct CgiEnvironment {
    variables: StrMap,
}

impl View for CgiEnvironment {
    type V = Pairs;

    closed spec fn view(&self) -> Pairs {
        self.variables@
    }
}

impl CgiEnvironment {
    /// Create a new CGI environment.
    pub fn new() -> (e: CgiEnvironment)
        ensures
            e@ == Seq::<(Seq<char>, Seq<char>)>::empty(),
    {
        CgiEnvironment { variables: StrMap::new() }
    }

    /// Set an environment variable.
    pub fn set(&mut self, name: &str, value: &str)
        ensures
            final(self)@ == put(old(self)@, name@, value@),
    {
        let _ = self.variables.insert(String::from_str(name), String::from_str(value));
    }

    /// Get an environment variable.
    pub fn get(&self, name: &str) -> (r: Option<&String>)
        ensures
            match r {
                Some(v) => value_of(self@, name@) == Some(v@),
                None => value_of(self@, name@) is None,
            },
    {
        self.variables.get(name)
    }

    /// Get all variables, in the order in which they were first set.
    pub fn variables(&self) -> (r: &StrMap)
        ensures
            r@ == self@,
    {
        &self.variables
    }

    /// Add custom environment variable.
    pub fn add_custom(&mut self, name: &str, value: &str)
        ensures
            final(self)@ == put(old(self)@, name@, value@),
    {
        self.set(name, value);
    }

    /// Remove an environment variable.
    pub fn remove(&mut self, name: &str)
        ensures
            final(self)@ == without(old(self)@, name@),
    {
        let _ = self.variables.remove(name);
    }

    /// Clear all environment variables.
    pub fn clear(&mut self)
        ensures
            final(self)@ == Seq::<(Seq<char>, Seq<char>)>::empty(),
    {
        self.variables.clear();
    }

    /// Get the number of environment variables.
    pub fn len(&self) -> (n: usize)
        ensures
            n == self@.len(),
    {
        self.variables.len()
    }

    /// Check if environment is empty.
    pub fn is_empty(&self) -> (b: bool)
        ensures
            b == (self@.len() == 0),
    {
        self.variables.is_empty()
    }

    fn note_missing(&self, missing: &mut Vec<String>, name: &str)
        ensures
            crate::text::texts(final(missing)@) == crate::text::texts(old(missing)@) + if_missing(
                self@,
                name@,
            ),
    {
        if !self.variables.contains_key(name) {
            missing.push(String::from_str(name));
            assert(crate::text::texts(missing@) =~= crate::text::texts(old(missing)@) + seq![
                name@,
            ]);
        } else {
            assert(crate::text::texts(missing@) =~= crate::text::texts(old(missing)@)
                + Seq::<Seq<char>>::empty());
        }
    }

    /// Validate required CGI environment variables: `Ok` where none is
    /// missing, else the names of those that are.
    pub fn validate(&self) -> (r: Result<(), Vec<String>>)
        ensures
            match r {
                Ok(_) => missing_variables(self@).len() == 0,
                Err(m) => m@.len() > 0 && crate::text::texts(m@) == missing_variables(self@),
            },
    {
        let mut missing: Vec<String> = Vec::new();
        assert(crate::text::texts(missing@) =~= Seq::<Seq<char>>::empty());
        self.note_missing(&mut missing, "GATEWAY_INTERFACE");
        assert(crate::text::texts(missing@) =~= if_missing(self@, "GATEWAY_INTERFACE"@));
        self.note_missing(&mut missing, "SERVER_SOFTWARE");
        self.note_missing(&mut missing, "SERVER_PROTOCOL");
        self.note_missing(&mut missing, "REQUEST_METHOD");
        self.note_missing(&mut missing, "SCRIPT_NAME");
        if missing.len() == 0 {
            Ok(())
        } else {
            Err(missing)
        }
    }

    /// The name of the CGI variable for a header.
    pub fn header_variable(name: &str) -> (r: String)
        ensures
            r@ == cgi_name(name@),
    {
        let n = chars_of(name);
        let mut out: Vec<char> = chars_of("HTTP_");
        let ghost prefix = out@;
        let mut i: usize = 0;
        while i < n.len()
            invariant
                i <= n.len(),
                prefix == "HTTP_"@,
                n@ == name@,
                out@ =~= prefix + Seq::new(i as nat, |k: int| cgi_char(name@[k])),
            decreases n.len() - i,
        {
            let c = n[i];
            let d = if c == '-' {
                '_'
            } else {
                crate::text::to_upper_char(c)
            };
            out.push(d);
            i += 1;
        }
        string_of(out.as_slice())
    }

    /// Build CGI environment from HTTP request and server configuration.
    pub fn from_request(
        request: &HttpRequest,
        server_config: &ServerConfig,
        script_path: &str,
        path_info: &str,
    ) -> (env: CgiEnvironment)
        ensures
            env@ == request_environment(request@, server_config@, script_path@, path_info@),
    {
        let mut env = CgiEnvironment::new();
        env.set("GATEWAY_INTERFACE", "CGI/1.1");
        env.set("SERVER_SOFTWARE", "localhost-http-server/0.1.0");
        env.set("SERVER_PROTOCOL", request.version.as_str());
        env.set("REQUEST_METHOD", request.method.as_str());
        env.set("REQUEST_URI", request.uri.as_str());
        env.set("SCRIPT_NAME", script_path);
        env.set("PATH_INFO", path_info);
        match &server_config.server_name {
            Some(n) => env.set("SERVER_NAME", n.as_str()),
            None => env.set("SERVER_NAME", "localhost"),
        }
        let port: u64 = if server_config.ports.len() > 0 {
            server_config.ports[0] as u64
        } else {
            80
        };
        env.set("SERVER_PORT", u64_to_string(port).as_str());
        let uri = chars_of(request.uri.as_str());
        let q = find_char(uri.as_slice(), 0, '?');
        assert(uri@.skip(0) =~= uri@);
        if q < uri.len() {
            let query = string_of(slice_of(uri.as_slice(), q + 1, uri.len()).as_slice());
            assert(query@ =~= uri@.skip(q + 1));
            env.set("QUERY_STRING", query.as_str());
        } else {
            let empty = String::new();
            env.set("QUERY_STRING", empty.as_str());
        }
        assert(env@ == request_variables(request@, server_config@, script_path@, path_info@));
        if request.body.len() > 0 {
            env.set("CONTENT_LENGTH", u64_to_string(request.body.len() as u64).as_str());
        }
        if let Some(content_type) = request.get_header("content-type") {
            env.set("CONTENT_TYPE", content_type.as_str());
        }
        let ghost base = env@;
        assert(base == with_content_variables(
            request_variables(request@, server_config@, script_path@, path_info@),
            request@,
        ));
        let mut i: usize = 0;
        assert(request.headers@.take(0) =~= Seq::<(Seq<char>, Seq<char>)>::empty());
        while i < request.headers.len()
            invariant
                i <= request.headers@.len(),
                env@ == with_http_headers(base, request.headers@.take(i as int)),
            decreases request.headers@.len() - i,
        {
            proof {
                assert(request.headers@.take(i + 1).drop_last() =~= request.headers@.take(
                    i as int,
                ));
            }
            let name = Self::header_variable(request.headers.key_at(i).as_str());
            env.set(name.as_str(), request.headers.value_at(i).as_str());
            i += 1;
        }
        assert(request.headers@.take(request.headers@.len() as int) =~= request.headers@);
        env.set("REMOTE_ADDR", "127.0.0.1");
        env.set("REMOTE_HOST", "localhost");
        if request.get_header("authorization").is_some() {
            env.set("AUTH_TYPE", "Basic");
            let empty = String::new();
            env.set("REMOTE_USER", empty.as_str());
        }
        env.set("PATH_TRANSLATED", script_path);
        env
    }
}

impl Default for CgiEnvironment {
    fn default() -> (e: Self)
        ensures
            e@ == Seq::<(Seq<char>, Seq<char>)>::empty(),
    {
        CgiEnvironment::new()
    }
}

} // verus!
