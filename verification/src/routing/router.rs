//! URL routing.
use vstd::prelude::*;
use vstd::string::*;
use crate::config::types::{
    clone_servers, server_models, Config, RouteConfig, RouteModel, ServerConfig, ServerModel,
};
use crate::config::validate::routes_fault;
use crate::error::{ServerError, ServerResult};
use crate::text::{chars_eq, chars_of, find_char, index_of, opt_str, slice_of, starts_with};

verus! {

/// The host name of a `Host` header value: what stands before the first `:`.
pub open spec fn hostname_of(host: Seq<char>) -> Seq<char> {
    host.take(index_of(host, ':') as int)
}

/// The index of the first binding whose virtual-host name is `name`, or
/// `servers.len()` where there is none.
pub open spec fn named_server(servers: Seq<ServerModel>, name: Seq<char>) -> nat
    decreases servers.len(),
{
    if servers.len() == 0 || servers[0].server_name == Some(name) {
        0
    } else {
        1 + named_server(servers.skip(1), name)
    }
}

pub proof fn lemma_named_server(servers: Seq<ServerModel>, name: Seq<char>)
    ensures
        named_server(servers, name) <= servers.len(),
        named_server(servers, name) < servers.len() ==> servers[named_server(
            servers,
            name,
        ) as int].server_name == Some(name),
        forall|j: int|
            0 <= j < named_server(servers, name) ==> (#[trigger] servers[j]).server_name != Some(
                name,
            ),
    decreases servers.len(),
{
    if servers.len() == 0 || servers[0].server_name == Some(name) {
    } else {
        lemma_named_server(servers.skip(1), name);
        assert forall|j: int| 0 <= j < named_server(servers, name) implies (
        #[trigger] servers[j]).server_name != Some(name) by {
            if j > 0 {
                assert(servers[j] == servers.skip(1)[j - 1]);
            }
        }
    }
}

proof fn lemma_named_server_unique(servers: Seq<ServerModel>, name: Seq<char>, i: int)
    requires
        0 <= i <= servers.len(),
        i < servers.len() ==> servers[i].server_name == Some(name),
        forall|j: int| 0 <= j < i ==> (#[trigger] servers[j]).server_name != Some(name),
    ensures
        named_server(servers, name) == i,
{
    lemma_named_server(servers, name);
    let n = named_server(servers, name) as int;
    if n < i {
        assert(servers[n].server_name != Some(name));
    } else if i < n {
        assert(servers[i].server_name != Some(name));
    }
}

/// The binding that serves a request with the given `Host` header: the
/// first whose virtual-host name is the header's host name, else the first
/// binding. `None` where there is no binding at all.
pub open spec fn server_for(servers: Seq<ServerModel>, host: Option<Seq<char>>) -> Option<int> {
    if servers.len() == 0 {
        None
    } else {
        match host {
            Some(h) => if named_server(servers, hostname_of(h)) < servers.len() {
                Some(named_server(servers, hostname_of(h)) as int)
            } else {
                Some(0int)
            },
            None => Some(0int),
        }
    }
}

/// Whether a route with path `route_path` matches the request path `path`:
/// the two are equal; or the route path ends in `/` and the request path
/// starts with it; or the request path starts with it and goes on with `/`.
pub open spec fn route_matches(path: Seq<char>, route_path: Seq<char>) -> bool {
    ||| path == route_path
    ||| (route_path.len() > 0 && route_path.last() == '/' && route_path.is_prefix_of(path))
    ||| (route_path.is_prefix_of(path) && path.len() > route_path.len() && path[route_path.len() as int]
        == '/')
}

/// The index of the route that serves `path`: among the routes that match,
/// the one with the longest path, and of several such the first. `None`
/// where no route matches.
pub open spec fn best_route(routes: Seq<RouteModel>, path: Seq<char>) -> Option<int>
    decreases routes.len(),
{
    if routes.len() == 0 {
        None
    } else {
        let prev = best_route(routes.drop_last(), path);
        let i = routes.len() - 1;
        if route_matches(path, routes[i].path) && (prev is None || routes[i].path.len()
            > routes[prev->0].path.len()) {
            Some(i)
        } else {
            prev
        }
    }
}

/// The route that is chosen matches, no matching route has a longer path,
/// and none of the same length stands before it; where none is chosen, no
/// route matches.
pub proof fn lemma_best_route(routes: Seq<RouteModel>, path: Seq<char>)
    ensures
        match best_route(routes, path) {
            Some(i) => {
                &&& 0 <= i < routes.len()
                &&& route_matches(path, routes[i].path)
                &&& forall|j: int|
                    0 <= j < routes.len() && route_matches(path, (#[trigger] routes[j]).path)
                        ==> routes[j].path.len() <= routes[i].path.len()
                &&& forall|j: int|
                    0 <= j < i && route_matches(path, (#[trigger] routes[j]).path)
                        ==> routes[j].path.len() < routes[i].path.len()
            },
            None => forall|j: int|
                0 <= j < routes.len() ==> !route_matches(path, (#[trigger] routes[j]).path),
        },
    decreases routes.len(),
{
    if routes.len() > 0 {
        let init = routes.drop_last();
        lemma_best_route(init, path);
        assert forall|j: int| 0 <= j < init.len() implies init[j] == routes[j] by {}
        match best_route(routes, path) {
            Some(i) => {
                assert forall|j: int|
                    0 <= j < routes.len() && route_matches(
                        path,
                        (#[trigger] routes[j]).path,
                    ) implies routes[j].path.len() <= routes[i].path.len() by {
                    if j < init.len() {
                        assert(init[j] == routes[j]);
                    }
                }
                assert forall|j: int|
                    0 <= j < i && route_matches(
                        path,
                        (#[trigger] routes[j]).path,
                    ) implies routes[j].path.len() < routes[i].path.len() by {
                    assert(init[j] == routes[j]);
                }
            },
            None => {
                assert forall|j: int| 0 <= j < routes.len() implies !route_matches(
                    path,
                    (#[trigger] routes[j]).path,
                ) by {
                    if j < init.len() {
                        assert(init[j] == routes[j]);
                    }
                }
            },
        }
    }
}

/// Router monotonicity: where two routes both match and one has the longer
/// path, the router does not choose the other.
pub proof fn lemma_longer_route_wins(routes: Seq<RouteModel>, path: Seq<char>, r1: int, r2: int)
    requires
        0 <= r1 < routes.len(),
        0 <= r2 < routes.len(),
        route_matches(path, routes[r1].path),
        route_matches(path, routes[r2].path),
        routes[r1].path.len() > routes[r2].path.len(),
    ensures
        best_route(routes, path) is Some,
        best_route(routes, path) != Some(r2),
        routes[best_route(routes, path)->0].path.len() >= routes[r1].path.len(),
{
    lemma_best_route(routes, path);
}

/// Whether every binding has a route and every route path starts with `/`,
/// and there is a binding at all.
pub open spec fn routable(servers: Seq<ServerModel>) -> bool {
    &&& servers.len() > 0
    &&& forall|i: int|
        0 <= i < servers.len() ==> {
            &&& (#[trigger] servers[i]).routes.len() > 0
            &&& forall|j: int|
                0 <= j < servers[i].routes.len() ==> {
                    &&& (#[trigger] servers[i].routes[j]).path.len() > 0
                    &&& servers[i].routes[j].path[0] == '/'
                }
        }
}

/// Router for matching URLs to route configurations.
pub struct Router {
    servers: Vec<ServerConfig>,
}

impl View for Router {
    type V = Seq<ServerModel>;

    closed spec fn view(&self) -> Seq<ServerModel> {
        server_models(self.servers@)
    }
}

impl Router {
    /// Create a new router with server configurations.
    pub fn new(config: &Config) -> (r: Router)
        ensures
            r@ == config@.servers,
    {
        Router { servers: clone_servers(&config.servers) }
    }

    /// Check if a path matches a route pattern.
    pub fn path_matches_route(path: &str, route_path: &str) -> (b: bool)
        ensures
            b == route_matches(path@, route_path@),
    {
        let p = chars_of(path);
        let r = chars_of(route_path);
        if chars_eq(p.as_slice(), r.as_slice()) {
            return true;
        }
        if !starts_with(p.as_slice(), r.as_slice()) {
            return false;
        }
        if r.len() > 0 && r[r.len() - 1] == '/' {
            return true;
        }
        p.len() > r.len() && p[r.len()] == '/'
    }

    /// Find the appropriate server based on host header: its index.
    pub fn find_server(&self, host: Option<&str>) -> (r: ServerResult<usize>)
        ensures
            match r {
                Ok(i) => server_for(self@, opt_str(host)) == Some(i as int) && i < self@.len(),
                Err(e) => server_for(self@, opt_str(host)) is None && e is Config && e.detail()
                    == "No servers configured"@,
            },
    {
        if self.servers.len() == 0 {
            return Err(ServerError::Config(String::from_str("No servers configured")));
        }
        if let Some(h) = host {
            let hv = chars_of(h);
            let end = find_char(hv.as_slice(), 0, ':');
            assert(hv@.skip(0) =~= hv@);
            let name = slice_of(hv.as_slice(), 0, end);
            assert(name@ =~= hostname_of(h@));
            let mut i: usize = 0;
            while i < self.servers.len()
                invariant
                    i <= self.servers.len(),
                    self.servers.len() > 0,
                    host == Some(h),
                    name@ == hostname_of(h@),
                    forall|j: int| 0 <= j < i ==> (#[trigger] self@[j]).server_name != Some(name@),
                decreases self.servers.len() - i,
            {
                if let Some(sn) = &self.servers[i].server_name {
                    if chars_eq(chars_of(sn.as_str()).as_slice(), name.as_slice()) {
                        proof {
                            assert(self@[i as int].server_name == Some(name@));
                            lemma_named_server_unique(self@, name@, i as int);
                        }
                        return Ok(i);
                    }
                }
                i += 1;
            }
            proof {
                lemma_named_server_unique(self@, name@, i as int);
            }
        }
        Ok(0)
    }

    /// Find the best matching route within a server: its index.
    pub fn find_best_route(server: &ServerConfig, path: &str) -> (r: ServerResult<usize>)
        ensures
            match r {
                Ok(i) => best_route(server@.routes, path@) == Some(i as int) && i
                    < server@.routes.len(),
                Err(e) => best_route(server@.routes, path@) is None && e is Routing && e.detail()
                    == "No matching route found"@,
            },
    {
        let mut best: Option<usize> = None;
        let mut i: usize = 0;
        let ghost routes = server@.routes;
        while i < server.routes.len()
            invariant
                i <= server.routes.len(),
                routes == server@.routes,
                match best {
                    Some(b) => best_route(routes.take(i as int), path@) == Some(b as int) && b < i,
                    None => best_route(routes.take(i as int), path@) is None,
                },
            decreases server.routes.len() - i,
        {
            proof {
                assert(routes.take(i + 1).drop_last() =~= routes.take(i as int));
                assert(routes.take(i + 1)[i as int] == server.routes@[i as int]@);
                if let Some(b) = best {
                    assert(routes.take(i + 1)[b as int] == server.routes@[b as int]@);
                }
            }
            if Self::path_matches_route(path, server.routes[i].path.as_str()) {
                let better = match best {
                    Some(b) => server.routes[i].path.as_str().unicode_len()
                        > server.routes[b].path.as_str().unicode_len(),
                    None => true,
                };
                if better {
                    best = Some(i);
                }
            }
            i += 1;
        }
        assert(routes.take(server.routes.len() as int) =~= routes);
        match best {
            Some(b) => Ok(b),
            None => Err(ServerError::Routing(String::from_str("No matching route found"))),
        }
    }

    /// Find the best matching route for a request: the binding for its host
    /// and, in that binding, the route for its path.
    pub fn find_route(&self, host: Option<&str>, path: &str) -> (r: ServerResult<
        (&ServerConfig, &RouteConfig),
    >)
        ensures
            match r {
                Ok(p) => {
                    let s = server_for(self@, opt_str(host));
                    &&& s is Some
                    &&& p.0@ == self@[s->0]
                    &&& best_route(self@[s->0].routes, path@) is Some
                    &&& p.1@ == self@[s->0].routes[best_route(self@[s->0].routes, path@)->0]
                },
                Err(e) => match server_for(self@, opt_str(host)) {
                    None => e is Config && e.detail() == "No servers configured"@,
                    Some(s) => best_route(self@[s].routes, path@) is None && e is Routing
                        && e.detail() == "No matching route found"@,
                },
            },
    {
        let si = match self.find_server(host) {
            Ok(i) => i,
            Err(e) => {
                return Err(e);
            },
        };
        let server = &self.servers[si];
        let ri = match Self::find_best_route(server, path) {
            Ok(i) => i,
            Err(e) => {
                return Err(e);
            },
        };
        Ok((server, &server.routes[ri]))
    }

    /// Get all servers.
    pub fn servers(&self) -> (r: &[ServerConfig])
        ensures
            server_models(r@) == self@,
    {
        self.servers.as_slice()
    }

    /// Validate router configuration.
    pub fn validate(&self) -> (r: ServerResult<()>)
        ensures
            match r {
                Ok(_) => routable(self@) && routing_fault(self@, 0) is None,
                Err(e) => !routable(self@) && e is Config && routing_fault(self@, 0) == Some(
                    e.detail(),
                ),
            },
    {
        if self.servers.len() == 0 {
            return Err(ServerError::Config(String::from_str("No servers configured")));
        }
        let mut i: usize = 0;
        while i < self.servers.len()
            invariant
                i <= self.servers.len(),
                self.servers.len() > 0,
                routing_fault(self@, 0) == servers_fault(self@, i as nat),
                forall|a: int|
                    0 <= a < i ==> {
                        &&& (#[trigger] self@[a]).routes.len() > 0
                        &&& forall|b: int|
                            0 <= b < self@[a].routes.len() ==> {
                                &&& (#[trigger] self@[a].routes[b]).path.len() > 0
                                &&& self@[a].routes[b].path[0] == '/'
                            }
                    },
            decreases self.servers.len() - i,
        {
            let server = &self.servers[i];
            if server.routes.len() == 0 {
                assert(self@[i as int].routes.len() == 0);
                return Err(ServerError::Config(String::from_str("Server has no routes configured")));
            }
            let mut j: usize = 0;
            while j < server.routes.len()
                invariant
                    j <= server.routes.len(),
                    i < self.servers.len(),
                    server == &self.servers[i as int],
                    server.routes.len() > 0,
                    self.servers.len() > 0,
                    routing_fault(self@, 0) == servers_fault(self@, i as nat),
                    routes_fault(self@[i as int].routes, 0) == routes_fault(
                        self@[i as int].routes,
                        j as nat,
                    ),
                    forall|b: int|
                        0 <= b < j ==> {
                            &&& (#[trigger] self@[i as int].routes[b]).path.len() > 0
                            &&& self@[i as int].routes[b].path[0] == '/'
                        },
                decreases server.routes.len() - j,
            {
                let path = chars_of(server.routes[j].path.as_str());
                assert(self@[i as int].routes[j as int].path == path@);
                if path.len() == 0 {
                    return Err(ServerError::Config(String::from_str("Route path cannot be empty")));
                }
                if path[0] != '/' {
                    let mut m = String::from_str("Route path must start with '/': ");
                    m.append(server.routes[j].path.as_str());
                    return Err(ServerError::Config(m));
                }
                j += 1;
            }
            i += 1;
        }
        Ok(())
    }
}

/// What is wrong with the first of the bindings from index `i` on that has
/// no routes or a route that is at fault.
pub open spec fn servers_fault(servers: Seq<ServerModel>, i: nat) -> Option<Seq<char>>
    decreases servers.len() - i,
{
    if i >= servers.len() {
        None
    } else if servers[i as int].routes.len() == 0 {
        Some("Server has no routes configured"@)
    } else if routes_fault(servers[i as int].routes, 0) is Some {
        routes_fault(servers[i as int].routes, 0)
    } else {
        servers_fault(servers, i + 1)
    }
}

/// What is wrong with a router that cannot route, where anything is.
pub open spec fn routing_fault(servers: Seq<ServerModel>, i: nat) -> Option<Seq<char>> {
    if servers.len() == 0 {
        Some("No servers configured"@)
    } else {
        servers_fault(servers, i)
    }
}

} // verus!
