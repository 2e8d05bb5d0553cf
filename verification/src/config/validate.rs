//! Checks on a configuration as a whole.
use vstd::prelude::*;
use vstd::string::*;
use crate::config::types::{Config, ConfigModel, RouteModel, ServerModel};
use crate::error::{ServerError, ServerResult};
use crate::number::{dec, u64_to_string};
use crate::text::{chars_of, str_eq};

verus! {

/// The addresses of one binding: its host with each of its ports.
pub open spec fn bound_endpoints(server: ServerModel) -> Seq<
    (Seq<char>, u16),
> {
    Seq::new(server.ports.len(), |k: int| (server.host, server.ports[k]))
}

pub open spec fn endpoints_upto(servers: Seq<ServerModel>) -> Seq<
    (Seq<char>, u16),
>
    decreases servers.len(),
{
    if servers.len() == 0 {
        Seq::empty()
    } else {
        endpoints_upto(servers.drop_last()) + bound_endpoints(servers.last())
    }
}

/// The addresses that a configuration asks to listen on.
pub open spec fn endpoints_of(config: ConfigModel) -> Seq<(Seq<char>, u16)> {
    endpoints_upto(config.servers)
}

pub open spec fn endpoint_models(v: Seq<(String, u16)>) -> Seq<(Seq<char>, u16)> {
    Seq::new(v.len(), |i: int| (v[i].0@, v[i].1))
}

/// Whether no address stands twice among the given ones.
pub open spec fn distinct_endpoints(s: Seq<(Seq<char>, u16)>) -> bool {
    forall|i: int, j: int| 0 <= i < j < s.len() ==> #[trigger] s[i] != #[trigger] s[j]
}

/// Whether every route has a path that begins with `/`.
pub open spec fn routes_have_paths(config: ConfigModel) -> bool {
    forall|i: int, j: int|
        0 <= i < config.servers.len() && 0 <= j < config.servers[i].routes.len() ==> {
            &&& (#[trigger] config.servers[i].routes[j]).path.len() > 0
            &&& config.servers[i].routes[j].path[0] == '/'
        }
}

/// A configuration is valid when no host and port stand twice among its
/// bindings and every route has a path that begins with `/`.
pub open spec fn valid_configuration(config: ConfigModel) -> bool {
    distinct_endpoints(endpoints_of(config)) && routes_have_paths(config)
}

/// What is wrong with the first of the routes from index `j` on that has no
/// path or a path that does not start with `/`.
pub open spec fn routes_fault(routes: Seq<RouteModel>, j: nat) -> Option<Seq<char>>
    decreases routes.len() - j,
{
    if j >= routes.len() {
        None
    } else if routes[j as int].path.len() == 0 {
        Some("Route path cannot be empty"@)
    } else if routes[j as int].path[0] != '/' {
        Some("Route path must start with '/': "@ + routes[j as int].path)
    } else {
        routes_fault(routes, j + 1)
    }
}

/// What is wrong with the first route at fault of the bindings from index
/// `i` on.
pub open spec fn paths_fault(servers: Seq<ServerModel>, i: nat) -> Option<Seq<char>>
    decreases servers.len() - i,
{
    if i >= servers.len() {
        None
    } else if routes_fault(servers[i as int].routes, 0) is Some {
        routes_fault(servers[i as int].routes, 0)
    } else {
        paths_fault(servers, i + 1)
    }
}

/// No route from index `j` on is at fault exactly when each of them has a
/// path that begins with `/`.
pub proof fn lemma_routes_fault(routes: Seq<RouteModel>, j: nat)
    ensures
        routes_fault(routes, j) is None <==> forall|b: int|
            j <= b < routes.len() ==> (#[trigger] routes[b]).path.len() > 0 && routes[b].path[0]
                == '/',
    decreases routes.len() - j,
{
    if j < routes.len() {
        lemma_routes_fault(routes, j + 1);
        if routes_fault(routes, j) is None {
            assert forall|b: int| j <= b < routes.len() implies (#[trigger] routes[b]).path.len()
                > 0 && routes[b].path[0] == '/' by {
                if b > j {
                    assert(j + 1 <= b);
                }
            }
        } else {
            if routes[j as int].path.len() > 0 && routes[j as int].path[0] == '/' {
                let b = choose|b: int|
                    j + 1 <= b < routes.len() && !((#[trigger] routes[b]).path.len() > 0
                        && routes[b].path[0] == '/');
                assert(j <= b);
            } else {
                assert(!(routes[j as int].path.len() > 0 && routes[j as int].path[0] == '/'));
            }
        }
    }
}

/// No route of the bindings from index `i` on is at fault exactly when
/// each of their routes has a path that begins with `/`.
pub proof fn lemma_paths_fault(servers: Seq<ServerModel>, i: nat)
    ensures
        paths_fault(servers, i) is None <==> forall|a: int, b: int|
            i <= a < servers.len() && 0 <= b < servers[a].routes.len() ==> {
                &&& (#[trigger] servers[a].routes[b]).path.len() > 0
                &&& servers[a].routes[b].path[0] == '/'
            },
    decreases servers.len() - i,
{
    if i < servers.len() {
        lemma_paths_fault(servers, i + 1);
        lemma_routes_fault(servers[i as int].routes, 0);
        let routes = servers[i as int].routes;
        if paths_fault(servers, i) is None {
            assert forall|a: int, b: int|
                i <= a < servers.len() && 0 <= b < servers[a].routes.len() implies {
                &&& (#[trigger] servers[a].routes[b]).path.len() > 0
                &&& servers[a].routes[b].path[0] == '/'
            } by {
                if a == i {
                    assert(routes[b].path.len() > 0);
                } else {
                    assert(i + 1 <= a);
                }
            }
        } else if routes_fault(routes, 0) is Some {
            let b = choose|b: int|
                0 <= b < routes.len() && !((#[trigger] routes[b]).path.len() > 0 && routes[b].path[0]
                    == '/');
            assert(!(servers[i as int].routes[b].path.len() > 0 && servers[i as int].routes[b].path[0]
                == '/'));
        } else {
            let (a, b) = choose|a: int, b: int|
                i + 1 <= a < servers.len() && 0 <= b < servers[a].routes.len() && !((
                #[trigger] servers[a].routes[b]).path.len() > 0 && servers[a].routes[b].path[0]
                    == '/');
            assert(i <= a);
        }
    }
}

/// The first place at or after `from` whose address also stands before it.
pub open spec fn first_repeat(s: Seq<(Seq<char>, u16)>, from: int) -> Option<int>
    decreases s.len() - from,
{
    if from < 0 || from >= s.len() {
        None
    } else if s.take(from).contains(s[from]) {
        Some(from)
    } else {
        first_repeat(s, from + 1)
    }
}

/// What is said of an address that stands twice.
pub open spec fn duplicate_message(address: (Seq<char>, u16)) -> Seq<char> {
    "Duplicate port "@ + dec(address.1 as nat) + " for host "@ + address.0
}

/// What is wrong with a configuration, where anything is: the first
/// address that stands twice; else the first route without a path, or with
/// a path that does not begin with `/`.
pub open spec fn configuration_fault(config: ConfigModel) -> Option<Seq<char>> {
    let addresses = endpoints_of(config);
    match first_repeat(addresses, 0) {
        Some(j) => Some(duplicate_message(addresses[j])),
        None => paths_fault(config.servers, 0),
    }
}

/// No address is repeated at or after `from` exactly when each of them
/// differs from all before it.
pub proof fn lemma_first_repeat(s: Seq<(Seq<char>, u16)>, from: int)
    requires
        0 <= from <= s.len(),
    ensures
        first_repeat(s, from) is None <==> forall|i: int, j: int|
            0 <= i < j < s.len() && from <= j ==> s[i] != s[j],
        first_repeat(s, from) matches Some(j) ==> from <= j < s.len() && s.take(j).contains(s[j]),
    decreases s.len() - from,
{
    if from < s.len() {
        lemma_first_repeat(s, from + 1);
        if s.take(from).contains(s[from]) {
            let i = choose|i: int| 0 <= i < from && s.take(from)[i] == s[from];
            assert(s[i] == s[from]);
        } else if first_repeat(s, from + 1) is None {
            assert forall|i: int, j: int| 0 <= i < j < s.len() && from <= j implies s[i] != s[j] by {
                if j == from {
                    assert(s.take(from)[i] == s[i]);
                }
            }
        }
    }
}

/// A configuration is valid exactly when nothing is wrong with it.
pub proof fn lemma_fault_free(config: ConfigModel)
    ensures
        valid_configuration(config) <==> configuration_fault(config) is None,
{
    lemma_first_repeat(endpoints_of(config), 0);
    lemma_paths_fault(config.servers, 0);
}

impl Config {
    /// The addresses to listen on: each port of each binding, in order.
    pub fn endpoints(&self) -> (r: Vec<(String, u16)>)
        ensures
            endpoint_models(r@) == endpoints_of(self@),
    {
        let mut r: Vec<(String, u16)> = Vec::new();
        let ghost servers = self@.servers;
        let mut i: usize = 0;
        assert(servers.take(0) =~= Seq::empty());
        assert(endpoint_models(r@) =~= endpoints_upto(servers.take(0)));
        while i < self.servers.len()
            invariant
                i <= self.servers.len(),
                servers == self@.servers,
                endpoint_models(r@) == endpoints_upto(servers.take(i as int)),
            decreases self.servers.len() - i,
        {
            let server = &self.servers[i];
            let ghost before = endpoint_models(r@);
            proof {
                assert(servers.take(i + 1).drop_last() =~= servers.take(i as int));
                assert(servers.take(i + 1).last() == server@);
            }
            let mut j: usize = 0;
            while j < server.ports.len()
                invariant
                    j <= server.ports.len(),
                    endpoint_models(r@) =~= before + Seq::new(
                        j as nat,
                        |k: int| (server@.host, server@.ports[k]),
                    ),
                decreases server.ports.len() - j,
            {
                let ghost prev = endpoint_models(r@);
                r.push((server.host.clone(), server.ports[j]));
                assert(endpoint_models(r@) =~= prev.push((server@.host, server@.ports[j as int])));
                j += 1;
            }
            assert(endpoint_models(r@) =~= before + bound_endpoints(server@));
            i += 1;
        }
        assert(servers.take(self.servers.len() as int) =~= servers);
        r
    }

    /// What is wrong with the first route at fault, where one is.
    fn first_path_fault(&self) -> (r: Option<String>)
        ensures
            match r {
                Some(m) => paths_fault(self@.servers, 0) == Some(m@),
                None => paths_fault(self@.servers, 0) is None,
            },
    {
        let mut i: usize = 0;
        while i < self.servers.len()
            invariant
                i <= self.servers.len(),
                paths_fault(self@.servers, 0) == paths_fault(self@.servers, i as nat),
            decreases self.servers.len() - i,
        {
            let server = &self.servers[i];
            assert(server@ == self@.servers[i as int]);
            let ghost routes = self@.servers[i as int].routes;
            let mut j: usize = 0;
            while j < server.routes.len()
                invariant
                    j <= server.routes.len(),
                    i < self.servers.len(),
                    server@ == self@.servers[i as int],
                    routes == self@.servers[i as int].routes,
                    paths_fault(self@.servers, 0) == paths_fault(self@.servers, i as nat),
                    routes_fault(routes, 0) == routes_fault(routes, j as nat),
                decreases server.routes.len() - j,
            {
                assert(routes[j as int] == server.routes@[j as int]@);
                let path = chars_of(server.routes[j].path.as_str());
                if path.len() == 0 {
                    return Some(String::from_str("Route path cannot be empty"));
                }
                if path[0] != '/' {
                    let mut m = String::from_str("Route path must start with '/': ");
                    m.append(server.routes[j].path.as_str());
                    return Some(m);
                }
                j += 1;
            }
            i += 1;
        }
        None
    }

    /// Validate the configuration: no host and port twice, and no route
    /// without a path that begins with `/`. The error names the first
    /// address that stands twice, or else the first route at fault.
    pub fn validate(&self) -> (r: ServerResult<()>)
        ensures
            r is Ok <==> valid_configuration(self@),
            match r {
                Ok(_) => configuration_fault(self@) is None,
                Err(e) => e is Config && configuration_fault(self@) == Some(e.detail()),
            },
    {
        let addresses = self.endpoints();
        let ghost models = endpoint_models(addresses@);
        proof {
            lemma_fault_free(self@);
        }
        let mut j: usize = 0;
        while j < addresses.len()
            invariant
                j <= addresses.len(),
                models == endpoint_models(addresses@),
                models == endpoints_of(self@),
                first_repeat(models, 0) == first_repeat(models, j as int),
                valid_configuration(self@) <==> configuration_fault(self@) is None,
            decreases addresses.len() - j,
        {
            let mut i: usize = 0;
            while i < j
                invariant
                    i <= j < addresses.len(),
                    models == endpoint_models(addresses@),
                    models == endpoints_of(self@),
                    first_repeat(models, 0) == first_repeat(models, j as int),
                    valid_configuration(self@) <==> configuration_fault(self@) is None,
                    forall|a: int| 0 <= a < i ==> #[trigger] models[a] != models[j as int],
                decreases j - i,
            {
                if addresses[i].1 == addresses[j].1 && str_eq(
                    addresses[i].0.as_str(),
                    addresses[j].0.as_str(),
                ) {
                    assert(models.take(j as int)[i as int] == models[j as int]);
                    let mut m = String::from_str("Duplicate port ");
                    m.append(u64_to_string(addresses[j].1 as u64).as_str());
                    m.append(" for host ");
                    m.append(addresses[j].0.as_str());
                    assert(m@ =~= duplicate_message(models[j as int]));
                    return Err(ServerError::Config(m));
                }
                i += 1;
            }
            assert(!models.take(j as int).contains(models[j as int])) by {
                if models.take(j as int).contains(models[j as int]) {
                    let a = choose|a: int|
                        0 <= a < j && models.take(j as int)[a] == models[j as int];
                    assert(models[a] != models[j as int]);
                }
            }
            j += 1;
        }
        match self.first_path_fault() {
            Some(m) => Err(ServerError::Config(m)),
            None => Ok(()),
        }
    }
}

} // verus!
