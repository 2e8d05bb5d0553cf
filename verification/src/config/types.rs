//! Configuration data structures.
use std::collections::HashMap;
use vstd::prelude::*;
use vstd::string::*;
use crate::text::{clone_opt, clone_strings, opt_text, texts};

verus! {

/// Route configuration.
#[derive(Debug)]
pub struct RouteConfig {
    pub path: String,
    pub methods: Vec<String>,
    pub redirect: Option<String>,
    pub root: Option<String>,
    pub index: Option<String>,
    pub cgi: Option<String>,
    pub directory_listing: bool,
    pub upload_enabled: bool,
}

/// What a route holds.
pub struct RouteModel {
    pub path: Seq<char>,
    pub methods: Seq<Seq<char>>,
    pub redirect: Option<Seq<char>>,
    pub root: Option<Seq<char>>,
    pub index: Option<Seq<char>>,
    pub cgi: Option<Seq<char>>,
    pub directory_listing: bool,
    pub upload_enabled: bool,
}

impl RouteModel {
    /// The route that a route block starts from: everything under `/`,
    /// served from `www` with `index.html` as index, for `GET`, `POST` and
    /// `DELETE`.
    pub open spec fn initial() -> RouteModel {
        RouteModel {
            path: "/"@,
            methods: seq!["GET"@, "POST"@, "DELETE"@],
            redirect: None,
            root: Some("www"@),
            index: Some("index.html"@),
            cgi: None,
            directory_listing: false,
            upload_enabled: false,
        }
    }
}

impl View for RouteConfig {
    type V = RouteModel;

    open spec fn view(&self) -> RouteModel {
        RouteModel {
            path: self.path@,
            methods: texts(self.methods@),
            redirect: opt_text(self.redirect),
            root: opt_text(self.root),
            index: opt_text(self.index),
            cgi: opt_text(self.cgi),
            directory_listing: self.directory_listing,
            upload_enabled: self.upload_enabled,
        }
    }
}

impl Clone for RouteConfig {
    fn clone(&self) -> (r: Self)
        ensures
            r@ == self@,
    {
        RouteConfig {
            path: self.path.clone(),
            methods: clone_strings(&self.methods),
            redirect: clone_opt(&self.redirect),
            root: clone_opt(&self.root),
            index: clone_opt(&self.index),
            cgi: clone_opt(&self.cgi),
            directory_listing: self.directory_listing,
            upload_enabled: self.upload_enabled,
        }
    }
}

impl Default for RouteConfig {
    fn default() -> (r: Self)
        ensures
            r@ == RouteModel::initial(),
    {
        let mut methods: Vec<String> = Vec::new();
        methods.push(String::from_str("GET"));
        methods.push(String::from_str("POST"));
        methods.push(String::from_str("DELETE"));
        assert(texts(methods@) =~= seq!["GET"@, "POST"@, "DELETE"@]);
        RouteConfig {
            path: String::from_str("/"),
            methods,
            redirect: None,
            root: Some(String::from_str("www")),
            index: Some(String::from_str("index.html")),
            cgi: None,
            directory_listing: false,
            upload_enabled: false,
        }
    }
}

/// The models of a vector of routes.
pub open spec fn route_models(v: Seq<RouteConfig>) -> Seq<RouteModel> {
    Seq::new(v.len(), |i: int| v[i]@)
}

/// The texts that a table of error pages holds.
pub open spec fn page_paths(m: Map<u16, String>) -> Map<u16, Seq<char>> {
    Map::new(|k: u16| m.contains_key(k), |k: u16| m[k]@)
}

/// Individual server configuration.
#[derive(Debug)]
pub struct ServerConfig {
    pub host: String,
    pub ports: Vec<u16>,
    pub server_name: Option<String>,
    pub error_pages: HashMap<u16, String>,
    pub max_body_size: usize,
    pub routes: Vec<RouteConfig>,
}

/// What a server binding holds.
pub struct ServerModel {
    pub host: Seq<char>,
    pub ports: Seq<u16>,
    pub server_name: Option<Seq<char>>,
    pub error_pages: Map<u16, Seq<char>>,
    pub max_body_size: usize,
    pub routes: Seq<RouteModel>,
}

impl ServerModel {
    /// The binding of a configuration that names none: host `127.0.0.1`,
    /// no port, a body limit of one mebibyte, and the initial route.
    pub open spec fn initial() -> ServerModel {
        ServerModel {
            host: "127.0.0.1"@,
            ports: Seq::empty(),
            server_name: None,
            error_pages: Map::empty(),
            max_body_size: 1048576,
            routes: seq![RouteModel::initial()],
        }
    }
}

impl View for ServerConfig {
    type V = ServerModel;

    open spec fn view(&self) -> ServerModel {
        ServerModel {
            host: self.host@,
            ports: self.ports@,
            server_name: opt_text(self.server_name),
            error_pages: page_paths(self.error_pages@),
            max_body_size: self.max_body_size,
            routes: route_models(self.routes@),
        }
    }
}

/// A copy of a vector of routes.
pub fn clone_routes(v: &Vec<RouteConfig>) -> (r: Vec<RouteConfig>)
    ensures
        route_models(r@) == route_models(v@),
{
    let mut r: Vec<RouteConfig> = Vec::new();
    let mut i: usize = 0;
    while i < v.len()
        invariant
            i <= v.len(),
            r@.len() == i,
            forall|j: int| 0 <= j < i ==> (#[trigger] r@[j])@ == v@[j]@,
        decreases v.len() - i,
    {
        r.push(v[i].clone());
        i += 1;
    }
    assert(route_models(r@) =~= route_models(v@));
    r
}

impl Clone for ServerConfig {
    fn clone(&self) -> (r: Self)
        ensures
            r@ == self@,
    {
        let r = ServerConfig {
            host: self.host.clone(),
            ports: self.ports.clone(),
            server_name: clone_opt(&self.server_name),
            error_pages: self.error_pages.clone(),
            max_body_size: self.max_body_size,
            routes: clone_routes(&self.routes),
        };
        assert(r.ports@ =~= self.ports@);
        r
    }
}

impl Default for ServerConfig {
    fn default() -> (r: Self)
        ensures
            r@ == ServerModel::initial(),
    {
        let mut routes: Vec<RouteConfig> = Vec::new();
        routes.push(RouteConfig::default());
        assert(route_models(routes@) =~= seq![RouteModel::initial()]);
        let error_pages: HashMap<u16, String> = HashMap::new();
        assert(page_paths(error_pages@) =~= Map::<u16, Seq<char>>::empty());
        ServerConfig {
            host: String::from_str("127.0.0.1"),
            ports: Vec::new(),
            server_name: None,
            error_pages,
            max_body_size: 1048576,
            routes,
        }
    }
}

/// The models of a vector of server bindings.
pub open spec fn server_models(v: Seq<ServerConfig>) -> Seq<ServerModel> {
    Seq::new(v.len(), |i: int| v[i]@)
}

/// Main configuration structure.
#[derive(Debug)]
pub struct Config {
    pub servers: Vec<ServerConfig>,
}

/// What a configuration holds: its server bindings, in order.
pub struct ConfigModel {
    pub servers: Seq<ServerModel>,
}

impl View for Config {
    type V = ConfigModel;

    open spec fn view(&self) -> ConfigModel {
        ConfigModel { servers: server_models(self.servers@) }
    }
}

/// A copy of a vector of server bindings.
pub fn clone_servers(v: &Vec<ServerConfig>) -> (r: Vec<ServerConfig>)
    ensures
        server_models(r@) == server_models(v@),
{
    let mut r: Vec<ServerConfig> = Vec::new();
    let mut i: usize = 0;
    while i < v.len()
        invariant
            i <= v.len(),
            r@.len() == i,
            forall|j: int| 0 <= j < i ==> (#[trigger] r@[j])@ == v@[j]@,
        decreases v.len() - i,
    {
        r.push(v[i].clone());
        i += 1;
    }
    assert(server_models(r@) =~= server_models(v@));
    r
}

impl Clone for Config {
    fn clone(&self) -> (r: Self)
        ensures
            r@ == self@,
    {
        Config { servers: clone_servers(&self.servers) }
    }
}

impl Default for Config {
    fn default() -> (r: Self)
        ensures
            r@ == (ConfigModel { servers: seq![ServerModel::initial()] }),
    {
        let mut servers: Vec<ServerConfig> = Vec::new();
        servers.push(ServerConfig::default());
        assert(server_models(servers@) =~= seq![ServerModel::initial()]);
        Config { servers }
    }
}

} // verus!
