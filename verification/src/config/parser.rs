//! The configuration file format.
//!
//! A configuration is read line by line. Blank lines and lines that start
//! with `#` are skipped. A line that starts with `server` opens a server
//! block, a line `route PATH {` inside it a route block, and a line `}`
//! closes a block. Every other line of a block is a directive: a name and
//! its values, separated by whitespace.
use vstd::prelude::*;
use vstd::string::*;
use crate::config::types::{
    page_paths, route_models, server_models, Config, ConfigModel, RouteConfig, RouteModel,
    ServerConfig, ServerModel,
};
use crate::error::{ServerError, ServerResult};
use crate::number::{parse_number, parse_u64};
use crate::split::{lines, split_lines, split_words, words};
use crate::text::{
    chars_of, find_char, has_char, rows, starts_with_str, string_of, text_is, texts, to_upper, trim,
    trimmed, upper,
};

verus! {

/// Whether a line holds nothing to read: it is blank or a comment.
pub open spec fn skipped(line: Seq<char>) -> bool {
    line.len() == 0 || line[0] == '#'
}

/// The values of a directive after its name, in uppercase.
pub open spec fn upper_values(parts: Seq<Seq<char>>) -> Seq<Seq<char>> {
    Seq::new((parts.len() - 1) as nat, |i: int| upper(parts[i + 1]))
}

/// The route after a directive of a route block; for a directive that is
/// unknown or lacks its value, what is wrong with it.
pub open spec fn route_directive(route: RouteModel, parts: Seq<Seq<char>>) -> Result<
    RouteModel,
    Seq<char>,
> {
    if parts.len() == 0 {
        Ok(route)
    } else if parts[0] == "methods"@ {
        Ok(RouteModel { methods: upper_values(parts), ..route })
    } else if parts[0] == "redirect"@ {
        if parts.len() < 2 {
            Err("redirect requires a URL"@)
        } else {
            Ok(RouteModel { redirect: Some(parts[1]), ..route })
        }
    } else if parts[0] == "root"@ {
        if parts.len() < 2 {
            Err("root requires a path"@)
        } else {
            Ok(RouteModel { root: Some(parts[1]), ..route })
        }
    } else if parts[0] == "index"@ {
        if parts.len() < 2 {
            Err("index requires a filename"@)
        } else {
            Ok(RouteModel { index: Some(parts[1]), ..route })
        }
    } else if parts[0] == "cgi"@ {
        if parts.len() < 2 {
            Err("cgi requires an interpreter"@)
        } else {
            Ok(RouteModel { cgi: Some(parts[1]), ..route })
        }
    } else if parts[0] == "directory_listing"@ {
        if parts.len() < 2 {
            Err("directory_listing requires on/off"@)
        } else {
            Ok(RouteModel { directory_listing: parts[1] == "on"@, ..route })
        }
    } else if parts[0] == "upload_enabled"@ {
        if parts.len() < 2 {
            Err("upload_enabled requires on/off"@)
        } else {
            Ok(RouteModel { upload_enabled: parts[1] == "on"@, ..route })
        }
    } else {
        Err("Unknown route directive: "@ + parts[0])
    }
}

/// The route that the lines of a route block from line `i` on describe,
/// and the index of the line after the block. The block ends with the
/// line `}` or with the last line.
pub open spec fn route_block(block: Seq<Seq<char>>, i: nat, route: RouteModel) -> Result<
    (RouteModel, nat),
    Seq<char>,
>
    decreases block.len() - i,
{
    if i >= block.len() {
        Ok((route, i))
    } else {
        let line = trim(block[i as int]);
        if skipped(line) {
            route_block(block, i + 1, route)
        } else if line == "}"@ {
            Ok((route, i + 1))
        } else {
            match route_directive(route, words(line)) {
                Ok(r) => route_block(block, i + 1, r),
                Err(e) => Err(e),
            }
        }
    }
}

/// The route that the first line of a route block opens: `route`, a path,
/// and `{` somewhere in the line.
pub open spec fn route_start(first: Seq<char>) -> Result<RouteModel, Seq<char>> {
    let line = trim(first);
    if words(line).len() < 2 {
        Err("route requires a path"@)
    } else if !has_char(line, '{') {
        Err("Expected '{' after route path"@)
    } else {
        Ok(RouteModel { path: words(line)[1], ..RouteModel::initial() })
    }
}

/// The route that the route block at line `start` describes, and the index
/// of the line after it.
pub open spec fn route_at(block: Seq<Seq<char>>, start: nat) -> Result<
    (RouteModel, nat),
    Seq<char>,
> {
    match route_start(block[start as int]) {
        Ok(r) => route_block(block, start + 1, r),
        Err(e) => Err(e),
    }
}

/// The index of the line after a block that starts at line `i`, given the
/// index `end` that reading the block came to: that index, which lies
/// behind `i` and within the lines.
pub open spec fn after_block(block: Seq<Seq<char>>, i: nat, end: nat) -> nat {
    if i < end <= block.len() {
        end
    } else {
        block.len()
    }
}

/// The binding after a directive of a server block other than `route`; for
/// a directive that is unknown, lacks a value, or has a value that is no
/// number where one is needed, what is wrong with it.
pub open spec fn server_directive(server: ServerModel, parts: Seq<Seq<char>>) -> Result<
    ServerModel,
    Seq<char>,
> {
    if parts.len() == 0 {
        Ok(server)
    } else if parts[0] == "host"@ {
        if parts.len() < 2 {
            Err("host requires a value"@)
        } else {
            Ok(ServerModel { host: parts[1], ..server })
        }
    } else if parts[0] == "port"@ {
        if parts.len() < 2 {
            Err("port requires a value"@)
        } else {
            match parse_number(parts[1], 65535) {
                Some(p) => Ok(ServerModel { ports: server.ports.push(p as u16), ..server }),
                None => Err("Invalid port: "@ + parts[1]),
            }
        }
    } else if parts[0] == "server_name"@ {
        if parts.len() < 2 {
            Err("server_name requires a value"@)
        } else {
            Ok(ServerModel { server_name: Some(parts[1]), ..server })
        }
    } else if parts[0] == "error_page"@ {
        if parts.len() < 3 {
            Err("error_page requires status code and path"@)
        } else {
            match parse_number(parts[1], 65535) {
                Some(c) => Ok(
                    ServerModel {
                        error_pages: server.error_pages.insert(c as u16, parts[2]),
                        ..server
                    },
                ),
                None => Err("Invalid status code: "@ + parts[1]),
            }
        }
    } else if parts[0] == "max_body_size"@ {
        if parts.len() < 2 {
            Err("max_body_size requires a value"@)
        } else {
            match parse_number(parts[1], usize::MAX as nat) {
                Some(n) => Ok(ServerModel { max_body_size: n as usize, ..server }),
                None => Err("Invalid max_body_size: "@ + parts[1]),
            }
        }
    } else {
        Err("Unknown directive: "@ + parts[0])
    }
}

/// The binding that the lines of a server block from line `i` on describe,
/// and the index of the line after the block.
pub open spec fn server_block(block: Seq<Seq<char>>, i: nat, server: ServerModel) -> Result<
    (ServerModel, nat),
    Seq<char>,
>
    decreases block.len() - i,
{
    if i >= block.len() {
        Ok((server, i))
    } else {
        let line = trim(block[i as int]);
        if skipped(line) {
            server_block(block, i + 1, server)
        } else if line == "}"@ {
            Ok((server, i + 1))
        } else if words(line).len() > 0 && words(line)[0] == "route"@ {
            match route_at(block, i) {
                Ok(r) => server_block(
                    block,
                    after_block(block, i, r.1),
                    ServerModel { routes: server.routes.push(r.0), ..server },
                ),
                Err(e) => Err(e),
            }
        } else {
            match server_directive(server, words(line)) {
                Ok(s) => server_block(block, i + 1, s),
                Err(e) => Err(e),
            }
        }
    }
}

/// The binding that a server block starts from: the initial one, without
/// a route.
pub open spec fn bare_binding() -> ServerModel {
    ServerModel { routes: Seq::empty(), ..ServerModel::initial() }
}

/// The binding `server`, with the initial route where it has none of its
/// own.
pub open spec fn with_initial_route(server: ServerModel) -> ServerModel {
    if server.routes.len() == 0 {
        ServerModel { routes: seq![RouteModel::initial()], ..server }
    } else {
        server
    }
}

/// The binding that the server block at line `start` describes, and the
/// index of the line after it. The first line has to hold `{`. The routes
/// of the binding are those of its route blocks, in their order; a block
/// without a route block has the initial route.
pub open spec fn server_at(block: Seq<Seq<char>>, start: nat) -> Result<
    (ServerModel, nat),
    Seq<char>,
> {
    if !has_char(block[start as int], '{') {
        Err("Expected '{' after server"@)
    } else {
        match server_block(block, start + 1, bare_binding()) {
            Ok(r) => Ok((with_initial_route(r.0), r.1)),
            Err(e) => Err(e),
        }
    }
}

/// The bindings that the lines from line `i` on describe, after `servers`.
/// Outside of server blocks, lines that do not start with `server` are
/// passed over.
pub open spec fn bindings(block: Seq<Seq<char>>, i: nat, servers: Seq<ServerModel>) -> Result<
    Seq<ServerModel>,
    Seq<char>,
>
    decreases block.len() - i,
{
    if i >= block.len() {
        Ok(servers)
    } else {
        let line = trim(block[i as int]);
        if !skipped(line) && "server"@.is_prefix_of(line) {
            match server_at(block, i) {
                Ok(s) => bindings(block, after_block(block, i, s.1), servers.push(s.0)),
                Err(e) => Err(e),
            }
        } else {
            bindings(block, i + 1, servers)
        }
    }
}

/// The configuration that a text describes, or what is wrong with the
/// text. A text without a server block describes the initial binding.
pub open spec fn configuration(content: Seq<char>) -> Result<ConfigModel, Seq<char>> {
    match bindings(lines(content), 0, Seq::empty()) {
        Ok(servers) => Ok(
            ConfigModel {
                servers: if servers.len() == 0 {
                    seq![ServerModel::initial()]
                } else {
                    servers
                },
            },
        ),
        Err(e) => Err(e),
    }
}

pub proof fn lemma_route_block_end(block: Seq<Seq<char>>, i: nat, route: RouteModel)
    requires
        i <= block.len(),
    ensures
        route_block(block, i, route) matches Ok(r) ==> i <= r.1 <= block.len() && (i < block.len()
            ==> i < r.1),
    decreases block.len() - i,
{
    if i < block.len() {
        let line = trim(block[i as int]);
        if skipped(line) {
            lemma_route_block_end(block, i + 1, route);
        } else if line == "}"@ {
        } else {
            match route_directive(route, words(line)) {
                Ok(r) => lemma_route_block_end(block, i + 1, r),
                Err(_) => {},
            }
        }
    }
}

pub proof fn lemma_server_block_end(block: Seq<Seq<char>>, i: nat, server: ServerModel)
    requires
        i <= block.len(),
    ensures
        server_block(block, i, server) matches Ok(r) ==> i <= r.1 <= block.len(),
    decreases block.len() - i,
{
    if i < block.len() {
        let line = trim(block[i as int]);
        if skipped(line) {
            lemma_server_block_end(block, i + 1, server);
        } else if line == "}"@ {
        } else if words(line).len() > 0 && words(line)[0] == "route"@ {
            match route_at(block, i) {
                Ok(r) => {
                    lemma_server_block_end(
                        block,
                        after_block(block, i, r.1),
                        ServerModel { routes: server.routes.push(r.0), ..server },
                    );
                },
                Err(_) => {},
            }
        } else {
            match server_directive(server, words(line)) {
                Ok(s) => lemma_server_block_end(block, i + 1, s),
                Err(_) => {},
            }
        }
    }
}

/// A configuration error with a message and, where there is one, the
/// word that it is about.
fn config_error(message: &str, word: Option<&[char]>) -> (e: ServerError)
    ensures
        e is Config,
        e.detail() == message@ + match word {
            Some(w) => w@,
            None => Seq::<char>::empty(),
        },
{
    let mut m = String::from_str(message);
    match word {
        Some(w) => {
            m.append(string_of(w).as_str());
        },
        None => {
            assert(m@ =~= message@ + Seq::<char>::empty());
        },
    }
    ServerError::Config(m)
}

/// Whether the line is blank or a comment.
fn is_skipped(line: &[char]) -> (b: bool)
    ensures
        b == skipped(line@),
{
    line.len() == 0 || line[0] == '#'
}

/// The values of a directive after its name, in uppercase.
fn upper_strings(parts: &Vec<Vec<char>>) -> (r: Vec<String>)
    requires
        parts.len() > 0,
    ensures
        texts(r@) == upper_values(rows(parts@)),
{
    let mut methods: Vec<String> = Vec::new();
    let mut i: usize = 1;
    while i < parts.len()
        invariant
            1 <= i <= parts.len(),
            methods@.len() == i - 1,
            forall|k: int| 0 <= k < i - 1 ==> (#[trigger] methods@[k])@ == upper(parts@[k + 1]@),
        decreases parts.len() - i,
    {
        methods.push(string_of(to_upper(parts[i].as_slice()).as_slice()));
        i += 1;
    }
    assert(texts(methods@) =~= upper_values(rows(parts@)));
    methods
}

/// Applies a directive of a route block.
fn apply_route_directive(route: &mut RouteConfig, parts: &Vec<Vec<char>>) -> (r: ServerResult<()>)
    ensures
        match r {
            Ok(_) => route_directive(old(route)@, rows(parts@)) == Ok::<RouteModel, Seq<char>>(
                final(route)@,
            ),
            Err(e) => e is Config && route_directive(old(route)@, rows(parts@)) == Err::<
                RouteModel,
                Seq<char>,
            >(e.detail()),
        },
{
    if parts.len() == 0 {
        return Ok(());
    }
    let name = parts[0].as_slice();
    assert(rows(parts@)[0] == name@);
    if text_is(name, "methods") {
        route.methods = upper_strings(parts);
        return Ok(());
    }
    let value: Option<String> = if parts.len() < 2 {
        None
    } else {
        assert(rows(parts@)[1] == parts@[1]@);
        Some(string_of(parts[1].as_slice()))
    };
    if text_is(name, "redirect") {
        match value {
            Some(v) => route.redirect = Some(v),
            None => {
                return Err(config_error("redirect requires a URL", None));
            },
        }
    } else if text_is(name, "root") {
        match value {
            Some(v) => route.root = Some(v),
            None => {
                return Err(config_error("root requires a path", None));
            },
        }
    } else if text_is(name, "index") {
        match value {
            Some(v) => route.index = Some(v),
            None => {
                return Err(config_error("index requires a filename", None));
            },
        }
    } else if text_is(name, "cgi") {
        match value {
            Some(v) => route.cgi = Some(v),
            None => {
                return Err(config_error("cgi requires an interpreter", None));
            },
        }
    } else if text_is(name, "directory_listing") {
        match value {
            Some(_) => route.directory_listing = text_is(parts[1].as_slice(), "on"),
            None => {
                return Err(config_error("directory_listing requires on/off", None));
            },
        }
    } else if text_is(name, "upload_enabled") {
        match value {
            Some(_) => route.upload_enabled = text_is(parts[1].as_slice(), "on"),
            None => {
                return Err(config_error("upload_enabled requires on/off", None));
            },
        }
    } else {
        return Err(config_error("Unknown route directive: ", Some(name)));
    }
    Ok(())
}

/// Reads the route block that starts at line `start`. Returns the route
/// and the number of lines that the block takes.
pub fn parse_route_block(block: &Vec<Vec<char>>, start: usize) -> (r: ServerResult<
    (RouteConfig, usize),
>)
    requires
        start < block.len(),
    ensures
        match r {
            Ok(p) => route_at(rows(block@), start as nat) == Ok::<(RouteModel, nat), Seq<char>>(
                (p.0@, (start + p.1) as nat),
            ) && 1 <= p.1 && start + p.1 <= block.len(),
            Err(e) => e is Config && route_at(rows(block@), start as nat) == Err::<
                (RouteModel, nat),
                Seq<char>,
            >(e.detail()),
        },
{
    let ghost all = rows(block@);
    let first = trimmed(block[start].as_slice());
    assert(all[start as int] == block@[start as int]@);
    let parts = split_words(first.as_slice());
    if parts.len() < 2 {
        return Err(config_error("route requires a path", None));
    }
    assert(first@.skip(0) =~= first@);
    if find_char(first.as_slice(), 0, '{') >= first.len() {
        return Err(config_error("Expected '{' after route path", None));
    }
    let mut route = RouteConfig::default();
    assert(rows(parts@)[1] == parts@[1]@);
    route.path = string_of(parts[1].as_slice());
    let ghost goal = route_at(all, start as nat);
    let mut i: usize = start + 1;
    while i < block.len()
        invariant
            start < i <= block.len(),
            all == rows(block@),
            goal == route_at(all, start as nat),
            goal == route_block(all, i as nat, route@),
        decreases block.len() - i,
    {
        let line = trimmed(block[i].as_slice());
        assert(all[i as int] == block@[i as int]@);
        if is_skipped(line.as_slice()) {
            i += 1;
            continue ;
        }
        if text_is(line.as_slice(), "}") {
            return Ok((route, i + 1 - start));
        }
        let parts = split_words(line.as_slice());
        match apply_route_directive(&mut route, &parts) {
            Ok(_) => {},
            Err(e) => {
                return Err(e);
            },
        }
        i += 1;
    }
    Ok((route, i - start))
}

/// A number up to `max` that a directive gives as its value.
fn number_value(parts: &Vec<Vec<char>>, max: u64, lacking: &str, invalid: &str) -> (r: ServerResult<
    u64,
>)
    requires
        parts.len() > 0,
    ensures
        match r {
            Ok(n) => parts.len() >= 2 && parse_number(rows(parts@)[1], max as nat) == Some(
                n as nat,
            ) && n <= max,
            Err(e) => e is Config && if parts.len() < 2 {
                e.detail() == lacking@
            } else {
                parse_number(rows(parts@)[1], max as nat) is None && e.detail() == invalid@ + rows(
                    parts@,
                )[1]
            },
        },
{
    if parts.len() < 2 {
        return Err(config_error(lacking, None));
    }
    assert(rows(parts@)[1] == parts@[1]@);
    match parse_u64(parts[1].as_slice(), max) {
        Some(n) => Ok(n),
        None => Err(config_error(invalid, Some(parts[1].as_slice()))),
    }
}

/// Applies a directive of a server block other than `route`.
fn apply_server_directive(server: &mut ServerConfig, parts: &Vec<Vec<char>>) -> (r: ServerResult<
    (),
>)
    ensures
        match r {
            Ok(_) => server_directive(old(server)@, rows(parts@)) == Ok::<ServerModel, Seq<char>>(
                final(server)@,
            ),
            Err(e) => e is Config && server_directive(old(server)@, rows(parts@)) == Err::<
                ServerModel,
                Seq<char>,
            >(e.detail()),
        },
{
    if parts.len() == 0 {
        return Ok(());
    }
    let name = parts[0].as_slice();
    assert(rows(parts@)[0] == name@);
    if text_is(name, "host") {
        if parts.len() < 2 {
            return Err(config_error("host requires a value", None));
        }
        assert(rows(parts@)[1] == parts@[1]@);
        server.host = string_of(parts[1].as_slice());
    } else if text_is(name, "port") {
        match number_value(parts, 65535, "port requires a value", "Invalid port: ") {
            Ok(p) => {
                server.ports.push(p as u16);
            },
            Err(e) => {
                return Err(e);
            },
        }
    } else if text_is(name, "server_name") {
        if parts.len() < 2 {
            return Err(config_error("server_name requires a value", None));
        }
        assert(rows(parts@)[1] == parts@[1]@);
        server.server_name = Some(string_of(parts[1].as_slice()));
    } else if text_is(name, "error_page") {
        if parts.len() < 3 {
            return Err(config_error("error_page requires status code and path", None));
        }
        assert(rows(parts@)[2] == parts@[2]@);
        match number_value(
            parts,
            65535,
            "error_page requires status code and path",
            "Invalid status code: ",
        ) {
            Ok(c) => {
                let path = string_of(parts[2].as_slice());
                let ghost before = page_paths(server.error_pages@);
                let _ = server.error_pages.insert(c as u16, path);
                assert(page_paths(server.error_pages@) =~= before.insert(c as u16, parts@[2]@));
            },
            Err(e) => {
                return Err(e);
            },
        }
    } else if text_is(name, "max_body_size") {
        match number_value(
            parts,
            usize::MAX as u64,
            "max_body_size requires a value",
            "Invalid max_body_size: ",
        ) {
            Ok(n) => {
                server.max_body_size = n as usize;
            },
            Err(e) => {
                return Err(e);
            },
        }
    } else {
        return Err(config_error("Unknown directive: ", Some(name)));
    }
    Ok(())
}

/// The binding, with the initial route where it has none of its own.
fn with_route(server: ServerConfig) -> (r: ServerConfig)
    ensures
        r@ == with_initial_route(server@),
{
    let mut server = server;
    if server.routes.len() == 0 {
        server.routes.push(RouteConfig::default());
        assert(route_models(server.routes@) =~= seq![RouteModel::initial()]);
    }
    server
}

/// Reads the server block that starts at line `start`. Returns the binding
/// and the number of lines that the block takes.
pub fn parse_server_block(block: &Vec<Vec<char>>, start: usize) -> (r: ServerResult<
    (ServerConfig, usize),
>)
    requires
        start < block.len(),
    ensures
        match r {
            Ok(p) => server_at(rows(block@), start as nat) == Ok::<(ServerModel, nat), Seq<char>>(
                (p.0@, (start + p.1) as nat),
            ) && 1 <= p.1 && start + p.1 <= block.len(),
            Err(e) => e is Config && server_at(rows(block@), start as nat) == Err::<
                (ServerModel, nat),
                Seq<char>,
            >(e.detail()),
        },
{
    let ghost all = rows(block@);
    assert(all[start as int] == block@[start as int]@);
    assert(block@[start as int]@.skip(0) =~= block@[start as int]@);
    if find_char(block[start].as_slice(), 0, '{') >= block[start].len() {
        return Err(config_error("Expected '{' after server", None));
    }
    let mut server = ServerConfig::default();
    server.routes = Vec::new();
    assert(route_models(server.routes@) =~= Seq::<RouteModel>::empty());
    let ghost goal = server_block(all, (start + 1) as nat, bare_binding());
    let mut i: usize = start + 1;
    while i < block.len()
        invariant
            start < i <= block.len(),
            all == rows(block@),
            has_char(all[start as int], '{'),
            goal == server_block(all, (start + 1) as nat, bare_binding()),
            goal == server_block(all, i as nat, server@),
        decreases block.len() - i,
    {
        let line = trimmed(block[i].as_slice());
        assert(all[i as int] == block@[i as int]@);
        if is_skipped(line.as_slice()) {
            i += 1;
            continue ;
        }
        if text_is(line.as_slice(), "}") {
            return Ok((with_route(server), i + 1 - start));
        }
        let parts = split_words(line.as_slice());
        let is_route = if parts.len() > 0 {
            assert(rows(parts@)[0] == parts@[0]@);
            text_is(parts[0].as_slice(), "route")
        } else {
            false
        };
        if is_route {
            proof {
                match route_start(all[i as int]) {
                    Ok(r0) => lemma_route_block_end(all, (i + 1) as nat, r0),
                    Err(_) => {},
                }
            }
            match parse_route_block(block, i) {
                Ok((route, taken)) => {
                    let ghost before = route_models(server.routes@);
                    let ghost model = route@;
                    server.routes.push(route);
                    assert(route_models(server.routes@) =~= before.push(model));
                    i = i + taken;
                },
                Err(e) => {
                    return Err(e);
                },
            }
        } else {
            match apply_server_directive(&mut server, &parts) {
                Ok(_) => {},
                Err(e) => {
                    return Err(e);
                },
            }
            i += 1;
        }
    }
    Ok((with_route(server), i - start))
}

/// Parse configuration from string content.
pub fn parse_config(content: &str) -> (r: ServerResult<Config>)
    ensures
        match r {
            Ok(c) => configuration(content@) == Ok::<ConfigModel, Seq<char>>(c@),
            Err(e) => e is Config && configuration(content@) == Err::<ConfigModel, Seq<char>>(
                e.detail(),
            ),
        },
{
    let block = split_lines(chars_of(content).as_slice());
    let ghost all = rows(block@);
    let mut servers: Vec<ServerConfig> = Vec::new();
    assert(server_models(servers@) =~= Seq::empty());
    let ghost goal = bindings(all, 0, Seq::empty());
    let mut i: usize = 0;
    while i < block.len()
        invariant
            i <= block.len(),
            all == rows(block@),
            all == lines(content@),
            goal == bindings(all, 0, Seq::empty()),
            goal == bindings(all, i as nat, server_models(servers@)),
        decreases block.len() - i,
    {
        let line = trimmed(block[i].as_slice());
        assert(all[i as int] == block@[i as int]@);
        if !is_skipped(line.as_slice()) && starts_with_str(line.as_slice(), "server") {
            proof {
                lemma_server_block_end(all, (i + 1) as nat, bare_binding());
            }
            match parse_server_block(&block, i) {
                Ok((server, taken)) => {
                    let ghost before = server_models(servers@);
                    let ghost model = server@;
                    servers.push(server);
                    assert(server_models(servers@) =~= before.push(model));
                    i = i + taken;
                },
                Err(e) => {
                    return Err(e);
                },
            }
        } else {
            i += 1;
        }
    }
    if servers.len() == 0 {
        servers.push(ServerConfig::default());
        assert(server_models(servers@) =~= seq![ServerModel::initial()]);
    }
    Ok(Config { servers })
}

} // verus!
