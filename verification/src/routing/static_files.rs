//! Static file serving: where a request path leads in the file system, and
//! the responses for files and directories.
//!
//! Looking at the file system is the caller's part. This module says which
//! path to look at, whether a resolved path stays below its root, and which
//! response stands for what was found there.
use vstd::prelude::*;
use vstd::string::*;
use vstd::utf8::encode_utf8;
use crate::error::{HttpStatus, ServerError, ServerResult};
use crate::http::headers::header_value;
use crate::http::response::{
    error_page, lemma_body_set, lemma_content_length_name, lemma_fresh_wf, lemma_header_set,
    lemma_with_body_wf, lemma_with_header_wf, page, HttpResponse, ResponseModel,
};
use crate::number::{dec, u64_to_string};
use crate::strmap::Pairs;
use crate::text::{
    chars_of, flagged, lower, push_flagged, slice_of, starts_with, string_of, text_is,
};
use crate::utils::clock::now_secs;
use crate::utils::date::{fmt_http_date, format_time, http_date, plain_date};
use crate::utils::mime::{
    default_types, lemma_txt_is_plain_text, path_extension, type_for, MimeDetector,
};

verus! {

/// The request path relative to its route: without the route's path at the
/// front, where it starts with that, and without one leading `/`.
pub open spec fn relative_path(request_path: Seq<char>, route_path: Seq<char>) -> Seq<char> {
    let rest = if route_path.is_prefix_of(request_path) {
        request_path.skip(route_path.len() as int)
    } else {
        request_path
    };
    if rest.len() > 0 && rest[0] == '/' {
        rest.skip(1)
    } else {
        rest
    }
}

/// `root` extended by the relative path `rel`: with a `/` between them
/// where `root` does not end in one. An empty `rel` adds nothing, and a
/// `rel` that starts with `/` stands for itself.
pub open spec fn joined(root: Seq<char>, rel: Seq<char>) -> Seq<char> {
    if rel.len() == 0 {
        root
    } else if rel[0] == '/' {
        rel
    } else {
        root + flagged("/"@, root.len() > 0 && root.last() != '/') + rel
    }
}

/// The file system path for a request path under a route with the given root.
pub open spec fn resolved(root: Seq<char>, request_path: Seq<char>, route_path: Seq<char>) -> Seq<
    char,
> {
    joined(root, relative_path(request_path, route_path))
}

/// Whether the canonical path `path` lies at or below the canonical path
/// `root`: it is `root`, or starts with `root` and goes on with `/`.
pub open spec fn within_root(root: Seq<char>, path: Seq<char>) -> bool {
    root.is_prefix_of(path) && (path.len() == root.len() || (root.len() > 0 && root.last() == '/')
        || path[root.len() as int] == '/')
}

/// What was found at a path.
#[derive(Debug)]
pub enum FileState {
    /// Nothing is there.
    Missing,
    /// Something is there that is no regular file.
    NotAFile,
    /// A file is there and cannot be read, for the reason given.
    Unreadable(String),
    /// A file with these contents, last modified at this time in seconds
    /// since the epoch, where that is known.
    File { content: Vec<u8>, modified: Option<u64> },
}

/// The response for a file with the given contents.
pub open spec fn file_response(
    content_type: Seq<char>,
    content: Seq<u8>,
    modified: Option<u64>,
    date: Seq<char>,
) -> ResponseModel {
    with_caching(page(HttpStatus::Okay, content_type, content, date), modified)
}

/// A response with the caching headers of a file: when the file was last
/// modified, where that is known, and for how long it may be kept.
pub open spec fn with_caching(r: ResponseModel, modified: Option<u64>) -> ResponseModel {
    (match modified {
        Some(t) => r.with_header("Last-Modified"@, http_date(t as nat)),
        None => r,
    }).with_header("Cache-Control"@, "public, max-age=3600"@)
}

/// What is said of a file that cannot be read.
pub open spec fn unreadable(file: FileState) -> Option<Seq<char>> {
    match file {
        FileState::Unreadable(reason) => Some("Failed to read file: "@ + reason@),
        _ => None,
    }
}

/// The response for what was found at a path: the file with the content
/// type of its extension; `404` for nothing; `403` for what is no file.
/// There is none for a file that cannot be read.
pub open spec fn served_file(
    types: Pairs,
    path: Seq<char>,
    file: FileState,
    date: Seq<char>,
) -> Option<ResponseModel> {
    match file {
        FileState::Missing => Some(
            error_page(HttpStatus::NotFound, Some("File not found"@), date),
        ),
        FileState::NotAFile => Some(error_page(HttpStatus::Forbidden, Some("Not a file"@), date)),
        FileState::Unreadable(_) => None,
        FileState::File { content, modified } => Some(
            file_response(type_for(types, path_extension(path)), content@, modified, date),
        ),
    }
}

/// A file whose name ends in `.txt`, whatever the case of the letters, is
/// served from the table that a server starts with as plain text: the
/// status is `200`, the body is the contents, `Content-Length` is their
/// length, and the response may be kept for an hour.
pub proof fn lemma_text_file_served(
    path: Seq<char>,
    content: Vec<u8>,
    modified: Option<u64>,
    date: Seq<char>,
)
    requires
        path_extension(path) == Some("txt"@),
    ensures
        ({
            let r = served_file(
                default_types(),
                path,
                FileState::File { content, modified },
                date,
            );
            &&& r is Some
            &&& (r->0).wf()
            &&& (r->0).status == HttpStatus::Okay
            &&& (r->0).body == content@
            &&& header_value((r->0).headers, "Content-Length"@) == Some(dec(content@.len()))
            &&& header_value((r->0).headers, "Content-Type"@) == Some("text/plain; charset=utf-8"@)
            &&& header_value((r->0).headers, "Cache-Control"@) == Some("public, max-age=3600"@)
        }),
{
    lemma_txt_is_plain_text();
    lemma_content_length_name();
    reveal_strlit("Content-Type");
    reveal_strlit("Last-Modified");
    reveal_strlit("Cache-Control");
    reveal_strlit("content-length");
    let ct = "text/plain; charset=utf-8"@;
    let cl = lower("Content-Length"@);
    let ty = lower("Content-Type"@);
    let lm = lower("Last-Modified"@);
    let cc = lower("Cache-Control"@);
    assert(ty.len() == 12 && lm.len() == 13 && cc.len() == 13 && cl.len() == 14);
    assert(lm[0] == 'l' && cc[0] == 'c');
    let r0 = ResponseModel::fresh(HttpStatus::Okay, date);
    lemma_fresh_wf(HttpStatus::Okay, date);
    let r1 = r0.with_header("Content-Type"@, ct);
    lemma_with_header_wf(r0, "Content-Type"@, ct);
    lemma_header_set(r0, "Content-Type"@, ct, "Content-Type"@);
    let r2 = r1.with_body(content@);
    lemma_with_body_wf(r1, content@);
    lemma_body_set(r1, content@, "Content-Type"@);
    lemma_body_set(r1, content@, "Content-Length"@);
    let r3 = match modified {
        Some(t) => r2.with_header("Last-Modified"@, http_date(t as nat)),
        None => r2,
    };
    if let Some(t) = modified {
        lemma_with_header_wf(r2, "Last-Modified"@, http_date(t as nat));
        lemma_header_set(r2, "Last-Modified"@, http_date(t as nat), "Content-Type"@);
        lemma_header_set(r2, "Last-Modified"@, http_date(t as nat), "Content-Length"@);
    }
    let r4 = r3.with_header("Cache-Control"@, "public, max-age=3600"@);
    lemma_with_header_wf(r3, "Cache-Control"@, "public, max-age=3600"@);
    lemma_header_set(r3, "Cache-Control"@, "public, max-age=3600"@, "Content-Type"@);
    lemma_header_set(r3, "Cache-Control"@, "public, max-age=3600"@, "Content-Length"@);
    lemma_header_set(r3, "Cache-Control"@, "public, max-age=3600"@, "Cache-Control"@);
}

/// What is to be done about a directory.
#[derive(Debug, Clone, Copy, PartialEq, Eq, Structural)]
pub enum DirectoryStep {
    /// Serve the index file.
    ServeIndex,
    /// Generate a listing.
    List,
    /// Answer `403 Forbidden`.
    Forbid,
}

/// An entry of a directory.
#[derive(Debug)]
pub struct DirEntry {
    pub name: String,
    pub is_dir: bool,
    /// The size in bytes, where it is known.
    pub size: Option<u64>,
    /// The time of the last modification in seconds since the epoch, where
    /// it is known.
    pub modified: Option<u64>,
}

/// What a directory entry holds.
pub struct EntryModel {
    pub name: Seq<char>,
    pub is_dir: bool,
    pub size: Option<u64>,
    pub modified: Option<u64>,
}

impl View for DirEntry {
    type V = EntryModel;

    open spec fn view(&self) -> EntryModel {
        EntryModel {
            name: self.name@,
            is_dir: self.is_dir,
            size: self.size,
            modified: self.modified,
        }
    }
}

pub open spec fn entry_models(v: Seq<DirEntry>) -> Seq<EntryModel> {
    Seq::new(v.len(), |i: int| v[i]@)
}

/// Whether the name `a` stands before the name `b`, or is `b`: names are
/// compared character by character, and a name stands before every name
/// that it is the beginning of.
pub open spec fn name_le(a: Seq<char>, b: Seq<char>) -> bool
    decreases a.len(),
{
    if a.len() == 0 {
        true
    } else if b.len() == 0 {
        false
    } else if a[0] != b[0] {
        a[0] < b[0]
    } else {
        name_le(a.skip(1), b.skip(1))
    }
}

/// Whether `a` may stand before `b` in a listing: directories stand before
/// files, and among themselves entries go by name.
pub open spec fn entry_le(a: EntryModel, b: EntryModel) -> bool {
    if a.is_dir != b.is_dir {
        a.is_dir
    } else {
        name_le(a.name, b.name)
    }
}

pub open spec fn listing_order(s: Seq<EntryModel>) -> bool {
    forall|i: int, j: int| 0 <= i < j < s.len() ==> entry_le(#[trigger] s[i], #[trigger] s[j])
}

pub proof fn lemma_name_le_total(a: Seq<char>, b: Seq<char>)
    ensures
        name_le(a, b) || name_le(b, a),
    decreases a.len(),
{
    if a.len() > 0 && b.len() > 0 && a[0] == b[0] {
        lemma_name_le_total(a.skip(1), b.skip(1));
    }
}

pub proof fn lemma_name_le_trans(a: Seq<char>, b: Seq<char>, c: Seq<char>)
    requires
        name_le(a, b),
        name_le(b, c),
    ensures
        name_le(a, c),
    decreases a.len(),
{
    if a.len() > 0 && b.len() > 0 && c.len() > 0 {
        if a[0] == b[0] && b[0] == c[0] {
            lemma_name_le_trans(a.skip(1), b.skip(1), c.skip(1));
        }
    }
}

pub proof fn lemma_entry_le(a: EntryModel, b: EntryModel, c: EntryModel)
    ensures
        entry_le(a, b) || entry_le(b, a),
        entry_le(a, b) && entry_le(b, c) ==> entry_le(a, c),
{
    lemma_name_le_total(a.name, b.name);
    if entry_le(a, b) && entry_le(b, c) {
        if a.is_dir == b.is_dir && b.is_dir == c.is_dir {
            lemma_name_le_trans(a.name, b.name, c.name);
        }
    }
}

/// The size of a file as a listing shows it: in bytes below 1024, else in
/// the largest unit up to `TB` of which it holds one at least, with one
/// decimal place, rounded to the nearest and from the middle to the even.
pub open spec fn file_size_text(size: u64) -> Seq<char> {
    if size < 1024 {
        dec(size as nat) + " B"@
    } else {
        let k: nat = if size < 1048576 {
            1
        } else if size < 1073741824 {
            2
        } else if size < 1099511627776 {
            3
        } else {
            4
        };
        let unit: nat = if k == 1 {
            1024
        } else if k == 2 {
            1048576
        } else if k == 3 {
            1073741824
        } else {
            1099511627776
        };
        let q = (size * 10) as nat / unit;
        let r = (size * 10) as nat % unit;
        let tenths = if 2 * r > unit || (2 * r == unit && q % 2 == 1) {
            q + 1
        } else {
            q
        };
        dec(tenths / 10) + "."@ + dec(tenths % 10) + (if k == 1 {
            " KB"@
        } else if k == 2 {
            " MB"@
        } else if k == 3 {
            " GB"@
        } else {
            " TB"@
        })
    }
}

/// Format file size in human-readable format.
pub fn format_file_size(size: u64) -> (r: String)
    ensures
        r@ == file_size_text(size),
{
    if size < 1024 {
        let mut r = u64_to_string(size);
        r.append(" B");
        return r;
    }
    let (unit, label): (u128, &str) = if size < 1048576 {
        (1024, " KB")
    } else if size < 1073741824 {
        (1048576, " MB")
    } else if size < 1099511627776 {
        (1073741824, " GB")
    } else {
        (1099511627776, " TB")
    };
    let scaled: u128 = (size as u128) * 10;
    let q: u128 = scaled / unit;
    let rem: u128 = scaled % unit;
    let tenths: u128 = if 2 * rem > unit || (2 * rem == unit && q % 2 == 1) {
        q + 1
    } else {
        q
    };
    assert(tenths / 10 <= u64::MAX);
    let mut r = u64_to_string((tenths / 10) as u64);
    r.append(".");
    r.append(u64_to_string((tenths % 10) as u64).as_str());
    r.append(label);
    r
}

/// The link to the parent directory in the listing of `url`, where `url`
/// is not the root.
pub open spec fn parent_link(url: Seq<char>) -> Seq<char> {
    if url == "/"@ {
        Seq::<char>::empty()
    } else {
        "<p><a href=\""@ + (if url.len() > 0 && url.last() == '/' {
            url + "../"@
        } else {
            url.take(
                if crate::utils::mime::last_index_of(url, '/') >= 0 {
                    crate::utils::mime::last_index_of(url, '/')
                } else {
                    0
                },
            ) + "/"@
        }) + "\">📁 Parent Directory</a></p>\n"@
    }
}

/// The table row of an entry in the listing of `url`: a link to the entry,
/// its size, `-` for a directory or an unknown size, and the time of its
/// last modification, `-` where that is unknown.
pub open spec fn entry_row(url: Seq<char>, e: EntryModel) -> Seq<char> {
    "<tr><td><a href=\""@ + url + flagged("/"@, !(url.len() > 0 && url.last() == '/')) + e.name
        + "\">"@ + (if e.is_dir {
        "📁 "@
    } else {
        "📄 "@
    }) + e.name + flagged("/"@, e.is_dir) + "</a></td><td class=\"size\">"@ + (match (
        e.is_dir,
        e.size,
    ) {
        (false, Some(n)) => file_size_text(n),
        _ => "-"@,
    }) + "</td><td class=\"date\">"@ + (match e.modified {
        Some(t) => plain_date(t as nat),
        None => "-"@,
    }) + "</td></tr>\n"@
}

pub open spec fn entry_rows(url: Seq<char>, s: Seq<EntryModel>) -> Seq<char>
    decreases s.len(),
{
    if s.len() == 0 {
        Seq::<char>::empty()
    } else {
        entry_rows(url, s.drop_last()) + entry_row(url, s.last())
    }
}

pub const LISTING_TOP: &'static str =
    "<!DOCTYPE html>\n<html><head>\n<title>Directory Listing</title>\n<style>\nbody { font-family: Arial, sans-serif; margin: 40px; }\nh1 { color: #333; }\ntable { border-collapse: collapse; width: 100%; }\nth, td { text-align: left; padding: 8px 12px; border-bottom: 1px solid #ddd; }\nth { background-color: #f5f5f5; }\na { text-decoration: none; color: #0066cc; }\na:hover { text-decoration: underline; }\n.size { text-align: right; }\n.date { white-space: nowrap; }\n</style>\n</head><body>\n<h1>Directory listing for ";

pub const LISTING_TABLE: &'static str =
    "<table>\n<tr><th>Name</th><th>Size</th><th>Modified</th></tr>\n";

pub const LISTING_BOTTOM: &'static str = "</table>\n</body></html>";

/// The HTML listing of a directory at `url` with the given entries, in the
/// order given.
pub open spec fn listing_html(url: Seq<char>, s: Seq<EntryModel>) -> Seq<char> {
    LISTING_TOP@ + url + "</h1>\n"@ + parent_link(url) + LISTING_TABLE@ + entry_rows(url, s)
        + LISTING_BOTTOM@
}

/// Static file server.
pub struct StaticFileServer {
    mime_detector: MimeDetector,
}

impl StaticFileServer {
    /// The table of content types by extension.
    pub closed spec fn types(&self) -> Pairs {
        self.mime_detector@
    }

    /// Create a new static file server.
    pub fn new() -> (s: StaticFileServer)
        ensures
            s.types() == crate::utils::mime::default_types(),
    {
        StaticFileServer { mime_detector: MimeDetector::new() }
    }

    /// The file system path for a request: the request path, relative to
    /// its route, below the route's root.
    pub fn resolve_path(&self, root: &str, request_path: &str, route_path: &str) -> (r: String)
        ensures
            r@ == resolved(root@, request_path@, route_path@),
    {
        let q = chars_of(request_path);
        let p = chars_of(route_path);
        let mut from: usize = if starts_with(q.as_slice(), p.as_slice()) {
            p.len()
        } else {
            0
        };
        assert(q@.skip(0) =~= q@);
        if from < q.len() && q[from] == '/' {
            assert(q@.skip(from as int).skip(1) =~= q@.skip(from + 1));
            from = from + 1;
        }
        let rel = slice_of(q.as_slice(), from, q.len());
        assert(rel@ =~= relative_path(request_path@, route_path@));
        if rel.len() == 0 {
            return String::from_str(root);
        }
        if rel[0] == '/' {
            return string_of(rel.as_slice());
        }
        let r = chars_of(root);
        let mut out = String::from_str(root);
        push_flagged(&mut out, "/", r.len() > 0 && r[r.len() - 1] != '/');
        out.append(string_of(rel.as_slice()).as_str());
        out
    }

    /// Checks that a resolved path stays below its root, given the root,
    /// its canonical form where it has one and, where the path exists,
    /// that of the path. A root without a canonical form is a
    /// configuration error; a path that leaves the root is a forbidden
    /// request.
    pub fn check_traversal(
        root: &str,
        canonical_root: Option<&str>,
        canonical_path: Option<&str>,
    ) -> (r: Result<(), (HttpStatus, ServerError)>)
        ensures
            match r {
                Ok(_) => canonical_root is Some && (canonical_path is Some ==> within_root(
                    canonical_root->0@,
                    canonical_path->0@,
                )),
                Err(e) => if canonical_root is None {
                    &&& e.0 == HttpStatus::InternalServerError
                    &&& e.1 is Config
                    &&& e.1.detail() == "Invalid root directory: "@ + root@
                } else {
                    &&& canonical_path is Some
                    &&& !within_root(canonical_root->0@, canonical_path->0@)
                    &&& e.0 == HttpStatus::Forbidden
                    &&& e.1 is Http
                    &&& e.1.detail() == "Path traversal attempt detected"@
                },
            },
    {
        let root = match canonical_root {
            Some(r) => chars_of(r),
            None => {
                let mut m = String::from_str("Invalid root directory: ");
                m.append(root);
                return Err((HttpStatus::InternalServerError, ServerError::Config(m)));
            },
        };
        if let Some(p) = canonical_path {
            let path = chars_of(p);
            let inside = starts_with(path.as_slice(), root.as_slice()) && (path.len() == root.len()
                || (root.len() > 0 && root[root.len() - 1] == '/') || path[root.len()] == '/');
            if !inside {
                return Err(
                    (
                        HttpStatus::Forbidden,
                        ServerError::Http(String::from_str("Path traversal attempt detected")),
                    ),
                );
            }
        }
        Ok(())
    }

    /// Adds the caching headers of a file to a response.
    pub fn add_caching_headers(response: &mut HttpResponse, modified: Option<u64>)
        ensures
            final(response)@ == with_caching(old(response)@, modified),
    {
        if let Some(t) = modified {
            response.add_header("Last-Modified", fmt_http_date(t).as_str());
        }
        response.add_header("Cache-Control", "public, max-age=3600");
    }

    /// Serve a file from the filesystem, dated `now`: its contents with the
    /// content type of its extension, `Last-Modified` and `Cache-Control`;
    /// `404` for nothing, `403` for what is no file; an error for a file
    /// that cannot be read.
    pub fn serve_file_at(&self, file_path: &str, file: FileState, now: u64) -> (r: ServerResult<
        HttpResponse,
    >)
        ensures
            match r {
                Ok(p) => served_file(self.types(), file_path@, file, http_date(now as nat)) == Some(
                    p@,
                ),
                Err(e) => e is Http && unreadable(file) == Some(e.detail()),
            },
    {
        match file {
            FileState::Missing => Ok(
                HttpResponse::error_at(HttpStatus::NotFound, Some("File not found"), now),
            ),
            FileState::NotAFile => Ok(
                HttpResponse::error_at(HttpStatus::Forbidden, Some("Not a file"), now),
            ),
            FileState::Unreadable(reason) => {
                let mut m = String::from_str("Failed to read file: ");
                m.append(reason.as_str());
                Err(ServerError::Http(m))
            },
            FileState::File { content, modified } => {
                let content_type = self.mime_detector.detect_from_path(file_path);
                let mut response = HttpResponse::page_at(
                    HttpStatus::Okay,
                    content_type.as_str(),
                    content,
                    now,
                );
                Self::add_caching_headers(&mut response, modified);
                Ok(response)
            },
        }
    }

    /// Serve a file from the filesystem.
    pub fn serve_file(&self, file_path: &str, file: FileState) -> (r: ServerResult<HttpResponse>)
        ensures
            match r {
                Ok(p) => exists|t: nat|
                    #[trigger] served_file(self.types(), file_path@, file, http_date(t)) == Some(
                        p@,
                    ),
                Err(e) => e is Http && unreadable(file) == Some(e.detail()),
            },
    {
        let now = now_secs();
        let r = self.serve_file_at(file_path, file, now);
        proof {
            if let Ok(p) = &r {
                assert(served_file(self.types(), file_path@, file, http_date(now as nat)) == Some(
                    p@,
                ));
            }
        }
        r
    }

    /// Serve a directory: what is to be done about it. The index file is
    /// served where the route names one and it is there; else the
    /// directory is listed where listing is allowed, and forbidden where
    /// it is not.
    pub fn serve_directory(&self, index_file: Option<&str>, index_exists: bool, allow_listing: bool) -> (r:
        DirectoryStep)
        ensures
            r == if index_file is Some && index_exists {
                DirectoryStep::ServeIndex
            } else if allow_listing {
                DirectoryStep::List
            } else {
                DirectoryStep::Forbid
            },
    {
        if index_file.is_some() && index_exists {
            DirectoryStep::ServeIndex
        } else if allow_listing {
            DirectoryStep::List
        } else {
            DirectoryStep::Forbid
        }
    }

    /// Whether the name `a` stands before the name `b`, or is `b`.
    pub fn name_before(a: &[char], b: &[char]) -> (r: bool)
        ensures
            r == name_le(a@, b@),
    {
        let mut i: usize = 0;
        assert(a@.skip(0) =~= a@);
        assert(b@.skip(0) =~= b@);
        loop
            invariant
                i <= a.len(),
                i <= b.len(),
                name_le(a@, b@) == name_le(a@.skip(i as int), b@.skip(i as int)),
            decreases a.len() - i,
        {
            if i >= a.len() {
                return true;
            }
            if i >= b.len() {
                return false;
            }
            if a[i] != b[i] {
                return a[i] < b[i];
            }
            assert(a@.skip(i as int).skip(1) =~= a@.skip(i + 1));
            assert(b@.skip(i as int).skip(1) =~= b@.skip(i + 1));
            i += 1;
        }
    }

    /// Whether `a` may stand before `b` in a listing.
    pub fn entry_before(a: &DirEntry, b: &DirEntry) -> (r: bool)
        ensures
            r == entry_le(a@, b@),
    {
        if a.is_dir != b.is_dir {
            a.is_dir
        } else {
            Self::name_before(
                chars_of(a.name.as_str()).as_slice(),
                chars_of(b.name.as_str()).as_slice(),
            )
        }
    }

    /// The entries in the order of a listing: directories first, then
    /// files, each by name.
    pub fn sort_entries(entries: Vec<DirEntry>) -> (r: Vec<DirEntry>)
        ensures
            listing_order(entry_models(r@)),
            entry_models(r@).to_multiset() == entry_models(entries@).to_multiset(),
    {
        broadcast use vstd::multiset::group_multiset_axioms;

        let ghost all = entry_models(entries@);
        let mut input = entries;
        let mut out: Vec<DirEntry> = Vec::new();
        assert(entry_models(out@) =~= Seq::<EntryModel>::empty());
        assert(entry_models(out@).to_multiset().add(all.to_multiset()) =~= all.to_multiset()) by {
            entry_models(out@).to_multiset_ensures();
            assert(entry_models(out@).to_multiset().len() == 0);
        }
        while input.len() > 0
            invariant
                listing_order(entry_models(out@)),
                entry_models(out@).to_multiset().add(entry_models(input@).to_multiset())
                    == all.to_multiset(),
            decreases input@.len(),
        {
            let ghost before_in = entry_models(input@);
            let ghost before_out = entry_models(out@);
            let e = input.pop().unwrap();
            assert(before_in =~= entry_models(input@).push(e@));
            let mut pos: usize = 0;
            while pos < out.len() && Self::entry_before(&out[pos], &e)
                invariant
                    pos <= out@.len(),
                    before_out == entry_models(out@),
                    forall|k: int| 0 <= k < pos ==> entry_le(#[trigger] before_out[k], e@),
                decreases out@.len() - pos,
            {
                pos += 1;
            }
            let ghost model = e@;
            out.insert(pos, e);
            let ghost after = entry_models(out@);
            assert(after =~= before_out.insert(pos as int, model));
            assert(listing_order(after)) by {
                assert forall|i: int, j: int| 0 <= i < j < after.len() implies entry_le(
                    #[trigger] after[i],
                    #[trigger] after[j],
                ) by {
                    if j < pos {
                        assert(after[i] == before_out[i] && after[j] == before_out[j]);
                    } else if j == pos {
                        assert(after[i] == before_out[i]);
                    } else if i == pos {
                        // `model` stands before what stood at `pos`, which
                        // stands before all that followed it
                        lemma_entry_le(model, before_out[pos as int], before_out[j - 1]);
                        lemma_entry_le(before_out[pos as int], model, model);
                        assert(after[j] == before_out[j - 1]);
                        if j - 1 > pos {
                            assert(entry_le(before_out[pos as int], before_out[j - 1]));
                        }
                    } else if i < pos {
                        assert(after[i] == before_out[i] && after[j] == before_out[j - 1]);
                    } else {
                        assert(after[i] == before_out[i - 1] && after[j] == before_out[j - 1]);
                    }
                }
            }
            proof {
                vstd::seq_lib::to_multiset_insert(before_out, pos as int, model);
                vstd::seq_lib::to_multiset_build(entry_models(input@), model);
                assert(after.to_multiset() == before_out.to_multiset().insert(model));
                assert(before_in.to_multiset() == entry_models(input@).to_multiset().insert(model));
            }
            assert(after.to_multiset().add(entry_models(input@).to_multiset())
                =~= before_out.to_multiset().add(before_in.to_multiset()));
        }
        assert(entry_models(input@).to_multiset() =~= vstd::multiset::Multiset::empty()) by {
            entry_models(input@).to_multiset_ensures();
            assert(entry_models(input@).to_multiset().len() == 0);
        }
        assert(entry_models(out@).to_multiset().add(vstd::multiset::Multiset::empty())
            =~= entry_models(out@).to_multiset());
        out
    }

    /// Appends the table row of an entry.
    fn push_row(html: &mut String, url: &str, slash: bool, e: &DirEntry)
        requires
            slash == !(url@.len() > 0 && url@.last() == '/'),
        ensures
            final(html)@ == old(html)@ + entry_row(url@, e@),
    {
        let mut row = String::from_str("<tr><td><a href=\"");
        row.append(url);
        push_flagged(&mut row, "/", slash);
        row.append(e.name.as_str());
        row.append("\">");
        if e.is_dir {
            row.append("📁 ");
        } else {
            row.append("📄 ");
        }
        row.append(e.name.as_str());
        push_flagged(&mut row, "/", e.is_dir);
        row.append("</a></td><td class=\"size\">");
        match (e.is_dir, e.size) {
            (false, Some(n)) => row.append(format_file_size(n).as_str()),
            _ => row.append("-"),
        }
        row.append("</td><td class=\"date\">");
        match e.modified {
            Some(t) => row.append(format_time(t).as_str()),
            None => row.append("-"),
        }
        row.append("</td></tr>\n");
        assert(row@ == entry_row(url@, e@));
        html.append(row.as_str());
    }

    /// The HTML listing of a directory at `url_path` with the given
    /// entries, in the order given.
    pub fn render_listing(entries: &Vec<DirEntry>, url_path: &str) -> (r: String)
        ensures
            r@ == listing_html(url_path@, entry_models(entries@)),
    {
        let url = chars_of(url_path);
        let slash = !(url.len() > 0 && url[url.len() - 1] == '/');
        let mut parent = String::new();
        if !text_is(url.as_slice(), "/") {
            parent.append("<p><a href=\"");
            if !slash {
                parent.append(url_path);
                parent.append("../");
            } else {
                let cut: usize = match crate::utils::mime::find_last(url.as_slice(), '/') {
                    Some(i) => i,
                    None => 0,
                };
                let head = slice_of(url.as_slice(), 0, cut);
                assert(head@ =~= url@.take(cut as int));
                parent.append(string_of(head.as_slice()).as_str());
                parent.append("/");
            }
            parent.append("\">📁 Parent Directory</a></p>\n");
        }
        assert(parent@ =~= parent_link(url_path@));
        let mut html = String::from_str(LISTING_TOP);
        html.append(url_path);
        html.append("</h1>\n");
        html.append(parent.as_str());
        html.append(LISTING_TABLE);
        let mut rows = String::new();
        let ghost models = entry_models(entries@);
        let mut i: usize = 0;
        assert(models.take(0) =~= Seq::<EntryModel>::empty());
        while i < entries.len()
            invariant
                i <= entries.len(),
                models == entry_models(entries@),
                slash == !(url_path@.len() > 0 && url_path@.last() == '/'),
                rows@ == entry_rows(url_path@, models.take(i as int)),
            decreases entries.len() - i,
        {
            proof {
                assert(models.take(i + 1).drop_last() =~= models.take(i as int));
                assert(models.take(i + 1).last() == entries@[i as int]@);
            }
            Self::push_row(&mut rows, url_path, slash, &entries[i]);
            i += 1;
        }
        assert(models.take(entries.len() as int) =~= models);
        html.append(rows.as_str());
        html.append(LISTING_BOTTOM);
        html
    }

    /// Generate HTML directory listing, dated `now`: the entries in the
    /// order of a listing, as an HTML page.
    pub fn generate_directory_listing_at(&self, entries: Vec<DirEntry>, url_path: &str, now: u64) -> (r:
        HttpResponse)
        ensures
            is_listing(r@, entry_models(entries@), url_path@, http_date(now as nat)),
    {
        let sorted = Self::sort_entries(entries);
        let html = Self::render_listing(&sorted, url_path);
        let r = HttpResponse::html_at(HttpStatus::Okay, html.as_str(), now);
        assert(listing_order(entry_models(sorted@)) && entry_models(sorted@).to_multiset()
            == entry_models(entries@).to_multiset() && r@ == listing_page(
            url_path@,
            entry_models(sorted@),
            http_date(now as nat),
        ));
        r
    }

    /// Generate HTML directory listing.
    pub fn generate_directory_listing(&self, entries: Vec<DirEntry>, url_path: &str) -> (r:
        HttpResponse)
        ensures
            exists|t: nat| #[trigger] is_listing(r@, entry_models(entries@), url_path@, http_date(t)),
    {
        let now = now_secs();
        let ghost models = entry_models(entries@);
        let r = self.generate_directory_listing_at(entries, url_path, now);
        assert(is_listing(r@, models, url_path@, http_date(now as nat)));
        r
    }
}

/// The response that lists the given entries in the order given.
pub open spec fn listing_page(url: Seq<char>, s: Seq<EntryModel>, date: Seq<char>) -> ResponseModel {
    page(HttpStatus::Okay, "text/html; charset=utf-8"@, encode_utf8(listing_html(url, s)), date)
}

/// Whether `r` is the listing of a directory at `url` with the given
/// entries: the page that lists them, each once, directories first and
/// each kind by name.
pub open spec fn is_listing(
    r: ResponseModel,
    entries: Seq<EntryModel>,
    url: Seq<char>,
    date: Seq<char>,
) -> bool {
    exists|s: Seq<EntryModel>|
        listing_order(s) && s.to_multiset() == entries.to_multiset() && r == #[trigger] listing_page(
            url,
            s,
            date,
        )
}

impl Default for StaticFileServer {
    fn default() -> (s: Self)
        ensures
            s.types() == crate::utils::mime::default_types(),
    {
        StaticFileServer::new()
    }
}

} // verus!
