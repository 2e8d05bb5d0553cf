//! Running CGI scripts: what to start, how long to wait, and what to make
//! of the output.
//!
//! The child process itself is started, fed and reaped by the caller. This
//! module decides: which command to run with which environment, whether to
//! go on waiting, and which response the captured output stands for.
use vstd::prelude::*;
use vstd::slice::slice_subrange;
use vstd::string::*;
use crate::bytes::{
    bytes_of, find_sequence, has_bytes, lemma_run_index, lossy_text, run_index, utf8_text_lossy,
};
use crate::cgi::environment::{request_environment, CgiEnvironment};
use crate::config::types::{RouteConfig, ServerConfig};
use crate::error::{CgiFailure, HttpStatus, ServerError, ServerResult};
use crate::http::request::{crlf_crlf, HttpRequest};
use crate::http::response::{error_page, page, HttpResponse, ResponseModel};
use crate::number::{parse_number, parse_u64};
use crate::split::{lines, split_lines};
use crate::text::{
    chars_of, find_char, index_of, lower, rows, slice_of, split_once_trim, split_once_trimmed,
    starts_with, string_of, text_is, to_lower, trim, trimmed,
};
use crate::utils::clock::now_secs;
use crate::utils::date::http_date;

verus! {

pub open spec fn lf_lf() -> Seq<u8> {
    seq![10u8, 10u8]
}

/// Where the header block of a script's output ends and its body starts:
/// at the first blank line that is ended by CR LF or, where there is none,
/// by LF. The header block keeps the line ending of its last line when
/// that is CR LF. `None` where the output has no blank line.
pub open spec fn cgi_boundary(out: Seq<u8>) -> Option<(nat, nat)> {
    if has_bytes(out, crlf_crlf()) {
        Some((run_index(out, crlf_crlf()) + 2, run_index(out, crlf_crlf()) + 4))
    } else if has_bytes(out, lf_lf()) {
        Some((run_index(out, lf_lf()), run_index(out, lf_lf()) + 2))
    } else {
        None
    }
}

/// The status that a `Status` header value names: the code before the
/// first space, which stands for `200 OK` where it is not a supported one.
/// `None` where the value has no space or no code before it.
pub open spec fn cgi_status(value: Seq<char>) -> Option<HttpStatus> {
    let i = index_of(value, ' ');
    if i < value.len() {
        match parse_number(value.take(i as int), 65535) {
            Some(n) => Some(
                match HttpStatus::of_code(n) {
                    Some(s) => s,
                    None => HttpStatus::Okay,
                },
            ),
            None => None,
        }
    } else {
        None
    }
}

/// A response under construction from a script's header block.
pub struct CgiHead {
    pub response: ResponseModel,
    /// Whether the script has named a content type.
    pub typed: bool,
}

/// The response after one line of the header block. A blank line and a line
/// without `:` change nothing. `Content-Type` sets the content type,
/// `Status` the status, `Location` the `Location` header; any other name is
/// passed through as a header.
pub open spec fn with_cgi_line(h: CgiHead, line: Seq<char>) -> CgiHead {
    if trim(line).len() == 0 {
        h
    } else {
        match split_once_trimmed(line, ':') {
            None => h,
            Some(p) => {
                let n = lower(p.0);
                if n == "content-type"@ {
                    CgiHead { response: h.response.with_header("Content-Type"@, p.1), typed: true }
                } else if n == "status"@ {
                    match cgi_status(p.1) {
                        Some(s) => CgiHead {
                            response: ResponseModel { status: s, ..h.response },
                            ..h
                        },
                        None => h,
                    }
                } else if n == "location"@ {
                    CgiHead { response: h.response.with_header("Location"@, p.1), ..h }
                } else {
                    CgiHead { response: h.response.with_header(p.0, p.1), ..h }
                }
            },
        }
    }
}

pub open spec fn with_cgi_lines(h: CgiHead, block: Seq<Seq<char>>) -> CgiHead
    decreases block.len(),
{
    if block.len() == 0 {
        h
    } else {
        with_cgi_line(with_cgi_lines(h, block.drop_last()), block.last())
    }
}

/// The response that a header block and a body stand for: `200 OK` unless
/// the block says otherwise, `text/html; charset=utf-8` unless the block
/// names a content type, and the body as it is.
pub open spec fn cgi_response(head: Seq<char>, body: Seq<u8>, date: Seq<char>) -> ResponseModel {
    let h = with_cgi_lines(
        CgiHead { response: ResponseModel::fresh(HttpStatus::Okay, date), typed: false },
        lines(head),
    );
    (if h.typed {
        h.response
    } else {
        h.response.with_header("Content-Type"@, "text/html; charset=utf-8"@)
    }).with_body(body)
}

/// The response that the output of a script stands for. Output without a
/// blank line is the body of a `200 OK` HTML response.
pub open spec fn cgi_output_response(out: Seq<u8>, date: Seq<char>) -> ResponseModel {
    match cgi_boundary(out) {
        None => page(HttpStatus::Okay, "text/html; charset=utf-8"@, out, date),
        Some(b) => cgi_response(lossy_text(out.take(b.0 as int)), out.skip(b.1 as int), date),
    }
}

/// The part of the request path past the route's path, without one leading `/`.
pub open spec fn path_info(request_path: Seq<char>, route_path: Seq<char>) -> Seq<char> {
    if route_path.is_prefix_of(request_path) {
        let rest = request_path.skip(route_path.len() as int);
        if rest.len() > 0 && rest[0] == '/' {
            rest.skip(1)
        } else {
            rest
        }
    } else {
        Seq::<char>::empty()
    }
}

/// What to do next about a running script.
#[derive(Debug, Clone, Copy, PartialEq, Eq, Structural)]
pub enum CgiStep {
    /// The time budget is used up: terminate the script.
    Kill,
    /// The script has exited: read what it wrote.
    Collect,
    /// Look again after this many milliseconds.
    Sleep(u64),
}

/// A script to run.
#[derive(Debug)]
pub struct CgiCommand {
    /// The program to start.
    pub interpreter: String,
    /// Its first argument: the script.
    pub script_path: String,
    /// Its environment.
    pub environment: CgiEnvironment,
    /// What to write to its standard input.
    pub input: Vec<u8>,
}

/// CGI script executor.
#[derive(Debug)]
pub struct CgiExecutor {
    timeout_ms: u64,
    max_output_size: usize,
}

impl CgiExecutor {
    pub closed spec fn spec_timeout(&self) -> u64 {
        self.timeout_ms
    }

    pub closed spec fn spec_max_output_size(&self) -> usize {
        self.max_output_size
    }

    /// Create a new CGI executor: 30 seconds, one mebibyte of output.
    pub fn new() -> (e: CgiExecutor)
        ensures
            e.spec_timeout() == 30000,
            e.spec_max_output_size() == 1048576,
    {
        CgiExecutor { timeout_ms: 30000, max_output_size: 1048576 }
    }

    /// Create CGI executor with custom settings. The time budget is given in
    /// seconds; one too large to count in milliseconds is the largest that
    /// can be.
    pub fn with_settings(timeout_secs: u64, max_output_size: usize) -> (e: CgiExecutor)
        ensures
            e.spec_timeout() == if timeout_secs * 1000 <= u64::MAX {
                (timeout_secs * 1000) as u64
            } else {
                u64::MAX
            },
            e.spec_max_output_size() == max_output_size,
    {
        let timeout_ms: u64 = if timeout_secs <= u64::MAX / 1000 {
            timeout_secs * 1000
        } else {
            u64::MAX
        };
        CgiExecutor { timeout_ms, max_output_size }
    }

    /// Set execution timeout, in milliseconds.
    pub fn set_timeout(&mut self, timeout_ms: u64)
        ensures
            final(self).spec_timeout() == timeout_ms,
            final(self).spec_max_output_size() == old(self).spec_max_output_size(),
    {
        self.timeout_ms = timeout_ms;
    }

    /// Set maximum output size.
    pub fn set_max_output_size(&mut self, size: usize)
        ensures
            final(self).spec_max_output_size() == size,
            final(self).spec_timeout() == old(self).spec_timeout(),
    {
        self.max_output_size = size;
    }

    /// Get current timeout, in milliseconds.
    pub fn timeout(&self) -> (t: u64)
        ensures
            t == self.spec_timeout(),
    {
        self.timeout_ms
    }

    /// Get maximum output size.
    pub fn max_output_size(&self) -> (n: usize)
        ensures
            n == self.spec_max_output_size(),
    {
        self.max_output_size
    }

    /// Extract path info from request path and route path.
    pub fn extract_path_info(request_path: &str, route_path: &str) -> (r: String)
        ensures
            r@ == path_info(request_path@, route_path@),
    {
        let p = chars_of(request_path);
        let r = chars_of(route_path);
        if !starts_with(p.as_slice(), r.as_slice()) {
            return String::new();
        }
        let mut from: usize = r.len();
        assert(p@.subrange(from as int, p.len() as int) =~= p@.skip(from as int));
        if from < p.len() && p[from] == '/' {
            assert(p@.subrange(from + 1, p.len() as int) =~= p@.skip(from as int).skip(1));
            from = from + 1;
        }
        string_of(slice_of(p.as_slice(), from, p.len()).as_slice())
    }

    /// Prepare the execution of a CGI script for a request: the interpreter
    /// of the route, the script as its argument, the CGI environment of the
    /// request, and the request body as input. A route without an
    /// interpreter is an error.
    pub fn execute(
        &self,
        request: &HttpRequest,
        server_config: &ServerConfig,
        route_config: &RouteConfig,
        script_path: &str,
    ) -> (r: ServerResult<CgiCommand>)
        ensures
            match r {
                Ok(c) => {
                    &&& route_config@.cgi == Some(c.interpreter@)
                    &&& c.script_path@ == script_path@
                    &&& c.environment@ == request_environment(
                        request@,
                        server_config@,
                        script_path@,
                        path_info(request@.path, route_config@.path),
                    )
                    &&& c.input@ == request@.body
                },
                Err(e) => route_config@.cgi is None && e.cgi_failure() == Some(CgiFailure::Spawn)
                    && e.detail() == "No CGI interpreter configured"@,
            },
    {
        let interpreter = match &route_config.cgi {
            Some(i) => i.clone(),
            None => {
                return Err(
                    ServerError::Cgi(
                        CgiFailure::Spawn,
                        String::from_str("No CGI interpreter configured"),
                    ),
                );
            },
        };
        let info = Self::extract_path_info(request.path.as_str(), route_config.path.as_str());
        let environment = CgiEnvironment::from_request(
            request,
            server_config,
            script_path,
            info.as_str(),
        );
        Ok(
            CgiCommand {
                interpreter,
                script_path: String::from_str(script_path),
                environment,
                input: request.body.clone(),
            },
        )
    }

    /// What to do about a script that has run for `elapsed_ms` milliseconds
    /// and has or has not exited: terminate it once its time budget is
    /// exceeded; else collect its output where it has exited; else look
    /// again in ten milliseconds.
    pub fn poll(&self, elapsed_ms: u64, exited: bool) -> (s: CgiStep)
        ensures
            s == if elapsed_ms > self.spec_timeout() {
                CgiStep::Kill
            } else if exited {
                CgiStep::Collect
            } else {
                CgiStep::Sleep(10)
            },
    {
        if elapsed_ms > self.timeout_ms {
            CgiStep::Kill
        } else if exited {
            CgiStep::Collect
        } else {
            CgiStep::Sleep(10)
        }
    }

    /// Where the header block of a script's output ends and its body starts.
    pub fn find_boundary(output: &[u8]) -> (r: Option<(usize, usize)>)
        ensures
            match r {
                Some(b) => cgi_boundary(output@) == Some((b.0 as nat, b.1 as nat)) && b.0 <= b.1
                    <= output@.len(),
                None => cgi_boundary(output@) is None,
            },
    {
        let blank_crlf: Vec<u8> = vec![13u8, 10u8, 13u8, 10u8];
        assert(blank_crlf@ =~= crlf_crlf());
        if let Some(i) = find_sequence(output, blank_crlf.as_slice()) {
            proof {
                lemma_run_index(output@, crlf_crlf());
                assert(crlf_crlf().len() == 4);
            }
            assert(i + 4 <= output.len());
            return Some((i + 2, i + 4));
        }
        let blank_lf: Vec<u8> = vec![10u8, 10u8];
        assert(blank_lf@ =~= lf_lf());
        if let Some(i) = find_sequence(output, blank_lf.as_slice()) {
            proof {
                lemma_run_index(output@, lf_lf());
                assert(lf_lf().len() == 2);
            }
            assert(i + 2 <= output.len());
            return Some((i, i + 2));
        }
        None
    }

    /// The status that a `Status` header value names.
    pub fn status_of(value: &[char]) -> (r: Option<HttpStatus>)
        ensures
            r == cgi_status(value@),
    {
        let i = find_char(value, 0, ' ');
        assert(value@.skip(0) =~= value@);
        if i >= value.len() {
            return None;
        }
        let code = slice_of(value, 0, i);
        assert(code@ =~= value@.take(i as int));
        match parse_u64(code.as_slice(), 65535) {
            Some(n) => match HttpStatus::from_u16(n as u16) {
                Some(s) => Some(s),
                None => Some(HttpStatus::Okay),
            },
            None => None,
        }
    }

    /// Applies one line of a script's header block to the response.
    fn apply_line(response: &mut HttpResponse, typed: &mut bool, line: &[char])
        ensures
            (CgiHead { response: final(response)@, typed: *final(typed) }) == with_cgi_line(
                CgiHead { response: old(response)@, typed: *old(typed) },
                line@,
            ),
    {
        if trimmed(line).len() == 0 {
            return ;
        }
        let (name, value) = match split_once_trim(line, ':') {
            Some(p) => p,
            None => {
                return ;
            },
        };
        let n = to_lower(name.as_slice());
        let value_text = string_of(value.as_slice());
        if text_is(n.as_slice(), "content-type") {
            response.set_content_type(value_text.as_str());
            *typed = true;
        } else if text_is(n.as_slice(), "status") {
            match Self::status_of(value.as_slice()) {
                Some(s) => {
                    response.set_status(s);
                },
                None => {},
            }
        } else if text_is(n.as_slice(), "location") {
            response.add_header("Location", value_text.as_str());
        } else {
            response.add_header(string_of(name.as_slice()).as_str(), value_text.as_str());
        }
    }

    /// The response that the header block `head` and the body stand for,
    /// dated `now`.
    pub fn parse_cgi_head(head: &str, body: Vec<u8>, now: u64) -> (r: HttpResponse)
        ensures
            r@ == cgi_response(head@, body@, http_date(now as nat)),
    {
        let mut response = HttpResponse::new_at(HttpStatus::Okay, now);
        let mut typed = false;
        let ghost start = CgiHead { response: response@, typed: false };
        let block = split_lines(chars_of(head).as_slice());
        let mut i: usize = 0;
        while i < block.len()
            invariant
                i <= block.len(),
                rows(block@) == lines(head@),
                (CgiHead { response: response@, typed }) == with_cgi_lines(
                    start,
                    rows(block@).take(i as int),
                ),
            decreases block.len() - i,
        {
            proof {
                assert(rows(block@).take(i + 1).drop_last() =~= rows(block@).take(i as int));
                assert(rows(block@).take(i + 1).last() == block@[i as int]@);
            }
            Self::apply_line(&mut response, &mut typed, block[i].as_slice());
            i += 1;
        }
        assert(rows(block@).take(block.len() as int) =~= rows(block@));
        if !typed {
            response.set_content_type("text/html; charset=utf-8");
        }
        response.set_body(body);
        response
    }

    /// The response that the output of a script stands for, dated `now`.
    pub fn parse_cgi_output_at(output: &[u8], now: u64) -> (r: HttpResponse)
        ensures
            r@ == cgi_output_response(output@, http_date(now as nat)),
    {
        match Self::find_boundary(output) {
            None => {
                let body = bytes_of(output, 0, output.len());
                assert(body@ =~= output@);
                HttpResponse::page_at(HttpStatus::Okay, "text/html; charset=utf-8", body, now)
            },
            Some((head_end, body_start)) => {
                let head_bytes = slice_subrange(output, 0, head_end);
                assert(head_bytes@ =~= output@.take(head_end as int));
                let head = utf8_text_lossy(head_bytes);
                let body = bytes_of(output, body_start, output.len());
                assert(body@ =~= output@.skip(body_start as int));
                Self::parse_cgi_head(head.as_str(), body, now)
            },
        }
    }

    /// Parse CGI output into HTTP response.
    pub fn parse_cgi_output(&self, output: &[u8]) -> (r: ServerResult<HttpResponse>)
        ensures
            r is Ok,
            exists|t: nat| r->Ok_0@ == #[trigger] cgi_output_response(output@, http_date(t)),
    {
        let now = now_secs();
        let r = Self::parse_cgi_output_at(output, now);
        assert(r@ == cgi_output_response(output@, http_date(now as nat)));
        Ok(r)
    }

    /// What a script that has ended stands for, dated `now`: output above
    /// the size cap is an error; a failure status is answered with an
    /// internal-server-error page; else the output is parsed.
    pub fn finish_at(&self, exit_ok: bool, stdout: &[u8], now: u64) -> (r: ServerResult<
        HttpResponse,
    >)
        ensures
            match r {
                Ok(p) => stdout@.len() <= self.spec_max_output_size() && p@ == finished(
                    exit_ok,
                    stdout@,
                    http_date(now as nat),
                ),
                Err(e) => stdout@.len() > self.spec_max_output_size() && e.cgi_failure() == Some(
                    CgiFailure::Oversize,
                ) && e.detail() == "CGI output too large"@,
            },
    {
        if stdout.len() > self.max_output_size {
            return Err(
                ServerError::Cgi(CgiFailure::Oversize, String::from_str("CGI output too large")),
            );
        }
        if !exit_ok {
            return Ok(
                HttpResponse::error_at(
                    HttpStatus::InternalServerError,
                    Some("CGI script execution failed"),
                    now,
                ),
            );
        }
        Ok(Self::parse_cgi_output_at(stdout, now))
    }

    /// What a script that has ended stands for.
    pub fn finish(&self, exit_ok: bool, stdout: &[u8]) -> (r: ServerResult<HttpResponse>)
        ensures
            match r {
                Ok(p) => stdout@.len() <= self.spec_max_output_size() && exists|t: nat|
                    p@ == #[trigger] finished(exit_ok, stdout@, http_date(t)),
                Err(e) => stdout@.len() > self.spec_max_output_size() && e.cgi_failure() == Some(
                    CgiFailure::Oversize,
                ) && e.detail() == "CGI output too large"@,
            },
    {
        let now = now_secs();
        let r = self.finish_at(exit_ok, stdout, now);
        if let Ok(p) = &r {
            assert(p@ == finished(exit_ok, stdout@, http_date(now as nat)));
        }
        r
    }
}

/// The response for a script that has ended within the size cap.
pub open spec fn finished(exit_ok: bool, stdout: Seq<u8>, date: Seq<char>) -> ResponseModel {
    if exit_ok {
        cgi_output_response(stdout, date)
    } else {
        error_page(
            HttpStatus::InternalServerError,
            Some("CGI script execution failed"@),
            date,
        )
    }
}

impl Default for CgiExecutor {
    fn default() -> (e: Self)
        ensures
            e.spec_timeout() == 30000,
            e.spec_max_output_size() == 1048576,
    {
        CgiExecutor::new()
    }
}

} // verus!
