//! Error page generation and management.
use std::collections::HashMap;
use vstd::prelude::*;
use vstd::string::*;
use vstd::utf8::encode_utf8;
use crate::config::types::{page_paths, ServerConfig};
use crate::error::HttpStatus;
use crate::http::response::{page, HttpResponse, ResponseModel};
use crate::number::{dec, u64_to_string};
use crate::text::opt_str;
use crate::utils::clock::now_secs;
use crate::utils::date::http_date;

verus! {

pub const PAGE_TOP: &'static str =
    "<!DOCTYPE html>\n<html lang=\"en\">\n<head>\n    <meta charset=\"UTF-8\">\n    <meta name=\"viewport\" content=\"width=device-width, initial-scale=1.0\">\n    <title>";

pub const PAGE_STYLE: &'static str =
    "</title>\n    <style>\n        body {\n            font-family: Arial, sans-serif;\n            text-align: center;\n            padding: 50px;\n            background-color: #f5f5f5;\n            margin: 0;\n        }\n        .error-container {\n            background: white;\n            padding: 40px;\n            border-radius: 8px;\n            box-shadow: 0 2px 10px rgba(0,0,0,0.1);\n            max-width: 500px;\n            margin: 0 auto;\n        }\n        h1 {\n            color: #dc3545;\n            font-size: 4em;\n            margin: 0;\n        }\n        h2 {\n            color: #333;\n            margin: 20px 0;\n        }\n        p {\n            color: #666;\n            line-height: 1.6;\n        }\n        a {\n            color: #007bff;\n            text-decoration: none;\n        }\n        a:hover {\n            text-decoration: underline;\n        }\n        .server-info {\n            margin-top: 30px;\n            padding-top: 20px;\n            border-top: 1px solid #eee;\n            font-size: 0.9em;\n            color: #999;\n        }\n    </style>\n</head>\n<body>\n    <div class=\"error-container\">\n        <h1>";

pub const PAGE_AFTER_CODE: &'static str = "</h1>\n        <h2>";

pub const PAGE_AFTER_REASON: &'static str = "</h2>\n        <p>";

pub const PAGE_BOTTOM: &'static str =
    "</p>\n        <p><a href=\"/\">← Return to Home</a></p>\n        <div class=\"server-info\">\n            Localhost HTTP Server v0.1.0\n        </div>\n    </div>\n</body>\n</html>";

pub const DEFAULT_MESSAGE: &'static str =
    "The server encountered an error processing your request.";

/// The default error page of a status: an HTML document that shows the
/// numeric status, the reason phrase, and the message, or a general
/// sentence where there is no message.
pub open spec fn default_error_page(status: HttpStatus, message: Option<Seq<char>>) -> Seq<char> {
    PAGE_TOP@ + dec(status.code()) + " - "@ + status.reason() + PAGE_STYLE@ + dec(status.code())
        + PAGE_AFTER_CODE@ + status.reason() + PAGE_AFTER_REASON@ + (match message {
        Some(m) => m,
        None => DEFAULT_MESSAGE@,
    }) + PAGE_BOTTOM@
}

/// The contents of the error page of a status: the contents of the custom
/// page, where one is configured for the status and its contents are
/// given; else the default page with the message.
pub open spec fn error_page_content(
    pages: Map<u16, Seq<char>>,
    status: HttpStatus,
    message: Option<Seq<char>>,
    custom: Option<Seq<char>>,
) -> Seq<char> {
    if pages.contains_key(status.code() as u16) && custom is Some {
        custom->0
    } else {
        default_error_page(status, message)
    }
}

/// An error response: the page as HTML, and the headers that forbid
/// content sniffing, framing and reflected scripts.
pub open spec fn error_response(status: HttpStatus, body: Seq<char>, date: Seq<char>) -> ResponseModel {
    page(status, "text/html; charset=utf-8"@, encode_utf8(body), date).with_header(
        "X-Content-Type-Options"@,
        "nosniff"@,
    ).with_header("X-Frame-Options"@, "DENY"@).with_header("X-XSS-Protection"@, "1; mode=block"@)
}

/// Error page manager.
pub struct ErrorPageManager {
    custom_pages: HashMap<u16, String>,
}

impl View for ErrorPageManager {
    type V = Map<u16, Seq<char>>;

    closed spec fn view(&self) -> Map<u16, Seq<char>> {
        page_paths(self.custom_pages@)
    }
}

impl ErrorPageManager {
    /// Create a new error page manager.
    pub fn new() -> (m: ErrorPageManager)
        ensures
            m@ == Map::<u16, Seq<char>>::empty(),
    {
        let m = ErrorPageManager { custom_pages: HashMap::new() };
        assert(m@ =~= Map::<u16, Seq<char>>::empty());
        m
    }

    /// Create error page manager from server configuration.
    pub fn from_config(server_config: &ServerConfig) -> (m: ErrorPageManager)
        ensures
            m@ == server_config@.error_pages,
    {
        ErrorPageManager { custom_pages: server_config.error_pages.clone() }
    }

    /// Generate default error page when no custom page is available.
    pub fn generate_default_error_page(status: HttpStatus, custom_message: Option<&str>) -> (r:
        String)
        ensures
            r@ == default_error_page(status, opt_str(custom_message)),
    {
        let code = u64_to_string(status.as_u16() as u64);
        let reason = status.reason_phrase();
        let mut r = String::from_str(PAGE_TOP);
        r.append(code.as_str());
        r.append(" - ");
        r.append(reason);
        r.append(PAGE_STYLE);
        r.append(code.as_str());
        r.append(PAGE_AFTER_CODE);
        r.append(reason);
        r.append(PAGE_AFTER_REASON);
        match custom_message {
            Some(m) => r.append(m),
            None => r.append(DEFAULT_MESSAGE),
        }
        r.append(PAGE_BOTTOM);
        r
    }

    /// Generate HTML error page content: the contents of the custom page
    /// of the status, where one is configured and the contents of its file
    /// are given; else the default page.
    pub fn generate_error_page(
        &self,
        status: HttpStatus,
        custom_message: Option<&str>,
        custom_content: Option<&str>,
    ) -> (r: String)
        ensures
            r@ == error_page_content(
                self@,
                status,
                opt_str(custom_message),
                opt_str(custom_content),
            ),
    {
        if self.has_custom_page(status.as_u16()) {
            if let Some(content) = custom_content {
                return String::from_str(content);
            }
        }
        Self::generate_default_error_page(status, custom_message)
    }

    /// An error response with the given page, dated `now`.
    pub fn response_with_page_at(status: HttpStatus, content: &str, now: u64) -> (r: HttpResponse)
        ensures
            r@ == error_response(status, content@, http_date(now as nat)),
    {
        let mut response = HttpResponse::html_at(status, content, now);
        response.add_header("X-Content-Type-Options", "nosniff");
        response.add_header("X-Frame-Options", "DENY");
        response.add_header("X-XSS-Protection", "1; mode=block");
        response
    }

    /// Generate an HTTP error response with the default page, dated `now`.
    pub fn generate_error_response_at(
        &self,
        status: HttpStatus,
        custom_message: Option<&str>,
        now: u64,
    ) -> (r: HttpResponse)
        ensures
            r@ == error_response(
                status,
                default_error_page(status, opt_str(custom_message)),
                http_date(now as nat),
            ),
    {
        let content = Self::generate_default_error_page(status, custom_message);
        Self::response_with_page_at(status, content.as_str(), now)
    }

    /// Generate an HTTP error response with the default page.
    pub fn generate_error_response(&self, status: HttpStatus, custom_message: Option<&str>) -> (r:
        HttpResponse)
        ensures
            exists|t: nat|
                r@ == #[trigger] error_response(
                    status,
                    default_error_page(status, opt_str(custom_message)),
                    http_date(t),
                ),
    {
        let now = now_secs();
        let r = self.generate_error_response_at(status, custom_message, now);
        assert(r@ == error_response(
            status,
            default_error_page(status, opt_str(custom_message)),
            http_date(now as nat),
        ));
        r
    }

    /// Generate an HTTP error response with the contents of a custom page.
    pub fn generate_custom_error_response(&self, status: HttpStatus, content: &str) -> (r:
        HttpResponse)
        ensures
            exists|t: nat| r@ == #[trigger] error_response(status, content@, http_date(t)),
    {
        let now = now_secs();
        let r = Self::response_with_page_at(status, content, now);
        assert(r@ == error_response(status, content@, http_date(now as nat)));
        r
    }

    /// The file configured as the error page of a status.
    pub fn custom_page(&self, status: HttpStatus) -> (r: Option<&String>)
        ensures
            match r {
                Some(p) => self@.contains_key(status.code() as u16) && self@[status.code() as u16]
                    == p@,
                None => !self@.contains_key(status.code() as u16),
            },
    {
        let code = status.as_u16();
        self.custom_pages.get(&code)
    }

    /// Add or update a custom error page.
    pub fn set_custom_page(&mut self, status_code: u16, file_path: String)
        ensures
            final(self)@ == old(self)@.insert(status_code, file_path@),
    {
        let _ = self.custom_pages.insert(status_code, file_path);
        assert(self@ =~= old(self)@.insert(status_code, file_path@));
    }

    /// Remove a custom error page.
    pub fn remove_custom_page(&mut self, status_code: u16)
        ensures
            final(self)@ == old(self)@.remove(status_code),
    {
        let _ = self.custom_pages.remove(&status_code);
        assert(self@ =~= old(self)@.remove(status_code));
    }

    /// Check if a custom error page exists for a status code.
    pub fn has_custom_page(&self, status_code: u16) -> (b: bool)
        ensures
            b == self@.contains_key(status_code),
    {
        self.custom_pages.contains_key(&status_code)
    }

    /// Get all configured custom error pages.
    pub fn get_custom_pages(&self) -> (r: &HashMap<u16, String>)
        ensures
            page_paths(r@) == self@,
    {
        &self.custom_pages
    }

    /// Whether `code` is among `codes`.
    fn among(codes: &[u16], code: u16) -> (b: bool)
        ensures
            b == codes@.contains(code),
    {
        let mut i: usize = 0;
        while i < codes.len()
            invariant
                i <= codes.len(),
                forall|j: int| 0 <= j < i ==> codes@[j] != code,
            decreases codes.len() - i,
        {
            if codes[i] == code {
                return true;
            }
            i += 1;
        }
        false
    }

    /// The custom error pages, by ascending status code.
    pub fn page_list(&self) -> (r: Vec<(u16, String)>)
        ensures
            page_entries(r@) == pages_below(self@, 65536),
    {
        let mut r: Vec<(u16, String)> = Vec::new();
        let mut c: u32 = 0;
        assert(page_entries(r@) =~= pages_below(self@, 0));
        while c < 65536
            invariant
                c <= 65536,
                page_entries(r@) == pages_below(self@, c as nat),
            decreases 65536 - c,
        {
            let code: u16 = c as u16;
            let ghost prev = page_entries(r@);
            if let Some(p) = self.custom_pages.get(&code) {
                r.push((code, p.clone()));
                assert(page_entries(r@) =~= prev.push((code, p@)));
            }
            c += 1;
        }
        r
    }

    /// Validate that all custom error page files exist, given the status
    /// codes whose files do: `Ok` where no configured page is missing, else
    /// one line for each that is, by ascending status code.
    pub fn validate_custom_pages(&self, existing: &[u16]) -> (r: Result<(), Vec<String>>)
        ensures
            match r {
                Ok(_) => missing_pages(self@, existing@, 65536).len() == 0,
                Err(m) => m@.len() > 0 && crate::text::texts(m@) == missing_pages(
                    self@,
                    existing@,
                    65536,
                ),
            },
    {
        let mut errors: Vec<String> = Vec::new();
        let mut c: u32 = 0;
        assert(crate::text::texts(errors@) =~= missing_pages(self@, existing@, 0));
        while c < 65536
            invariant
                c <= 65536,
                crate::text::texts(errors@) == missing_pages(self@, existing@, c as nat),
            decreases 65536 - c,
        {
            let code: u16 = c as u16;
            let ghost prev = crate::text::texts(errors@);
            if let Some(p) = self.custom_pages.get(&code) {
                if !Self::among(existing, code) {
                    let mut line = String::from_str("Error page file not found for status ");
                    line.append(u64_to_string(code as u64).as_str());
                    line.append(": ");
                    line.append(p.as_str());
                    errors.push(line);
                    assert(crate::text::texts(errors@) =~= prev.push(
                        missing_page_line(code, p@),
                    ));
                }
            }
            c += 1;
        }
        if errors.len() == 0 {
            Ok(())
        } else {
            Err(errors)
        }
    }
}

/// What a vector of error pages holds.
pub open spec fn page_entries(v: Seq<(u16, String)>) -> Seq<(u16, Seq<char>)> {
    Seq::new(v.len(), |i: int| (v[i].0, v[i].1@))
}

/// The error pages of the status codes below `n`, by ascending code.
pub open spec fn pages_below(m: Map<u16, Seq<char>>, n: nat) -> Seq<(u16, Seq<char>)>
    decreases n,
{
    if n == 0 {
        Seq::empty()
    } else {
        let prev = pages_below(m, (n - 1) as nat);
        let c = (n - 1) as u16;
        if m.contains_key(c) {
            prev.push((c, m[c]))
        } else {
            prev
        }
    }
}

/// The line that reports a missing error page file.
pub open spec fn missing_page_line(code: u16, path: Seq<char>) -> Seq<char> {
    "Error page file not found for status "@ + dec(code as nat) + ": "@ + path
}

/// One line for each error page of a status code below `n` whose code is
/// not among `existing`, by ascending code.
pub open spec fn missing_pages(m: Map<u16, Seq<char>>, existing: Seq<u16>, n: nat) -> Seq<
    Seq<char>,
>
    decreases n,
{
    if n == 0 {
        Seq::empty()
    } else {
        let prev = missing_pages(m, existing, (n - 1) as nat);
        let c = (n - 1) as u16;
        if m.contains_key(c) && !existing.contains(c) {
            prev.push(missing_page_line(c, m[c]))
        } else {
            prev
        }
    }
}

impl Default for ErrorPageManager {
    fn default() -> (m: Self)
        ensures
            m@ == Map::<u16, Seq<char>>::empty(),
    {
        ErrorPageManager::new()
    }
}

/// The default error page of a status, or the contents of a custom page
/// where they are given.
pub fn generate_error_page(status: HttpStatus, custom_content: Option<&str>) -> (r: String)
    ensures
        r@ == match custom_content {
            Some(c) => c@,
            None => default_error_page(status, None),
        },
{
    match custom_content {
        Some(c) => String::from_str(c),
        None => ErrorPageManager::generate_default_error_page(status, None),
    }
}

} // verus!
