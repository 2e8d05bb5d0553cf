//! Error kinds and HTTP status codes.
use vstd::prelude::*;
use vstd::string::*;

pub mod pages;

verus! {

/// Why running a CGI script failed.
#[derive(Debug, Clone, Copy, PartialEq, Eq, Structural)]
pub enum CgiFailure {
    /// The interpreter could not be started.
    Spawn,
    /// Writing the request body to the script failed.
    IoPipe,
    /// The script ran longer than its time budget.
    Timeout,
    /// The script wrote more than the output cap.
    Oversize,
    /// The script's header block could not be used.
    BadHeaders,
    /// The script exited with a failure status.
    NonZeroExit,
}

/// Main error type for the server.
#[derive(Debug)]
pub enum ServerError {
    /// Configuration errors.
    Config(String),
    /// A failed system call, with its description.
    Io(String),
    /// Malformed HTTP requests.
    Http(String),
    /// CGI execution errors.
    Cgi(CgiFailure, String),
    /// No route matches the request.
    Routing(String),
    /// Internal server errors.
    Internal(String),
}

/// Result type alias for server operations.
pub type ServerResult<T> = Result<T, ServerError>;

impl ServerError {
    /// The text this error carries.
    pub open spec fn detail(self) -> Seq<char> {
        match self {
            ServerError::Config(m) => m@,
            ServerError::Io(m) => m@,
            ServerError::Http(m) => m@,
            ServerError::Cgi(_, m) => m@,
            ServerError::Routing(m) => m@,
            ServerError::Internal(m) => m@,
        }
    }

    /// Why running a script failed, where the error is of that kind.
    pub open spec fn cgi_failure(self) -> Option<CgiFailure> {
        match self {
            ServerError::Cgi(f, _) => Some(f),
            _ => None,
        }
    }

    /// The words that introduce an error of this kind.
    pub open spec fn label(self) -> Seq<char> {
        match self {
            ServerError::Config(_) => "Configuration error: "@,
            ServerError::Io(_) => "I/O error: "@,
            ServerError::Http(_) => "HTTP error: "@,
            ServerError::Cgi(_, _) => "CGI error: "@,
            ServerError::Routing(_) => "Routing error: "@,
            ServerError::Internal(_) => "Internal error: "@,
        }
    }

    /// The error as a line of text: its label, then its detail.
    pub fn message(&self) -> (r: String)
        ensures
            r@ == self.label() + self.detail(),
    {
        let (label, detail) = match self {
            ServerError::Config(m) => ("Configuration error: ", m),
            ServerError::Io(m) => ("I/O error: ", m),
            ServerError::Http(m) => ("HTTP error: ", m),
            ServerError::Cgi(_, m) => ("CGI error: ", m),
            ServerError::Routing(m) => ("Routing error: ", m),
            ServerError::Internal(m) => ("Internal error: ", m),
        };
        let mut r = String::from_str(label);
        r.append(detail.as_str());
        r
    }

    /// The status with which this error is answered: 400 for a malformed
    /// request, 404 where no route matches, 500 for everything else.
    pub open spec fn spec_status(self) -> HttpStatus {
        match self {
            ServerError::Http(_) => HttpStatus::BadRequest,
            ServerError::Routing(_) => HttpStatus::NotFound,
            _ => HttpStatus::InternalServerError,
        }
    }

    pub fn status(&self) -> (s: HttpStatus)
        ensures
            s == self.spec_status(),
    {
        match self {
            ServerError::Http(_) => HttpStatus::BadRequest,
            ServerError::Routing(_) => HttpStatus::NotFound,
            _ => HttpStatus::InternalServerError,
        }
    }
}

/// HTTP status codes.
#[derive(Debug, Clone, Copy, PartialEq, Eq, Structural)]
pub enum HttpStatus {
    Okay,
    Created,
    NoContent,
    MovedPermanently,
    Found,
    BadRequest,
    Forbidden,
    NotFound,
    MethodNotAllowed,
    RequestEntityTooLarge,
    InternalServerError,
}

impl HttpStatus {
    /// The numeric code of the status.
    pub open spec fn code(self) -> nat {
        match self {
            HttpStatus::Okay => 200,
            HttpStatus::Created => 201,
            HttpStatus::NoContent => 204,
            HttpStatus::MovedPermanently => 301,
            HttpStatus::Found => 302,
            HttpStatus::BadRequest => 400,
            HttpStatus::Forbidden => 403,
            HttpStatus::NotFound => 404,
            HttpStatus::MethodNotAllowed => 405,
            HttpStatus::RequestEntityTooLarge => 413,
            HttpStatus::InternalServerError => 500,
        }
    }

    /// The reason phrase of the status.
    pub open spec fn reason(self) -> Seq<char> {
        match self {
            HttpStatus::Okay => "OK"@,
            HttpStatus::Created => "Created"@,
            HttpStatus::NoContent => "No Content"@,
            HttpStatus::MovedPermanently => "Moved Permanently"@,
            HttpStatus::Found => "Found"@,
            HttpStatus::BadRequest => "Bad Request"@,
            HttpStatus::Forbidden => "Forbidden"@,
            HttpStatus::NotFound => "Not Found"@,
            HttpStatus::MethodNotAllowed => "Method Not Allowed"@,
            HttpStatus::RequestEntityTooLarge => "Request Entity Too Large"@,
            HttpStatus::InternalServerError => "Internal Server Error"@,
        }
    }

    /// The status with the given code, where the code is a supported one.
    pub open spec fn of_code(code: nat) -> Option<HttpStatus> {
        if code == 200 {
            Some(HttpStatus::Okay)
        } else if code == 201 {
            Some(HttpStatus::Created)
        } else if code == 204 {
            Some(HttpStatus::NoContent)
        } else if code == 301 {
            Some(HttpStatus::MovedPermanently)
        } else if code == 302 {
            Some(HttpStatus::Found)
        } else if code == 400 {
            Some(HttpStatus::BadRequest)
        } else if code == 403 {
            Some(HttpStatus::Forbidden)
        } else if code == 404 {
            Some(HttpStatus::NotFound)
        } else if code == 405 {
            Some(HttpStatus::MethodNotAllowed)
        } else if code == 413 {
            Some(HttpStatus::RequestEntityTooLarge)
        } else if code == 500 {
            Some(HttpStatus::InternalServerError)
        } else {
            None
        }
    }

    pub fn as_u16(self) -> (c: u16)
        ensures
            c == self.code(),
    {
        match self {
            HttpStatus::Okay => 200,
            HttpStatus::Created => 201,
            HttpStatus::NoContent => 204,
            HttpStatus::MovedPermanently => 301,
            HttpStatus::Found => 302,
            HttpStatus::BadRequest => 400,
            HttpStatus::Forbidden => 403,
            HttpStatus::NotFound => 404,
            HttpStatus::MethodNotAllowed => 405,
            HttpStatus::RequestEntityTooLarge => 413,
            HttpStatus::InternalServerError => 500,
        }
    }

    pub fn reason_phrase(self) -> (r: &'static str)
        ensures
            r@ == self.reason(),
    {
        match self {
            HttpStatus::Okay => "OK",
            HttpStatus::Created => "Created",
            HttpStatus::NoContent => "No Content",
            HttpStatus::MovedPermanently => "Moved Permanently",
            HttpStatus::Found => "Found",
            HttpStatus::BadRequest => "Bad Request",
            HttpStatus::Forbidden => "Forbidden",
            HttpStatus::NotFound => "Not Found",
            HttpStatus::MethodNotAllowed => "Method Not Allowed",
            HttpStatus::RequestEntityTooLarge => "Request Entity Too Large",
            HttpStatus::InternalServerError => "Internal Server Error",
        }
    }

    /// The status with the given code; `None` for a code outside the
    /// supported set.
    pub fn from_u16(code: u16) -> (r: Option<HttpStatus>)
        ensures
            r == HttpStatus::of_code(code as nat),
    {
        if code == 200 {
            Some(HttpStatus::Okay)
        } else if code == 201 {
            Some(HttpStatus::Created)
        } else if code == 204 {
            Some(HttpStatus::NoContent)
        } else if code == 301 {
            Some(HttpStatus::MovedPermanently)
        } else if code == 302 {
            Some(HttpStatus::Found)
        } else if code == 400 {
            Some(HttpStatus::BadRequest)
        } else if code == 403 {
            Some(HttpStatus::Forbidden)
        } else if code == 404 {
            Some(HttpStatus::NotFound)
        } else if code == 405 {
            Some(HttpStatus::MethodNotAllowed)
        } else if code == 413 {
            Some(HttpStatus::RequestEntityTooLarge)
        } else if code == 500 {
            Some(HttpStatus::InternalServerError)
        } else {
            None
        }
    }

    /// Every status is found again from its own code.
    pub proof fn lemma_code_round_trip(self)
        ensures
            HttpStatus::of_code(self.code()) == Some(self),
    {
    }
}

} // verus!
