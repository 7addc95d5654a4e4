//! Requests and responses: methods, status lines, and the text of a message.
use vstd::prelude::*;
use crate::error::{HTTPError, HTTPErrorKind, SpecError, error_of, quoted};
use crate::header::{Header, SpecHeader, header_text};
use crate::map::{HeaderMap, header_views};
use crate::text::{decimal, decimal_string, join, join_strings, str_eq, views};

verus! {

/// The request methods this server knows.
#[derive(Debug, Clone, Copy, PartialEq, Eq, Structural)]
pub enum RequestType {
    Head,
    Get,
    Post,
}

/// The name of each method.
pub open spec fn method_name(m: RequestType) -> Seq<char> {
    match m {
        RequestType::Head => "HEAD"@,
        RequestType::Get => "GET"@,
        RequestType::Post => "POST"@,
    }
}

/// The method named `s`, if any (names match exactly).
pub open spec fn method_of(s: Seq<char>) -> Option<RequestType> {
    if s == "HEAD"@ {
        Some(RequestType::Head)
    } else if s == "GET"@ {
        Some(RequestType::Get)
    } else if s == "POST"@ {
        Some(RequestType::Post)
    } else {
        None
    }
}

/// What reading a method name gives.
pub open spec fn method_result(s: Seq<char>) -> Result<RequestType, SpecError> {
    match method_of(s) {
        Some(m) => Ok(m),
        None => Err(error_of(HTTPErrorKind::InvalidMethod, quoted("Unsupported method: "@, s))),
    }
}

impl RequestType {
    /// Reads a method from its name.
    pub fn new(method: &str) -> (r: Result<Self, HTTPError>)
        ensures
            match r {
                Ok(m) => method_result(method@) == Ok::<RequestType, SpecError>(m),
                Err(e) => method_result(method@) == Err::<RequestType, SpecError>(e@),
            },
    {
        if str_eq(method, "HEAD") {
            Ok(RequestType::Head)
        } else if str_eq(method, "GET") {
            Ok(RequestType::Get)
        } else if str_eq(method, "POST") {
            Ok(RequestType::Post)
        } else {
            Err(HTTPError::quoting(HTTPErrorKind::InvalidMethod, "Unsupported method: ", method))
        }
    }

    /// The method's name, as `Display` writes it.
    pub fn to_string(&self) -> (s: String)
        ensures
            s@ == method_name(*self),
    {
        match self {
            RequestType::Head => String::from_str("HEAD"),
            RequestType::Get => String::from_str("GET"),
            RequestType::Post => String::from_str("POST"),
        }
    }
}

/// Reading the name of a method gives that method back.
pub proof fn law_method_name_roundtrip(m: RequestType)
    ensures
        method_of(method_name(m)) == Some(m),
{
    reveal_strlit("HEAD");
    reveal_strlit("GET");
    reveal_strlit("POST");
    if "HEAD"@ == "GET"@ {
        assert("HEAD"@.len() == "GET"@.len());
    }
    if "HEAD"@ == "POST"@ {
        assert("HEAD"@[0] == "POST"@[0]);
    }
    if "GET"@ == "POST"@ {
        assert("GET"@.len() == "POST"@.len());
    }
}

/// The reason phrase of each status code this server names; empty for the
/// others.
pub open spec fn reason_phrase(code: u16) -> Seq<char> {
    if code == 200 {
        "OK"@
    } else if code == 201 {
        "Created"@
    } else if code == 202 {
        "Accepted"@
    } else if code == 301 {
        "Moved Permanently"@
    } else if code == 302 {
        "Found"@
    } else if code == 400 {
        "Bad Request"@
    } else if code == 401 {
        "Unauthorized"@
    } else if code == 403 {
        "Forbidden"@
    } else if code == 404 {
        "Not Found"@
    } else if code == 405 {
        "Method Not Allowed"@
    } else if code == 408 {
        "Request Timeout"@
    } else if code == 411 {
        "Length Required"@
    } else if code == 413 {
        "Content Too Large"@
    } else if code == 419 {
        "Too Many Requests"@
    } else if code == 500 {
        "Internal Server Error"@
    } else if code == 501 {
        "Not Implemented"@
    } else if code == 502 {
        "Bad Gateway"@
    } else if code == 503 {
        "Service Unavailable"@
    } else if code == 504 {
        "Gateway Timeout"@
    } else if code == 505 {
        "HTTP Version Not Supported"@
    } else {
        Seq::empty()
    }
}

pub fn status_reason(code: u16) -> (s: String)
    ensures
        s@ == reason_phrase(code),
{
    if code == 200 {
        String::from_str("OK")
    } else if code == 201 {
        String::from_str("Created")
    } else if code == 202 {
        String::from_str("Accepted")
    } else if code == 301 {
        String::from_str("Moved Permanently")
    } else if code == 302 {
        String::from_str("Found")
    } else if code == 400 {
        String::from_str("Bad Request")
    } else if code == 401 {
        String::from_str("Unauthorized")
    } else if code == 403 {
        String::from_str("Forbidden")
    } else if code == 404 {
        String::from_str("Not Found")
    } else if code == 405 {
        String::from_str("Method Not Allowed")
    } else if code == 408 {
        String::from_str("Request Timeout")
    } else if code == 411 {
        String::from_str("Length Required")
    } else if code == 413 {
        String::from_str("Content Too Large")
    } else if code == 419 {
        String::from_str("Too Many Requests")
    } else if code == 500 {
        String::from_str("Internal Server Error")
    } else if code == 501 {
        String::from_str("Not Implemented")
    } else if code == 502 {
        String::from_str("Bad Gateway")
    } else if code == 503 {
        String::from_str("Service Unavailable")
    } else if code == 504 {
        String::from_str("Gateway Timeout")
    } else if code == 505 {
        String::from_str("HTTP Version Not Supported")
    } else {
        let s = String::new();
        s
    }
}

/// The header lines of a message, joined by CRLF.
pub open spec fn headers_text(hs: Seq<SpecHeader>) -> Seq<char> {
    join(hs.map_values(|h: SpecHeader| header_text(h)), "\r\n"@)
}

/// The headers' lines joined by CRLF.
fn headers_string(hs: &[Header]) -> (s: String)
    ensures
        s@ == headers_text(header_views(hs@)),
{
    let mut texts: Vec<String> = Vec::new();
    let ghost want = header_views(hs@).map_values(|h: SpecHeader| header_text(h));
    let mut i: usize = 0;
    while i < hs.len()
        invariant
            want == header_views(hs@).map_values(|h: SpecHeader| header_text(h)),
            i <= hs.len(),
            texts.len() == i,
            views(texts@) =~= want.take(i as int),
        decreases hs.len() - i,
    {
        let t = hs[i].to_string();
        assert(want[i as int] == t@);
        texts.push(t);
        assert(views(texts@)[i as int] == want[i as int]);
        i = i + 1;
    }
    assert(want.take(hs.len() as int) =~= want);
    join_strings(&texts, "\r\n")
}

/// A request as a value.
pub struct SpecRequest {
    pub method: RequestType,
    pub path: Seq<char>,
    pub version: Seq<char>,
    pub headers: Seq<SpecHeader>,
    pub body: Seq<u8>,
}

/// An HTTP request.
#[derive(Debug)]
pub struct Request {
    pub method: RequestType,
    pub path: String,
    pub version: String,
    pub headers: HeaderMap,
    pub body: Vec<u8>,
}

impl View for Request {
    type V = SpecRequest;

    open spec fn view(&self) -> SpecRequest {
        SpecRequest {
            method: self.method,
            path: self.path@,
            version: self.version@,
            headers: self.headers@,
            body: self.body@,
        }
    }
}

/// The text of a request: the request line, the header lines, a blank line
/// and the length of the body.
pub open spec fn request_text(r: SpecRequest) -> Seq<char> {
    method_name(r.method) + " "@ + r.path + " "@ + r.version + "\r\n"@ + headers_text(r.headers)
        + "\r\n\r\nBody len "@ + decimal(r.body.len())
}

impl Request {
    /// The request's text, as `Display` writes it.
    pub fn to_string(&self) -> (s: String)
        ensures
            s@ == request_text(self@),
    {
        let mut s = self.method.to_string();
        s.append(" ");
        s.append(self.path.as_str());
        s.append(" ");
        s.append(self.version.as_str());
        s.append("\r\n");
        s.append(headers_string(self.headers.values()).as_str());
        s.append("\r\n\r\nBody len ");
        s.append(decimal_string(self.body.len() as u64).as_str());
        s
    }
}

/// A response as a value.
pub struct SpecResponse {
    pub version: Seq<char>,
    pub status_code: u16,
    pub headers: Seq<SpecHeader>,
    pub body: Seq<u8>,
}

/// An HTTP response.
#[derive(Debug)]
pub struct Response {
    pub version: String,
    pub status_code: u16,
    pub headers: HeaderMap,
    pub body: Vec<u8>,
}

impl View for Response {
    type V = SpecResponse;

    open spec fn view(&self) -> SpecResponse {
        SpecResponse {
            version: self.version@,
            status_code: self.status_code,
            headers: self.headers@,
            body: self.body@,
        }
    }
}

/// The text of a response: the status line, the header lines, a blank line
/// and the length of the body.
pub open spec fn response_text(r: SpecResponse) -> Seq<char> {
    r.version + " "@ + decimal(r.status_code as nat) + " "@ + reason_phrase(r.status_code)
        + "\r\n"@ + headers_text(r.headers) + "\r\n\r\nBody len "@ + decimal(r.body.len())
}

impl Response {
    /// The response's text, as `Display` writes it.
    pub fn to_string(&self) -> (s: String)
        ensures
            s@ == response_text(self@),
    {
        let mut s = self.version.clone();
        s.append(" ");
        s.append(decimal_string(self.status_code as u64).as_str());
        s.append(" ");
        s.append(status_reason(self.status_code).as_str());
        s.append("\r\n");
        s.append(headers_string(self.headers.values()).as_str());
        s.append("\r\n\r\nBody len ");
        s.append(decimal_string(self.body.len() as u64).as_str());
        s
    }
}

} // verus!
