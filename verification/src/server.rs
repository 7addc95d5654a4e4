//! The server's decisions: the response to a request, and what a connection
//! does after each attempt to read a request.
use vstd::prelude::*;
use crate::date::HttpDate;
use crate::header::{Header, HeaderKind, Payload, SpecHeader};
use crate::map::{HeaderMap, lookup};
use crate::message::{Request, Response, SpecRequest, SpecResponse};
use crate::reader::ReadError;
use crate::text::str_eq;

verus! {

/// The status of the response to a request: 505 for a version other than
/// `HTTP/1.1`, else 501 for a request with a `Transfer-Encoding` header,
/// else 200.
pub open spec fn response_status(r: SpecRequest) -> u16 {
    if r.version != "HTTP/1.1"@ {
        505
    } else if lookup(r.headers, "Transfer-Encoding"@) is Some {
        501
    } else {
        200
    }
}

/// The `Date` header for `now`.
pub open spec fn date_header(now: HttpDate) -> SpecHeader {
    SpecHeader { kind: HeaderKind::Date, payload: Payload::Date(now) }
}

/// The response to `r` made at the time `now`: version `HTTP/1.1`, the
/// status of [`response_status`], a `Date` header alone, and no body.
pub open spec fn response_at(r: SpecRequest, now: HttpDate) -> SpecResponse {
    SpecResponse {
        version: "HTTP/1.1"@,
        status_code: response_status(r),
        headers: seq![date_header(now)],
        body: Seq::empty(),
    }
}

/// The response to a request that could not be read: `HTTP/1.1 400`, no
/// headers, no body.
pub open spec fn bad_request_response() -> SpecResponse {
    SpecResponse {
        version: "HTTP/1.1"@,
        status_code: 400,
        headers: Seq::empty(),
        body: Seq::empty(),
    }
}

/// The response to `request` made at the time `now`.
pub fn form_response_at(request: &Request, now: HttpDate) -> (r: Response)
    ensures
        r@ == response_at(request@, now),
{
    let headers = HeaderMap::from_header(Header::Date(now));
    let version = String::from_str("HTTP/1.1");
    if !str_eq(request.version.as_str(), "HTTP/1.1") {
        return Response { version, status_code: 505, headers, body: Vec::new() };
    }
    if request.headers.contains_key("Transfer-Encoding") {
        return Response { version, status_code: 501, headers, body: Vec::new() };
    }
    Response { version, status_code: 200, headers, body: Vec::new() }
}

/// The response to a request that could not be read.
pub fn bad_request() -> (r: Response)
    ensures
        r@ == bad_request_response(),
{
    let r = Response {
        version: String::from_str("HTTP/1.1"),
        status_code: 400,
        headers: HeaderMap::new(),
        body: Vec::new(),
    };
    r
}

/// The connection type a request asks for: the text of its `Connection`
/// header, `keep-alive` where it has none.
pub open spec fn connection_type(hs: Seq<SpecHeader>) -> Seq<char> {
    match lookup(hs, "Connection"@) {
        Some(h) => match h.payload {
            Payload::Text(t) => t,
            _ => "keep-alive"@,
        },
        None => "keep-alive"@,
    }
}

/// Whether the connection closes after answering a request with headers
/// `hs`.
pub open spec fn closes_after(hs: Seq<SpecHeader>) -> bool {
    connection_type(hs) == "close"@
}

/// What a connection does after an attempt to read a request.
#[derive(Debug)]
pub enum Exchange {
    /// Send `response`; then close the connection if `close`, else read the
    /// next request.
    Reply { response: Response, close: bool },
    /// Close the connection without a reply.
    Finish,
}

/// An exchange as a value.
pub enum SpecExchange {
    Reply { response: SpecResponse, close: bool },
    Finish,
}

pub open spec fn exchange_view(e: Exchange) -> SpecExchange {
    match e {
        Exchange::Reply { response, close } => SpecExchange::Reply { response: response@, close },
        Exchange::Finish => SpecExchange::Finish,
    }
}

/// What the connection does after a read that gave `outcome` (a request,
/// the clean end of the stream, or an error), with the clock at `now`: a
/// request is answered and the connection stays open unless the request
/// asks to close it; a clean end closes it; an error is answered with 400
/// and closes it.
pub open spec fn exchange_at(outcome: Result<Option<SpecRequest>, ()>, now: HttpDate) -> SpecExchange {
    match outcome {
        Ok(Some(r)) => SpecExchange::Reply {
            response: response_at(r, now),
            close: closes_after(r.headers),
        },
        Ok(None) => SpecExchange::Finish,
        Err(()) => SpecExchange::Reply { response: bad_request_response(), close: true },
    }
}

pub open spec fn outcome_view(outcome: Result<Option<Request>, ReadError>) -> Result<
    Option<SpecRequest>,
    (),
> {
    match outcome {
        Ok(Some(r)) => Ok(Some(r@)),
        Ok(None) => Ok(None),
        Err(_) => Err(()),
    }
}

/// Whether a request with these headers closes the connection.
pub fn asks_to_close(headers: &HeaderMap) -> (r: bool)
    ensures
        r == closes_after(headers@),
{
    let connection_type = match headers.get("Connection") {
        Some(h) => match h.text() {
            Some(t) => t,
            None => "keep-alive",
        },
        None => "keep-alive",
    };
    str_eq(connection_type, "close")
}

/// What the connection does after a read that gave `outcome`, with the
/// clock at `now`.
pub fn exchange_at_time(outcome: Result<Option<Request>, ReadError>, now: HttpDate) -> (r: Exchange)
    ensures
        exchange_view(r) == exchange_at(outcome_view(outcome), now),
{
    match outcome {
        Ok(Some(request)) => {
            let response = form_response_at(&request, now);
            let close = asks_to_close(&request.headers);
            Exchange::Reply { response, close }
        },
        Ok(None) => Exchange::Finish,
        Err(_) => Exchange::Reply { response: bad_request(), close: true },
    }
}

} // verus!
