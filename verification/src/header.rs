//! HTTP header fields: reading one from its line, checking it, and writing it
//! back.
use vstd::prelude::*;
use crate::date::{HttpDate, date_of, date_text};
use crate::error::{HTTPError, HTTPErrorKind, SpecError, error_of, quoted};
use crate::grammar::{is_field_char, is_host, is_host_str, split_header_line, split_header_line_str};
use crate::text::{decimal, decimal_string, parse_usize, parse_usize_str, str_eq};
use crate::value::{
    HeaderValue, HeaderValues, SpecValue, ValuePattern, unit_result, value_check, value_from_text,
    value_text, values_check, values_from_text, values_text,
};

verus! {

/// The header fields this library knows, one for each variant of [`Header`].
#[derive(Debug, Clone, Copy, PartialEq, Eq, Structural)]
pub enum HeaderKind {
    Accept,
    AcceptLanguage,
    Authorization,
    UserAgent,
    Cookie,
    Referer,
    Origin,
    IfNoneMatch,
    IfModifiedSince,
    Range,
    Location,
    SetCookie,
    ContentEncoding,
    Server,
    AccessControlAllowOrigin,
    AccessControlAllowMethods,
    AccessControlAllowHeaders,
    AccessControlMaxAge,
    Allow,
    WWWAuthenticate,
    RetryAfter,
    ETag,
    LastModified,
    AcceptRanges,
    ContentRange,
    Vary,
    ContentLength,
    Host,
    Connection,
    ContentType,
    Date,
    TransferEncoding,
    CacheControl,
}

/// What a header field holds.
#[derive(Debug, Clone, Copy, PartialEq, Eq, Structural)]
pub enum PayloadClass {
    /// A list of values.
    Values,
    /// One value.
    Value,
    /// Its text, unread.
    Text,
    /// A length in bytes.
    Length,
    /// A date.
    Date,
}

/// The field name of each kind.
pub open spec fn kind_name(k: HeaderKind) -> Seq<char> {
    match k {
        HeaderKind::Accept => "Accept"@,
        HeaderKind::AcceptLanguage => "Accept-Language"@,
        HeaderKind::Authorization => "Authorization"@,
        HeaderKind::UserAgent => "User-Agent"@,
        HeaderKind::Cookie => "Cookie"@,
        HeaderKind::Referer => "Referer"@,
        HeaderKind::Origin => "Origin"@,
        HeaderKind::IfNoneMatch => "If-None-Match"@,
        HeaderKind::IfModifiedSince => "If-Modified-Since"@,
        HeaderKind::Range => "Range"@,
        HeaderKind::Location => "Location"@,
        HeaderKind::SetCookie => "Set-Cookie"@,
        HeaderKind::ContentEncoding => "Content-Encoding"@,
        HeaderKind::Server => "Server"@,
        HeaderKind::AccessControlAllowOrigin => "Access-Control-Allow-Origin"@,
        HeaderKind::AccessControlAllowMethods => "Access-Control-Allow-Methods"@,
        HeaderKind::AccessControlAllowHeaders => "Access-Control-Allow-Headers"@,
        HeaderKind::AccessControlMaxAge => "Access-Control-Max-Age"@,
        HeaderKind::Allow => "Allow"@,
        HeaderKind::WWWAuthenticate => "WWW-Authenticate"@,
        HeaderKind::RetryAfter => "Retry-After"@,
        HeaderKind::ETag => "ETag"@,
        HeaderKind::LastModified => "Last-Modified"@,
        HeaderKind::AcceptRanges => "Accept-Ranges"@,
        HeaderKind::ContentRange => "Content-Range"@,
        HeaderKind::Vary => "Vary"@,
        HeaderKind::ContentLength => "Content-Length"@,
        HeaderKind::Host => "Host"@,
        HeaderKind::Connection => "Connection"@,
        HeaderKind::ContentType => "Content-Type"@,
        HeaderKind::Date => "Date"@,
        HeaderKind::TransferEncoding => "Transfer-Encoding"@,
        HeaderKind::CacheControl => "Cache-Control"@,
    }
}

/// The kind whose field name is `name`, if any (names match exactly).
pub open spec fn kind_of_name(name: Seq<char>) -> Option<HeaderKind> {
    if name == "Accept"@ {
        Some(HeaderKind::Accept)
    } else if name == "Accept-Language"@ {
        Some(HeaderKind::AcceptLanguage)
    } else if name == "Authorization"@ {
        Some(HeaderKind::Authorization)
    } else if name == "User-Agent"@ {
        Some(HeaderKind::UserAgent)
    } else if name == "Cookie"@ {
        Some(HeaderKind::Cookie)
    } else if name == "Referer"@ {
        Some(HeaderKind::Referer)
    } else if name == "Origin"@ {
        Some(HeaderKind::Origin)
    } else if name == "If-None-Match"@ {
        Some(HeaderKind::IfNoneMatch)
    } else if name == "If-Modified-Since"@ {
        Some(HeaderKind::IfModifiedSince)
    } else if name == "Range"@ {
        Some(HeaderKind::Range)
    } else if name == "Location"@ {
        Some(HeaderKind::Location)
    } else if name == "Set-Cookie"@ {
        Some(HeaderKind::SetCookie)
    } else if name == "Content-Encoding"@ {
        Some(HeaderKind::ContentEncoding)
    } else if name == "Server"@ {
        Some(HeaderKind::Server)
    } else if name == "Access-Control-Allow-Origin"@ {
        Some(HeaderKind::AccessControlAllowOrigin)
    } else if name == "Access-Control-Allow-Methods"@ {
        Some(HeaderKind::AccessControlAllowMethods)
    } else if name == "Access-Control-Allow-Headers"@ {
        Some(HeaderKind::AccessControlAllowHeaders)
    } else if name == "Access-Control-Max-Age"@ {
        Some(HeaderKind::AccessControlMaxAge)
    } else if name == "Allow"@ {
        Some(HeaderKind::Allow)
    } else if name == "WWW-Authenticate"@ {
        Some(HeaderKind::WWWAuthenticate)
    } else if name == "Retry-After"@ {
        Some(HeaderKind::RetryAfter)
    } else if name == "ETag"@ {
        Some(HeaderKind::ETag)
    } else if name == "Last-Modified"@ {
        Some(HeaderKind::LastModified)
    } else if name == "Accept-Ranges"@ {
        Some(HeaderKind::AcceptRanges)
    } else if name == "Content-Range"@ {
        Some(HeaderKind::ContentRange)
    } else if name == "Vary"@ {
        Some(HeaderKind::Vary)
    } else if name == "Content-Length"@ {
        Some(HeaderKind::ContentLength)
    } else if name == "Host"@ {
        Some(HeaderKind::Host)
    } else if name == "Connection"@ {
        Some(HeaderKind::Connection)
    } else if name == "Content-Type"@ {
        Some(HeaderKind::ContentType)
    } else if name == "Date"@ {
        Some(HeaderKind::Date)
    } else if name == "Transfer-Encoding"@ {
        Some(HeaderKind::TransferEncoding)
    } else if name == "Cache-Control"@ {
        Some(HeaderKind::CacheControl)
    } else {
        None
    }
}

/// What a header of each kind holds.
pub open spec fn payload_class(k: HeaderKind) -> PayloadClass {
    match k {
        HeaderKind::Accept => PayloadClass::Values,
        HeaderKind::AcceptLanguage => PayloadClass::Values,
        HeaderKind::Authorization => PayloadClass::Text,
        HeaderKind::UserAgent => PayloadClass::Value,
        HeaderKind::Cookie => PayloadClass::Values,
        HeaderKind::Referer => PayloadClass::Text,
        HeaderKind::Origin => PayloadClass::Text,
        HeaderKind::IfNoneMatch => PayloadClass::Text,
        HeaderKind::IfModifiedSince => PayloadClass::Text,
        HeaderKind::Range => PayloadClass::Text,
        HeaderKind::Location => PayloadClass::Text,
        HeaderKind::SetCookie => PayloadClass::Values,
        HeaderKind::ContentEncoding => PayloadClass::Text,
        HeaderKind::Server => PayloadClass::Text,
        HeaderKind::AccessControlAllowOrigin => PayloadClass::Text,
        HeaderKind::AccessControlAllowMethods => PayloadClass::Values,
        HeaderKind::AccessControlAllowHeaders => PayloadClass::Values,
        HeaderKind::AccessControlMaxAge => PayloadClass::Text,
        HeaderKind::Allow => PayloadClass::Values,
        HeaderKind::WWWAuthenticate => PayloadClass::Text,
        HeaderKind::RetryAfter => PayloadClass::Text,
        HeaderKind::ETag => PayloadClass::Text,
        HeaderKind::LastModified => PayloadClass::Text,
        HeaderKind::AcceptRanges => PayloadClass::Text,
        HeaderKind::ContentRange => PayloadClass::Text,
        HeaderKind::Vary => PayloadClass::Values,
        HeaderKind::ContentLength => PayloadClass::Length,
        HeaderKind::Host => PayloadClass::Text,
        HeaderKind::Connection => PayloadClass::Text,
        HeaderKind::ContentType => PayloadClass::Value,
        HeaderKind::Date => PayloadClass::Date,
        HeaderKind::TransferEncoding => PayloadClass::Values,
        HeaderKind::CacheControl => PayloadClass::Values,
    }
}

/// A few characters of a name that tell the field names apart: its length,
/// its first and last characters, and its seventh character from the end.
pub open spec fn name_print(s: Seq<char>) -> (int, char, char, char) {
    (
        s.len() as int,
        s[0],
        s[s.len() - 1],
        if s.len() >= 7 {
            s[s.len() - 7]
        } else {
            ' '
        },
    )
}

/// The print of each kind's field name.
pub open spec fn kind_print(k: HeaderKind) -> (int, char, char, char) {
    match k {
        HeaderKind::Accept => (6, 'A', 't', ' '),
        HeaderKind::AcceptLanguage => (15, 'A', 'e', 'a'),
        HeaderKind::Authorization => (13, 'A', 'n', 'i'),
        HeaderKind::UserAgent => (10, 'U', 't', 'r'),
        HeaderKind::Cookie => (6, 'C', 'e', ' '),
        HeaderKind::Referer => (7, 'R', 'r', 'R'),
        HeaderKind::Origin => (6, 'O', 'n', ' '),
        HeaderKind::IfNoneMatch => (13, 'I', 'h', 'e'),
        HeaderKind::IfModifiedSince => (17, 'I', 'e', 'd'),
        HeaderKind::Range => (5, 'R', 'e', ' '),
        HeaderKind::Location => (8, 'L', 'n', 'o'),
        HeaderKind::SetCookie => (10, 'S', 'e', '-'),
        HeaderKind::ContentEncoding => (16, 'C', 'g', 'n'),
        HeaderKind::Server => (6, 'S', 'r', ' '),
        HeaderKind::AccessControlAllowOrigin => (27, 'A', 'n', '-'),
        HeaderKind::AccessControlAllowMethods => (28, 'A', 's', 'M'),
        HeaderKind::AccessControlAllowHeaders => (28, 'A', 's', 'H'),
        HeaderKind::AccessControlMaxAge => (22, 'A', 'e', 'M'),
        HeaderKind::Allow => (5, 'A', 'w', ' '),
        HeaderKind::WWWAuthenticate => (16, 'W', 'e', 'n'),
        HeaderKind::RetryAfter => (11, 'R', 'r', 'y'),
        HeaderKind::ETag => (4, 'E', 'g', ' '),
        HeaderKind::LastModified => (13, 'L', 'd', 'o'),
        HeaderKind::AcceptRanges => (13, 'A', 's', '-'),
        HeaderKind::ContentRange => (13, 'C', 'e', 't'),
        HeaderKind::Vary => (4, 'V', 'y', ' '),
        HeaderKind::ContentLength => (14, 'C', 'h', '-'),
        HeaderKind::Host => (4, 'H', 't', ' '),
        HeaderKind::Connection => (10, 'C', 'n', 'n'),
        HeaderKind::ContentType => (12, 'C', 'e', 'n'),
        HeaderKind::Date => (4, 'D', 'e', ' '),
        HeaderKind::TransferEncoding => (17, 'T', 'g', 'n'),
        HeaderKind::CacheControl => (13, 'C', 'l', 'C'),
    }
}

/// What the field name of each kind is made of: its fingerprint, and ASCII
/// letters and `-` only.
#[verifier::rlimit(60)]
proof fn lemma_kind_name_facts(k: HeaderKind)
    ensures
        name_print(kind_name(k)) == kind_print(k),
        kind_name(k).len() > 0,
        forall|j: int| 0 <= j < kind_name(k).len() ==> is_field_char(#[trigger] kind_name(k)[j]),
{
    reveal_strlit("Accept");
    reveal_strlit("Accept-Language");
    reveal_strlit("Authorization");
    reveal_strlit("User-Agent");
    reveal_strlit("Cookie");
    reveal_strlit("Referer");
    reveal_strlit("Origin");
    reveal_strlit("If-None-Match");
    reveal_strlit("If-Modified-Since");
    reveal_strlit("Range");
    reveal_strlit("Location");
    reveal_strlit("Set-Cookie");
    reveal_strlit("Content-Encoding");
    reveal_strlit("Server");
    reveal_strlit("Access-Control-Allow-Origin");
    reveal_strlit("Access-Control-Allow-Methods");
    reveal_strlit("Access-Control-Allow-Headers");
    reveal_strlit("Access-Control-Max-Age");
    reveal_strlit("Allow");
    reveal_strlit("WWW-Authenticate");
    reveal_strlit("Retry-After");
    reveal_strlit("ETag");
    reveal_strlit("Last-Modified");
    reveal_strlit("Accept-Ranges");
    reveal_strlit("Content-Range");
    reveal_strlit("Vary");
    reveal_strlit("Content-Length");
    reveal_strlit("Host");
    reveal_strlit("Connection");
    reveal_strlit("Content-Type");
    reveal_strlit("Date");
    reveal_strlit("Transfer-Encoding");
    reveal_strlit("Cache-Control");
    match k {
        HeaderKind::Accept => {},
        HeaderKind::AcceptLanguage => {},
        HeaderKind::Authorization => {},
        HeaderKind::UserAgent => {},
        HeaderKind::Cookie => {},
        HeaderKind::Referer => {},
        HeaderKind::Origin => {},
        HeaderKind::IfNoneMatch => {},
        HeaderKind::IfModifiedSince => {},
        HeaderKind::Range => {},
        HeaderKind::Location => {},
        HeaderKind::SetCookie => {},
        HeaderKind::ContentEncoding => {},
        HeaderKind::Server => {},
        HeaderKind::AccessControlAllowOrigin => {},
        HeaderKind::AccessControlAllowMethods => {},
        HeaderKind::AccessControlAllowHeaders => {},
        HeaderKind::AccessControlMaxAge => {},
        HeaderKind::Allow => {},
        HeaderKind::WWWAuthenticate => {},
        HeaderKind::RetryAfter => {},
        HeaderKind::ETag => {},
        HeaderKind::LastModified => {},
        HeaderKind::AcceptRanges => {},
        HeaderKind::ContentRange => {},
        HeaderKind::Vary => {},
        HeaderKind::ContentLength => {},
        HeaderKind::Host => {},
        HeaderKind::Connection => {},
        HeaderKind::ContentType => {},
        HeaderKind::Date => {},
        HeaderKind::TransferEncoding => {},
        HeaderKind::CacheControl => {},
    }
}

/// Distinct kinds have distinct field names.
pub proof fn lemma_kind_name_injective(a: HeaderKind, b: HeaderKind)
    ensures
        kind_name(a) == kind_name(b) ==> a == b,
{
    lemma_kind_name_facts(a);
    lemma_kind_name_facts(b);
}

/// Reading the field name of a kind gives that kind back.
pub proof fn lemma_kind_of_kind_name(k: HeaderKind)
    ensures
        kind_of_name(kind_name(k)) == Some(k),
{
    lemma_kind_name_injective(HeaderKind::Accept, k);
    lemma_kind_name_injective(HeaderKind::AcceptLanguage, k);
    lemma_kind_name_injective(HeaderKind::Authorization, k);
    lemma_kind_name_injective(HeaderKind::UserAgent, k);
    lemma_kind_name_injective(HeaderKind::Cookie, k);
    lemma_kind_name_injective(HeaderKind::Referer, k);
    lemma_kind_name_injective(HeaderKind::Origin, k);
    lemma_kind_name_injective(HeaderKind::IfNoneMatch, k);
    lemma_kind_name_injective(HeaderKind::IfModifiedSince, k);
    lemma_kind_name_injective(HeaderKind::Range, k);
    lemma_kind_name_injective(HeaderKind::Location, k);
    lemma_kind_name_injective(HeaderKind::SetCookie, k);
    lemma_kind_name_injective(HeaderKind::ContentEncoding, k);
    lemma_kind_name_injective(HeaderKind::Server, k);
    lemma_kind_name_injective(HeaderKind::AccessControlAllowOrigin, k);
    lemma_kind_name_injective(HeaderKind::AccessControlAllowMethods, k);
    lemma_kind_name_injective(HeaderKind::AccessControlAllowHeaders, k);
    lemma_kind_name_injective(HeaderKind::AccessControlMaxAge, k);
    lemma_kind_name_injective(HeaderKind::Allow, k);
    lemma_kind_name_injective(HeaderKind::WWWAuthenticate, k);
    lemma_kind_name_injective(HeaderKind::RetryAfter, k);
    lemma_kind_name_injective(HeaderKind::ETag, k);
    lemma_kind_name_injective(HeaderKind::LastModified, k);
    lemma_kind_name_injective(HeaderKind::AcceptRanges, k);
    lemma_kind_name_injective(HeaderKind::ContentRange, k);
    lemma_kind_name_injective(HeaderKind::Vary, k);
    lemma_kind_name_injective(HeaderKind::ContentLength, k);
    lemma_kind_name_injective(HeaderKind::Host, k);
    lemma_kind_name_injective(HeaderKind::Connection, k);
    lemma_kind_name_injective(HeaderKind::ContentType, k);
    lemma_kind_name_injective(HeaderKind::Date, k);
    lemma_kind_name_injective(HeaderKind::TransferEncoding, k);
    lemma_kind_name_injective(HeaderKind::CacheControl, k);
}

/// The field name of every kind is a nonempty run of ASCII letters and `-`.
pub proof fn lemma_kind_name_is_field_name(k: HeaderKind)
    ensures
        kind_name(k).len() > 0,
        forall|j: int| 0 <= j < kind_name(k).len() ==> is_field_char(#[trigger] kind_name(k)[j]),
{
    lemma_kind_name_facts(k);
}

/// What a header holds, as a value.
#[verifier::ext_equal]
pub enum Payload {
    Values(Seq<SpecValue>),
    Value(SpecValue),
    Text(Seq<char>),
    Length(usize),
    Date(HttpDate),
}

/// A header as a value: its kind and what it holds.
#[verifier::ext_equal]
pub struct SpecHeader {
    pub kind: HeaderKind,
    pub payload: Payload,
}

/// A header field of a request or a response.
#[derive(Debug)]
pub enum Header {
    Accept(HeaderValues), // RFC 9110, 12.5.1
    AcceptLanguage(HeaderValues), // RFC 9110, 12.5.4
    Authorization(String),
    UserAgent(HeaderValue), // RFC 9110, 10.1.5
    Cookie(HeaderValues), // RFC 6265, 5.4
    Referer(String),
    Origin(String),
    IfNoneMatch(String),
    IfModifiedSince(String),
    Range(String),
    Location(String),
    SetCookie(HeaderValues), // RFC 6265, 4.1
    ContentEncoding(String),
    Server(String),
    AccessControlAllowOrigin(String),
    AccessControlAllowMethods(HeaderValues),
    AccessControlAllowHeaders(HeaderValues),
    AccessControlMaxAge(String),
    Allow(HeaderValues), // RFC 9110, 10.2.1
    WWWAuthenticate(String),
    RetryAfter(String),
    ETag(String),
    LastModified(String),
    AcceptRanges(String),
    ContentRange(String),
    Vary(HeaderValues), // RFC 9110, 12.5.5
    ContentLength(usize),
    Host(String),
    Connection(String),
    ContentType(HeaderValue), // RFC 9110, 8.3
    Date(HttpDate),
    TransferEncoding(HeaderValues),
    CacheControl(HeaderValues),
}

impl View for Header {
    type V = SpecHeader;

    open spec fn view(&self) -> SpecHeader {
        match self {
            Header::Accept(x) => SpecHeader { kind: HeaderKind::Accept, payload: Payload::Values(x@) },
            Header::AcceptLanguage(x) => SpecHeader { kind: HeaderKind::AcceptLanguage, payload: Payload::Values(x@) },
            Header::Authorization(x) => SpecHeader { kind: HeaderKind::Authorization, payload: Payload::Text(x@) },
            Header::UserAgent(x) => SpecHeader { kind: HeaderKind::UserAgent, payload: Payload::Value(x@) },
            Header::Cookie(x) => SpecHeader { kind: HeaderKind::Cookie, payload: Payload::Values(x@) },
            Header::Referer(x) => SpecHeader { kind: HeaderKind::Referer, payload: Payload::Text(x@) },
            Header::Origin(x) => SpecHeader { kind: HeaderKind::Origin, payload: Payload::Text(x@) },
            Header::IfNoneMatch(x) => SpecHeader { kind: HeaderKind::IfNoneMatch, payload: Payload::Text(x@) },
            Header::IfModifiedSince(x) => SpecHeader { kind: HeaderKind::IfModifiedSince, payload: Payload::Text(x@) },
            Header::Range(x) => SpecHeader { kind: HeaderKind::Range, payload: Payload::Text(x@) },
            Header::Location(x) => SpecHeader { kind: HeaderKind::Location, payload: Payload::Text(x@) },
            Header::SetCookie(x) => SpecHeader { kind: HeaderKind::SetCookie, payload: Payload::Values(x@) },
            Header::ContentEncoding(x) => SpecHeader { kind: HeaderKind::ContentEncoding, payload: Payload::Text(x@) },
            Header::Server(x) => SpecHeader { kind: HeaderKind::Server, payload: Payload::Text(x@) },
            Header::AccessControlAllowOrigin(x) => SpecHeader { kind: HeaderKind::AccessControlAllowOrigin, payload: Payload::Text(x@) },
            Header::AccessControlAllowMethods(x) => SpecHeader { kind: HeaderKind::AccessControlAllowMethods, payload: Payload::Values(x@) },
            Header::AccessControlAllowHeaders(x) => SpecHeader { kind: HeaderKind::AccessControlAllowHeaders, payload: Payload::Values(x@) },
            Header::AccessControlMaxAge(x) => SpecHeader { kind: HeaderKind::AccessControlMaxAge, payload: Payload::Text(x@) },
            Header::Allow(x) => SpecHeader { kind: HeaderKind::Allow, payload: Payload::Values(x@) },
            Header::WWWAuthenticate(x) => SpecHeader { kind: HeaderKind::WWWAuthenticate, payload: Payload::Text(x@) },
            Header::RetryAfter(x) => SpecHeader { kind: HeaderKind::RetryAfter, payload: Payload::Text(x@) },
            Header::ETag(x) => SpecHeader { kind: HeaderKind::ETag, payload: Payload::Text(x@) },
            Header::LastModified(x) => SpecHeader { kind: HeaderKind::LastModified, payload: Payload::Text(x@) },
            Header::AcceptRanges(x) => SpecHeader { kind: HeaderKind::AcceptRanges, payload: Payload::Text(x@) },
            Header::ContentRange(x) => SpecHeader { kind: HeaderKind::ContentRange, payload: Payload::Text(x@) },
            Header::Vary(x) => SpecHeader { kind: HeaderKind::Vary, payload: Payload::Values(x@) },
            Header::ContentLength(x) => SpecHeader { kind: HeaderKind::ContentLength, payload: Payload::Length(*x) },
            Header::Host(x) => SpecHeader { kind: HeaderKind::Host, payload: Payload::Text(x@) },
            Header::Connection(x) => SpecHeader { kind: HeaderKind::Connection, payload: Payload::Text(x@) },
            Header::ContentType(x) => SpecHeader { kind: HeaderKind::ContentType, payload: Payload::Value(x@) },
            Header::Date(x) => SpecHeader { kind: HeaderKind::Date, payload: Payload::Date(*x) },
            Header::TransferEncoding(x) => SpecHeader { kind: HeaderKind::TransferEncoding, payload: Payload::Values(x@) },
            Header::CacheControl(x) => SpecHeader { kind: HeaderKind::CacheControl, payload: Payload::Values(x@) },
        }
    }
}

/// What a header built from a field line holds: `value` read as the kind's
/// payload (a `Connection` header holds the field name itself).
pub open spec fn header_from_parts(kind: HeaderKind, field: Seq<char>, value: Seq<char>) -> Result<
    SpecHeader,
    SpecError,
> {
    match payload_class(kind) {
        PayloadClass::Values => Ok(
            SpecHeader { kind, payload: Payload::Values(values_from_text(value, None)) },
        ),
        PayloadClass::Value => Ok(SpecHeader { kind, payload: Payload::Value(value_from_text(value)) }),
        PayloadClass::Text => Ok(
            SpecHeader {
                kind,
                payload: Payload::Text(
                    if kind == HeaderKind::Connection {
                        field
                    } else {
                        value
                    },
                ),
            },
        ),
        PayloadClass::Length => match parse_usize(value) {
            Some(n) => Ok(SpecHeader { kind, payload: Payload::Length(n) }),
            None => Err(
                error_of(
                    HTTPErrorKind::BadHeader,
                    quoted("Malformed content length value: "@, value),
                ),
            ),
        },
        PayloadClass::Date => match date_of(value) {
            Some(d) => Ok(SpecHeader { kind, payload: Payload::Date(d) }),
            None => Err(error_of(HTTPErrorKind::BadHeader, quoted("Malformed date value: "@, value))),
        },
    }
}

/// What checking a header reports. `Accept-Language`, `Vary`, `Set-Cookie`
/// and `Cookie` values are held to the token rule, `Accept` and
/// `Content-Type` values to the media type rule, `Allow` values to the method
/// rule, the `User-Agent` value to the product rule, `Host` to the host rule,
/// and `Connection` must be `keep-alive` or `close`. Other headers pass.
pub open spec fn header_check(h: SpecHeader) -> Result<(), SpecError> {
    match h.payload {
        Payload::Values(vs) => {
            if h.kind == HeaderKind::AcceptLanguage || h.kind == HeaderKind::Vary || h.kind
                == HeaderKind::SetCookie || h.kind == HeaderKind::Cookie {
                values_check(vs, None)
            } else if h.kind == HeaderKind::Accept {
                values_check(vs, Some(ValuePattern::MediaType))
            } else if h.kind == HeaderKind::Allow {
                values_check(vs, Some(ValuePattern::MethodName))
            } else {
                Ok(())
            }
        },
        Payload::Value(v) => {
            if h.kind == HeaderKind::ContentType {
                value_check(v, Some(ValuePattern::MediaType))
            } else if h.kind == HeaderKind::UserAgent {
                value_check(v, Some(ValuePattern::ProductList))
            } else {
                Ok(())
            }
        },
        Payload::Text(t) => {
            if h.kind == HeaderKind::Host && !is_host(t) {
                Err(error_of(HTTPErrorKind::BadHeader, quoted("Invalid host: "@, t)))
            } else if h.kind == HeaderKind::Connection && t != "keep-alive"@ && t != "close"@ {
                Err(error_of(HTTPErrorKind::BadHeader, quoted("Invalid connection type: "@, t)))
            } else {
                Ok(())
            }
        },
        _ => Ok(()),
    }
}

/// What reading a header line gives: the line must have the header shape,
/// name a known field, hold a payload of that field, and pass the check.
pub open spec fn parse_header(line: Seq<char>) -> Result<SpecHeader, SpecError> {
    match split_header_line(line) {
        None => Err(error_of(HTTPErrorKind::BadHeader, quoted("Invalid format: "@, line))),
        Some((field, value)) => match kind_of_name(field) {
            None => Err(error_of(HTTPErrorKind::BadHeader, quoted("Unsupported header "@, field))),
            Some(kind) => match header_from_parts(kind, field, value) {
                Err(e) => Err(e),
                Ok(h) => match header_check(h) {
                    Ok(()) => Ok(h),
                    Err(e) => Err(e),
                },
            },
        },
    }
}

/// The text that follows the field name in a header line.
pub open spec fn payload_text(p: Payload) -> Seq<char> {
    match p {
        Payload::Values(vs) => values_text(vs),
        Payload::Value(v) => value_text(v),
        Payload::Text(t) => t,
        Payload::Length(n) => decimal(n as nat),
        Payload::Date(d) => date_text(d),
    }
}

/// The text of a header: `Name: payload`.
pub open spec fn header_text(h: SpecHeader) -> Seq<char> {
    kind_name(h.kind) + ": "@ + payload_text(h.payload)
}

/// The view of a header result.
pub open spec fn header_result(r: Result<Header, HTTPError>) -> Result<SpecHeader, SpecError> {
    match r {
        Ok(h) => Ok(h@),
        Err(e) => Err(e@),
    }
}

/// The kind whose field name is `name`, if any.
pub fn kind_from_name(name: &str) -> (r: Option<HeaderKind>)
    ensures
        r == kind_of_name(name@),
{
    if str_eq(name, "Accept") {
        Some(HeaderKind::Accept)
    } else if str_eq(name, "Accept-Language") {
        Some(HeaderKind::AcceptLanguage)
    } else if str_eq(name, "Authorization") {
        Some(HeaderKind::Authorization)
    } else if str_eq(name, "User-Agent") {
        Some(HeaderKind::UserAgent)
    } else if str_eq(name, "Cookie") {
        Some(HeaderKind::Cookie)
    } else if str_eq(name, "Referer") {
        Some(HeaderKind::Referer)
    } else if str_eq(name, "Origin") {
        Some(HeaderKind::Origin)
    } else if str_eq(name, "If-None-Match") {
        Some(HeaderKind::IfNoneMatch)
    } else if str_eq(name, "If-Modified-Since") {
        Some(HeaderKind::IfModifiedSince)
    } else if str_eq(name, "Range") {
        Some(HeaderKind::Range)
    } else if str_eq(name, "Location") {
        Some(HeaderKind::Location)
    } else if str_eq(name, "Set-Cookie") {
        Some(HeaderKind::SetCookie)
    } else if str_eq(name, "Content-Encoding") {
        Some(HeaderKind::ContentEncoding)
    } else if str_eq(name, "Server") {
        Some(HeaderKind::Server)
    } else if str_eq(name, "Access-Control-Allow-Origin") {
        Some(HeaderKind::AccessControlAllowOrigin)
    } else if str_eq(name, "Access-Control-Allow-Methods") {
        Some(HeaderKind::AccessControlAllowMethods)
    } else if str_eq(name, "Access-Control-Allow-Headers") {
        Some(HeaderKind::AccessControlAllowHeaders)
    } else if str_eq(name, "Access-Control-Max-Age") {
        Some(HeaderKind::AccessControlMaxAge)
    } else if str_eq(name, "Allow") {
        Some(HeaderKind::Allow)
    } else if str_eq(name, "WWW-Authenticate") {
        Some(HeaderKind::WWWAuthenticate)
    } else if str_eq(name, "Retry-After") {
        Some(HeaderKind::RetryAfter)
    } else if str_eq(name, "ETag") {
        Some(HeaderKind::ETag)
    } else if str_eq(name, "Last-Modified") {
        Some(HeaderKind::LastModified)
    } else if str_eq(name, "Accept-Ranges") {
        Some(HeaderKind::AcceptRanges)
    } else if str_eq(name, "Content-Range") {
        Some(HeaderKind::ContentRange)
    } else if str_eq(name, "Vary") {
        Some(HeaderKind::Vary)
    } else if str_eq(name, "Content-Length") {
        Some(HeaderKind::ContentLength)
    } else if str_eq(name, "Host") {
        Some(HeaderKind::Host)
    } else if str_eq(name, "Connection") {
        Some(HeaderKind::Connection)
    } else if str_eq(name, "Content-Type") {
        Some(HeaderKind::ContentType)
    } else if str_eq(name, "Date") {
        Some(HeaderKind::Date)
    } else if str_eq(name, "Transfer-Encoding") {
        Some(HeaderKind::TransferEncoding)
    } else if str_eq(name, "Cache-Control") {
        Some(HeaderKind::CacheControl)
    } else {
        None
    }
}

impl Header {
    /// Reads a header from its field line.
    pub fn new(line: &str) -> (r: Result<Self, HTTPError>)
        ensures
            header_result(r) == parse_header(line@),
    {
        let (field, value) = match split_header_line_str(line) {
            Some(parts) => parts,
            None => {
                return Err(HTTPError::quoting(HTTPErrorKind::BadHeader, "Invalid format: ", line));
            },
        };
        let kind = match kind_from_name(field) {
            Some(k) => k,
            None => {
                return Err(HTTPError::quoting(HTTPErrorKind::BadHeader, "Unsupported header ", field));
            },
        };
        let header = match Header::from_parts(kind, field, value) {
            Ok(h) => h,
            Err(e) => {
                return Err(e);
            },
        };
        match header.validate() {
            Ok(_) => Ok(header),
            Err(e) => Err(e),
        }
    }

    /// The header of kind `kind` that the field line with this `field` name
    /// and this `value` stands for.
    pub fn from_parts(kind: HeaderKind, field: &str, value: &str) -> (r: Result<Self, HTTPError>)
        ensures
            header_result(r) == header_from_parts(kind, field@, value@),
    {
        match kind {
            HeaderKind::Accept => match HeaderValues::new(value, None) {
                Ok(hvs) => Ok(Header::Accept(hvs)),
                Err(e) => Err(e),
            },
            HeaderKind::AcceptLanguage => match HeaderValues::new(value, None) {
                Ok(hvs) => Ok(Header::AcceptLanguage(hvs)),
                Err(e) => Err(e),
            },
            HeaderKind::Authorization => Ok(Header::Authorization(value.to_owned())),
            HeaderKind::UserAgent => Ok(Header::UserAgent(HeaderValue::new(value))),
            HeaderKind::Cookie => match HeaderValues::new(value, None) {
                Ok(hvs) => Ok(Header::Cookie(hvs)),
                Err(e) => Err(e),
            },
            HeaderKind::Referer => Ok(Header::Referer(value.to_owned())),
            HeaderKind::Origin => Ok(Header::Origin(value.to_owned())),
            HeaderKind::IfNoneMatch => Ok(Header::IfNoneMatch(value.to_owned())),
            HeaderKind::IfModifiedSince => Ok(Header::IfModifiedSince(value.to_owned())),
            HeaderKind::Range => Ok(Header::Range(value.to_owned())),
            HeaderKind::Location => Ok(Header::Location(value.to_owned())),
            HeaderKind::SetCookie => match HeaderValues::new(value, None) {
                Ok(hvs) => Ok(Header::SetCookie(hvs)),
                Err(e) => Err(e),
            },
            HeaderKind::ContentEncoding => Ok(Header::ContentEncoding(value.to_owned())),
            HeaderKind::Server => Ok(Header::Server(value.to_owned())),
            HeaderKind::AccessControlAllowOrigin => Ok(Header::AccessControlAllowOrigin(value.to_owned())),
            HeaderKind::AccessControlAllowMethods => match HeaderValues::new(value, None) {
                Ok(hvs) => Ok(Header::AccessControlAllowMethods(hvs)),
                Err(e) => Err(e),
            },
            HeaderKind::AccessControlAllowHeaders => match HeaderValues::new(value, None) {
                Ok(hvs) => Ok(Header::AccessControlAllowHeaders(hvs)),
                Err(e) => Err(e),
            },
            HeaderKind::AccessControlMaxAge => Ok(Header::AccessControlMaxAge(value.to_owned())),
            HeaderKind::Allow => match HeaderValues::new(value, None) {
                Ok(hvs) => Ok(Header::Allow(hvs)),
                Err(e) => Err(e),
            },
            HeaderKind::WWWAuthenticate => Ok(Header::WWWAuthenticate(value.to_owned())),
            HeaderKind::RetryAfter => Ok(Header::RetryAfter(value.to_owned())),
            HeaderKind::ETag => Ok(Header::ETag(value.to_owned())),
            HeaderKind::LastModified => Ok(Header::LastModified(value.to_owned())),
            HeaderKind::AcceptRanges => Ok(Header::AcceptRanges(value.to_owned())),
            HeaderKind::ContentRange => Ok(Header::ContentRange(value.to_owned())),
            HeaderKind::Vary => match HeaderValues::new(value, None) {
                Ok(hvs) => Ok(Header::Vary(hvs)),
                Err(e) => Err(e),
            },
            HeaderKind::ContentLength => match parse_usize_str(value) {
                Some(l) => Ok(Header::ContentLength(l)),
                None => Err(
                    HTTPError::quoting(
                        HTTPErrorKind::BadHeader,
                        "Malformed content length value: ",
                        value,
                    ),
                ),
            },
            HeaderKind::Host => Ok(Header::Host(value.to_owned())),
            HeaderKind::Connection => Ok(Header::Connection(field.to_owned())),
            HeaderKind::ContentType => Ok(Header::ContentType(HeaderValue::new(value))),
            HeaderKind::Date => match HttpDate::parse(value) {
                Some(d) => Ok(Header::Date(d)),
                None => Err(HTTPError::quoting(HTTPErrorKind::BadHeader, "Malformed date value: ", value)),
            },
            HeaderKind::TransferEncoding => match HeaderValues::new(value, None) {
                Ok(hvs) => Ok(Header::TransferEncoding(hvs)),
                Err(e) => Err(e),
            },
            HeaderKind::CacheControl => match HeaderValues::new(value, None) {
                Ok(hvs) => Ok(Header::CacheControl(hvs)),
                Err(e) => Err(e),
            },
        }
    }

    /// The kind of this header.
    pub fn kind(&self) -> (k: HeaderKind)
        ensures
            k == self@.kind,
    {
        match self {
            Header::Accept(_) => HeaderKind::Accept,
            Header::AcceptLanguage(_) => HeaderKind::AcceptLanguage,
            Header::Authorization(_) => HeaderKind::Authorization,
            Header::UserAgent(_) => HeaderKind::UserAgent,
            Header::Cookie(_) => HeaderKind::Cookie,
            Header::Referer(_) => HeaderKind::Referer,
            Header::Origin(_) => HeaderKind::Origin,
            Header::IfNoneMatch(_) => HeaderKind::IfNoneMatch,
            Header::IfModifiedSince(_) => HeaderKind::IfModifiedSince,
            Header::Range(_) => HeaderKind::Range,
            Header::Location(_) => HeaderKind::Location,
            Header::SetCookie(_) => HeaderKind::SetCookie,
            Header::ContentEncoding(_) => HeaderKind::ContentEncoding,
            Header::Server(_) => HeaderKind::Server,
            Header::AccessControlAllowOrigin(_) => HeaderKind::AccessControlAllowOrigin,
            Header::AccessControlAllowMethods(_) => HeaderKind::AccessControlAllowMethods,
            Header::AccessControlAllowHeaders(_) => HeaderKind::AccessControlAllowHeaders,
            Header::AccessControlMaxAge(_) => HeaderKind::AccessControlMaxAge,
            Header::Allow(_) => HeaderKind::Allow,
            Header::WWWAuthenticate(_) => HeaderKind::WWWAuthenticate,
            Header::RetryAfter(_) => HeaderKind::RetryAfter,
            Header::ETag(_) => HeaderKind::ETag,
            Header::LastModified(_) => HeaderKind::LastModified,
            Header::AcceptRanges(_) => HeaderKind::AcceptRanges,
            Header::ContentRange(_) => HeaderKind::ContentRange,
            Header::Vary(_) => HeaderKind::Vary,
            Header::ContentLength(_) => HeaderKind::ContentLength,
            Header::Host(_) => HeaderKind::Host,
            Header::Connection(_) => HeaderKind::Connection,
            Header::ContentType(_) => HeaderKind::ContentType,
            Header::Date(_) => HeaderKind::Date,
            Header::TransferEncoding(_) => HeaderKind::TransferEncoding,
            Header::CacheControl(_) => HeaderKind::CacheControl,
        }
    }

    /// The length a `Content-Length` header holds.
    pub fn length(&self) -> (r: Option<usize>)
        ensures
            r == (match self@.payload {
                Payload::Length(n) => Some(n),
                _ => None,
            }),
    {
        match self {
            Header::ContentLength(n) => Some(*n),
            _ => None,
        }
    }

    /// The text a header of text holds.
    pub fn text(&self) -> (r: Option<&str>)
        ensures
            match self@.payload {
                Payload::Text(t) => r matches Some(s) && s@ == t,
                _ => r is None,
            },
    {
        match self {
            Header::Authorization(s) | Header::Host(s) | Header::Connection(s)
            | Header::Location(s) | Header::Referer(s) | Header::Origin(s)
            | Header::IfNoneMatch(s) | Header::IfModifiedSince(s) | Header::Range(s)
            | Header::ContentEncoding(s) | Header::Server(s) | Header::AccessControlAllowOrigin(s)
            | Header::AccessControlMaxAge(s) | Header::WWWAuthenticate(s) | Header::RetryAfter(s)
            | Header::ETag(s) | Header::LastModified(s) | Header::AcceptRanges(s)
            | Header::ContentRange(s) => Some(s.as_str()),
            _ => None,
        }
    }

    /// Checks the header's payload against the rule of its kind.
    pub fn validate(&self) -> (r: Result<(), HTTPError>)
        ensures
            unit_result(r) == header_check(self@),
    {
        match self {
            Header::AcceptLanguage(hvs) | Header::Vary(hvs) | Header::SetCookie(hvs)
            | Header::Cookie(hvs) => {
                return hvs.validate(None);
            },
            Header::ContentType(hv) => {
                return hv.validate(Some(ValuePattern::MediaType));
            },
            Header::Accept(hvs) => {
                return hvs.validate(Some(ValuePattern::MediaType));
            },
            Header::Host(query) => {
                if !is_host_str(query.as_str()) {
                    return Err(HTTPError::quoting(HTTPErrorKind::BadHeader, "Invalid host: ", query.as_str()));
                }
            },
            Header::Connection(conntype) => {
                if !str_eq(conntype.as_str(), "keep-alive") && !str_eq(conntype.as_str(), "close") {
                    return Err(
                        HTTPError::quoting(
                            HTTPErrorKind::BadHeader,
                            "Invalid connection type: ",
                            conntype.as_str(),
                        ),
                    );
                }
            },
            Header::Allow(hvs) => {
                return hvs.validate(Some(ValuePattern::MethodName));
            },
            Header::UserAgent(hv) => {
                return hv.validate(Some(ValuePattern::ProductList));
            },
            _ => {},
        }
        Ok(())
    }

    /// The field name of this header.
    pub fn get_kind(&self) -> (s: String)
        ensures
            s@ == kind_name(self@.kind),
    {
        match self {
            Header::Accept(_) => String::from_str("Accept"),
            Header::AcceptLanguage(_) => String::from_str("Accept-Language"),
            Header::Authorization(_) => String::from_str("Authorization"),
            Header::UserAgent(_) => String::from_str("User-Agent"),
            Header::Cookie(_) => String::from_str("Cookie"),
            Header::Referer(_) => String::from_str("Referer"),
            Header::Origin(_) => String::from_str("Origin"),
            Header::IfNoneMatch(_) => String::from_str("If-None-Match"),
            Header::IfModifiedSince(_) => String::from_str("If-Modified-Since"),
            Header::Range(_) => String::from_str("Range"),
            Header::Location(_) => String::from_str("Location"),
            Header::SetCookie(_) => String::from_str("Set-Cookie"),
            Header::ContentEncoding(_) => String::from_str("Content-Encoding"),
            Header::Server(_) => String::from_str("Server"),
            Header::AccessControlAllowOrigin(_) => String::from_str("Access-Control-Allow-Origin"),
            Header::AccessControlAllowMethods(_) => String::from_str("Access-Control-Allow-Methods"),
            Header::AccessControlAllowHeaders(_) => String::from_str("Access-Control-Allow-Headers"),
            Header::AccessControlMaxAge(_) => String::from_str("Access-Control-Max-Age"),
            Header::Allow(_) => String::from_str("Allow"),
            Header::WWWAuthenticate(_) => String::from_str("WWW-Authenticate"),
            Header::RetryAfter(_) => String::from_str("Retry-After"),
            Header::ETag(_) => String::from_str("ETag"),
            Header::LastModified(_) => String::from_str("Last-Modified"),
            Header::AcceptRanges(_) => String::from_str("Accept-Ranges"),
            Header::ContentRange(_) => String::from_str("Content-Range"),
            Header::Vary(_) => String::from_str("Vary"),
            Header::ContentLength(_) => String::from_str("Content-Length"),
            Header::Host(_) => String::from_str("Host"),
            Header::Connection(_) => String::from_str("Connection"),
            Header::ContentType(_) => String::from_str("Content-Type"),
            Header::Date(_) => String::from_str("Date"),
            Header::TransferEncoding(_) => String::from_str("Transfer-Encoding"),
            Header::CacheControl(_) => String::from_str("Cache-Control"),
        }
    }

    /// The header's line, `Name: payload`, as `Display` writes it.
    pub fn to_string(&self) -> (s: String)
        ensures
            s@ == header_text(self@),
    {
        let field = match self {
            Header::Accept(hvs) | Header::AccessControlAllowMethods(hvs)
            | Header::AccessControlAllowHeaders(hvs) | Header::Allow(hvs) | Header::Vary(hvs)
            | Header::CacheControl(hvs) | Header::SetCookie(hvs) | Header::Cookie(hvs)
            | Header::TransferEncoding(hvs) | Header::AcceptLanguage(hvs) => hvs.to_string(),
            Header::UserAgent(hv) | Header::ContentType(hv) => hv.to_string(),
            Header::Authorization(s) | Header::Host(s) | Header::Connection(s)
            | Header::Location(s) | Header::Referer(s) | Header::Origin(s)
            | Header::IfNoneMatch(s) | Header::IfModifiedSince(s) | Header::Range(s)
            | Header::ContentEncoding(s) | Header::Server(s) | Header::AccessControlAllowOrigin(s)
            | Header::AccessControlMaxAge(s) | Header::WWWAuthenticate(s) | Header::RetryAfter(s)
            | Header::ETag(s) | Header::LastModified(s) | Header::AcceptRanges(s)
            | Header::ContentRange(s) => s.clone(),
            Header::ContentLength(len) => decimal_string(*len as u64),
            Header::Date(date) => date.to_string(),
        };
        let mut s = self.get_kind();
        s.append(": ");
        s.append(field.as_str());
        s
    }
}

} // verus!
