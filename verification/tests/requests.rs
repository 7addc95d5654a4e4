use http_wire::date::HttpDate;
use http_wire::error::HTTPErrorKind;
use http_wire::header::Header;
use http_wire::map::HeaderMap;
use http_wire::message::{status_reason, Request, RequestType};
use http_wire::parse::{head_is_unreadable, parse_header_line, parse_headers};
use http_wire::reader::{ReadError, ReadEvent, ReadStep, RequestReader};
use http_wire::server::{asks_to_close, bad_request, exchange_at_time, form_response_at, Exchange};
use http_wire::value::HeaderValues;

#[test]
fn request_types() {
    assert_eq!(RequestType::new("GET").ok(), Some(RequestType::Get));
    assert_eq!(RequestType::new("HEAD").ok(), Some(RequestType::Head));
    assert_eq!(RequestType::new("POST").ok(), Some(RequestType::Post));
    let e = RequestType::new("PATCH").err().unwrap();
    assert_eq!(e.kind(), HTTPErrorKind::InvalidMethod);
    assert_eq!(e.message(), "Unsupported method: 'PATCH'");
    assert!(RequestType::new("get").is_err());
    assert_eq!(RequestType::Post.to_string(), "POST");
}

#[test]
fn status_reasons() {
    assert_eq!(status_reason(200), "OK");
    assert_eq!(status_reason(404), "Not Found");
    assert_eq!(status_reason(419), "Too Many Requests");
    assert_eq!(status_reason(505), "HTTP Version Not Supported");
    assert_eq!(status_reason(429), "");
    assert_eq!(status_reason(0), "");
}

#[test]
fn request_header_lines_are_built_from_the_field_name() {
    match parse_header_line("Host: example.com") {
        Ok(Header::Host(s)) => assert_eq!(s, "Host"),
        other => panic!("{:?}", other.map(|h| h.to_string()).map_err(|e| e.to_string())),
    }
    match parse_header_line("Authorization: Bearer t") {
        Ok(Header::Authorization(s)) => assert_eq!(s, "Authorization"),
        _ => panic!("not an authorization header"),
    }
    assert!(matches!(parse_header_line("Content-Length: 12"), Ok(Header::ContentLength(12))));
    let e = parse_header_line("Cache-Control: x").err().unwrap();
    assert_eq!(e.message(), "Unsupported header 'Cache-Control'");
    let e = parse_header_line("Accept: */*").err().unwrap();
    assert_eq!(e.message(), "Invalid header value 'Accept' in header 'Accept'");
    let e = parse_header_line("Connection: close").err().unwrap();
    assert_eq!(e.message(), "Invalid connection type: 'Connection'");
    let e = parse_header_line("Host").err().unwrap();
    assert_eq!(e.message(), "Invalid format: 'Host'");
}

#[test]
fn request_head_drops_the_last_header_line() {
    let (m, path, version, headers) =
        parse_headers("GET /index.html HTTP/1.1\r\nHost: a\r\nContent-Length: 3\r\n\r\n").unwrap();
    assert_eq!(m, RequestType::Get);
    assert_eq!(path, "/index.html");
    assert_eq!(version, "HTTP/1.1");
    assert_eq!(headers.len(), 1);
    assert!(headers.contains_key("Host"));
    assert!(!headers.contains_key("Content-Length"));

    let (_, _, _, headers) =
        parse_headers("POST /a HTTP/1.1\r\nContent-Length: 5\r\nHost: h\r\n\r\n").unwrap();
    assert!(matches!(headers.get("Content-Length"), Some(Header::ContentLength(5))));
    assert!(headers.get("Host").is_none());
}

#[test]
fn request_head_errors() {
    let msg = |t: &str| parse_headers(t).err().unwrap().message().to_string();
    assert_eq!(msg("GET index.html HTTP/1.1\r\nHost: a\r\n\r\n"), "Invalid location: 'index.html'");
    assert_eq!(msg("DELETE / HTTP/1.1\r\nHost: a\r\n\r\n"), "Malformed header");
    assert_eq!(msg("GET / HTTP/1.1 x\r\nHost: a\r\n\r\n"), "Bad request line, expected 3 items");
    assert_eq!(msg("GET / HTTP/1.1\r\nFoo: x\r\nHost: a\r\n\r\n"), "Unsupported header 'Foo'");
    assert_eq!(msg("GET  / HTTP/1.1\r\n\r\n"), "Bad request line, expected 3 items");
}

#[test]
fn unreadable_heads() {
    assert!(head_is_unreadable("GET / HTTP/1.1\r\n\r\n"));
    assert!(!head_is_unreadable("GET / HTTP/1.1\r\nHost: a\r\n\r\n"));
    assert!(!head_is_unreadable("BAD\r\n\r\n"));
}

fn feed(bytes: &[u8], chunk: usize) -> ReadStep {
    let mut reader = RequestReader::new();
    for piece in bytes.chunks(chunk) {
        match reader.step(ReadEvent::Bytes(piece.to_vec())) {
            ReadStep::Pending(r) => reader = r,
            other => return other,
        }
    }
    ReadStep::Pending(reader)
}

fn ready(step: ReadStep) -> Request {
    match step {
        ReadStep::Ready(r) => r,
        other => panic!("not ready: {:?}", other),
    }
}

const POST: &[u8] = b"POST /x HTTP/1.1\r\nContent-Length: 5\r\nHost: h\r\n\r\nhello";

#[test]
fn reader_gathers_head_and_body() {
    let mut longer = POST.to_vec();
    longer.extend_from_slice(b"GET / HTTP/1.1");
    assert_eq!(ready(feed(&longer, 1000)).body, b"hello");
    let r = ready(feed(POST, 12));
    assert_eq!(r.method, RequestType::Post);
    assert_eq!(r.path, "/x");
    assert_eq!(r.version, "HTTP/1.1");
    assert_eq!(r.body, b"hello");
    assert!(matches!(r.headers.get("Content-Length"), Some(Header::ContentLength(5))));
    assert_eq!(r.to_string(), "POST /x HTTP/1.1\r\nContent-Length: 5\r\n\r\nBody len 5");
}

#[test]
fn reader_waits_for_the_body() {
    match feed(&POST[..POST.len() - 1], 12) {
        ReadStep::Pending(r) => match r.step(ReadEvent::End) {
            ReadStep::Failed(ReadError::UnexpectedEof) => {}
            other => panic!("{:?}", other),
        },
        other => panic!("{:?}", other),
    }
    match feed(&POST[..POST.len() - 1], 7) {
        ReadStep::Pending(r) => {
            assert!(matches!(r.step(ReadEvent::Failed(broken_pipe())), ReadStep::Failed(ReadError::ReadFailed(e)) if e.kind() == std::io::ErrorKind::BrokenPipe))
        }
        other => panic!("{:?}", other),
    }
}

#[test]
fn reader_without_length_has_no_body() {
    let r = ready(feed(b"GET / HTTP/1.1\r\nHost: h\r\nAuthorization: x\r\n\r\nextra", 1000));
    assert!(r.body.is_empty());
    assert_eq!(r.headers.len(), 1);
}

#[test]
fn reader_ends() {
    assert!(matches!(RequestReader::new().step(ReadEvent::End), ReadStep::Closed));
    assert!(matches!(RequestReader::new().step(ReadEvent::Bytes(Vec::new())), ReadStep::Closed));
    assert!(matches!(RequestReader::new().step(ReadEvent::Failed(broken_pipe())), ReadStep::Closed));
    match feed(b"GET / HT", 3) {
        ReadStep::Pending(r) => {
            assert!(matches!(r.step(ReadEvent::Failed(broken_pipe())), ReadStep::Closed));
        }
        other => panic!("{:?}", other),
    }
    match feed(b"GET / HT", 3) {
        ReadStep::Pending(r) => {
            assert!(matches!(r.step(ReadEvent::End), ReadStep::Failed(ReadError::UnexpectedEof)));
        }
        other => panic!("{:?}", other),
    }
}

#[test]
fn reader_refusals() {
    let not_text = feed(b"GET / HTTP/1.1\r\nHost: \xff\r\nX: y\r\n\r\n", 5);
    assert!(matches!(not_text, ReadStep::Failed(ReadError::InvalidHeaderBytes)));
    match feed(b"DELETE / HTTP/1.1\r\nHost: a\r\nX: y\r\n\r\n", 4) {
        ReadStep::Failed(ReadError::BadRequest(e)) => assert_eq!(e.message(), "Malformed header"),
        other => panic!("{:?}", other),
    }
    assert!(matches!(feed(b"GET / HTTP/1.1\r\n\r\n", 2), ReadStep::Unhandled));
    let huge = b"GET / HTTP/1.1\r\nContent-Length: 18446744073709551615\r\nX: y\r\n\r\n";
    assert!(matches!(feed(huge, 100), ReadStep::Unhandled));
}

fn request(version: &str, headers: HeaderMap) -> Request {
    Request {
        method: RequestType::Get,
        path: "/".to_string(),
        version: version.to_string(),
        headers,
        body: Vec::new(),
    }
}

#[test]
fn responses_by_version_and_encoding() {
    let epoch = HttpDate { timestamp: 0 };
    let ok = form_response_at(&request("HTTP/1.1", HeaderMap::new()), epoch);
    assert_eq!(ok.status_code, 200);
    assert_eq!(ok.to_string(), "HTTP/1.1 200 OK\r\nDate: Thu, 01 Jan 1970 00:00:00 UTC\r\n\r\nBody len 0");
    let old = form_response_at(&request("HTTP/1.0", HeaderMap::new()), epoch);
    assert_eq!(old.status_code, 505);
    assert_eq!(
        old.to_string(),
        "HTTP/1.1 505 HTTP Version Not Supported\r\nDate: Thu, 01 Jan 1970 00:00:00 UTC\r\n\r\nBody len 0"
    );
    let mut chunked = HeaderMap::new();
    chunked.insert(Header::TransferEncoding(HeaderValues::new("chunked", None).unwrap()));
    let r = form_response_at(&request("HTTP/1.1", chunked), epoch);
    assert_eq!(r.status_code, 501);
    let later = form_response_at(&request("HTTP/1.1", HeaderMap::new()), HttpDate { timestamp: 784111777 });
    assert_eq!(later.status_code, 200);
    assert_eq!(later.headers.len(), 1);
    assert!(matches!(later.headers.get("Date"), Some(Header::Date(d)) if d.timestamp == 784111777));
}

#[test]
fn bad_request_text() {
    assert_eq!(bad_request().to_string(), "HTTP/1.1 400 Bad Request\r\n\r\n\r\nBody len 0");
}

#[test]
fn exchanges() {
    let epoch = HttpDate { timestamp: 0 };
    assert!(matches!(exchange_at_time(Ok(None), epoch), Exchange::Finish));
    match exchange_at_time(Err(ReadError::UnexpectedEof), epoch) {
        Exchange::Reply { response, close } => {
            assert_eq!(response.status_code, 400);
            assert!(close);
        }
        Exchange::Finish => panic!("no reply"),
    }
    match exchange_at_time(Ok(Some(request("HTTP/1.1", HeaderMap::new()))), epoch) {
        Exchange::Reply { response, close } => {
            assert_eq!(response.status_code, 200);
            assert!(!close);
        }
        Exchange::Finish => panic!("no reply"),
    }
    let mut closing = HeaderMap::new();
    closing.insert(Header::Connection("close".to_string()));
    assert!(asks_to_close(&closing));
    match exchange_at_time(Ok(Some(request("HTTP/1.1", closing))), epoch) {
        Exchange::Reply { close, .. } => assert!(close),
        Exchange::Finish => panic!("no reply"),
    }
}

#[test]
fn header_map_keeps_one_header_per_name() {
    let mut m = HeaderMap::new();
    m.insert(Header::Host("a".to_string()));
    m.insert(Header::ContentLength(1));
    m.insert(Header::Host("b".to_string()));
    assert_eq!(m.len(), 2);
    match m.get("Host") {
        Some(Header::Host(s)) => assert_eq!(s, "b"),
        _ => panic!("no host"),
    }
    assert_eq!(m.values()[0].get_kind(), "Host");
    assert_eq!(m.values()[1].get_kind(), "Content-Length");
    assert!(!m.contains_key("host"));
}

fn broken_pipe() -> std::io::Error {
    std::io::Error::new(std::io::ErrorKind::BrokenPipe, "pipe broke")
}

#[test]
fn reader_failure_in_body_keeps_the_error() {
    match feed(b"GET / HTTP/1.1\r\nContent-Length: 5\r\nHost: h\r\n\r\nab", 1000) {
        ReadStep::Pending(r) => match r.step(ReadEvent::Failed(broken_pipe())) {
            ReadStep::Failed(ReadError::ReadFailed(e)) => {
                assert_eq!(e.kind(), std::io::ErrorKind::BrokenPipe);
                assert_eq!(e.to_string(), "pipe broke");
            }
            other => panic!("{:?}", other),
        },
        other => panic!("{:?}", other),
    }
}
