use http_wire::error::{HTTPError, HTTPErrorKind};
use http_wire::header::Header;
use http_wire::value::{HeaderParam, HeaderValue, HeaderValues, ValuePattern};

fn bad_header(r: Result<(), HTTPError>, message: &str) {
    match r {
        Err(e) => {
            assert_eq!(e.kind(), HTTPErrorKind::BadHeader);
            assert_eq!(e.message(), message);
        }
        Ok(()) => panic!("expected an error: {message}"),
    }
}

#[test]
fn error_text_is_kind_and_message() {
    let e = HTTPError::new(HTTPErrorKind::InvalidMethod, "no such method");
    assert_eq!(e.to_string(), "InvalidMethod: no such method");
    let q = HTTPError::quoting(HTTPErrorKind::Other, "Odd: ", "x");
    assert_eq!(q.message(), "Odd: 'x'");
    assert_eq!(q.kind(), HTTPErrorKind::Other);
}

#[test]
fn param_splits_at_first_equals() {
    let p = HeaderParam::new("q=0.9");
    assert_eq!(p.key(), Some("q"));
    assert_eq!(p.value(), "0.9");
    assert_eq!(p.to_string(), "q=0.9");
    assert!(p.validate().is_ok());

    let bare = HeaderParam::new("gzip");
    assert_eq!(bare.key(), None);
    assert_eq!(bare.value(), "gzip");

    let twice = HeaderParam::new("a=b=c");
    assert_eq!(twice.key(), Some("a"));
    assert_eq!(twice.value(), "b=c");
}

#[test]
fn param_check_reports_key_then_value() {
    bad_header(HeaderParam::new("@@=x").validate(), "Invalid header param: '@@=x'");
    bad_header(HeaderParam::new("k=@@").validate(), "Invalid header param: '@@'");
    bad_header(HeaderParam::new("").validate(), "Invalid header param: ''");
}

#[test]
fn value_with_params() {
    let v = HeaderValue::new("text/html;q=0.9;level=1");
    assert_eq!(v.key(), None);
    assert_eq!(v.value(), "text/html");
    assert_eq!(v.params().len(), 2);
    assert_eq!(v.get_param("level").map(|p| p.value()), Some("1"));
    assert!(v.get_param("missing").is_none());
    assert_eq!(v.to_string(), "text/htmlq=0.9;level=1");
    assert!(v.validate(Some(ValuePattern::MediaType)).is_ok());
}

#[test]
fn value_without_params_has_one_empty_param() {
    let v = HeaderValue::new("en");
    assert_eq!(v.params().len(), 1);
    assert_eq!(v.params()[0].key(), None);
    assert_eq!(v.params()[0].value(), "");
    assert_eq!(v.to_string(), "en");
    bad_header(v.validate(None), "Invalid header param '' in header 'en'");
}

#[test]
fn value_check_reports_value_then_key() {
    bad_header(
        HeaderValue::new("@@;x").validate(None),
        "Invalid header value '@@' in header '@@x'",
    );
    bad_header(
        HeaderValue::new("@=v;x").validate(None),
        "Invalid header key '@' in header '@=vx'",
    );
    let keyed = HeaderValue::new("a=b;");
    assert_eq!(keyed.key(), Some("a"));
    assert_eq!(keyed.value(), "b");
}

#[test]
fn values_split_and_trim() {
    let vs = HeaderValues::new(" a ;x, b;y ,", None).unwrap();
    assert_eq!(vs.0.len(), 3);
    assert_eq!(vs.0[0].value(), "a ");
    assert_eq!(vs.0[1].value(), "b");
    assert_eq!(vs.0[2].value(), "");
    assert_eq!(vs.to_string(), "a x, by, ");
    bad_header(vs.validate(None), "Invalid header value '' in header ''");

    let semis = HeaderValues::new("a;b", Some(";")).unwrap();
    assert_eq!(semis.0.len(), 2);
    assert_eq!(semis.0[1].value(), "b");
}

fn parsed(line: &str) -> Header {
    match Header::new(line) {
        Ok(h) => h,
        Err(e) => panic!("{line}: {}", e.to_string()),
    }
}

fn refused(line: &str, message: &str) {
    match Header::new(line) {
        Ok(h) => panic!("{line} was accepted: {}", h.to_string()),
        Err(e) => {
            assert_eq!(e.kind(), HTTPErrorKind::BadHeader);
            assert_eq!(e.message(), message);
        }
    }
}

#[test]
fn content_length_header() {
    let h = parsed("Content-Length: 42");
    assert!(matches!(h, Header::ContentLength(42)));
    assert_eq!(h.to_string(), "Content-Length: 42");
    assert_eq!(h.get_kind(), "Content-Length");
    assert_eq!(h.length(), Some(42));
    assert!(matches!(parsed("Content-Length: +7"), Header::ContentLength(7)));
    refused("Content-Length: abc", "Malformed content length value: 'abc'");
    refused("Content-Length: -1", "Malformed content length value: '-1'");
}

#[test]
fn host_header() {
    match parsed("Host: example.com:8080") {
        Header::Host(s) => assert_eq!(s, "example.com:8080"),
        _ => panic!("not a host header"),
    }
    refused("Host: !!", "Invalid host: '!!'");
    assert!(Header::Host(String::new()).validate().is_err());
}

#[test]
fn connection_header_holds_its_field_name() {
    refused("Connection: close", "Invalid connection type: 'Connection'");
    refused("Connection: keep-alive", "Invalid connection type: 'Connection'");
    assert!(Header::Connection("keep-alive".to_string()).validate().is_ok());
    assert!(Header::Connection("close".to_string()).validate().is_ok());
    assert!(Header::Connection("upgrade".to_string()).validate().is_err());
}

#[test]
fn unknown_and_malformed_lines() {
    refused("X-Custom: 1", "Unsupported header 'X-Custom'");
    refused("no colon here", "Invalid format: 'no colon here'");
    refused("Host:example.com", "Invalid format: 'Host:example.com'");
}

#[test]
fn list_headers_are_checked_by_kind() {
    refused("Accept: text/html", "Invalid header param '' in header 'text/html'");
    let accept = parsed("Accept: text/html;q=1");
    assert_eq!(accept.to_string(), "Accept: text/htmlq=1");
    refused("Vary: *", "Invalid header param '' in header '*'");
    assert!(matches!(parsed("Allow: GET;x"), Header::Allow(_)));
    refused("Allow: FOO;x", "Invalid header value 'FOO' in header 'FOOx'");
    refused("User-Agent: curl/8.0", "Invalid header param '' in header 'curl/8.0'");
    let cache = parsed("Cache-Control: no-cache");
    assert_eq!(cache.to_string(), "Cache-Control: no-cache");
}

#[test]
fn text_headers_keep_their_value() {
    let h = parsed("Authorization: Basic abc");
    assert_eq!(h.to_string(), "Authorization: Basic abc");
    assert_eq!(h.text(), Some("Basic abc"));
    assert_eq!(parsed("ETag:    \"xyz\"").text(), Some("\"xyz\""));
}

#[test]
fn date_header() {
    let h = parsed("Date: Sun, 06 Nov 1994 08:49:37 GMT");
    match &h {
        Header::Date(d) => assert_eq!(d.timestamp, 784111777),
        _ => panic!("not a date header"),
    }
    assert_eq!(h.to_string(), "Date: Sun, 06 Nov 1994 08:49:37 UTC");
    refused("Date: yesterday", "Malformed date value: 'yesterday'");
}

#[test]
fn error_of_a_refused_header_as_text() {
    let e = Header::new("Host: !!").err().unwrap();
    assert_eq!(e.to_string(), "BadHeader: Invalid host: '!!'");
}
