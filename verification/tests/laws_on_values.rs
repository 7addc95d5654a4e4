use http_wire::header::Header;
use http_wire::map::HeaderMap;
use http_wire::reader::{ReadEvent, ReadStep, RequestReader};
use http_wire::text::{decimal_string, parse_usize_str};
use http_wire::value::{HeaderParam, HeaderValue, HeaderValues};

#[test]
fn param_text_roundtrip_on_values() {
    for s in ["", "a", "k=v", "k=v=w", "=x", "x="] {
        assert_eq!(HeaderParam::new(s).to_string(), s);
    }
}

#[test]
fn value_text_roundtrip_on_values() {
    for s in ["", "en", "k=v", "text/html", "a=b=c"] {
        assert_eq!(HeaderValue::new(s).to_string(), s);
    }
    assert_ne!(HeaderValue::new("a;b").to_string(), "a;b");
}

#[test]
fn text_header_roundtrip_on_values() {
    let headers = [
        Header::Location("/next".to_string()),
        Header::Server("tiny".to_string()),
        Header::Host("example.com".to_string()),
        Header::ETag(String::new()),
    ];
    for h in headers {
        let line = h.to_string();
        let back = Header::new(&line).ok().unwrap();
        assert_eq!(back.get_kind(), h.get_kind());
        assert_eq!(back.text(), h.text());
    }
}

#[test]
fn length_header_roundtrip_on_values() {
    for n in [0usize, 1, 42, usize::MAX] {
        let line = Header::ContentLength(n).to_string();
        assert!(matches!(Header::new(&line), Ok(Header::ContentLength(m)) if m == n));
        assert_eq!(parse_usize_str(&decimal_string(n as u64)), Some(n));
    }
}

#[test]
fn lookup_after_insert_on_values() {
    let mut m = HeaderMap::new();
    m.insert(Header::Server("s".to_string()));
    m.insert(Header::ContentLength(3));
    m.insert(Header::Server("t".to_string()));
    assert!(matches!(m.get("Server"), Some(Header::Server(s)) if s == "t"));
    assert!(matches!(m.get("Content-Length"), Some(Header::ContentLength(3))));
}

fn outcome(bytes: &[u8], cut: usize) -> String {
    let mut reader = RequestReader::new();
    let mut step = None;
    for piece in [&bytes[..cut], &bytes[cut..]] {
        if piece.is_empty() {
            continue;
        }
        match reader.step(ReadEvent::Bytes(piece.to_vec())) {
            ReadStep::Pending(r) => reader = r,
            other => {
                step = Some(other);
                break;
            }
        }
    }
    match step {
        Some(ReadStep::Ready(r)) => r.to_string(),
        Some(other) => format!("{:?}", other),
        None => "pending".to_string(),
    }
}

#[test]
fn chunking_does_not_matter_on_values() {
    let bytes = b"POST /x HTTP/1.1\r\nContent-Length: 2\r\nHost: h\r\n\r\nhi";
    let whole = outcome(bytes, bytes.len());
    for cut in 1..bytes.len() {
        assert_eq!(outcome(bytes, cut), whole);
    }
}

#[test]
fn values_check_all_on_values() {
    let good = HeaderValues::new("a;x, b;y", None).unwrap();
    assert!(good.validate(None).is_ok());
    assert!(good.0.iter().all(|v| v.validate(None).is_ok()));
    let bad = HeaderValues::new("a;x, b", None).unwrap();
    assert!(bad.validate(None).is_err());
    assert!(!bad.0.iter().all(|v| v.validate(None).is_ok()));
}
