//! Reading the head of a request: the request line and the header lines.
use vstd::prelude::*;
use crate::error::{HTTPError, HTTPErrorKind, SpecError, error_of, quoted};
use crate::grammar::{split_header_line, split_header_line_str};
use crate::header::{Header, HeaderKind, SpecHeader, header_check, header_from_parts, header_result};
use crate::map::{HeaderMap, collect_headers};
use crate::message::{RequestType, method_of};
use crate::text::{chars_of, split, split_str, str_eq};

verus! {

/// The fields a request head may name, and their kinds.
pub open spec fn request_kind_of_name(name: Seq<char>) -> Option<HeaderKind> {
    if name == "Accept"@ {
        Some(HeaderKind::Accept)
    } else if name == "Accept-Language"@ {
        Some(HeaderKind::AcceptLanguage)
    } else if name == "Authorization"@ {
        Some(HeaderKind::Authorization)
    } else if name == "Host"@ {
        Some(HeaderKind::Host)
    } else if name == "User-Agent"@ {
        Some(HeaderKind::UserAgent)
    } else if name == "Connection"@ {
        Some(HeaderKind::Connection)
    } else if name == "Content-Length"@ {
        Some(HeaderKind::ContentLength)
    } else {
        None
    }
}

fn request_kind_from_name(name: &str) -> (r: Option<HeaderKind>)
    ensures
        r == request_kind_of_name(name@),
{
    if str_eq(name, "Accept") {
        Some(HeaderKind::Accept)
    } else if str_eq(name, "Accept-Language") {
        Some(HeaderKind::AcceptLanguage)
    } else if str_eq(name, "Authorization") {
        Some(HeaderKind::Authorization)
    } else if str_eq(name, "Host") {
        Some(HeaderKind::Host)
    } else if str_eq(name, "User-Agent") {
        Some(HeaderKind::UserAgent)
    } else if str_eq(name, "Connection") {
        Some(HeaderKind::Connection)
    } else if str_eq(name, "Content-Length") {
        Some(HeaderKind::ContentLength)
    } else {
        None
    }
}

/// What the server reads from a header line of a request. Only the fields of
/// [`request_kind_of_name`] are taken. A `Content-Length` header holds the
/// number its value spells; every other header is built from the field
/// name, not the value. The header must then pass its check.
pub open spec fn parse_request_header(line: Seq<char>) -> Result<SpecHeader, SpecError> {
    match split_header_line(line) {
        None => Err(error_of(HTTPErrorKind::BadHeader, quoted("Invalid format: "@, line))),
        Some((field, value)) => match request_kind_of_name(field) {
            None => Err(error_of(HTTPErrorKind::BadHeader, quoted("Unsupported header "@, field))),
            Some(kind) => match header_from_parts(
                kind,
                field,
                if kind == HeaderKind::ContentLength {
                    value
                } else {
                    field
                },
            ) {
                Err(e) => Err(e),
                Ok(h) => match header_check(h) {
                    Ok(()) => Ok(h),
                    Err(e) => Err(e),
                },
            },
        },
    }
}

/// Reads one header line of a request.
pub fn parse_header_line(line: &str) -> (r: Result<Header, HTTPError>)
    ensures
        header_result(r) == parse_request_header(line@),
{
    let (field, value) = match split_header_line_str(line) {
        Some(parts) => parts,
        None => {
            return Err(HTTPError::quoting(HTTPErrorKind::BadHeader, "Invalid format: ", line));
        },
    };
    let kind = match request_kind_from_name(field) {
        Some(k) => k,
        None => {
            return Err(HTTPError::quoting(HTTPErrorKind::BadHeader, "Unsupported header ", field));
        },
    };
    let source = if kind == HeaderKind::ContentLength {
        value
    } else {
        field
    };
    let header = match Header::from_parts(kind, field, source) {
        Ok(h) => h,
        Err(e) => {
            return Err(e);
        },
    };
    match header.validate() {
        Ok(_) => Ok(header),
        Err(e) => Err(e),
    }
}

/// What reading header lines gives: the headers in order, or the error of
/// the first line that fails.
pub open spec fn parse_header_lines(ls: Seq<Seq<char>>) -> Result<Seq<SpecHeader>, SpecError>
    decreases ls.len(),
{
    if ls.len() == 0 {
        Ok(Seq::empty())
    } else {
        match parse_header_lines(ls.drop_last()) {
            Err(e) => Err(e),
            Ok(hs) => match parse_request_header(ls.last()) {
                Err(e) => Err(e),
                Ok(h) => Ok(hs.push(h)),
            },
        }
    }
}

proof fn lemma_parse_header_lines_err(ls: Seq<Seq<char>>, i: int, e: SpecError)
    requires
        0 <= i <= ls.len(),
        parse_header_lines(ls.take(i)) == Err::<Seq<SpecHeader>, SpecError>(e),
    ensures
        parse_header_lines(ls) == Err::<Seq<SpecHeader>, SpecError>(e),
    decreases ls.len() - i,
{
    if i < ls.len() {
        assert(ls.take(i + 1).drop_last() =~= ls.take(i));
        lemma_parse_header_lines_err(ls, i + 1, e);
    } else {
        assert(ls.take(i) =~= ls);
    }
}

/// The lines of a request head: its text split at every CRLF.
pub open spec fn request_lines(text: Seq<char>) -> Seq<Seq<char>> {
    split(text, "\r\n"@)
}

/// The words of the request line: its text split at every space.
pub open spec fn request_line_parts(text: Seq<char>) -> Seq<Seq<char>> {
    split(request_lines(text)[0], " "@)
}

/// What reading the request line gives: three words, the second starting
/// with `/` and the first naming a method.
pub open spec fn request_line_result(text: Seq<char>) -> Result<
    (RequestType, Seq<char>, Seq<char>),
    SpecError,
> {
    let parts = request_line_parts(text);
    if parts.len() != 3 {
        Err(error_of(HTTPErrorKind::BadHeader, "Bad request line, expected 3 items"@))
    } else if !(parts[1].len() > 0 && parts[1][0] == '/') {
        Err(error_of(HTTPErrorKind::BadHeader, quoted("Invalid location: "@, parts[1])))
    } else {
        match method_of(parts[0]) {
            Some(m) => Ok((m, parts[1], parts[2])),
            None => Err(error_of(HTTPErrorKind::BadHeader, "Malformed header"@)),
        }
    }
}

/// The header lines of a head: every line after the request line but the
/// last three. (A head ends in CRLF CRLF, so its last two lines are empty,
/// and the line before them is left out too.)
pub open spec fn header_lines(text: Seq<char>) -> Seq<Seq<char>> {
    request_lines(text).subrange(1, request_lines(text).len() - 3)
}

/// A head whose request line is accepted but which has fewer than four
/// lines: it has no header lines to take, and the server gives up on it.
pub open spec fn head_unreadable(text: Seq<char>) -> bool {
    request_line_result(text) is Ok && request_lines(text).len() < 4
}

/// A request head as a value.
pub struct SpecHead {
    pub method: RequestType,
    pub path: Seq<char>,
    pub version: Seq<char>,
    pub headers: Seq<SpecHeader>,
}

/// What reading a request head gives: its method, path and version, and its
/// header lines collected by field name.
pub open spec fn head_result(text: Seq<char>) -> Result<SpecHead, SpecError> {
    match request_line_result(text) {
        Err(e) => Err(e),
        Ok((m, p, v)) => match parse_header_lines(header_lines(text)) {
            Err(e) => Err(e),
            Ok(hs) => Ok(SpecHead { method: m, path: p, version: v, headers: collect_headers(hs) }),
        },
    }
}

/// The view of the result of [`parse_headers`].
pub open spec fn head_view(r: Result<(RequestType, String, String, HeaderMap), HTTPError>) -> Result<
    SpecHead,
    SpecError,
> {
    match r {
        Ok((m, p, v, h)) => Ok(SpecHead { method: m, path: p@, version: v@, headers: h@ }),
        Err(e) => Err(e@),
    }
}

proof fn lemma_split_nonempty(s: Seq<char>, sep: Seq<char>)
    ensures
        split(s, sep).len() >= 1,
{
}

/// Reads the request line of a head.
pub fn request_line<'a>(text: &'a str) -> (r: Result<(RequestType, &'a str, &'a str), HTTPError>)
    ensures
        match r {
            Ok((m, p, v)) => request_line_result(text@) == Ok::<
                (RequestType, Seq<char>, Seq<char>),
                SpecError,
            >((m, p@, v@)),
            Err(e) => request_line_result(text@) == Err::<
                (RequestType, Seq<char>, Seq<char>),
                SpecError,
            >(e@),
        },
{
    let lines = split_str(text, "\r\n");
    proof {
        lemma_split_nonempty(text@, "\r\n"@);
    }
    let parts = split_str(lines[0], " ");
    if parts.len() != 3 {
        return Err(HTTPError::new(HTTPErrorKind::BadHeader, "Bad request line, expected 3 items"));
    }
    let pth = parts[1];
    let pth_chars = chars_of(pth);
    if !(pth_chars.len() > 0 && pth_chars[0] == '/') {
        return Err(HTTPError::quoting(HTTPErrorKind::BadHeader, "Invalid location: ", pth));
    }
    match RequestType::new(parts[0]) {
        Ok(m) => Ok((m, parts[1], parts[2])),
        Err(_) => Err(HTTPError::new(HTTPErrorKind::BadHeader, "Malformed header")),
    }
}

/// Whether the head in `text` is unreadable.
pub fn head_is_unreadable(text: &str) -> (r: bool)
    ensures
        r == head_unreadable(text@),
{
    let lines = split_str(text, "\r\n");
    request_line(text).is_ok() && lines.len() < 4
}

/// Reads a request head.
pub fn parse_headers(text: &str) -> (r: Result<(RequestType, String, String, HeaderMap), HTTPError>)
    requires
        !head_unreadable(text@),
    ensures
        head_view(r) == head_result(text@),
{
    let (reqtype, path, version) = match request_line(text) {
        Ok(parts) => parts,
        Err(e) => {
            return Err(e);
        },
    };
    let lines = split_str(text, "\r\n");
    let ghost ls = header_lines(text@);
    let last = lines.len() - 3;
    let mut headers = HeaderMap::new();
    let ghost mut hs: Seq<SpecHeader> = Seq::empty();
    assert(ls.take(0) =~= Seq::<Seq<char>>::empty());
    assert(collect_headers(hs) =~= Seq::<SpecHeader>::empty());
    let mut i: usize = 1;
    while i < last
        invariant
            lines@.len() == request_lines(text@).len(),
            forall|j: int|
                0 <= j < lines@.len() ==> #[trigger] lines@[j]@ == request_lines(text@)[j],
            last == lines.len() - 3,
            ls == request_lines(text@).subrange(1, last as int),
            ls == header_lines(text@),
            request_line_result(text@) is Ok,
            1 <= i <= last,
            parse_header_lines(ls.take(i - 1)) == Ok::<Seq<SpecHeader>, SpecError>(hs),
            headers@ == collect_headers(hs),
        decreases last - i,
    {
        assert(ls.take(i as int).drop_last() =~= ls.take(i - 1));
        assert(ls.take(i as int).last() == lines@[i as int]@);
        match parse_header_line(lines[i]) {
            Err(e) => {
                proof {
                    assert(parse_header_lines(ls.take(i as int)) == Err::<Seq<SpecHeader>, SpecError>(
                        e@,
                    ));
                    lemma_parse_header_lines_err(ls, i as int, e@);
                }
                return Err(e);
            },
            Ok(h) => {
                let ghost old_hs = hs;
                proof {
                    hs = hs.push(h@);
                    assert(hs.drop_last() =~= old_hs);
                }
                headers.insert(h);
            },
        }
        i = i + 1;
    }
    assert(ls.take(last - 1) =~= ls);
    Ok((reqtype, path.to_owned(), version.to_owned(), headers))
}

} // verus!
