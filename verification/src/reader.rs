//! Gathering one request from the bytes a connection delivers.
//!
//! The reader is a state machine: it is handed what each read of the
//! connection gave and says whether a request is complete, more bytes are
//! needed, or the exchange is over. The caller performs the reads.
use vstd::prelude::*;
use vstd::string::StringSliceAdditionalSpecFns;
use vstd::utf8::{decode_utf8, encode_utf8_decode_utf8, valid_utf8};
use crate::error::{HTTPError, SpecError};
use crate::header::{Header, Payload, SpecHeader};
use crate::map::{HeaderMap, lookup};
use crate::message::{Request, RequestType, SpecRequest};
use crate::parse::{SpecHead, head_is_unreadable, head_result, head_unreadable, head_view, parse_headers};

verus! {

/// The error of a failed read, handed on as it is.
#[verifier::external_type_specification]
#[verifier::external_body]
pub struct ExIoError(std::io::Error);

/// Calls `std::str::from_utf8(bytes)`: `Some` exactly when the bytes are
/// valid UTF-8, and then the text whose encoding they are.
#[verifier::external_body]
fn utf8_text(bytes: &[u8]) -> (r: Option<&str>)
    ensures
        r is Some <==> valid_utf8(bytes@),
        r matches Some(s) ==> s.spec_bytes() == bytes@,
{
    match std::str::from_utf8(bytes) {
        Ok(s) => Some(s),
        Err(_) => None,
    }
}

/// The end of a head: CR LF CR LF at index `i` of `m`.
pub open spec fn blank_line_at(m: Seq<u8>, i: int) -> bool {
    0 <= i && i + 4 <= m.len() && m[i] == 13 && m[i + 1] == 10 && m[i + 2] == 13 && m[i + 3]
        == 10
}

/// The first CR LF CR LF of `m` is at index `i`.
pub open spec fn first_blank_line(m: Seq<u8>, i: int) -> bool {
    blank_line_at(m, i) && forall|j: int| 0 <= j < i ==> !blank_line_at(m, j)
}

/// The length of the head in `m`: up to and with the first CR LF CR LF.
#[verifier::opaque]
pub open spec fn head_end(m: Seq<u8>) -> Option<int> {
    if exists|i: int| first_blank_line(m, i) {
        Some((choose|i: int| first_blank_line(m, i)) + 4)
    } else {
        None
    }
}

/// What the bytes of a head amount to.
pub enum HeadOutcome {
    /// They are not UTF-8 text.
    NotText,
    /// The text is not an acceptable head.
    Rejected(SpecError),
    /// The request line is accepted but there are no header lines to take.
    Unreadable,
    /// The head read.
    Read(SpecHead),
}

/// Reads the bytes of a head.
#[verifier::opaque]
pub open spec fn read_head(bytes: Seq<u8>) -> HeadOutcome {
    if !valid_utf8(bytes) {
        HeadOutcome::NotText
    } else if head_unreadable(decode_utf8(bytes)) {
        HeadOutcome::Unreadable
    } else {
        match head_result(decode_utf8(bytes)) {
            Err(e) => HeadOutcome::Rejected(e),
            Ok(h) => HeadOutcome::Read(h),
        }
    }
}

/// The length of the body that the headers announce: the value of a
/// `Content-Length` header, or 0.
pub open spec fn content_length(hs: Seq<SpecHeader>) -> nat {
    match lookup(hs, "Content-Length"@) {
        Some(h) => match h.payload {
            Payload::Length(n) => n as nat,
            _ => 0,
        },
        None => 0,
    }
}

/// Why a request could not be gathered.
#[derive(Debug)]
pub enum ReadError {
    /// The connection ended inside a request.
    UnexpectedEof,
    /// The head is not UTF-8 text.
    InvalidHeaderBytes,
    /// The head is not acceptable.
    BadRequest(HTTPError),
    /// A read failed after the head was complete, with this error.
    ReadFailed(std::io::Error),
}

/// A read error as a value.
pub enum SpecReadError {
    UnexpectedEof,
    InvalidHeaderBytes,
    BadRequest(SpecError),
    ReadFailed(std::io::Error),
}

pub open spec fn read_error_view(e: ReadError) -> SpecReadError {
    match e {
        ReadError::UnexpectedEof => SpecReadError::UnexpectedEof,
        ReadError::InvalidHeaderBytes => SpecReadError::InvalidHeaderBytes,
        ReadError::BadRequest(x) => SpecReadError::BadRequest(x@),
        ReadError::ReadFailed(x) => SpecReadError::ReadFailed(x),
    }
}

/// What one read of the connection gave.
#[derive(Debug)]
pub enum ReadEvent {
    /// Bytes (a read of no bytes is the end of the stream).
    Bytes(Vec<u8>),
    /// The end of the stream.
    End,
    /// The read failed, with this error.
    Failed(std::io::Error),
}

/// A read event as a value.
pub enum SpecEvent {
    Bytes(Seq<u8>),
    End,
    Failed(std::io::Error),
}

pub open spec fn event_view(ev: ReadEvent) -> SpecEvent {
    match ev {
        ReadEvent::Bytes(b) => SpecEvent::Bytes(b@),
        ReadEvent::End => SpecEvent::End,
        ReadEvent::Failed(x) => SpecEvent::Failed(x),
    }
}

/// Where gathering stands, as a value.
pub enum SpecStep {
    /// More bytes are needed; these are the bytes so far.
    Pending(Seq<u8>),
    /// A request is complete.
    Ready(SpecRequest),
    /// The connection ended cleanly between requests.
    Closed,
    /// The request is refused.
    Failed(SpecReadError),
    /// The head cannot be handled (see [`HeadOutcome::Unreadable`]), or the
    /// announced body would end past `usize::MAX`: the server gives up.
    Unhandled,
}

/// Where gathering stands when the bytes so far are `m`. Once the head is
/// complete and read, the request is complete when the bytes after the head
/// reach the announced length; its body is that many bytes after the head
/// (none where no length is announced).
#[verifier::opaque]
pub open spec fn on_bytes(m: Seq<u8>) -> SpecStep {
    match head_end(m) {
        None => SpecStep::Pending(m),
        Some(end) => match read_head(m.take(end)) {
            HeadOutcome::NotText => SpecStep::Failed(SpecReadError::InvalidHeaderBytes),
            HeadOutcome::Rejected(e) => SpecStep::Failed(SpecReadError::BadRequest(e)),
            HeadOutcome::Unreadable => SpecStep::Unhandled,
            HeadOutcome::Read(h) => {
                let need = end + content_length(h.headers);
                if need > usize::MAX {
                    SpecStep::Unhandled
                } else if m.len() >= need {
                    SpecStep::Ready(
                        SpecRequest {
                            method: h.method,
                            path: h.path,
                            version: h.version,
                            headers: h.headers,
                            body: m.subrange(end, need),
                        },
                    )
                } else {
                    SpecStep::Pending(m)
                }
            },
        },
    }
}

/// Where gathering stands when the stream ends after the bytes `m`: a clean
/// end if nothing had come, else a request cut short.
pub open spec fn on_end(m: Seq<u8>) -> SpecStep {
    if m.len() == 0 {
        SpecStep::Closed
    } else {
        SpecStep::Failed(SpecReadError::UnexpectedEof)
    }
}

/// Where gathering stands after the event `ev`, when the bytes so far are
/// `m`. A failed read before the head is complete counts as a clean end;
/// after it, the request fails with the error of that read.
pub open spec fn next_step(m: Seq<u8>, ev: SpecEvent) -> SpecStep {
    match ev {
        SpecEvent::Bytes(b) => if b.len() > 0 {
            on_bytes(m + b)
        } else {
            on_end(m)
        },
        SpecEvent::End => on_end(m),
        SpecEvent::Failed(err) => if head_end(m) is None {
            SpecStep::Closed
        } else {
            SpecStep::Failed(SpecReadError::ReadFailed(err))
        },
    }
}

/// A head that has been read, kept while the body comes in.
#[derive(Debug)]
struct ReadHead {
    end: usize,
    body_len: usize,
    method: RequestType,
    path: String,
    version: String,
    headers: HeaderMap,
}

impl View for ReadHead {
    type V = SpecHead;

    closed spec fn view(&self) -> SpecHead {
        SpecHead { method: self.method, path: self.path@, version: self.version@, headers: self.headers@ }
    }
}

/// Gathers the bytes of one request.
#[derive(Debug)]
pub struct RequestReader {
    msg: Vec<u8>,
    head: Option<ReadHead>,
}

impl View for RequestReader {
    type V = Seq<u8>;

    closed spec fn view(&self) -> Seq<u8> {
        self.msg@
    }
}

/// What one step of gathering gives.
#[derive(Debug)]
pub enum ReadStep {
    Pending(RequestReader),
    Ready(Request),
    Closed,
    Failed(ReadError),
    Unhandled,
}

pub open spec fn step_view(s: ReadStep) -> SpecStep {
    match s {
        ReadStep::Pending(r) => SpecStep::Pending(r@),
        ReadStep::Ready(q) => SpecStep::Ready(q@),
        ReadStep::Closed => SpecStep::Closed,
        ReadStep::Failed(e) => SpecStep::Failed(read_error_view(e)),
        ReadStep::Unhandled => SpecStep::Unhandled,
    }
}

proof fn lemma_head_end_first(m: Seq<u8>, i: int)
    requires
        first_blank_line(m, i),
    ensures
        head_end(m) == Some(i + 4),
{
    reveal(head_end);
    let k = choose|k: int| first_blank_line(m, k);
    assert(first_blank_line(m, k));
    if k < i {
        assert(!blank_line_at(m, k));
    }
    if i < k {
        assert(!blank_line_at(m, i));
    }
}

proof fn lemma_head_end_none(m: Seq<u8>)
    requires
        forall|j: int| !blank_line_at(m, j),
    ensures
        head_end(m) is None,
{
    reveal(head_end);
}

/// The head of `m`, where it is complete, ends within `m`.
pub proof fn lemma_head_end_bounds(m: Seq<u8>)
    ensures
        head_end(m) matches Some(e) ==> 4 <= e <= m.len(),
{
    if head_end(m) is Some {
        lemma_head_end_some(m);
    }
}

proof fn lemma_head_end_some(m: Seq<u8>)
    requires
        head_end(m) is Some,
    ensures
        4 <= head_end(m)->0 <= m.len(),
        first_blank_line(m, head_end(m)->0 - 4),
{
    reveal(head_end);
    let k = choose|k: int| first_blank_line(m, k);
    assert(first_blank_line(m, k));
}

proof fn lemma_head_end_extend(m: Seq<u8>, b: Seq<u8>)
    requires
        head_end(m) is Some,
    ensures
        head_end(m + b) == head_end(m),
        (m + b).take(head_end(m)->0) == m.take(head_end(m)->0),
{
    lemma_head_end_some(m);
    let i = head_end(m)->0 - 4;
    let mb = m + b;
    assert(mb[i] == m[i] && mb[i + 1] == m[i + 1] && mb[i + 2] == m[i + 2] && mb[i + 3] == m[i + 3]);
    assert(blank_line_at(mb, i));
    assert forall|j: int| 0 <= j < i implies !blank_line_at(mb, j) by {
        assert(mb[j] == m[j] && mb[j + 1] == m[j + 1] && mb[j + 2] == m[j + 2] && mb[j + 3] == m[j
            + 3]);
        assert(!blank_line_at(m, j));
    }
    lemma_head_end_first(mb, i);
    assert(mb.take(i + 4) =~= m.take(i + 4));
}

/// The bytes of a request so far are still incomplete.
pub open spec fn incomplete(m: Seq<u8>) -> bool {
    on_bytes(m) == SpecStep::Pending(m)
}

impl RequestReader {
    #[verifier::type_invariant]
    closed spec fn inv(self) -> bool {
        &&& incomplete(self.msg@)
        &&& match self.head {
            None => head_end(self.msg@) is None,
            Some(h) => {
                &&& head_end(self.msg@) == Some(h.end as int)
                &&& read_head(self.msg@.take(h.end as int)) == HeadOutcome::Read(h@)
                &&& h.body_len == content_length(h@.headers)
            },
        }
    }

    /// A reader that has received nothing.
    pub fn new() -> (r: Self)
        ensures
            r@ == Seq::<u8>::empty(),
    {
        let msg: Vec<u8> = Vec::new();
        proof {
            lemma_head_end_none(msg@);
            reveal(on_bytes);
        }
        RequestReader { msg, head: None }
    }

    /// Takes the outcome of one read of the connection.
    pub fn step(self, ev: ReadEvent) -> (r: ReadStep)
        ensures
            step_view(r) == next_step(self@, event_view(ev)),
    {
        proof {
            use_type_invariant(&self);
        }
        match ev {
            ReadEvent::Bytes(chunk) => {
                if chunk.len() == 0 {
                    self.end_of_stream()
                } else {
                    self.receive(chunk)
                }
            },
            ReadEvent::End => self.end_of_stream(),
            ReadEvent::Failed(err) => {
                if self.head.is_none() {
                    ReadStep::Closed
                } else {
                    ReadStep::Failed(ReadError::ReadFailed(err))
                }
            },
        }
    }

    fn end_of_stream(self) -> (r: ReadStep)
        ensures
            step_view(r) == on_end(self@),
    {
        if self.msg.len() == 0 {
            ReadStep::Closed
        } else {
            ReadStep::Failed(ReadError::UnexpectedEof)
        }
    }

    /// The request made of a head and the body bytes that follow it.
    fn finish(head: ReadHead, mut msg: Vec<u8>) -> (r: Request)
        requires
            head.end + head.body_len <= msg@.len(),
        ensures
            r@ == (SpecRequest {
                method: head@.method,
                path: head@.path,
                version: head@.version,
                headers: head@.headers,
                body: msg@.subrange(head.end as int, head.end + head.body_len),
            }),
    {
        let ghost all = msg@;
        assert(msg@.len() == msg.len());
        msg.truncate(head.end + head.body_len);
        let body = msg.split_off(head.end);
        assert(body@ =~= all.subrange(head.end as int, head.end + head.body_len));
        Request {
            method: head.method,
            path: head.path,
            version: head.version,
            headers: head.headers,
            body,
        }
    }

    fn receive(self, chunk: Vec<u8>) -> (r: ReadStep)
        requires
            chunk@.len() > 0,
            incomplete(self@),
            match self.head {
                None => head_end(self@) is None,
                Some(h) => {
                    &&& head_end(self@) == Some(h.end as int)
                    &&& read_head(self@.take(h.end as int)) == HeadOutcome::Read(h@)
                    &&& h.body_len == content_length(h@.headers)
                },
            },
        ensures
            step_view(r) == on_bytes(self@ + chunk@),
    {
        let RequestReader { mut msg, head } = self;
        let ghost old_msg = msg@;
        let ghost added = chunk@;
        let mut chunk = chunk;
        msg.append(&mut chunk);
        assert(msg@ =~= old_msg + added);
        match head {
            Some(h) => {
                proof {
                    lemma_head_end_extend(old_msg, added);
                    reveal(on_bytes);
                    assert(old_msg == self@);
                    assert(head_end(msg@) == Some(h.end as int));
                    assert(read_head(msg@.take(h.end as int)) == HeadOutcome::Read(h@));
                    assert(h.end + content_length(h@.headers) <= usize::MAX);
                    assert(old_msg.len() < h.end + content_length(h@.headers));
                }
                let need = h.end + h.body_len;
                if msg.len() >= need {
                    ReadStep::Ready(Self::finish(h, msg))
                } else {
                    ReadStep::Pending(RequestReader { msg, head: Some(h) })
                }
            },
            None => Self::look_for_head(msg),
        }
    }

    /// Looks for the end of the head in `msg` and reads the head once it is
    /// there.
    fn look_for_head(msg: Vec<u8>) -> (r: ReadStep)
        ensures
            step_view(r) == on_bytes(msg@),
    {
        let n = msg.len();
        let mut i: usize = 0;
        while n >= 4 && i <= n - 4
            invariant
                n == msg@.len(),
                forall|j: int| 0 <= j < i ==> !blank_line_at(msg@, j),
            decreases n - i,
        {
            if msg[i] == 13 && msg[i + 1] == 10 && msg[i + 2] == 13 && msg[i + 3] == 10 {
                proof {
                    lemma_head_end_first(msg@, i as int);
                }
                return Self::read_head_at(msg, i + 4);
            }
            i = i + 1;
        }
        assert forall|j: int| !blank_line_at(msg@, j) by {
            if 0 <= j && j >= i {
                assert(j + 4 > n);
            }
        }
        proof {
            lemma_head_end_none(msg@);
            reveal(on_bytes);
        }
        ReadStep::Pending(RequestReader { msg, head: None })
    }

    fn read_head_at(msg: Vec<u8>, end: usize) -> (r: ReadStep)
        requires
            head_end(msg@) == Some(end as int),
        ensures
            step_view(r) == on_bytes(msg@),
    {
        proof {
            reveal(on_bytes);
            reveal(read_head);
            lemma_head_end_some(msg@);
        }
        let bytes = &msg.as_slice()[0..end];
        assert(bytes@ =~= msg@.take(end as int));
        let text = match utf8_text(bytes) {
            Some(t) => t,
            None => {
                return ReadStep::Failed(ReadError::InvalidHeaderBytes);
            },
        };
        proof {
            encode_utf8_decode_utf8(text@);
        }
        assert(text@ == decode_utf8(msg@.take(end as int)));
        if head_is_unreadable(text) {
            return ReadStep::Unhandled;
        }
        let (method, path, version, headers) = match parse_headers(text) {
            Ok(parts) => parts,
            Err(e) => {
                return ReadStep::Failed(ReadError::BadRequest(e));
            },
        };
        let body_len: usize = match headers.get("Content-Length") {
            Some(h) => match h.length() {
                Some(len) => len,
                None => 0,
            },
            None => 0,
        };
        let head = ReadHead { end, body_len, method, path, version, headers };
        let need = match end.checked_add(body_len) {
            Some(x) => x,
            None => {
                return ReadStep::Unhandled;
            },
        };
        if msg.len() >= need {
            ReadStep::Ready(Self::finish(head, msg))
        } else {
            ReadStep::Pending(RequestReader { msg, head: Some(head) })
        }
    }
}

} // verus!
