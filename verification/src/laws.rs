//! Properties of the library as a whole, over the models that the
//! functions' contracts use.
use vstd::prelude::*;
use crate::grammar::{header_line_at, is_field_char, is_host, lemma_header_line_unique, split_header_line};
use crate::header::{
    HeaderKind, Payload, PayloadClass, SpecHeader, header_check, header_from_parts, header_text, kind_name,
    kind_of_name, lemma_kind_name_injective, lemma_kind_name_is_field_name, lemma_kind_of_kind_name,
    parse_header,
    payload_class,
};
use crate::text::{decimal, join, lemma_decimal_digits, lemma_parse_decimal, lemma_split_once_parts, occurs_at, split, split_once};
use crate::value::{
    SpecParam, SpecValue, ValuePattern, param_from_text, param_text, value_check, value_from_text,
    value_text, values_check,
};
use crate::map::{distinct_kinds, index_of_kind, insert_header, lemma_index_of_kind, lookup};
use crate::date::HttpDate;
use crate::message::{SpecRequest, reason_phrase};
use crate::server::{SpecExchange, closes_after, exchange_at, response_at};
use crate::reader::{
    HeadOutcome, SpecEvent, SpecStep, content_length, head_end, lemma_head_end_bounds, next_step,
    on_bytes, read_head,
};

verus! {

/// Writing a parameter read from a text gives the text back.
pub proof fn law_param_text_roundtrip(s: Seq<char>)
    ensures
        param_text(param_from_text(s)) == s,
{
    lemma_split_once_parts(s, "="@);
}

/// Writing a header value read from a text without `;` gives the text back.
pub proof fn law_value_text_roundtrip(s: Seq<char>)
    requires
        forall|i: int| 0 <= i < s.len() ==> s[i] != ';',
    ensures
        value_text(value_from_text(s)) == s,
{
    reveal_strlit(";");
    reveal_strlit("=");
    lemma_split_once_parts(s, ";"@);
    assert forall|i: int| !occurs_at(s, ";"@, i) by {
        if occurs_at(s, ";"@, i) {
            assert(s.subrange(i, i + 1)[0] == ';');
        }
    }
    let e = Seq::<char>::empty();
    lemma_split_once_parts(e, ";"@);
    lemma_split_once_parts(e, "="@);
    assert(split(e, ";"@) =~= seq![e]);
    assert(split_once(e, "="@) is None);
    assert(param_from_text(e) == SpecParam { key: None, value: e });
    let ps = split(e, ";"@).map_values(|p: Seq<char>| param_from_text(p));
    assert(ps[0] == param_from_text(e));
    assert(ps =~= seq![SpecParam { key: None, value: e }]);
    let texts = ps.map_values(|p: SpecParam| param_text(p));
    assert(texts =~= seq![e]);
    assert(join(texts, ";"@) == e);
    law_param_text_roundtrip(s);
    assert(value_text(value_from_text(s)) =~= s);
}

/// The header line `name: value` splits into `name` and `value`, for a field
/// name and a value without line feeds that does not start with a space.
pub proof fn lemma_split_header_line_of(name: Seq<char>, v: Seq<char>)
    requires
        name.len() > 0,
        forall|j: int| 0 <= j < name.len() ==> is_field_char(#[trigger] name[j]),
        forall|j: int| 0 <= j < v.len() ==> v[j] != '\n',
        v.len() == 0 || v[0] != ' ',
    ensures
        split_header_line(name + ": "@ + v) == Some((name, v)),
{
    reveal_strlit(": ");
    let line = name + ": "@ + v;
    let k = name.len() as int;
    assert(line[k] == ':');
    assert(line[k + 1] == ' ');
    assert forall|j: int| 0 <= j < k implies is_field_char(#[trigger] line[j]) by {
        assert(line[j] == name[j]);
    }
    assert forall|j: int| k + 2 <= j < line.len() implies #[trigger] line[j] != '\n' by {
        assert(line[j] == v[j - k - 2]);
    }
    if k + 2 < line.len() {
        assert(line[k + 2] == v[0]);
    }
    assert(header_line_at(line, k, 1));
    let (k2, m2) = choose|k2: int, m2: int| header_line_at(line, k2, m2);
    lemma_header_line_unique(line, k, 1, k2, m2);
    assert(line.take(k) =~= name);
    assert(line.skip(k + 2) =~= v);
}

/// Reading the line of a header of text gives the header back, when the text
/// has no line feed, does not start with a space, and passes the check of
/// its kind. (A `Connection` header is built from the field name, so it is
/// left out.)
pub proof fn law_text_header_roundtrip(k: HeaderKind, t: Seq<char>)
    requires
        payload_class(k) == PayloadClass::Text,
        k != HeaderKind::Connection,
        forall|i: int| 0 <= i < t.len() ==> t[i] != '\n',
        t.len() == 0 || t[0] != ' ',
        k == HeaderKind::Host ==> is_host(t),
    ensures
        parse_header(header_text(SpecHeader { kind: k, payload: Payload::Text(t) })) == Ok::<
            SpecHeader,
            crate::error::SpecError,
        >(SpecHeader { kind: k, payload: Payload::Text(t) }),
{
    lemma_kind_name_is_field_name(k);
    lemma_split_header_line_of(kind_name(k), t);
    lemma_kind_of_kind_name(k);
}

/// Reading the line of a `Content-Length` header gives the header back.
pub proof fn law_length_header_roundtrip(n: usize)
    ensures
        parse_header(header_text(SpecHeader { kind: HeaderKind::ContentLength, payload: Payload::Length(n) }))
            == Ok::<SpecHeader, crate::error::SpecError>(
            SpecHeader { kind: HeaderKind::ContentLength, payload: Payload::Length(n) },
        ),
{
    lemma_kind_name_is_field_name(HeaderKind::ContentLength);
    lemma_decimal_digits(n as nat);
    let d = decimal(n as nat);
    assert forall|j: int| 0 <= j < d.len() implies d[j] != '\n' by {
        assert(crate::text::is_digit(d[j]));
    }
    lemma_split_header_line_of(kind_name(HeaderKind::ContentLength), d);
    lemma_kind_of_kind_name(HeaderKind::ContentLength);
    lemma_parse_decimal(n);
}

/// A header read from a line has passed its check, and it is of the kind that
/// the line names.
pub proof fn law_parsed_header_checked(line: Seq<char>)
    ensures
        parse_header(line) is Ok ==> {
            &&& header_check(parse_header(line)->Ok_0) is Ok
            &&& split_header_line(line) is Some
            &&& kind_name(parse_header(line)->Ok_0.kind) == (split_header_line(line)->0).0
        },
{
    if let Ok(h) = parse_header(line) {
        let (field, value) = split_header_line(line)->0;
        lemma_kind_of_name_inverse(field);
        let k = kind_of_name(field)->0;
        let built = header_from_parts(k, field, value);
        assert(built matches Ok(h0) && h0.kind == k);
        assert(built == Ok::<SpecHeader, crate::error::SpecError>(h));
        assert(kind_name(h.kind) == field);
        assert(header_check(h) is Ok);
    }
}

/// A name that reads as a kind is the field name of that kind.
pub proof fn lemma_kind_of_name_inverse(name: Seq<char>)
    ensures
        kind_of_name(name) matches Some(k) ==> kind_name(k) == name,
{
}

/// Looking a name up finds the first header with that field name.
pub proof fn lemma_lookup_first(hs: Seq<SpecHeader>, name: Seq<char>)
    ensures
        match lookup(hs, name) {
            Some(x) => exists|i: int|
                0 <= i < hs.len() && hs[i] == x && kind_name(hs[i].kind) == name && forall|j: int|
                    0 <= j < i ==> kind_name((#[trigger] hs[j]).kind) != name,
            None => forall|i: int| 0 <= i < hs.len() ==> kind_name((#[trigger] hs[i]).kind) != name,
        },
    decreases hs.len(),
{
    if hs.len() > 0 {
        lemma_lookup_first(hs.drop_first(), name);
        if kind_name(hs[0].kind) != name {
            match lookup(hs.drop_first(), name) {
                Some(x) => {
                    let i = choose|i: int|
                        0 <= i < hs.drop_first().len() && hs.drop_first()[i] == x && kind_name(
                            hs.drop_first()[i].kind,
                        ) == name && forall|j: int|
                            0 <= j < i ==> kind_name((#[trigger] hs.drop_first()[j]).kind) != name;
                    assert(hs[i + 1] == x);
                    assert forall|j: int| 0 <= j < i + 1 implies kind_name((#[trigger] hs[j]).kind)
                        != name by {
                        if j > 0 {
                            assert(hs[j] == hs.drop_first()[j - 1]);
                        }
                    }
                },
                None => {
                    assert forall|i: int| 0 <= i < hs.len() implies kind_name((#[trigger] hs[i]).kind)
                        != name by {
                        if i > 0 {
                            assert(hs[i] == hs.drop_first()[i - 1]);
                        }
                    }
                },
            }
        }
    }
}

/// Two header sequences in which the same positions carry the field name
/// `name`, with equal headers there, give the same lookup of `name`.
proof fn lemma_lookup_agree(a: Seq<SpecHeader>, b: Seq<SpecHeader>, name: Seq<char>)
    requires
        forall|i: int|
            0 <= i < a.len() && kind_name((#[trigger] a[i]).kind) == name ==> i < b.len() && b[i]
                == a[i],
        forall|i: int|
            0 <= i < b.len() && kind_name((#[trigger] b[i]).kind) == name ==> i < a.len() && a[i]
                == b[i],
    ensures
        lookup(a, name) == lookup(b, name),
{
    lemma_lookup_first(a, name);
    lemma_lookup_first(b, name);
    match (lookup(a, name), lookup(b, name)) {
        (Some(x), Some(y)) => {
            let i = choose|i: int|
                0 <= i < a.len() && a[i] == x && kind_name(a[i].kind) == name && forall|j: int|
                    0 <= j < i ==> kind_name((#[trigger] a[j]).kind) != name;
            let k = choose|k: int|
                0 <= k < b.len() && b[k] == y && kind_name(b[k].kind) == name && forall|j: int|
                    0 <= j < k ==> kind_name((#[trigger] b[j]).kind) != name;
            if i < k {
                assert(b[i] == a[i]);
            }
            if k < i {
                assert(a[k] == b[k]);
            }
        },
        (Some(x), None) => {
            let i = choose|i: int|
                0 <= i < a.len() && a[i] == x && kind_name(a[i].kind) == name && forall|j: int|
                    0 <= j < i ==> kind_name((#[trigger] a[j]).kind) != name;
            assert(b[i] == a[i]);
        },
        (None, Some(y)) => {
            let k = choose|k: int|
                0 <= k < b.len() && b[k] == y && kind_name(b[k].kind) == name && forall|j: int|
                    0 <= j < k ==> kind_name((#[trigger] b[j]).kind) != name;
            assert(a[k] == b[k]);
        },
        (None, None) => {},
    }
}

/// After a header is put into a map, looking up its field name finds it, and
/// looking up any other name finds what it found before.
pub proof fn law_lookup_after_insert(hs: Seq<SpecHeader>, h: SpecHeader, name: Seq<char>)
    requires
        distinct_kinds(hs),
    ensures
        lookup(insert_header(hs, h), kind_name(h.kind)) == Some(h),
        name != kind_name(h.kind) ==> lookup(insert_header(hs, h), name) == lookup(hs, name),
{
    let hs2 = insert_header(hs, h);
    lemma_index_of_kind(hs, h.kind);
    lemma_lookup_first(hs2, kind_name(h.kind));
    let p: int = match index_of_kind(hs, h.kind) {
        Some(i) => i,
        None => hs.len() as int,
    };
    assert(hs2[p] == h);
    assert forall|j: int| 0 <= j < hs2.len() && j != p implies hs2[j] == hs[j] && (
    #[trigger] hs2[j]).kind != h.kind by {
        if index_of_kind(hs, h.kind) is None {
            assert(hs[j].kind != h.kind);
        } else {
            assert(hs[j].kind != h.kind);
        }
    }
    match lookup(hs2, kind_name(h.kind)) {
        Some(x) => {
            let i = choose|i: int|
                0 <= i < hs2.len() && hs2[i] == x && kind_name(hs2[i].kind) == kind_name(h.kind)
                    && forall|j: int|
                    0 <= j < i ==> kind_name((#[trigger] hs2[j]).kind) != kind_name(h.kind);
            lemma_kind_name_injective(hs2[i].kind, h.kind);
            if i > p {
                assert(kind_name(hs2[p].kind) == kind_name(h.kind));
            }
        },
        None => {
            assert(kind_name(hs2[p].kind) == kind_name(h.kind));
        },
    }
    if name != kind_name(h.kind) {
        assert forall|i: int| 0 <= i < hs.len() && kind_name((#[trigger] hs[i]).kind) == name implies i
            < hs2.len() && hs2[i] == hs[i] by {
            if i == p {
                assert(hs[i].kind == h.kind);
            }
        }
        lemma_lookup_agree(hs2, hs, name);
    }
}

/// Where gathering a request stands after a read of `b1` and then a read of
/// `b2` is where it stands after one read of both: it depends only on the
/// bytes so far, not on how the connection cut them up.
pub proof fn law_chunking(m: Seq<u8>, b1: Seq<u8>, b2: Seq<u8>)
    requires
        b1.len() > 0,
        b2.len() > 0,
    ensures
        next_step(m + b1, SpecEvent::Bytes(b2)) == next_step(m, SpecEvent::Bytes(b1 + b2)),
{
    assert(m + b1 + b2 =~= m + (b1 + b2));
}

/// A request without a `Content-Length` header is complete as soon as its
/// head is, and it has no body.
pub proof fn law_no_length_no_body_wait(m: Seq<u8>)
    requires
        m.len() <= usize::MAX,
        head_end(m) is Some,
        read_head(m.take(head_end(m)->0)) matches HeadOutcome::Read(h) && lookup(
            h.headers,
            "Content-Length"@,
        ) is None,
    ensures
        on_bytes(m) matches SpecStep::Ready(r) && r.body.len() == 0,
{
    reveal(on_bytes);
    lemma_head_end_bounds(m);
}

/// A complete request holds as many body bytes as its headers announce.
pub proof fn law_ready_body_length(m: Seq<u8>)
    ensures
        on_bytes(m) matches SpecStep::Ready(r) ==> r.body.len() == content_length(r.headers),
{
    reveal(on_bytes);
    if head_end(m) is Some {
        lemma_head_end_bounds(m);
    }
}

/// A list of values passes its check exactly when every value passes.
pub proof fn law_values_check_all(vs: Seq<SpecValue>, p: Option<ValuePattern>)
    ensures
        values_check(vs, p) is Ok <==> forall|i: int|
            0 <= i < vs.len() ==> value_check(#[trigger] vs[i], p) is Ok,
    decreases vs.len(),
{
    if vs.len() > 0 {
        law_values_check_all(vs.drop_first(), p);
        if values_check(vs, p) is Ok {
            assert forall|i: int| 0 <= i < vs.len() implies value_check(#[trigger] vs[i], p) is Ok by {
                if i > 0 {
                    assert(vs[i] == vs.drop_first()[i - 1]);
                }
            }
        }
        if forall|i: int| 0 <= i < vs.len() ==> value_check(#[trigger] vs[i], p) is Ok {
            assert(value_check(vs[0], p) is Ok);
            assert forall|i: int| 0 <= i < vs.drop_first().len() implies value_check(
                #[trigger] vs.drop_first()[i],
                p,
            ) is Ok by {
                assert(vs.drop_first()[i] == vs[i + 1]);
            }
        }
    }
}

/// The connection closes after a request exactly when the request's
/// `Connection` header holds the text `close`; with `keep-alive`, or with no
/// such header, it stays open.
pub proof fn law_close_only_on_close(hs: Seq<SpecHeader>)
    ensures
        closes_after(hs) <==> (lookup(hs, "Connection"@) matches Some(h) && h.payload == Payload::Text(
            "close"@,
        )),
        lookup(hs, "Connection"@) is None ==> !closes_after(hs),
        (lookup(hs, "Connection"@) matches Some(h) && h.payload == Payload::Text("keep-alive"@))
            ==> !closes_after(hs),
{
    reveal_strlit("close");
    reveal_strlit("keep-alive");
    assert("keep-alive"@.len() != "close"@.len());
    match lookup(hs, "Connection"@) {
        Some(h) => match h.payload {
            Payload::Text(t) => {},
            _ => {},
        },
        None => {},
    }
}

/// A request that was read is answered with its response, and the connection
/// stays open unless the request's `Connection` header holds `close`.
pub proof fn law_reply_keeps_alive(r: SpecRequest, now: HttpDate)
    ensures
        exchange_at(Ok(Some(r)), now) matches SpecExchange::Reply { response, close } && response
            == response_at(r, now) && (close <==> (lookup(r.headers, "Connection"@) matches Some(h)
            && h.payload == Payload::Text("close"@))),
{
    law_close_only_on_close(r.headers);
}

/// Every status code the server names has its reason phrase, and every other
/// code has none.
pub proof fn law_reason_phrases(code: u16)
    ensures
        reason_phrase(200) == "OK"@,
        reason_phrase(201) == "Created"@,
        reason_phrase(202) == "Accepted"@,
        reason_phrase(301) == "Moved Permanently"@,
        reason_phrase(302) == "Found"@,
        reason_phrase(400) == "Bad Request"@,
        reason_phrase(401) == "Unauthorized"@,
        reason_phrase(403) == "Forbidden"@,
        reason_phrase(404) == "Not Found"@,
        reason_phrase(405) == "Method Not Allowed"@,
        reason_phrase(408) == "Request Timeout"@,
        reason_phrase(411) == "Length Required"@,
        reason_phrase(413) == "Content Too Large"@,
        reason_phrase(419) == "Too Many Requests"@,
        reason_phrase(500) == "Internal Server Error"@,
        reason_phrase(501) == "Not Implemented"@,
        reason_phrase(502) == "Bad Gateway"@,
        reason_phrase(503) == "Service Unavailable"@,
        reason_phrase(504) == "Gateway Timeout"@,
        reason_phrase(505) == "HTTP Version Not Supported"@,
        !(code == 200 || code == 201 || code == 202 || code == 301 || code == 302 || code == 400
            || code == 401 || code == 403 || code == 404 || code == 405 || code == 408 || code
            == 411 || code == 413 || code == 419 || code == 500 || code == 501 || code == 502
            || code == 503 || code == 504 || code == 505) ==> reason_phrase(code).len() == 0,
{
}

/// The line of a header that holds a list of values is its field name, `: `,
/// and the texts of all its values with `, ` between each two.
pub proof fn law_list_header_text(k: HeaderKind, vs: Seq<SpecValue>)
    ensures
        header_text(SpecHeader { kind: k, payload: Payload::Values(vs) }) == kind_name(k) + ": "@
            + join(vs.map_values(|v: SpecValue| value_text(v)), ", "@),
{
}

/// Adding a value to a nonempty list adds `, ` and the value's text to the
/// end of the header's line; a list of one value writes that value alone.
pub proof fn law_list_header_push(k: HeaderKind, vs: Seq<SpecValue>, v: SpecValue)
    ensures
        header_text(SpecHeader { kind: k, payload: Payload::Values(seq![v]) }) == kind_name(k)
            + ": "@ + value_text(v),
        vs.len() > 0 ==> header_text(SpecHeader { kind: k, payload: Payload::Values(vs.push(v)) })
            == header_text(SpecHeader { kind: k, payload: Payload::Values(vs) }) + ", "@
            + value_text(v),
{
    let f = |x: SpecValue| value_text(x);
    assert(seq![v].map_values(f) =~= seq![value_text(v)]);
    let ts = vs.map_values(f);
    let ts2 = vs.push(v).map_values(f);
    assert(ts2 =~= ts.push(value_text(v)));
    if vs.len() > 0 {
        assert(ts2.drop_last() =~= ts);
        assert(join(ts2, ", "@) == join(ts, ", "@) + ", "@ + value_text(v));
        assert(header_text(SpecHeader { kind: k, payload: Payload::Values(vs.push(v)) })
            =~= header_text(SpecHeader { kind: k, payload: Payload::Values(vs) }) + ", "@
            + value_text(v));
    }
}

/// Every response formed at the time `now` is `HTTP/1.1`, carries exactly one
/// header, the `Date` of `now`, whatever its status, and has no body.
pub proof fn law_response_dated(r: SpecRequest, now: HttpDate)
    ensures
        response_at(r, now).version == "HTTP/1.1"@,
        response_at(r, now).headers == seq![
            SpecHeader { kind: HeaderKind::Date, payload: Payload::Date(now) },
        ],
        response_at(r, now).body.len() == 0,
{
}

/// The values of `Accept-Language`, `Vary`, `Set-Cookie` and `Cookie` are
/// held to the token rule alone, those of `Accept` to `token/token`, and
/// those of `Allow` to the method names; each list passes exactly when every
/// value in it passes.
pub proof fn law_list_header_rules(k: HeaderKind, vs: Seq<SpecValue>)
    ensures
        (k == HeaderKind::AcceptLanguage || k == HeaderKind::Vary || k == HeaderKind::SetCookie || k
            == HeaderKind::Cookie) ==> header_check(SpecHeader { kind: k, payload: Payload::Values(vs) })
            == values_check(vs, None),
        k == HeaderKind::Accept ==> header_check(SpecHeader { kind: k, payload: Payload::Values(vs) })
            == values_check(vs, Some(ValuePattern::MediaType)),
        k == HeaderKind::Allow ==> header_check(SpecHeader { kind: k, payload: Payload::Values(vs) })
            == values_check(vs, Some(ValuePattern::MethodName)),
        (k == HeaderKind::AcceptLanguage || k == HeaderKind::Vary || k == HeaderKind::SetCookie || k
            == HeaderKind::Cookie) ==> (header_check(
            SpecHeader { kind: k, payload: Payload::Values(vs) },
        ) is Ok <==> forall|i: int| 0 <= i < vs.len() ==> value_check(#[trigger] vs[i], None) is Ok),
{
    law_values_check_all(vs, None);
}

} // verus!
