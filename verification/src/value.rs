//! Header values: `key=value` items with `;`-separated parameters, and lists
//! of them.
use vstd::prelude::*;
use crate::error::{HTTPError, HTTPErrorKind, SpecError, error_of};
use crate::grammar::{
    has_method_name, has_method_name_str, has_product_list, has_token, has_token_str,
    is_media_type, is_media_type_str,
};
use crate::text::{join, join_strings, split, split_once, split_once_str, split_str, trim, trim_str, views};

verus! {

/// The pattern that a header value is held to in place of the token rule.
#[derive(Debug, Clone, Copy, PartialEq, Eq, Structural)]
pub enum ValuePattern {
    /// `token/token`, anchored at both ends.
    MediaType,
    /// One of `PUT`, `POST`, `GET`, `UPDATE` found anywhere.
    MethodName,
    /// A product list found anywhere.
    ProductList,
}

/// Whether `s` matches `pattern`; with no pattern, whether it holds a token.
pub open spec fn matches_pattern(pattern: Option<ValuePattern>, s: Seq<char>) -> bool {
    match pattern {
        None => has_token(s),
        Some(ValuePattern::MediaType) => is_media_type(s),
        Some(ValuePattern::MethodName) => has_method_name(s),
        Some(ValuePattern::ProductList) => has_product_list(s),
    }
}

pub fn value_matches(pattern: Option<ValuePattern>, s: &str) -> (r: bool)
    ensures
        r == matches_pattern(pattern, s@),
{
    match pattern {
        None => has_token_str(s),
        Some(ValuePattern::MediaType) => is_media_type_str(s),
        Some(ValuePattern::MethodName) => has_method_name_str(s),
        Some(ValuePattern::ProductList) => has_token_str(s),
    }
}

/// The view of an optional string.
pub open spec fn opt_view(o: Option<String>) -> Option<Seq<char>> {
    match o {
        Some(s) => Some(s@),
        None => None,
    }
}

/// The view of an optional string slice.
pub open spec fn opt_str_view(o: Option<&str>) -> Option<Seq<char>> {
    match o {
        Some(s) => Some(s@),
        None => None,
    }
}

/// The view of a result that carries nothing on success.
pub open spec fn unit_result(r: Result<(), HTTPError>) -> Result<(), SpecError> {
    match r {
        Ok(()) => Ok(()),
        Err(e) => Err(e@),
    }
}

/// `key=value`, or `value` where there is no key.
pub open spec fn keyed_text(key: Option<Seq<char>>, value: Seq<char>) -> Seq<char> {
    match key {
        Some(k) => k + "="@ + value,
        None => value,
    }
}

/// A parameter as a value.
#[verifier::ext_equal]
pub struct SpecParam {
    pub key: Option<Seq<char>>,
    pub value: Seq<char>,
}

/// A parameter of a header value: `key=value`, or a bare `value`.
#[derive(Debug)]
pub struct HeaderParam {
    key: Option<String>,
    value: String,
}

impl View for HeaderParam {
    type V = SpecParam;

    closed spec fn view(&self) -> SpecParam {
        SpecParam { key: opt_view(self.key), value: self.value@ }
    }
}

/// The parameter that `s` stands for: split at its first `=`, if it has one.
pub open spec fn param_from_text(s: Seq<char>) -> SpecParam {
    match split_once(s, "="@) {
        Some((k, v)) => SpecParam { key: Some(k), value: v },
        None => SpecParam { key: None, value: s },
    }
}

/// The text of a parameter.
pub open spec fn param_text(p: SpecParam) -> Seq<char> {
    keyed_text(p.key, p.value)
}

/// What checking a parameter reports: its key, if any, and its value must
/// each hold a token.
pub open spec fn param_check(p: SpecParam) -> Result<(), SpecError> {
    if p.key is Some && !has_token(p.key->0) {
        Err(
            error_of(
                HTTPErrorKind::BadHeader,
                "Invalid header param: '"@ + p.key->0 + "="@ + p.value + "'"@,
            ),
        )
    } else if !has_token(p.value) {
        Err(error_of(HTTPErrorKind::BadHeader, "Invalid header param: '"@ + p.value + "'"@))
    } else {
        Ok(())
    }
}

fn keyed_string(key: &Option<String>, value: &String) -> (s: String)
    ensures
        s@ == keyed_text(opt_view(*key), value@),
{
    match key {
        Some(k) => {
            let mut s = k.clone();
            s.append("=");
            s.append(value.as_str());
            s
        },
        None => value.clone(),
    }
}

impl HeaderParam {
    /// Reads a parameter from its text.
    pub fn new(input: &str) -> (p: Self)
        ensures
            p@ == param_from_text(input@),
    {
        match split_once_str(input, "=") {
            Some((k, v)) => HeaderParam { key: Some(k.to_owned()), value: v.to_owned() },
            None => HeaderParam { key: None, value: input.to_owned() },
        }
    }

    pub fn key(&self) -> (k: Option<&str>)
        ensures
            opt_str_view(k) == self@.key,
    {
        match &self.key {
            Some(k) => Some(k.as_str()),
            None => None,
        }
    }

    pub fn value(&self) -> (v: &str)
        ensures
            v@ == self@.value,
    {
        self.value.as_str()
    }

    /// The parameter's text, as `Display` writes it.
    pub fn to_string(&self) -> (s: String)
        ensures
            s@ == param_text(self@),
    {
        keyed_string(&self.key, &self.value)
    }

    /// Checks that the key, if any, and the value each hold a token.
    pub fn validate(&self) -> (r: Result<(), HTTPError>)
        ensures
            unit_result(r) == param_check(self@),
    {
        if let Some(key) = &self.key {
            if !has_token_str(key.as_str()) {
                let mut m = String::from_str("Invalid header param: '");
                m.append(key.as_str());
                m.append("=");
                m.append(self.value.as_str());
                m.append("'");
                return Err(HTTPError::new(HTTPErrorKind::BadHeader, m.as_str()));
            }
        }
        if !has_token_str(self.value.as_str()) {
            let mut m = String::from_str("Invalid header param: '");
            m.append(self.value.as_str());
            m.append("'");
            return Err(HTTPError::new(HTTPErrorKind::BadHeader, m.as_str()));
        }
        Ok(())
    }
}

/// A header value as a value.
#[verifier::ext_equal]
pub struct SpecValue {
    pub key: Option<Seq<char>>,
    pub value: Seq<char>,
    pub params: Seq<SpecParam>,
}

/// One value of a header: `key=value` or `value`, then parameters.
#[derive(Debug)]
pub struct HeaderValue {
    key: Option<String>,
    value: String,
    params: Vec<HeaderParam>,
}

/// The views of a sequence of parameters.
pub open spec fn param_views(ps: Seq<HeaderParam>) -> Seq<SpecParam> {
    ps.map_values(|p: HeaderParam| p@)
}

impl View for HeaderValue {
    type V = SpecValue;

    closed spec fn view(&self) -> SpecValue {
        SpecValue { key: opt_view(self.key), value: self.value@, params: param_views(self.params@) }
    }
}

/// The head and the parameter text of a value: split at its first `;`.
pub open spec fn value_parts(s: Seq<char>) -> (Seq<char>, Seq<char>) {
    match split_once(s, ";"@) {
        Some((a, p)) => (a, p),
        None => (s, Seq::empty()),
    }
}

/// The value that `s` stands for. The head is split at its first `=` as a
/// parameter is; the rest is split at every `;` into parameters (so a value
/// without `;` has a single empty parameter).
pub open spec fn value_from_text(s: Seq<char>) -> SpecValue {
    let (arg, raw) = value_parts(s);
    let head = param_from_text(arg);
    SpecValue {
        key: head.key,
        value: head.value,
        params: split(raw, ";"@).map_values(|p: Seq<char>| param_from_text(p)),
    }
}

/// The text of a value: its head, then its parameters joined by `;` (with no
/// separator between the head and the first parameter).
pub open spec fn value_text(v: SpecValue) -> Seq<char> {
    keyed_text(v.key, v.value) + join(v.params.map_values(|p: SpecParam| param_text(p)), ";"@)
}

/// The first parameter that fails its check.
pub open spec fn first_bad_param(ps: Seq<SpecParam>) -> Option<SpecParam>
    decreases ps.len(),
{
    if ps.len() == 0 {
        None
    } else if param_check(ps[0]) is Err {
        Some(ps[0])
    } else {
        first_bad_param(ps.drop_first())
    }
}

/// The first parameter whose key is `key`.
pub open spec fn param_lookup(ps: Seq<SpecParam>, key: Seq<char>) -> Option<SpecParam>
    decreases ps.len(),
{
    if ps.len() == 0 {
        None
    } else if ps[0].key == Some(key) {
        Some(ps[0])
    } else {
        param_lookup(ps.drop_first(), key)
    }
}

/// What checking a value against `pattern` reports: the value must match
/// the pattern, the key (if any) must hold a token, and every parameter must
/// pass its check; the first failure is reported.
pub open spec fn value_check(v: SpecValue, pattern: Option<ValuePattern>) -> Result<(), SpecError> {
    if !matches_pattern(pattern, v.value) {
        Err(
            error_of(
                HTTPErrorKind::BadHeader,
                "Invalid header value '"@ + v.value + "' in header '"@ + value_text(v) + "'"@,
            ),
        )
    } else if v.key is Some && !has_token(v.key->0) {
        Err(
            error_of(
                HTTPErrorKind::BadHeader,
                "Invalid header key '"@ + v.key->0 + "' in header '"@ + value_text(v) + "'"@,
            ),
        )
    } else {
        match first_bad_param(v.params) {
            Some(p) => Err(
                error_of(
                    HTTPErrorKind::BadHeader,
                    "Invalid header param '"@ + param_text(p) + "' in header '"@ + value_text(v)
                        + "'"@,
                ),
            ),
            None => Ok(()),
        }
    }
}

proof fn lemma_first_bad_param_skip(ps: Seq<SpecParam>, i: int)
    requires
        0 <= i <= ps.len(),
        forall|j: int| 0 <= j < i ==> param_check(#[trigger] ps[j]) is Ok,
    ensures
        first_bad_param(ps) == first_bad_param(ps.skip(i)),
    decreases i,
{
    if i > 0 {
        assert(ps.skip(1) =~= ps.drop_first());
        assert(param_check(ps[0]) is Ok);
        lemma_first_bad_param_skip(ps.drop_first(), i - 1);
        assert(ps.drop_first().skip(i - 1) =~= ps.skip(i));
    } else {
        assert(ps.skip(0) =~= ps);
    }
}

proof fn lemma_param_lookup_skip(ps: Seq<SpecParam>, key: Seq<char>, i: int)
    requires
        0 <= i <= ps.len(),
        forall|j: int| 0 <= j < i ==> (#[trigger] ps[j]).key != Some(key),
    ensures
        param_lookup(ps, key) == param_lookup(ps.skip(i), key),
    decreases i,
{
    if i > 0 {
        assert(ps[0].key != Some(key));
        lemma_param_lookup_skip(ps.drop_first(), key, i - 1);
        assert(ps.drop_first().skip(i - 1) =~= ps.skip(i));
    } else {
        assert(ps.skip(0) =~= ps);
    }
}

impl HeaderValue {
    /// Reads a value from its text.
    pub fn new(input: &str) -> (v: Self)
        ensures
            v@ == value_from_text(input@),
    {
        let (arg, raw) = match split_once_str(input, ";") {
            Some((a, p)) => (a, p),
            None => {
                let e = input.substring_char(0, 0);
                assert(e@ =~= Seq::<char>::empty());
                (input, e)
            },
        };
        let head = HeaderParam::new(arg);
        let pieces = split_str(raw, ";");
        let ghost want = split(raw@, ";"@).map_values(|p: Seq<char>| param_from_text(p));
        let mut params: Vec<HeaderParam> = Vec::new();
        let mut i: usize = 0;
        while i < pieces.len()
            invariant
                pieces@.len() == split(raw@, ";"@).len(),
                forall|j: int|
                    0 <= j < pieces@.len() ==> #[trigger] pieces@[j]@ == split(raw@, ";"@)[j],
                want == split(raw@, ";"@).map_values(|p: Seq<char>| param_from_text(p)),
                i <= pieces.len(),
                params.len() == i,
                param_views(params@) =~= want.take(i as int),
            decreases pieces.len() - i,
        {
            let p = HeaderParam::new(pieces[i]);
            assert(want[i as int] == p@);
            params.push(p);
            assert(param_views(params@)[i as int] == want[i as int]);
            i = i + 1;
        }
        assert(want.take(pieces.len() as int) =~= want);
        HeaderValue { key: head.key, value: head.value, params }
    }

    pub fn key(&self) -> (k: Option<&str>)
        ensures
            opt_str_view(k) == self@.key,
    {
        match &self.key {
            Some(k) => Some(k.as_str()),
            None => None,
        }
    }

    pub fn value(&self) -> (v: &str)
        ensures
            v@ == self@.value,
    {
        self.value.as_str()
    }

    pub fn params(&self) -> (ps: &[HeaderParam])
        ensures
            param_views(ps@) == self@.params,
    {
        self.params.as_slice()
    }

    /// The first parameter whose key is `key`.
    pub fn get_param(&self, key: &str) -> (r: Option<&HeaderParam>)
        ensures
            match r {
                Some(p) => param_lookup(self@.params, key@) == Some(p@),
                None => param_lookup(self@.params, key@) is None,
            },
    {
        let ghost ps = self@.params;
        let mut i: usize = 0;
        while i < self.params.len()
            invariant
                ps == param_views(self.params@),
                i <= self.params.len(),
                forall|j: int| 0 <= j < i ==> (#[trigger] ps[j]).key != Some(key@),
            decreases self.params.len() - i,
        {
            let p = &self.params[i];
            let hit = match &p.key {
                Some(k) => crate::text::str_eq(k.as_str(), key),
                None => false,
            };
            if hit {
                proof {
                    lemma_param_lookup_skip(ps, key@, i as int);
                    assert(ps.skip(i as int)[0] == ps[i as int]);
                }
                return Some(p);
            }
            i = i + 1;
        }
        proof {
            lemma_param_lookup_skip(ps, key@, i as int);
            assert(ps.skip(i as int).len() == 0);
        }
        None
    }

    /// The value's text, as `Display` writes it.
    pub fn to_string(&self) -> (s: String)
        ensures
            s@ == value_text(self@),
    {
        let mut texts: Vec<String> = Vec::new();
        let ghost want = self@.params.map_values(|p: SpecParam| param_text(p));
        let mut i: usize = 0;
        while i < self.params.len()
            invariant
                want == param_views(self.params@).map_values(|p: SpecParam| param_text(p)),
                i <= self.params.len(),
                texts.len() == i,
                views(texts@) =~= want.take(i as int),
            decreases self.params.len() - i,
        {
            let t = self.params[i].to_string();
            assert(want[i as int] == t@);
            texts.push(t);
            assert(views(texts@)[i as int] == want[i as int]);
            i = i + 1;
        }
        assert(want.take(self.params.len() as int) =~= want);
        let mut s = keyed_string(&self.key, &self.value);
        let tail = join_strings(&texts, ";");
        s.append(tail.as_str());
        s
    }

    /// Checks the value against `value_pattern` (the token rule where there
    /// is none), the key against the token rule, and each parameter.
    pub fn validate(&self, value_pattern: Option<ValuePattern>) -> (r: Result<(), HTTPError>)
        ensures
            unit_result(r) == value_check(self@, value_pattern),
    {
        if !value_matches(value_pattern, self.value.as_str()) {
            let mut m = String::from_str("Invalid header value '");
            m.append(self.value.as_str());
            m.append("' in header '");
            m.append(self.to_string().as_str());
            m.append("'");
            return Err(HTTPError::new(HTTPErrorKind::BadHeader, m.as_str()));
        }
        if let Some(key) = &self.key {
            if !has_token_str(key.as_str()) {
                let mut m = String::from_str("Invalid header key '");
                m.append(key.as_str());
                m.append("' in header '");
                m.append(self.to_string().as_str());
                m.append("'");
                return Err(HTTPError::new(HTTPErrorKind::BadHeader, m.as_str()));
            }
        }
        let ghost ps = self@.params;
        let mut i: usize = 0;
        while i < self.params.len()
            invariant
                ps == param_views(self.params@),
                i <= self.params.len(),
                matches_pattern(value_pattern, self@.value),
                !(self@.key is Some && !has_token(self@.key->0)),
                forall|j: int| 0 <= j < i ==> param_check(#[trigger] ps[j]) is Ok,
            decreases self.params.len() - i,
        {
            let p = &self.params[i];
            if p.validate().is_err() {
                proof {
                    lemma_first_bad_param_skip(ps, i as int);
                    assert(ps.skip(i as int)[0] == ps[i as int]);
                    assert(ps[i as int] == p@);
                    assert(first_bad_param(ps.skip(i as int)) == Some(ps[i as int]));
                    assert(matches_pattern(value_pattern, self@.value));
                    assert(!(self@.key is Some && !has_token(self@.key->0)));
                }
                let mut m = String::from_str("Invalid header param '");
                m.append(p.to_string().as_str());
                m.append("' in header '");
                m.append(self.to_string().as_str());
                m.append("'");
                return Err(HTTPError::new(HTTPErrorKind::BadHeader, m.as_str()));
            }
            i = i + 1;
        }
        proof {
            lemma_first_bad_param_skip(ps, i as int);
            assert(ps.skip(i as int).len() == 0);
        }
        Ok(())
    }
}

/// The views of a sequence of values.
pub open spec fn value_views(vs: Seq<HeaderValue>) -> Seq<SpecValue> {
    vs.map_values(|v: HeaderValue| v@)
}

/// A list of header values.
#[derive(Debug)]
pub struct HeaderValues(pub Vec<HeaderValue>);

impl View for HeaderValues {
    type V = Seq<SpecValue>;

    open spec fn view(&self) -> Seq<SpecValue> {
        value_views(self.0@)
    }
}

/// The values that `line` stands for: split at every `sep` (`,` where there
/// is none), each piece trimmed of white space and read as a value.
pub open spec fn values_from_text(line: Seq<char>, sep: Option<Seq<char>>) -> Seq<SpecValue> {
    let separator = match sep {
        Some(s) => s,
        None => ","@,
    };
    split(line, separator).map_values(|p: Seq<char>| value_from_text(trim(p)))
}

/// The text of a list of values: the values joined by `, `.
pub open spec fn values_text(vs: Seq<SpecValue>) -> Seq<char> {
    join(vs.map_values(|v: SpecValue| value_text(v)), ", "@)
}

/// What checking a list of values reports: the first failure of a value.
pub open spec fn values_check(vs: Seq<SpecValue>, pattern: Option<ValuePattern>) -> Result<
    (),
    SpecError,
>
    decreases vs.len(),
{
    if vs.len() == 0 {
        Ok(())
    } else {
        match value_check(vs[0], pattern) {
            Err(e) => Err(e),
            Ok(()) => values_check(vs.drop_first(), pattern),
        }
    }
}

proof fn lemma_values_check_skip(vs: Seq<SpecValue>, pattern: Option<ValuePattern>, i: int)
    requires
        0 <= i <= vs.len(),
        forall|j: int| 0 <= j < i ==> value_check(#[trigger] vs[j], pattern) is Ok,
    ensures
        values_check(vs, pattern) == values_check(vs.skip(i), pattern),
    decreases i,
{
    if i > 0 {
        assert(value_check(vs[0], pattern) is Ok);
        lemma_values_check_skip(vs.drop_first(), pattern, i - 1);
        assert(vs.drop_first().skip(i - 1) =~= vs.skip(i));
    } else {
        assert(vs.skip(0) =~= vs);
    }
}

impl HeaderValues {
    /// Reads a list of values, split at `sep` (`,` where there is none).
    /// Reading cannot fail: the result is always `Ok`.
    pub fn new(line: &str, sep: Option<&str>) -> (r: Result<Self, HTTPError>)
        ensures
            r matches Ok(h) && h@ == values_from_text(line@, opt_str_view(sep)),
    {
        let separator = match sep {
            Some(s) => s,
            None => ",",
        };
        let pieces = split_str(line, separator);
        let ghost want = split(line@, separator@).map_values(
            |p: Seq<char>| value_from_text(trim(p)),
        );
        let mut hvs: Vec<HeaderValue> = Vec::new();
        let mut i: usize = 0;
        while i < pieces.len()
            invariant
                pieces@.len() == split(line@, separator@).len(),
                forall|j: int|
                    0 <= j < pieces@.len() ==> #[trigger] pieces@[j]@ == split(
                        line@,
                        separator@,
                    )[j],
                want == split(line@, separator@).map_values(
                    |p: Seq<char>| value_from_text(trim(p)),
                ),
                i <= pieces.len(),
                hvs.len() == i,
                value_views(hvs@) =~= want.take(i as int),
            decreases pieces.len() - i,
        {
            let hv = HeaderValue::new(trim_str(pieces[i]));
            assert(want[i as int] == hv@);
            hvs.push(hv);
            assert(value_views(hvs@)[i as int] == want[i as int]);
            i = i + 1;
        }
        assert(want.take(pieces.len() as int) =~= want);
        Ok(HeaderValues(hvs))
    }

    /// The list's text, as `Display` writes it.
    pub fn to_string(&self) -> (s: String)
        ensures
            s@ == values_text(self@),
    {
        let mut texts: Vec<String> = Vec::new();
        let ghost want = self@.map_values(|v: SpecValue| value_text(v));
        let mut i: usize = 0;
        while i < self.0.len()
            invariant
                want == value_views(self.0@).map_values(|v: SpecValue| value_text(v)),
                i <= self.0.len(),
                texts.len() == i,
                views(texts@) =~= want.take(i as int),
            decreases self.0.len() - i,
        {
            let t = self.0[i].to_string();
            assert(want[i as int] == t@);
            texts.push(t);
            assert(views(texts@)[i as int] == want[i as int]);
            i = i + 1;
        }
        assert(want.take(self.0.len() as int) =~= want);
        join_strings(&texts, ", ")
    }

    /// Checks each value against `value_pattern`; reports the first failure.
    pub fn validate(&self, value_pattern: Option<ValuePattern>) -> (r: Result<(), HTTPError>)
        ensures
            unit_result(r) == values_check(self@, value_pattern),
    {
        let ghost vs = self@;
        let mut i: usize = 0;
        while i < self.0.len()
            invariant
                vs == value_views(self.0@),
                i <= self.0.len(),
                forall|j: int| 0 <= j < i ==> value_check(#[trigger] vs[j], value_pattern) is Ok,
            decreases self.0.len() - i,
        {
            match self.0[i].validate(value_pattern) {
                Err(e) => {
                    proof {
                        lemma_values_check_skip(vs, value_pattern, i as int);
                        assert(vs.skip(i as int)[0] == vs[i as int]);
                    }
                    return Err(e);
                },
                Ok(()) => {},
            }
            i = i + 1;
        }
        proof {
            lemma_values_check_skip(vs, value_pattern, i as int);
            assert(vs.skip(i as int).len() == 0);
        }
        Ok(())
    }
}

} // verus!
