//! The lexical rules that header validation applies: HTTP tokens, media
//! types, method lists, product lists, host names and the shape of a header
//! line.
//!
//! Each rule is stated as what it accepts. The checks look for a match
//! anywhere in the text unless the rule says it is anchored at both ends.
use vstd::prelude::*;
use crate::text::{chars_of, occurs_at};

verus! {

/// `tchar` of RFC 9110: ASCII letters and digits and ``!#$%&'*+-.^_`|~``.
pub open spec fn is_tchar(c: char) -> bool {
    ||| ('a' <= c <= 'z')
    ||| ('A' <= c <= 'Z')
    ||| ('0' <= c <= '9')
    ||| c == '!' || c == '#' || c == '$' || c == '%' || c == '&' || c == '\''
    ||| c == '*' || c == '+' || c == '-' || c == '.' || c == '^' || c == '_'
    ||| c == '`' || c == '|' || c == '~'
}

pub fn tchar(c: char) -> (r: bool)
    ensures
        r == is_tchar(c),
{
    ('a' <= c && c <= 'z') || ('A' <= c && c <= 'Z') || ('0' <= c && c <= '9') || c == '!' || c
        == '#' || c == '$' || c == '%' || c == '&' || c == '\'' || c == '*' || c == '+' || c
        == '-' || c == '.' || c == '^' || c == '_' || c == '`' || c == '|' || c == '~'
}

/// A token pattern (one or more `tchar`) is found somewhere in `s`: that is,
/// `s` holds at least one `tchar`.
pub open spec fn has_token(s: Seq<char>) -> bool {
    exists|i: int| 0 <= i < s.len() && is_tchar(#[trigger] s[i])
}

/// `s` is a token: nonempty, and every character a `tchar`.
pub open spec fn is_token(s: Seq<char>) -> bool {
    s.len() > 0 && forall|i: int| 0 <= i < s.len() ==> is_tchar(#[trigger] s[i])
}

/// `s` is `token/token`, anchored at both ends.
pub open spec fn is_media_type(s: Seq<char>) -> bool {
    exists|i: int|
        0 <= i < s.len() && #[trigger] s[i] == '/' && is_token(s.take(i)) && is_token(s.skip(i + 1))
}

/// One of `PUT`, `POST`, `GET` or `UPDATE` occurs in `s` at index `i`.
pub open spec fn method_name_at(s: Seq<char>, i: int) -> bool {
    ||| occurs_at(s, seq!['P', 'U', 'T'], i)
    ||| occurs_at(s, seq!['P', 'O', 'S', 'T'], i)
    ||| occurs_at(s, seq!['G', 'E', 'T'], i)
    ||| occurs_at(s, seq!['U', 'P', 'D', 'A', 'T', 'E'], i)
}

/// One of `PUT`, `POST`, `GET` or `UPDATE` occurs somewhere in `s`.
pub open spec fn has_method_name(s: Seq<char>) -> bool {
    exists|i: int| method_name_at(s, i)
}

/// A product list (`token[/token]` items separated by single spaces) is found
/// somewhere in `s`. The shortest such list is a single `tchar`, and every
/// list holds one, so this is exactly [`has_token`].
pub open spec fn has_product_list(s: Seq<char>) -> bool {
    has_token(s)
}

/// Characters of a registered host name: ASCII letters and digits, `~`, and
/// the range from `.` to `_` (which holds `/`, the digits, `:;<=>?@`, the
/// capital letters and `[\]^`).
pub open spec fn is_reg_name_char(c: char) -> bool {
    ||| ('a' <= c <= 'z')
    ||| ('A' <= c <= 'Z')
    ||| ('0' <= c <= '9')
    ||| ('.' <= c <= '_')
    ||| c == '~'
}

/// The host rule: an IPv4 form anchored at the start, or a registered name
/// with an optional port anchored at the end. Each octet form accepts a
/// single leading digit, and the name form accepts a single final name
/// character (a port ends in a digit, itself a name character), so the rule
/// accepts exactly the text that starts with an ASCII digit or ends with a
/// name character.
pub open spec fn is_host(s: Seq<char>) -> bool {
    ||| (s.len() > 0 && '0' <= s[0] <= '9')
    ||| (s.len() > 0 && is_reg_name_char(s.last()))
}

fn reg_name_char(c: char) -> (r: bool)
    ensures
        r == is_reg_name_char(c),
{
    ('a' <= c && c <= 'z') || ('A' <= c && c <= 'Z') || ('0' <= c && c <= '9') || ('.' <= c && c
        <= '_') || c == '~'
}

fn all_tchars(cs: &Vec<char>, from: usize, to: usize) -> (r: bool)
    requires
        from <= to <= cs.len(),
    ensures
        r == forall|i: int| from <= i < to ==> is_tchar(#[trigger] cs@[i]),
{
    let mut i = from;
    while i < to
        invariant
            from <= i <= to <= cs.len(),
            forall|j: int| from <= j < i ==> is_tchar(#[trigger] cs@[j]),
        decreases to - i,
    {
        if !tchar(cs[i]) {
            return false;
        }
        i = i + 1;
    }
    true
}

/// Whether `s` holds a `tchar`.
pub fn has_token_str(s: &str) -> (r: bool)
    ensures
        r == has_token(s@),
{
    let cs = chars_of(s);
    let mut i: usize = 0;
    while i < cs.len()
        invariant
            cs@ == s@,
            i <= cs.len(),
            forall|j: int| 0 <= j < i ==> !is_tchar(#[trigger] cs@[j]),
        decreases cs.len() - i,
    {
        if tchar(cs[i]) {
            return true;
        }
        i = i + 1;
    }
    false
}

/// Whether `s` is `token/token`.
pub fn is_media_type_str(s: &str) -> (r: bool)
    ensures
        r == is_media_type(s@),
{
    let cs = chars_of(s);
    let n = cs.len();
    let mut i: usize = 0;
    while i < n && cs[i] != '/'
        invariant
            cs@ == s@,
            n == cs.len(),
            i <= n,
            forall|j: int| 0 <= j < i ==> cs@[j] != '/',
        decreases n - i,
    {
        i = i + 1;
    }
    if i == n {
        return false;
    }
    if i == 0 || i + 1 >= n {
        proof {
            let t = s@;
            assert forall|m: int|
                0 <= m < t.len() && #[trigger] t[m] == '/' && is_token(t.take(m)) implies !is_token(
                t.skip(m + 1),
            ) by {
                if m > i {
                    assert(t.take(m)[i as int] == '/');
                }
            }
        }
        return false;
    }
    let t1 = all_tchars(&cs, 0, i);
    let t2 = all_tchars(&cs, i + 1, n);
    proof {
        let t = s@;
        if t1 && t2 {
            assert(is_token(t.take(i as int)));
            assert forall|k: int| 0 <= k < t.skip(i + 1).len() implies is_tchar(
                #[trigger] t.skip(i + 1)[k],
            ) by {
                assert(t.skip(i + 1)[k] == cs@[i + 1 + k]);
            }
            assert(t[i as int] == '/');
        } else {
            assert forall|m: int|
                0 <= m < t.len() && #[trigger] t[m] == '/' && is_token(t.take(m)) implies !is_token(
                t.skip(m + 1),
            ) by {
                if m > i {
                    assert(t.take(m)[i as int] == '/');
                }
                if m == i {
                    if !t1 {
                        let k = choose|k: int| 0 <= k < i && !is_tchar(#[trigger] cs@[k]);
                        assert(t.take(m)[k] == cs@[k]);
                    } else {
                        let k = choose|k: int| i + 1 <= k < n && !is_tchar(#[trigger] cs@[k]);
                        assert(t.skip(m + 1)[k - m - 1] == cs@[k]);
                    }
                }
            }
        }
    }
    t1 && t2
}

fn occurs_lit(cs: &Vec<char>, lit: &Vec<char>, i: usize) -> (r: bool)
    ensures
        r == occurs_at(cs@, lit@, i as int),
{
    if i > cs.len() || lit.len() > cs.len() - i {
        return false;
    }
    let mut j: usize = 0;
    while j < lit.len()
        invariant
            i + lit.len() <= cs.len(),
            j <= lit.len(),
            forall|m: int| 0 <= m < j ==> cs@[i + m] == lit@[m],
        decreases lit.len() - j,
    {
        if cs[i + j] != lit[j] {
            assert(cs@.subrange(i as int, i + lit.len())[j as int] != lit@[j as int]);
            return false;
        }
        j = j + 1;
    }
    assert(cs@.subrange(i as int, i + lit.len()) =~= lit@);
    true
}

/// Whether one of `PUT`, `POST`, `GET`, `UPDATE` occurs in `s`.
pub fn has_method_name_str(s: &str) -> (r: bool)
    ensures
        r == has_method_name(s@),
{
    let cs = chars_of(s);
    let put = vec!['P', 'U', 'T'];
    let post = vec!['P', 'O', 'S', 'T'];
    let get = vec!['G', 'E', 'T'];
    let update = vec!['U', 'P', 'D', 'A', 'T', 'E'];
    assert(put@ =~= seq!['P', 'U', 'T']);
    assert(post@ =~= seq!['P', 'O', 'S', 'T']);
    assert(get@ =~= seq!['G', 'E', 'T']);
    assert(update@ =~= seq!['U', 'P', 'D', 'A', 'T', 'E']);
    let mut i: usize = 0;
    loop
        invariant
            cs@ == s@,
            i <= cs.len(),
            put@ == seq!['P', 'U', 'T'],
            post@ == seq!['P', 'O', 'S', 'T'],
            get@ == seq!['G', 'E', 'T'],
            update@ == seq!['U', 'P', 'D', 'A', 'T', 'E'],
            forall|j: int| 0 <= j < i ==> !method_name_at(s@, j),
        decreases cs.len() - i,
    {
        if occurs_lit(&cs, &put, i) || occurs_lit(&cs, &post, i) || occurs_lit(&cs, &get, i)
            || occurs_lit(&cs, &update, i) {
            assert(method_name_at(s@, i as int));
            return true;
        }
        if i == cs.len() {
            assert forall|j: int| !method_name_at(s@, j) by {
                if 0 <= j < i {
                    assert(!method_name_at(s@, j));
                }
            }
            return false;
        }
        i = i + 1;
    }
}

/// Whether `s` satisfies the host rule.
pub fn is_host_str(s: &str) -> (r: bool)
    ensures
        r == is_host(s@),
{
    let cs = chars_of(s);
    let n = cs.len();
    n > 0 && (('0' <= cs[0] && cs[0] <= '9') || reg_name_char(cs[n - 1]))
}

/// Characters of a header field name: ASCII letters and `-`.
pub open spec fn is_field_char(c: char) -> bool {
    ('a' <= c <= 'z') || ('A' <= c <= 'Z') || c == '-'
}

/// `line` is a field name (`k` characters), a colon, `m` spaces, and a
/// value: one or more spaces, all of them taken, and a value without a line
/// feed. This is `^([a-zA-Z\-]+): +(.*)$`, whose `.` takes any character but
/// `\n`.
pub open spec fn header_line_at(line: Seq<char>, k: int, m: int) -> bool {
    &&& 0 < k
    &&& 1 <= m
    &&& k + 1 + m <= line.len()
    &&& line[k] == ':'
    &&& forall|j: int| 0 <= j < k ==> is_field_char(#[trigger] line[j])
    &&& forall|j: int| k + 1 <= j < k + 1 + m ==> #[trigger] line[j] == ' '
    &&& (k + 1 + m == line.len() || line[k + 1 + m] != ' ')
    &&& forall|j: int| k + 1 + m <= j < line.len() ==> #[trigger] line[j] != '\n'
}

/// The field name and value of a header line, if it has that shape.
pub open spec fn split_header_line(line: Seq<char>) -> Option<(Seq<char>, Seq<char>)> {
    if exists|k: int, m: int| header_line_at(line, k, m) {
        let (k, m) = choose|k: int, m: int| header_line_at(line, k, m);
        Some((line.take(k), line.skip(k + 1 + m)))
    } else {
        None
    }
}

pub proof fn lemma_header_line_unique(line: Seq<char>, k: int, m: int, k2: int, m2: int)
    requires
        header_line_at(line, k, m),
        header_line_at(line, k2, m2),
    ensures
        k == k2 && m == m2,
{
    if k < k2 {
        assert(is_field_char(line[k]));
    }
    if k2 < k {
        assert(is_field_char(line[k2]));
    }
    if m < m2 {
        assert(line[k + 1 + m] == ' ');
    }
    if m2 < m {
        assert(line[k + 1 + m2] == ' ');
    }
}

/// Splits a header line into its field name and value.
pub fn split_header_line_str<'a>(line: &'a str) -> (r: Option<(&'a str, &'a str)>)
    ensures
        match r {
            Some((f, v)) => split_header_line(line@) == Some((f@, v@)),
            None => split_header_line(line@) is None,
        },
{
    let cs = chars_of(line);
    let n = cs.len();
    let mut k: usize = 0;
    while k < n && (('a' <= cs[k] && cs[k] <= 'z') || ('A' <= cs[k] && cs[k] <= 'Z') || cs[k]
        == '-')
        invariant
            cs@ == line@,
            n == cs.len(),
            k <= n,
            forall|j: int| 0 <= j < k ==> is_field_char(#[trigger] cs@[j]),
        decreases n - k,
    {
        k = k + 1;
    }
    if k == 0 || k == n || cs[k] != ':' {
        proof {
            assert forall|k2: int, m2: int| !header_line_at(line@, k2, m2) by {
                if header_line_at(line@, k2, m2) {
                    if k2 < k {
                        assert(is_field_char(cs@[k2]));
                    }
                    if k2 > k {
                        assert(is_field_char(line@[k as int]));
                    }
                }
            }
        }
        return None;
    }
    let mut e: usize = k + 1;
    while e < n && cs[e] == ' '
        invariant
            cs@ == line@,
            n == cs.len(),
            k + 1 <= e <= n,
            forall|j: int| k + 1 <= j < e ==> #[trigger] cs@[j] == ' ',
        decreases n - e,
    {
        e = e + 1;
    }
    let mut j: usize = e;
    let mut ok = e > k + 1;
    while ok && j < n
        invariant
            cs@ == line@,
            n == cs.len(),
            e <= j <= n,
            ok ==> e > k + 1,
            ok ==> forall|q: int| e <= q < j ==> #[trigger] cs@[q] != '\n',
            !ok ==> e == k + 1 || (j < n && cs@[j as int] == '\n'),
        decreases n - j + (if ok {
            1int
        } else {
            0
        }),
    {
        if cs[j] == '\n' {
            ok = false;
        } else {
            j = j + 1;
        }
    }
    let m: usize = e - k - 1;
    if ok {
        assert(header_line_at(line@, k as int, m as int));
        proof {
            let (k2, m2) = choose|k2: int, m2: int| header_line_at(line@, k2, m2);
            lemma_header_line_unique(line@, k as int, m as int, k2, m2);
        }
        let f = line.substring_char(0, k);
        let v = line.substring_char(e, n);
        assert(f@ =~= line@.take(k as int));
        assert(v@ =~= line@.skip(k + 1 + m));
        Some((f, v))
    } else {
        proof {
            assert forall|k2: int, m2: int| !header_line_at(line@, k2, m2) by {
                if header_line_at(line@, k2, m2) {
                    if k2 < k {
                        assert(is_field_char(cs@[k2]));
                    }
                    if k2 > k {
                        assert(is_field_char(line@[k as int]));
                    }
                    if m2 < m {
                        assert(line@[k2 + 1 + m2] == ' ');
                    }
                    if m2 > m && e < n {
                        assert(line@[e as int] == ' ');
                    }
                    if m2 == m && e > k + 1 {
                        assert(line@[j as int] != '\n');
                    }
                }
            }
        }
        None
    }
}

} // verus!
