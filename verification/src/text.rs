//! Character-level text operations on `str`, each with the meaning that
//! Rust's `str` gives the operation of the same name.
use vstd::prelude::*;

verus! {

/// The characters of `s`, in order.
pub fn chars_of(s: &str) -> (v: Vec<char>)
    ensures
        v@ == s@,
{
    let mut v: Vec<char> = Vec::new();
    for c in it: s.chars()
        invariant
            v@ == it.seq().take(it.index() as int),
    {
        v.push(c);
    }
    v
}

/// Appends one character to a string (`String::push`).
#[verifier::external_body]
pub(crate) fn push_char(s: &mut String, c: char)
    ensures
        final(s)@ == old(s)@.push(c),
{
    s.push(c);
}

/// Whether `a` and `b` hold the same characters.
pub fn str_eq(a: &str, b: &str) -> (r: bool)
    ensures
        r == (a@ == b@),
{
    let x = chars_of(a);
    let y = chars_of(b);
    if x.len() != y.len() {
        return false;
    }
    let mut i: usize = 0;
    while i < x.len()
        invariant
            x@ == a@,
            y@ == b@,
            x.len() == y.len(),
            i <= x.len(),
            forall|j: int| 0 <= j < i ==> x@[j] == y@[j],
        decreases x.len() - i,
    {
        if x[i] != y[i] {
            return false;
        }
        i = i + 1;
    }
    assert(x@ =~= y@);
    true
}

/// Unicode `White_Space`, the property that `char::is_whitespace` and
/// `str::trim` go by.
pub open spec fn is_white_space(c: char) -> bool {
    ||| ('\u{9}' <= c <= '\u{d}')
    ||| c == ' '
    ||| c == '\u{85}'
    ||| c == '\u{a0}'
    ||| c == '\u{1680}'
    ||| ('\u{2000}' <= c <= '\u{200a}')
    ||| c == '\u{2028}'
    ||| c == '\u{2029}'
    ||| c == '\u{202f}'
    ||| c == '\u{205f}'
    ||| c == '\u{3000}'
}

pub fn white_space(c: char) -> (r: bool)
    ensures
        r == is_white_space(c),
{
    ('\u{9}' <= c && c <= '\u{d}') || c == ' ' || c == '\u{85}' || c == '\u{a0}' || c
        == '\u{1680}' || ('\u{2000}' <= c && c <= '\u{200a}') || c == '\u{2028}' || c
        == '\u{2029}' || c == '\u{202f}' || c == '\u{205f}' || c == '\u{3000}'
}

/// `s` without its leading white space.
pub open spec fn trim_start(s: Seq<char>) -> Seq<char>
    decreases s.len(),
{
    if s.len() > 0 && is_white_space(s[0]) {
        trim_start(s.drop_first())
    } else {
        s
    }
}

/// `s` without its trailing white space.
pub open spec fn trim_end(s: Seq<char>) -> Seq<char>
    decreases s.len(),
{
    if s.len() > 0 && is_white_space(s.last()) {
        trim_end(s.drop_last())
    } else {
        s
    }
}

/// `s` without leading and trailing white space (`str::trim`).
pub open spec fn trim(s: Seq<char>) -> Seq<char> {
    trim_end(trim_start(s))
}

proof fn lemma_trim_start_skip(s: Seq<char>, i: int)
    requires
        0 <= i <= s.len(),
        forall|j: int| 0 <= j < i ==> is_white_space(#[trigger] s[j]),
    ensures
        trim_start(s) == trim_start(s.skip(i)),
    decreases i,
{
    if i > 0 {
        assert(s.skip(1) =~= s.drop_first());
        lemma_trim_start_skip(s.drop_first(), i - 1);
        assert(s.drop_first().skip(i - 1) =~= s.skip(i));
    } else {
        assert(s.skip(0) =~= s);
    }
}

proof fn lemma_trim_end_take(s: Seq<char>, k: int)
    requires
        0 <= k <= s.len(),
        forall|j: int| k <= j < s.len() ==> is_white_space(#[trigger] s[j]),
    ensures
        trim_end(s) == trim_end(s.take(k)),
    decreases s.len() - k,
{
    if k < s.len() {
        assert(s.take(s.len() - 1) =~= s.drop_last());
        lemma_trim_end_take(s.drop_last(), k);
        assert(s.drop_last().take(k) =~= s.take(k));
    } else {
        assert(s.take(k) =~= s);
    }
}

/// `s` without leading and trailing white space.
pub fn trim_str(s: &str) -> (r: &str)
    ensures
        r@ == trim(s@),
{
    let cs = chars_of(s);
    let n = cs.len();
    let mut i: usize = 0;
    while i < n && white_space(cs[i])
        invariant
            cs@ == s@,
            n == cs.len(),
            i <= n,
            forall|j: int| 0 <= j < i ==> is_white_space(#[trigger] cs@[j]),
        decreases n - i,
    {
        i = i + 1;
    }
    proof {
        lemma_trim_start_skip(s@, i as int);
    }
    let ghost t = s@.skip(i as int);
    let mut k: usize = n;
    while k > i && white_space(cs[k - 1])
        invariant
            cs@ == s@,
            n == cs.len(),
            i <= k <= n,
            t == s@.skip(i as int),
            forall|j: int| k <= j < n ==> is_white_space(#[trigger] cs@[j]),
        decreases k,
    {
        k = k - 1;
    }
    proof {
        assert(forall|j: int| k - i <= j < t.len() ==> t[j] == cs@[j + i]);
        lemma_trim_end_take(t, k - i);
        if i < n {
            assert(!is_white_space(t[0]));
        }
        assert(t.skip(0) =~= t);
        assert(trim_start(t) == t) by {
            if t.len() > 0 {
                assert(!is_white_space(t[0]));
            }
        }
        let u = t.take(k - i);
        if u.len() > 0 {
            assert(!is_white_space(u.last()));
        }
        assert(u =~= s@.subrange(i as int, k as int));
    }
    s.substring_char(i, k)
}

/// `sep` occurs in `s` at index `i`.
pub open spec fn occurs_at(s: Seq<char>, sep: Seq<char>, i: int) -> bool {
    0 <= i && i + sep.len() <= s.len() && s.subrange(i, i + sep.len()) == sep
}

/// `i` is where `sep` first occurs in `s`.
pub open spec fn first_occurrence(s: Seq<char>, sep: Seq<char>, i: int) -> bool {
    occurs_at(s, sep, i) && forall|j: int| 0 <= j < i ==> !occurs_at(s, sep, j)
}

/// `str::split_once`: the text before and after the first occurrence of
/// `sep`, if there is one.
pub open spec fn split_once(s: Seq<char>, sep: Seq<char>) -> Option<(Seq<char>, Seq<char>)> {
    if exists|i: int| occurs_at(s, sep, i) {
        let i = choose|i: int| first_occurrence(s, sep, i);
        Some((s.take(i), s.skip(i + sep.len())))
    } else {
        None
    }
}

/// `str::split` by a pattern string: the pieces between the successive
/// non-overlapping occurrences of `sep`, found from the left. An empty `sep`
/// occurs before every character and at the end.
pub open spec fn split(s: Seq<char>, sep: Seq<char>) -> Seq<Seq<char>>
    decreases s.len(),
{
    if sep.len() == 0 {
        seq![Seq::<char>::empty()] + Seq::new(s.len(), |i: int| seq![s[i]]) + seq![
            Seq::<char>::empty(),
        ]
    } else {
        match split_once(s, sep) {
            Some((a, b)) => {
                if b.len() < s.len() {
                    seq![a] + split(b, sep)
                } else {
                    seq![s]
                }
            },
            None => seq![s],
        }
    }
}

proof fn lemma_first_is_chosen(s: Seq<char>, sep: Seq<char>, i: int)
    requires
        first_occurrence(s, sep, i),
    ensures
        split_once(s, sep) == Some((s.take(i), s.skip(i + sep.len()))),
{
    let k = choose|k: int| first_occurrence(s, sep, k);
    assert(first_occurrence(s, sep, k));
    if k < i {
        assert(!occurs_at(s, sep, k));
    }
    if i < k {
        assert(!occurs_at(s, sep, i));
    }
}

/// Whether `sep` occurs in `cs` at `i`.
fn occurs_at_exec(cs: &Vec<char>, sep: &Vec<char>, i: usize) -> (r: bool)
    ensures
        r == occurs_at(cs@, sep@, i as int),
{
    if i > cs.len() || sep.len() > cs.len() - i {
        return false;
    }
    let mut j: usize = 0;
    while j < sep.len()
        invariant
            i + sep.len() <= cs.len(),
            j <= sep.len(),
            forall|m: int| 0 <= m < j ==> cs@[i + m] == sep@[m],
        decreases sep.len() - j,
    {
        if cs[i + j] != sep[j] {
            assert(cs@.subrange(i as int, i + sep.len())[j as int] != sep@[j as int]);
            return false;
        }
        j = j + 1;
    }
    assert(cs@.subrange(i as int, i + sep.len()) =~= sep@);
    true
}

/// The first index at or after `from` where `sep` occurs in `cs`.
fn find_from(cs: &Vec<char>, sep: &Vec<char>, from: usize) -> (r: Option<usize>)
    requires
        from <= cs.len(),
    ensures
        match r {
            Some(i) => from <= i && occurs_at(cs@, sep@, i as int) && forall|j: int|
                from <= j < i ==> !occurs_at(cs@, sep@, j),
            None => forall|j: int| from <= j ==> !occurs_at(cs@, sep@, j),
        },
{
    let mut i = from;
    loop
        invariant
            from <= i <= cs.len(),
            forall|j: int| from <= j < i ==> !occurs_at(cs@, sep@, j),
        decreases cs.len() - i,
    {
        if occurs_at_exec(cs, sep, i) {
            return Some(i);
        }
        if i == cs.len() {
            return None;
        }
        i = i + 1;
    }
}

/// `str::split_once(s, sep)`.
pub fn split_once_str<'a>(s: &'a str, sep: &str) -> (r: Option<(&'a str, &'a str)>)
    ensures
        match r {
            Some((a, b)) => split_once(s@, sep@) == Some((a@, b@)),
            None => split_once(s@, sep@) is None,
        },
{
    let cs = chars_of(s);
    let ps = chars_of(sep);
    match find_from(&cs, &ps, 0) {
        Some(i) => {
            proof {
                lemma_first_is_chosen(s@, sep@, i as int);
            }
            assert(occurs_at(cs@, ps@, i as int));
            assert(i + ps@.len() <= cs@.len());
            assert(cs@.len() == cs.len());
            let j = i + ps.len();
            let a = s.substring_char(0, i);
            let b = s.substring_char(j, cs.len());
            assert(a@ =~= s@.take(i as int));
            assert(b@ =~= s@.skip(i + sep@.len()));
            Some((a, b))
        },
        None => None,
    }
}

proof fn lemma_occurs_shift(s: Seq<char>, sep: Seq<char>, k: int, j: int)
    requires
        0 <= k <= s.len(),
        0 <= j,
    ensures
        occurs_at(s.skip(k), sep, j) == occurs_at(s, sep, j + k),
{
    if occurs_at(s, sep, j + k) {
        assert(s.skip(k).subrange(j, j + sep.len()) =~= s.subrange(j + k, j + k + sep.len()));
    }
    if occurs_at(s.skip(k), sep, j) {
        assert(s.skip(k).subrange(j, j + sep.len()) =~= s.subrange(j + k, j + k + sep.len()));
    }
}

/// `str::split(s, sep)`, collected.
pub fn split_str<'a>(s: &'a str, sep: &str) -> (r: Vec<&'a str>)
    ensures
        r@.len() == split(s@, sep@).len(),
        forall|i: int| 0 <= i < r@.len() ==> #[trigger] r@[i]@ == split(s@, sep@)[i],
{
    let cs = chars_of(s);
    let ps = chars_of(sep);
    let n = cs.len();
    let mut r: Vec<&'a str> = Vec::new();
    if ps.len() == 0 {
        let first = s.substring_char(0, 0);
        assert(first@ =~= Seq::<char>::empty());
        r.push(first);
        let mut i: usize = 0;
        while i < n
            invariant
                cs@ == s@,
                n == cs.len(),
                ps@ == sep@,
                sep@.len() == 0,
                i <= n,
                r@.len() == i + 1,
                forall|m: int|
                    0 <= m < r@.len() ==> #[trigger] r@[m]@ == split(s@, sep@)[m],
            decreases n - i,
        {
            let piece = s.substring_char(i, i + 1);
            assert(piece@ =~= seq![s@[i as int]]);
            r.push(piece);
            i = i + 1;
        }
        let last = s.substring_char(n, n);
        assert(last@ =~= Seq::<char>::empty());
        r.push(last);
        assert(r@.len() == split(s@, sep@).len());
        assert(r@[n as int + 1]@ == split(s@, sep@)[n as int + 1]);
        return r;
    }
    let mut start: usize = 0;
    assert(s@.skip(0) =~= s@);
    loop
        invariant
            cs@ == s@,
            n == cs.len(),
            ps@ == sep@,
            sep@.len() > 0,
            start <= n,
            r@.len() + split(s@.skip(start as int), sep@).len() == split(s@, sep@).len(),
            forall|m: int| 0 <= m < r@.len() ==> #[trigger] r@[m]@ == split(s@, sep@)[m],
            forall|m: int|
                0 <= m < split(s@.skip(start as int), sep@).len() ==> split(s@, sep@)[r@.len()
                    + m] == #[trigger] split(s@.skip(start as int), sep@)[m],
        decreases n - start,
    {
        let ghost t = s@.skip(start as int);
        match find_from(&cs, &ps, start) {
            Some(i) => {
                proof {
                    assert forall|j: int| 0 <= j < i - start implies !occurs_at(t, sep@, j) by {
                        lemma_occurs_shift(s@, sep@, start as int, j);
                    }
                    lemma_occurs_shift(s@, sep@, start as int, i - start);
                    lemma_first_is_chosen(t, sep@, i - start);
                    assert(t.skip(i - start + sep@.len()) =~= s@.skip(i + sep@.len()));
                    assert(t.take(i - start) =~= s@.subrange(start as int, i as int));
                }
                let ghost a = t.take(i - start);
                let ghost b = t.skip(i - start + sep@.len());
                assert(split(t, sep@) == seq![a] + split(b, sep@));
                assert(split(t, sep@)[0] == a);
                assert(split(s@, sep@)[r@.len() as int] == split(t, sep@)[0]);
                let piece = s.substring_char(start, i);
                r.push(piece);
                assert forall|m: int| 0 <= m < split(b, sep@).len() implies split(s@, sep@)[r@.len()
                    + m] == #[trigger] split(b, sep@)[m] by {
                    assert(split(t, sep@)[1 + m] == split(b, sep@)[m]);
                }
                start = i + ps.len();
            },
            None => {
                proof {
                    assert forall|j: int| occurs_at(t, sep@, j) implies false by {
                        if j >= 0 {
                            lemma_occurs_shift(s@, sep@, start as int, j);
                        }
                    }
                    assert(t =~= s@.subrange(start as int, n as int));
                    assert(split(t, sep@) == seq![t]);
                    assert(split(s@, sep@)[r@.len() as int] == split(t, sep@)[0]);
                }
                let piece = s.substring_char(start, n);
                r.push(piece);
                return r;
            },
        }
    }
}

/// The ASCII digit that stands for `d`.
pub open spec fn digit_char(d: nat) -> char {
    if d == 0 {
        '0'
    } else if d == 1 {
        '1'
    } else if d == 2 {
        '2'
    } else if d == 3 {
        '3'
    } else if d == 4 {
        '4'
    } else if d == 5 {
        '5'
    } else if d == 6 {
        '6'
    } else if d == 7 {
        '7'
    } else if d == 8 {
        '8'
    } else {
        '9'
    }
}

/// The decimal digits of `n`, without leading zeros (how `Display` writes an
/// unsigned integer).
pub open spec fn decimal(n: nat) -> Seq<char>
    decreases n,
{
    if n < 10 {
        seq![digit_char(n)]
    } else {
        decimal(n / 10).push(digit_char(n % 10))
    }
}

fn digit_exec(d: u64) -> (c: char)
    requires
        d < 10,
    ensures
        c == digit_char(d as nat),
{
    if d == 0 {
        '0'
    } else if d == 1 {
        '1'
    } else if d == 2 {
        '2'
    } else if d == 3 {
        '3'
    } else if d == 4 {
        '4'
    } else if d == 5 {
        '5'
    } else if d == 6 {
        '6'
    } else if d == 7 {
        '7'
    } else if d == 8 {
        '8'
    } else {
        '9'
    }
}

/// The decimal text of `n`.
pub fn decimal_string(n: u64) -> (s: String)
    ensures
        s@ == decimal(n as nat),
    decreases n,
{
    if n < 10 {
        let mut s = String::new();
        push_char(&mut s, digit_exec(n));
        assert(s@ =~= seq![digit_char(n as nat)]);
        s
    } else {
        let mut s = decimal_string(n / 10);
        push_char(&mut s, digit_exec(n % 10));
        s
    }
}

/// Whether `c` is an ASCII digit.
pub open spec fn is_digit(c: char) -> bool {
    '0' <= c <= '9'
}

/// The value of an ASCII digit.
pub open spec fn digit_value(c: char) -> nat {
    (c as u32 - '0' as u32) as nat
}

/// The number that a run of decimal digits stands for.
pub open spec fn digits_value(d: Seq<char>) -> nat
    decreases d.len(),
{
    if d.len() == 0 {
        0
    } else {
        digits_value(d.drop_last()) * 10 + digit_value(d.last())
    }
}

/// The digits that `<usize as FromStr>::from_str` reads: one leading `+` is
/// dropped when more follows it.
pub open spec fn unsigned_digits(s: Seq<char>) -> Seq<char> {
    if s.len() >= 2 && s[0] == '+' {
        s.drop_first()
    } else {
        s
    }
}

/// `str::parse::<usize>`: `Some` exactly when `s` is a nonempty run of ASCII
/// digits, with at most one leading `+`, whose value fits in a `usize`.
pub open spec fn parse_usize(s: Seq<char>) -> Option<usize> {
    let d = unsigned_digits(s);
    if d.len() > 0 && (forall|i: int| 0 <= i < d.len() ==> is_digit(#[trigger] d[i]))
        && digits_value(d) <= usize::MAX {
        Some(digits_value(d) as usize)
    } else {
        None
    }
}

proof fn lemma_digits_value_prefix(d: Seq<char>, i: int)
    requires
        0 <= i <= d.len(),
    ensures
        digits_value(d.take(i)) <= digits_value(d),
    decreases d.len() - i,
{
    if i < d.len() {
        lemma_digits_value_prefix(d, i + 1);
        assert(d.take(i + 1).drop_last() =~= d.take(i));
    } else {
        assert(d.take(i) =~= d);
    }
}

/// Reads a `usize` the way `str::parse::<usize>` does.
pub fn parse_usize_str(s: &str) -> (r: Option<usize>)
    ensures
        r == parse_usize(s@),
{
    let cs = chars_of(s);
    let n = cs.len();
    let start: usize = if n >= 2 && cs[0] == '+' {
        1
    } else {
        0
    };
    let ghost d = unsigned_digits(s@);
    assert(d =~= s@.skip(start as int));
    if start == n {
        return None;
    }
    let mut v: usize = 0;
    let mut i: usize = start;
    while i < n
        invariant
            cs@ == s@,
            n == cs.len(),
            start <= i <= n,
            d == unsigned_digits(s@),
            d == s@.skip(start as int),
            forall|j: int| 0 <= j < i - start ==> is_digit(#[trigger] d[j]),
            v == digits_value(d.take(i - start)),
        decreases n - i,
    {
        let c = cs[i];
        if c < '0' || c > '9' {
            assert(!is_digit(d[i - start]));
            return None;
        }
        let dv: usize = ((c as u32) - ('0' as u32)) as usize;
        assert(d.take(i - start + 1).drop_last() =~= d.take(i - start));
        assert(d[i - start] == c);
        assert(digits_value(d.take(i - start + 1)) == v * 10 + dv);
        match v.checked_mul(10) {
            Some(m) => match m.checked_add(dv) {
                Some(w) => {
                    v = w;
                },
                None => {
                    proof {
                        lemma_digits_value_prefix(d, i - start + 1);
                    }
                    return None;
                },
            },
            None => {
                proof {
                    lemma_digits_value_prefix(d, i - start + 1);
                }
                return None;
            },
        }
        i = i + 1;
    }
    assert(d.take(n - start) =~= d);
    Some(v)
}

/// The pieces of `parts` with `sep` between each two (`[String]::join`).
pub open spec fn join(parts: Seq<Seq<char>>, sep: Seq<char>) -> Seq<char>
    decreases parts.len(),
{
    if parts.len() == 0 {
        Seq::empty()
    } else if parts.len() == 1 {
        parts[0]
    } else {
        join(parts.drop_last(), sep) + sep + parts.last()
    }
}

/// The views of a sequence of strings.
pub open spec fn views(v: Seq<String>) -> Seq<Seq<char>> {
    v.map_values(|s: String| s@)
}

/// `parts.join(sep)`.
pub fn join_strings(parts: &Vec<String>, sep: &str) -> (r: String)
    ensures
        r@ == join(views(parts@), sep@),
{
    let mut r = String::new();
    let ghost all = views(parts@);
    let mut i: usize = 0;
    while i < parts.len()
        invariant
            all == views(parts@),
            i <= parts.len(),
            r@ == join(all.take(i as int), sep@),
        decreases parts.len() - i,
    {
        assert(all.take(i + 1).drop_last() =~= all.take(i as int));
        if i > 0 {
            r.append(sep);
        } else {
            assert(r@ =~= Seq::<char>::empty());
        }
        r.append(parts[i].as_str());
        i = i + 1;
    }
    assert(all.take(parts.len() as int) =~= all);
    r
}


/// Where `sep` occurs in `s`, it occurs a first time.
pub proof fn lemma_first_occurrence_exists(s: Seq<char>, sep: Seq<char>, i: int)
    requires
        occurs_at(s, sep, i),
    ensures
        exists|k: int| first_occurrence(s, sep, k),
    decreases i,
{
    if exists|j: int| 0 <= j < i && occurs_at(s, sep, j) {
        let j = choose|j: int| 0 <= j < i && occurs_at(s, sep, j);
        lemma_first_occurrence_exists(s, sep, j);
    } else {
        assert(first_occurrence(s, sep, i));
    }
}

/// `split_once` splits around the first occurrence: the text is the part
/// before, the separator, and the part after.
pub proof fn lemma_split_once_parts(s: Seq<char>, sep: Seq<char>)
    ensures
        match split_once(s, sep) {
            Some((a, b)) => s == a + sep + b && exists|i: int|
                first_occurrence(s, sep, i) && a == s.take(i),
            None => forall|i: int| !occurs_at(s, sep, i),
        },
{
    if exists|i: int| occurs_at(s, sep, i) {
        let i0 = choose|i: int| occurs_at(s, sep, i);
        lemma_first_occurrence_exists(s, sep, i0);
        let i = choose|i: int| first_occurrence(s, sep, i);
        assert(s =~= s.take(i) + sep + s.skip(i + sep.len()));
    }
}

proof fn lemma_digit_char(k: nat)
    requires
        k < 10,
    ensures
        is_digit(digit_char(k)),
        digit_value(digit_char(k)) == k,
{
}

/// The decimal text of a number is a nonempty run of ASCII digits that
/// spells the number.
pub proof fn lemma_decimal_digits(n: nat)
    ensures
        decimal(n).len() > 0,
        forall|i: int| 0 <= i < decimal(n).len() ==> is_digit(#[trigger] decimal(n)[i]),
        digits_value(decimal(n)) == n,
    decreases n,
{
    lemma_digit_char(n % 10);
    if n >= 10 {
        lemma_decimal_digits(n / 10);
        let d = decimal(n / 10).push(digit_char(n % 10));
        assert(d.drop_last() =~= decimal(n / 10));
        assert(d.last() == digit_char(n % 10));
        assert(digits_value(d) == digits_value(decimal(n / 10)) * 10 + digit_value(digit_char(n % 10)));
        assert(n == (n / 10) * 10 + n % 10) by (nonlinear_arith);
        assert forall|i: int| 0 <= i < d.len() implies is_digit(#[trigger] d[i]) by {
            if i < d.len() - 1 {
                assert(d[i] == decimal(n / 10)[i]);
            }
        }
    } else {
        let d = seq![digit_char(n)];
        assert(d.drop_last() =~= Seq::<char>::empty());
        assert(digits_value(d) == digits_value(d.drop_last()) * 10 + digit_value(d.last()));
    }
}

/// Reading the decimal text of a `usize` gives the number back.
pub proof fn lemma_parse_decimal(n: usize)
    ensures
        parse_usize(decimal(n as nat)) == Some(n),
{
    lemma_decimal_digits(n as nat);
    let d = decimal(n as nat);
    assert(unsigned_digits(d) == d) by {
        if d.len() >= 2 {
            assert(is_digit(d[0]));
        }
    }
}

} // verus!
