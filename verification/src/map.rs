//! The headers of a message, keyed by field name: at most one header of each
//! kind, and a later header of a kind replaces an earlier one.
use vstd::prelude::*;
use crate::header::{Header, HeaderKind, SpecHeader, kind_name, lemma_kind_name_injective};
use crate::text::str_eq;

verus! {

/// No two headers in `hs` are of the same kind.
pub open spec fn distinct_kinds(hs: Seq<SpecHeader>) -> bool {
    forall|i: int, j: int|
        0 <= i < hs.len() && 0 <= j < hs.len() && i != j ==> (#[trigger] hs[i]).kind != (
        #[trigger] hs[j]).kind
}

/// The header in `hs` whose field name is `name`, the first if there are
/// several.
pub open spec fn lookup(hs: Seq<SpecHeader>, name: Seq<char>) -> Option<SpecHeader>
    decreases hs.len(),
{
    if hs.len() == 0 {
        None
    } else if kind_name(hs[0].kind) == name {
        Some(hs[0])
    } else {
        lookup(hs.drop_first(), name)
    }
}

/// Where a header of kind `k` stands in `hs`, the first if there are several.
pub open spec fn index_of_kind(hs: Seq<SpecHeader>, k: HeaderKind) -> Option<int>
    decreases hs.len(),
{
    if hs.len() == 0 {
        None
    } else if hs[0].kind == k {
        Some(0)
    } else {
        match index_of_kind(hs.drop_first(), k) {
            Some(i) => Some(i + 1),
            None => None,
        }
    }
}

/// `hs` with `h` put in: in place of the header of its kind, or at the end.
pub open spec fn insert_header(hs: Seq<SpecHeader>, h: SpecHeader) -> Seq<SpecHeader> {
    match index_of_kind(hs, h.kind) {
        Some(i) => hs.update(i, h),
        None => hs.push(h),
    }
}

/// The map made by putting the headers of `hs` in one after another, as
/// collecting keyed pairs into a map does.
pub open spec fn collect_headers(hs: Seq<SpecHeader>) -> Seq<SpecHeader>
    decreases hs.len(),
{
    if hs.len() == 0 {
        Seq::empty()
    } else {
        insert_header(collect_headers(hs.drop_last()), hs.last())
    }
}

pub proof fn lemma_index_of_kind(hs: Seq<SpecHeader>, k: HeaderKind)
    ensures
        match index_of_kind(hs, k) {
            Some(i) => 0 <= i < hs.len() && hs[i].kind == k && forall|j: int|
                0 <= j < i ==> (#[trigger] hs[j]).kind != k,
            None => forall|j: int| 0 <= j < hs.len() ==> (#[trigger] hs[j]).kind != k,
        },
    decreases hs.len(),
{
    if hs.len() > 0 {
        lemma_index_of_kind(hs.drop_first(), k);
        if hs[0].kind != k {
            assert forall|j: int| 1 <= j < hs.len() implies hs[j] == hs.drop_first()[j - 1] by {}
        }
    }
}

/// Putting a header in keeps the kinds distinct.
pub proof fn lemma_insert_distinct(hs: Seq<SpecHeader>, h: SpecHeader)
    requires
        distinct_kinds(hs),
    ensures
        distinct_kinds(insert_header(hs, h)),
        lookup(insert_header(hs, h), kind_name(h.kind)) is Some,
{
    lemma_index_of_kind(hs, h.kind);
    lemma_lookup_kind(insert_header(hs, h), h.kind);
    match index_of_kind(hs, h.kind) {
        Some(i) => {
            assert(insert_header(hs, h)[i] == h);
        },
        None => {
            assert(insert_header(hs, h)[hs.len() as int] == h);
        },
    }
}

/// A collected map has distinct kinds.
pub proof fn lemma_collect_distinct(hs: Seq<SpecHeader>)
    ensures
        distinct_kinds(collect_headers(hs)),
    decreases hs.len(),
{
    if hs.len() > 0 {
        lemma_collect_distinct(hs.drop_last());
        lemma_insert_distinct(collect_headers(hs.drop_last()), hs.last());
    }
}

/// Looking up the name of kind `k` finds the first header of kind `k`.
pub proof fn lemma_lookup_kind(hs: Seq<SpecHeader>, k: HeaderKind)
    ensures
        match lookup(hs, kind_name(k)) {
            Some(h) => h.kind == k && exists|i: int| 0 <= i < hs.len() && hs[i] == h,
            None => forall|i: int| 0 <= i < hs.len() ==> (#[trigger] hs[i]).kind != k,
        },
    decreases hs.len(),
{
    if hs.len() > 0 {
        lemma_kind_name_injective(hs[0].kind, k);
        lemma_lookup_kind(hs.drop_first(), k);
        if kind_name(hs[0].kind) != kind_name(k) {
            assert forall|i: int| 1 <= i < hs.len() implies hs[i] == hs.drop_first()[i - 1] by {}
            match lookup(hs.drop_first(), kind_name(k)) {
                Some(h) => {
                    let i = choose|i: int| 0 <= i < hs.drop_first().len() && hs.drop_first()[i] == h;
                    assert(hs[i + 1] == h);
                },
                None => {},
            }
        }
    }
}

/// The headers of a message.
#[derive(Debug)]
pub struct HeaderMap {
    entries: Vec<Header>,
}

/// The views of a sequence of headers.
pub open spec fn header_views(hs: Seq<Header>) -> Seq<SpecHeader> {
    hs.map_values(|h: Header| h@)
}

impl View for HeaderMap {
    type V = Seq<SpecHeader>;

    closed spec fn view(&self) -> Seq<SpecHeader> {
        header_views(self.entries@)
    }
}

impl HeaderMap {
    #[verifier::type_invariant]
    closed spec fn inv(self) -> bool {
        distinct_kinds(header_views(self.entries@))
    }

    /// A map with no headers.
    pub fn new() -> (m: Self)
        ensures
            m@ == Seq::<SpecHeader>::empty(),
    {
        let m = HeaderMap { entries: Vec::new() };
        assert(m@ =~= Seq::<SpecHeader>::empty());
        m
    }

    /// A map holding `h` alone.
    pub fn from_header(h: Header) -> (m: Self)
        ensures
            m@ == seq![h@],
    {
        let mut entries = Vec::new();
        entries.push(h);
        assert(header_views(entries@) =~= seq![h@]);
        HeaderMap { entries }
    }

    /// Puts `h` in, in place of the header of its kind if there is one.
    pub fn insert(&mut self, h: Header)
        ensures
            final(self)@ == insert_header(old(self)@, h@),
            distinct_kinds(final(self)@),
    {
        proof {
            use_type_invariant(&*self);
            lemma_index_of_kind(self@, h@.kind);
            lemma_insert_distinct(self@, h@);
        }
        let k = h.kind();
        let mut i: usize = 0;
        while i < self.entries.len()
            invariant
                self@ == old(self)@,
                k == h@.kind,
                match index_of_kind(old(self)@, k) {
                    Some(q) => 0 <= q < old(self)@.len() && old(self)@[q].kind == k && forall|j: int|
                        0 <= j < q ==> (#[trigger] old(self)@[j]).kind != k,
                    None => forall|j: int|
                        0 <= j < old(self)@.len() ==> (#[trigger] old(self)@[j]).kind != k,
                },
                distinct_kinds(insert_header(old(self)@, h@)),
                i <= self.entries.len(),
                forall|j: int| 0 <= j < i ==> (#[trigger] header_views(self.entries@)[j]).kind != k,
            decreases self.entries.len() - i,
        {
            if self.entries[i].kind() == k {
                proof {
                    assert(header_views(self.entries@)[i as int].kind == k);
                    match index_of_kind(old(self)@, k) {
                        Some(q) => {
                            if q < i {
                                assert(header_views(self.entries@)[q].kind != k);
                            }
                            if q > i {
                                assert(old(self)@[i as int].kind == k);
                            }
                        },
                        None => {
                            assert(old(self)@[i as int].kind == k);
                        },
                    }
                }
                assert(index_of_kind(self@, k) == Some(i as int));
                let ghost hv = h@;
                let mut entries = Vec::new();
                std::mem::swap(&mut entries, &mut self.entries);
                entries.set(i, h);
                assert(header_views(entries@) =~= insert_header(old(self)@, hv));
                self.entries = entries;
                return;
            }
            i = i + 1;
        }
        assert(index_of_kind(self@, k) is None);
        let ghost hv = h@;
        let mut entries = Vec::new();
        std::mem::swap(&mut entries, &mut self.entries);
        entries.push(h);
        assert(header_views(entries@) =~= insert_header(old(self)@, hv));
        self.entries = entries;
    }

    /// The header whose field name is `key`.
    pub fn get(&self, key: &str) -> (r: Option<&Header>)
        ensures
            match r {
                Some(h) => lookup(self@, key@) == Some(h@),
                None => lookup(self@, key@) is None,
            },
            distinct_kinds(self@),
    {
        proof {
            use_type_invariant(self);
        }
        let ghost hs = self@;
        assert(hs.skip(0) =~= hs);
        let mut i: usize = 0;
        while i < self.entries.len()
            invariant
                hs == header_views(self.entries@),
                hs == self@,
                distinct_kinds(hs),
                i <= self.entries.len(),
                lookup(hs, key@) == lookup(hs.skip(i as int), key@),
            decreases self.entries.len() - i,
        {
            let name = self.entries[i].get_kind();
            assert(hs.skip(i as int)[0] == hs[i as int]);
            assert(hs.skip(i as int).drop_first() =~= hs.skip(i + 1));
            if str_eq(name.as_str(), key) {
                return Some(&self.entries[i]);
            }
            i = i + 1;
        }
        None
    }

    /// Whether a header has the field name `key`.
    pub fn contains_key(&self, key: &str) -> (r: bool)
        ensures
            r == (lookup(self@, key@) is Some),
    {
        self.get(key).is_some()
    }

    /// The number of headers.
    pub fn len(&self) -> (n: usize)
        ensures
            n == self@.len(),
    {
        self.entries.len()
    }

    /// The headers, in the order the map keeps them.
    pub fn values(&self) -> (hs: &[Header])
        ensures
            header_views(hs@) == self@,
            distinct_kinds(self@),
    {
        proof {
            use_type_invariant(self);
        }
        self.entries.as_slice()
    }
}

} // verus!
