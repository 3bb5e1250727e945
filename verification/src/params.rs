//! Parameter strings and the maps they parse to.
//!
//! A parameter string is a `&`-separated list of `key=value` pairs, as it
//! appears both in a query string (`a=1&b=2`) and in a form-encoded body.
//! Parsing follows mapping semantics: a pair is split on `=` into at
//! most two tokens, so a pair without `=` gets the empty value and a pair
//! with several `=` keeps everything after the first one as its value;
//! when a key repeats, the last occurrence wins.

use vstd::prelude::*;
use vstd::string::StrSliceExecFns;

verus! {

/// Index of the first occurrence of `c` in `s`, or `-1` when `c` does not occur.
pub open spec fn first_ix(s: Seq<char>, c: char) -> int
    decreases s.len(),
{
    if s.len() == 0 {
        -1
    } else if s[0] == c {
        0
    } else if first_ix(s.drop_first(), c) < 0 {
        -1
    } else {
        1 + first_ix(s.drop_first(), c)
    }
}

/// `first_ix` points at the first occurrence: the character there is `c`,
/// nothing before it is, and `-1` means `c` occurs nowhere in `s`.
pub proof fn lemma_first_ix(s: Seq<char>, c: char)
    ensures
        first_ix(s, c) < 0 ==> forall|j: int| 0 <= j < s.len() ==> s[j] != c,
        first_ix(s, c) >= 0 ==> first_ix(s, c) < s.len() && s[first_ix(s, c)] == c,
        first_ix(s, c) >= 0 ==> forall|j: int| 0 <= j < first_ix(s, c) ==> s[j] != c,
    decreases s.len(),
{
    if s.len() == 0 {
    } else if s[0] == c {
    } else {
        lemma_first_ix(s.drop_first(), c);
        assert(forall|j: int| 1 <= j < s.len() ==> s[j] == s.drop_first()[j - 1]);
    }
}

/// An index with the properties of `lemma_first_ix` can only be `first_ix` itself.
pub proof fn lemma_first_ix_unique(s: Seq<char>, c: char, i: int)
    requires
        0 <= i < s.len(),
        s[i] == c,
        forall|j: int| 0 <= j < i ==> s[j] != c,
    ensures
        first_ix(s, c) == i,
{
    lemma_first_ix(s, c);
}

/// The part of `s` strictly before the first occurrence of `c`;
/// all of `s` when `c` does not occur.
pub open spec fn before_first(s: Seq<char>, c: char) -> Seq<char> {
    if first_ix(s, c) < 0 {
        s
    } else {
        s.take(first_ix(s, c))
    }
}

/// The part of `s` strictly after the first occurrence of `c`;
/// empty when `c` does not occur.
pub open spec fn after_first(s: Seq<char>, c: char) -> Seq<char> {
    if first_ix(s, c) < 0 {
        Seq::empty()
    } else {
        s.skip(first_ix(s, c) + 1)
    }
}

/// Finds the first occurrence of `c` in `s`, scanning left to right.
pub fn find_char(s: &str, c: char) -> (r: Option<usize>)
    ensures
        r matches Some(i) ==> first_ix(s@, c) == i as int,
        r is None ==> first_ix(s@, c) == -1,
{
    let len = s.unicode_len();
    let mut i: usize = 0;
    while i < len
        invariant
            i <= len,
            len == s@.len(),
            forall|j: int| 0 <= j < i ==> s@[j] != c,
        decreases len - i,
    {
        if s.get_char(i) == c {
            proof {
                lemma_first_ix_unique(s@, c, i as int);
            }
            return Some(i);
        }
        i += 1;
    }
    proof {
        lemma_first_ix(s@, c);
    }
    None
}

/// The part of `s` strictly before the first occurrence of `c`.
pub fn before_first_str<'a>(s: &'a str, c: char) -> (r: &'a str)
    ensures
        r@ == before_first(s@, c),
{
    match find_char(s, c) {
        Some(i) => {
            proof {
                lemma_first_ix(s@, c);
            }
            let r = s.substring_char(0, i);
            proof {
                assert(r@ =~= before_first(s@, c));
            }
            r
        },
        None => s,
    }
}

/// The part of `s` strictly after the first occurrence of `c`.
pub fn after_first_str<'a>(s: &'a str, c: char) -> (r: &'a str)
    ensures
        r@ == after_first(s@, c),
{
    match find_char(s, c) {
        Some(i) => {
            proof {
                lemma_first_ix(s@, c);
            }
            let n = s.unicode_len();
            let r = s.substring_char(i + 1, n);
            proof {
                assert(r@ =~= after_first(s@, c));
            }
            r
        },
        None => {
            proof {
                reveal_strlit("");
                assert(""@ =~= after_first(s@, c));
            }
            ""
        },
    }
}

/// Compares two string slices character by character.
pub fn str_eq(a: &str, b: &str) -> (r: bool)
    ensures
        r <==> a@ == b@,
{
    let na = a.unicode_len();
    let nb = b.unicode_len();
    if na != nb {
        return false;
    }
    let mut i: usize = 0;
    while i < na
        invariant
            i <= na,
            na == a@.len(),
            nb == b@.len(),
            na == nb,
            forall|j: int| 0 <= j < i ==> a@[j] == b@[j],
        decreases na - i,
    {
        if a.get_char(i) != b.get_char(i) {
            return false;
        }
        i += 1;
    }
    proof {
        assert(a@ =~= b@);
    }
    true
}

/// The key of one `key=value` pair: everything before the first `=`,
/// or the whole pair when it has no `=`.
pub open spec fn pair_key(p: Seq<char>) -> Seq<char> {
    before_first(p, '=')
}

/// The value of one `key=value` pair: everything after the first `=`;
/// the empty string when the pair has no `=`.
pub open spec fn pair_value(p: Seq<char>) -> Seq<char> {
    after_first(p, '=')
}

/// The mapping parsed from a non-empty parameter string: pairs split on
/// `&`, later occurrences of a key overriding earlier ones.
pub open spec fn pairs_of(s: Seq<char>) -> Map<Seq<char>, Seq<char>>
    decreases s.len(),
    via pairs_of_decreases
{
    let amp = first_ix(s, '&');
    if amp < 0 {
        map![pair_key(s) => pair_value(s)]
    } else {
        map![pair_key(s.take(amp)) => pair_value(s.take(amp))].union_prefer_right(
            pairs_of(s.skip(amp + 1)),
        )
    }
}

#[via_fn]
proof fn pairs_of_decreases(s: Seq<char>) {
    lemma_first_ix(s, '&');
}

/// The mapping parsed from a parameter string: the empty string yields
/// the empty mapping, anything else is split into pairs.
pub open spec fn params_of(s: Seq<char>) -> Map<Seq<char>, Seq<char>> {
    if s.len() == 0 {
        Map::empty()
    } else {
        pairs_of(s)
    }
}

/// The mapping held by a list of entries, later entries overriding earlier ones.
spec fn entries_map(s: Seq<(String, String)>) -> Map<Seq<char>, Seq<char>>
    decreases s.len(),
{
    if s.len() == 0 {
        Map::empty()
    } else {
        map![s[0].0@ => s[0].1@].union_prefer_right(entries_map(s.drop_first()))
    }
}

/// `entries_map` binds exactly the keys that occur in the entry list.
proof fn lemma_entries_map_dom(s: Seq<(String, String)>, k: Seq<char>)
    ensures
        entries_map(s).contains_key(k) <==> exists|i: int| 0 <= i < s.len() && s[i].0@ == k,
    decreases s.len(),
{
    if s.len() > 0 {
        lemma_entries_map_dom(s.drop_first(), k);
        if s[0].0@ == k {
            assert(entries_map(s).contains_key(k));
        } else if exists|i: int| 0 <= i < s.len() && s[i].0@ == k {
            let i = choose|i: int| 0 <= i < s.len() && s[i].0@ == k;
            assert(s.drop_first()[i - 1].0@ == k);
        }
    }
}

/// When no later entry shares the key of entry `i`, `entries_map` binds
/// that key to that entry's value.
proof fn lemma_entries_map_at(s: Seq<(String, String)>, i: int)
    requires
        0 <= i < s.len(),
        forall|j: int| i < j < s.len() ==> s[j].0@ != s[i].0@,
    ensures
        entries_map(s).contains_key(s[i].0@),
        entries_map(s)[s[i].0@] == s[i].1@,
    decreases s.len(),
{
    lemma_entries_map_dom(s, s[i].0@);
    if i == 0 {
        lemma_entries_map_dom(s.drop_first(), s[0].0@);
        if entries_map(s.drop_first()).contains_key(s[0].0@) {
            let j = choose|j: int|
                0 <= j < s.drop_first().len() && s.drop_first()[j].0@ == s[0].0@;
            assert(s[j + 1].0@ == s[0].0@);
            assert(false);
        }
    } else {
        assert(forall|j: int| i - 1 < j < s.drop_first().len()
            ==> #[trigger] s.drop_first()[j].0@ != s.drop_first()[i - 1].0@);
        lemma_entries_map_at(s.drop_first(), i - 1);
    }
}

/// Appending an entry updates the mapping at its key.
proof fn lemma_entries_map_push(s: Seq<(String, String)>, k: String, v: String)
    ensures
        entries_map(s.push((k, v))) =~= entries_map(s).insert(k@, v@),
    decreases s.len(),
{
    if s.len() == 0 {
        assert(s.push((k, v))[0] == (k, v));
        assert(s.push((k, v)).drop_first() =~= Seq::<(String, String)>::empty());
        assert(entries_map(Seq::<(String, String)>::empty()) == Map::<Seq<char>, Seq<char>>::empty());
        assert(entries_map(s.push((k, v))) =~= entries_map(s).insert(k@, v@));
    } else {
        lemma_entries_map_push(s.drop_first(), k, v);
        assert(s.push((k, v)).drop_first() =~= s.drop_first().push((k, v)));
        assert(s.push((k, v))[0] == s[0]);
        assert(entries_map(s.push((k, v))) == map![s[0].0@ => s[0].1@].union_prefer_right(
            entries_map(s.drop_first()).insert(k@, v@),
        ));
        assert(entries_map(s) == map![s[0].0@ => s[0].1@].union_prefer_right(
            entries_map(s.drop_first()),
        ));
        assert(entries_map(s.push((k, v))) =~= entries_map(s).insert(k@, v@));
    }
}

/// Replacing the value of entry `i` updates the mapping at its key,
/// provided no later entry shares that key.
proof fn lemma_entries_map_update(s: Seq<(String, String)>, i: int, v: String)
    requires
        0 <= i < s.len(),
        forall|j: int| i < j < s.len() ==> s[j].0@ != s[i].0@,
    ensures
        entries_map(s.update(i, (s[i].0, v))) =~= entries_map(s).insert(s[i].0@, v@),
    decreases s.len(),
{
    lemma_entries_map_dom(s, s[i].0@);
    if i == 0 {
        assert(s.update(0, (s[0].0, v)).drop_first() =~= s.drop_first());
        lemma_entries_map_dom(s.drop_first(), s[0].0@);
        if entries_map(s.drop_first()).contains_key(s[0].0@) {
            let j = choose|j: int|
                0 <= j < s.drop_first().len() && s.drop_first()[j].0@ == s[0].0@;
            assert(s[j + 1].0@ == s[0].0@);
            assert(false);
        }
    } else {
        assert(forall|j: int| i - 1 < j < s.drop_first().len()
            ==> #[trigger] s.drop_first()[j].0@ != s.drop_first()[i - 1].0@);
        lemma_entries_map_update(s.drop_first(), i - 1, v);
        assert(s.update(i, (s[i].0, v)).drop_first() =~= s.drop_first().update(
            i - 1,
            (s.drop_first()[i - 1].0, v),
        ));
        assert(s.update(i, (s[i].0, v))[0] == s[0]);
    }
}

/// A unique key contributes one element to the mapping's domain.
proof fn lemma_entries_map_len(s: Seq<(String, String)>)
    requires
        forall|i: int, j: int| 0 <= i < j < s.len() ==> s[i].0@ != s[j].0@,
    ensures
        entries_map(s).dom().finite(),
        entries_map(s).dom().len() == s.len(),
    decreases s.len(),
{
    if s.len() > 0 {
        assert(forall|i: int, j: int| 0 <= i < j < s.drop_first().len()
            ==> s.drop_first()[i].0@ != s.drop_first()[j].0@);
        lemma_entries_map_len(s.drop_first());
        lemma_entries_map_dom(s.drop_first(), s[0].0@);
        if entries_map(s.drop_first()).contains_key(s[0].0@) {
            let j = choose|j: int|
                0 <= j < s.drop_first().len() && s.drop_first()[j].0@ == s[0].0@;
            assert(s[j + 1].0@ == s[0].0@);
            assert(false);
        }
        assert(entries_map(s).dom() =~= entries_map(s.drop_first()).dom().insert(s[0].0@));
    } else {
        assert(entries_map(s).dom() =~= Set::<Seq<char>>::empty());
    }
}

/// A string-to-string mapping with unique keys, the shape shared by query
/// parameters and post parameters.
pub struct ParamMap {
    entries: Vec<(String, String)>,
}

impl View for ParamMap {
    type V = Map<Seq<char>, Seq<char>>;

    closed spec fn view(&self) -> Map<Seq<char>, Seq<char>> {
        entries_map(self.entries@)
    }
}

impl ParamMap {
    /// Each key occurs in at most one entry.
    pub closed spec fn wf(&self) -> bool {
        forall|i: int, j: int| 0 <= i < j < self.entries@.len()
            ==> self.entries@[i].0@ != self.entries@[j].0@
    }

    /// An empty mapping.
    pub fn new() -> (r: ParamMap)
        ensures
            r.wf(),
            r@ == Map::<Seq<char>, Seq<char>>::empty(),
    {
        let r = ParamMap { entries: Vec::new() };
        proof {
            assert(r@ =~= Map::<Seq<char>, Seq<char>>::empty());
        }
        r
    }

    /// Binds `key` to `value`; an existing binding of `key` is replaced.
    pub fn insert(&mut self, key: String, value: String)
        requires
            old(self).wf(),
        ensures
            final(self).wf(),
            final(self)@ == old(self)@.insert(key@, value@),
    {
        let n = self.entries.len();
        let mut i: usize = 0;
        while i < n
            invariant
                i <= n,
                n == self.entries@.len(),
                self.wf(),
                self == old(self),
                forall|j: int| 0 <= j < i ==> self.entries@[j].0@ != key@,
            decreases n - i,
        {
            if str_eq(self.entries[i].0.as_str(), key.as_str()) {
                proof {
                    lemma_entries_map_update(self.entries@, i as int, value);
                }
                self.entries[i].1 = value;
                proof {
                    assert(self.entries@ =~= old(self).entries@.update(
                        i as int,
                        (old(self).entries@[i as int].0, value),
                    ));
                }
                return ;
            }
            i += 1;
        }
        proof {
            lemma_entries_map_push(self.entries@, key, value);
        }
        self.entries.push((key, value));
    }

    /// Looks `key` up in the mapping.
    pub fn get<'a>(&'a self, key: &str) -> (r: Option<&'a String>)
        requires
            self.wf(),
        ensures
            match r {
                Some(v) => self@.contains_key(key@) && v@ == self@[key@],
                None => !self@.contains_key(key@),
            },
    {
        let n = self.entries.len();
        let mut i: usize = 0;
        while i < n
            invariant
                i <= n,
                n == self.entries@.len(),
                self.wf(),
                forall|j: int| 0 <= j < i ==> self.entries@[j].0@ != key@,
            decreases n - i,
        {
            if str_eq(self.entries[i].0.as_str(), key) {
                proof {
                    lemma_entries_map_at(self.entries@, i as int);
                }
                return Some(&self.entries[i].1);
            }
            i += 1;
        }
        proof {
            lemma_entries_map_dom(self.entries@, key@);
        }
        None
    }

    /// The number of keys the mapping binds.
    pub fn len(&self) -> (r: usize)
        requires
            self.wf(),
        ensures
            r == self@.dom().len(),
            self@.dom().finite(),
    {
        proof {
            lemma_entries_map_len(self.entries@);
        }
        self.entries.len()
    }

    /// Whether the mapping binds no key at all.
    pub fn is_empty(&self) -> (r: bool)
        requires
            self.wf(),
        ensures
            r <==> self@ == Map::<Seq<char>, Seq<char>>::empty(),
    {
        proof {
            lemma_entries_map_len(self.entries@);
            if self.entries@.len() == 0 {
                assert(self@ =~= Map::<Seq<char>, Seq<char>>::empty());
            } else {
                lemma_entries_map_dom(self.entries@, self.entries@[0].0@);
                assert(self@.contains_key(self.entries@[0].0@));
            }
        }
        self.entries.is_empty()
    }

    /// An independent copy of the mapping.
    pub fn duplicate(&self) -> (r: ParamMap)
        requires
            self.wf(),
        ensures
            r.wf(),
            r@ == self@,
    {
        let n = self.entries.len();
        let mut entries: Vec<(String, String)> = Vec::new();
        let mut i: usize = 0;
        while i < n
            invariant
                i <= n,
                n == self.entries@.len(),
                entries@.len() == i,
                forall|j: int| 0 <= j < i ==> entries@[j].0@ == self.entries@[j].0@
                    && entries@[j].1@ == self.entries@[j].1@,
            decreases n - i,
        {
            let k = self.entries[i].0.clone();
            let v = self.entries[i].1.clone();
            entries.push((k, v));
            i += 1;
        }
        let r = ParamMap { entries };
        proof {
            lemma_entries_map_congruent(r.entries@, self.entries@);
        }
        r
    }

    /// The entries of the mapping, one per key, for callers that walk it.
    pub fn pairs(&self) -> (r: &Vec<(String, String)>)
        requires
            self.wf(),
        ensures
            forall|i: int| 0 <= i < r@.len() ==> self@.contains_key(#[trigger] r@[i].0@)
                && self@[r@[i].0@] == r@[i].1@,
            forall|i: int, j: int| 0 <= i < j < r@.len() ==> r@[i].0@ != r@[j].0@,
            r@.len() == self@.dom().len(),
    {
        proof {
            lemma_entries_map_len(self.entries@);
            assert forall|i: int| 0 <= i < self.entries@.len() implies
                self@.contains_key(#[trigger] self.entries@[i].0@)
                    && self@[self.entries@[i].0@] == self.entries@[i].1@ by {
                lemma_entries_map_at(self.entries@, i);
            }
        }
        &self.entries
    }
}

/// Folding one binding into the accumulated map commutes with taking the
/// union afterwards.
proof fn lemma_fold_insert(
    acc: Map<Seq<char>, Seq<char>>,
    k: Seq<char>,
    v: Seq<char>,
    rest: Map<Seq<char>, Seq<char>>,
)
    ensures
        acc.union_prefer_right(map![k => v].union_prefer_right(rest))
            =~= acc.insert(k, v).union_prefer_right(rest),
{
}

/// Parses a parameter string: pairs split on `&`, each pair split on its
/// first `=` into key and value, a missing value read as empty, the last
/// occurrence of a key winning.  The empty string parses to the empty
/// mapping.
pub fn parse_parameters(s: &str) -> (r: ParamMap)
    ensures
        r.wf(),
        r@ == params_of(s@),
{
    let mut map = ParamMap::new();
    if s.unicode_len() == 0 {
        return map;
    }
    let mut rest: &str = s;
    loop
        invariant_except_break
            map.wf(),
            s@.len() > 0,
            pairs_of(s@) == map@.union_prefer_right(pairs_of(rest@)),
        ensures
            map.wf(),
            map@ == pairs_of(s@),
        decreases rest@.len(),
    {
        match find_char(rest, '&') {
            Some(a) => {
                proof {
                    lemma_first_ix(rest@, '&');
                }
                let head = rest.substring_char(0, a);
                proof {
                    assert(head@ =~= rest@.take(a as int));
                }
                let key = before_first_str(head, '=');
                let value = after_first_str(head, '=');
                proof {
                    lemma_fold_insert(map@, key@, value@, pairs_of(rest@.skip(a + 1)));
                }
                map.insert(key.to_owned(), value.to_owned());
                let n = rest.unicode_len();
                let next = rest.substring_char(a + 1, n);
                proof {
                    assert(next@ =~= rest@.skip(a + 1));
                }
                rest = next;
            },
            None => {
                let key = before_first_str(rest, '=');
                let value = after_first_str(rest, '=');
                map.insert(key.to_owned(), value.to_owned());
                proof {
                    assert(map@ =~= pairs_of(s@));
                }
                break ;
            },
        }
    }
    map
}

/// Entry lists equal key by key and value by value yield one mapping.
proof fn lemma_entries_map_congruent(a: Seq<(String, String)>, b: Seq<(String, String)>)
    requires
        a.len() == b.len(),
        forall|j: int| 0 <= j < a.len() ==> a[j].0@ == b[j].0@ && a[j].1@ == b[j].1@,
    ensures
        entries_map(a) =~= entries_map(b),
        (forall|i: int, j: int| 0 <= i < j < b.len() ==> b[i].0@ != b[j].0@) ==> (forall|
            i: int,
            j: int,
        | 0 <= i < j < a.len() ==> a[i].0@ != a[j].0@),
    decreases a.len(),
{
    if a.len() > 0 {
        assert(forall|j: int| 0 <= j < a.drop_first().len()
            ==> a.drop_first()[j].0@ == b.drop_first()[j].0@
            && a.drop_first()[j].1@ == b.drop_first()[j].1@);
        lemma_entries_map_congruent(a.drop_first(), b.drop_first());
    }
}

} // verus!

