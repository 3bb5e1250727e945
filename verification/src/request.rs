//! Decoding one request out of the raw text read from a connection.
//!
//! The text of a fixed-size read is stripped of its NUL padding; the part
//! up to the first CRLF is the request line, and the part after the last
//! CRLF stands in for the body.  The request line is tokenized on spaces:
//! the first token is the method and the second the path with an optional
//! `?query` tail.  A request line with fewer than two tokens is malformed
//! and produces no request at all.

use vstd::prelude::*;
use vstd::string::StrSliceExecFns;
use vstd::string::StringExecFns;

use crate::params::ParamMap;
use crate::params::after_first;
use crate::params::before_first;
use crate::params::find_char;
use crate::params::first_ix;
use crate::params::after_first_str;
use crate::params::before_first_str;
use crate::params::params_of;
use crate::params::parse_parameters;

verus! {

/// `s` with every NUL character removed.
pub open spec fn strip_nuls(s: Seq<char>) -> Seq<char>
    decreases s.len(),
{
    if s.len() == 0 {
        Seq::empty()
    } else if s.last() == '\u{0}' {
        strip_nuls(s.drop_last())
    } else {
        strip_nuls(s.drop_last()).push(s.last())
    }
}

/// Whether a CRLF pair starts at position `i` of `s`.
pub open spec fn crlf_at(s: Seq<char>, i: int) -> bool {
    0 <= i < s.len() - 1 && s[i] == '\r' && s[i + 1] == '\n'
}

/// Position of the first CRLF pair in `s`, or `-1` when there is none.
pub open spec fn crlf_first(s: Seq<char>) -> int
    decreases s.len(),
{
    if s.len() < 2 {
        -1
    } else if s[0] == '\r' && s[1] == '\n' {
        0
    } else if crlf_first(s.drop_first()) < 0 {
        -1
    } else {
        1 + crlf_first(s.drop_first())
    }
}

/// Position of the last CRLF pair in `s`, or `-1` when there is none.
pub open spec fn crlf_last(s: Seq<char>) -> int
    decreases s.len(),
{
    if s.len() < 2 {
        -1
    } else if s[s.len() - 2] == '\r' && s[s.len() - 1] == '\n' {
        s.len() - 2
    } else {
        crlf_last(s.drop_last())
    }
}

/// `crlf_first` points at the first CRLF pair, or `-1` when none occurs.
pub proof fn lemma_crlf_first(s: Seq<char>)
    ensures
        crlf_first(s) < 0 ==> forall|j: int| !crlf_at(s, j),
        crlf_first(s) >= 0 ==> crlf_at(s, crlf_first(s)),
        crlf_first(s) >= 0 ==> forall|j: int| 0 <= j < crlf_first(s) ==> !crlf_at(s, j),
    decreases s.len(),
{
    if s.len() < 2 {
    } else if s[0] == '\r' && s[1] == '\n' {
    } else {
        lemma_crlf_first(s.drop_first());
        assert(forall|j: int| 1 <= j < s.len() ==> s[j] == s.drop_first()[j - 1]);
        assert(forall|j: int| crlf_at(s, j) ==> j != 0 && crlf_at(s.drop_first(), j - 1));
    }
}

/// `crlf_last` points at the last CRLF pair, or `-1` when none occurs.
pub proof fn lemma_crlf_last(s: Seq<char>)
    ensures
        crlf_last(s) < 0 ==> forall|j: int| !crlf_at(s, j),
        crlf_last(s) >= 0 ==> crlf_at(s, crlf_last(s)),
        crlf_last(s) >= 0 ==> forall|j: int| crlf_last(s) < j ==> !crlf_at(s, j),
    decreases s.len(),
{
    if s.len() < 2 {
    } else if s[s.len() - 2] == '\r' && s[s.len() - 1] == '\n' {
    } else {
        lemma_crlf_last(s.drop_last());
        assert(forall|j: int| 0 <= j < s.len() - 1 ==> s[j] == s.drop_last()[j]);
        assert(forall|j: int| crlf_at(s, j) ==> j != s.len() - 2 && crlf_at(s.drop_last(), j));
    }
}

/// A position carrying the properties of the first CRLF pair is `crlf_first`.
pub proof fn lemma_crlf_first_unique(s: Seq<char>, i: int)
    requires
        crlf_at(s, i),
        forall|j: int| 0 <= j < i ==> !crlf_at(s, j),
    ensures
        crlf_first(s) == i,
{
    lemma_crlf_first(s);
}

/// A position carrying the properties of the last CRLF pair is `crlf_last`.
pub proof fn lemma_crlf_last_unique(s: Seq<char>, i: int)
    requires
        crlf_at(s, i),
        forall|j: int| i < j ==> !crlf_at(s, j),
    ensures
        crlf_last(s) == i,
{
    lemma_crlf_last(s);
}

/// Everything before the first CRLF pair; all of `s` when there is none.
pub open spec fn first_line(s: Seq<char>) -> Seq<char> {
    if crlf_first(s) < 0 {
        s
    } else {
        s.take(crlf_first(s))
    }
}

/// Everything after the last CRLF pair; all of `s` when there is none.
pub open spec fn last_line(s: Seq<char>) -> Seq<char> {
    if crlf_last(s) < 0 {
        s
    } else {
        s.skip(crlf_last(s) + 2)
    }
}

/// Removes every NUL character from `s`.
pub fn remove_nuls(s: &str) -> (r: String)
    ensures
        r@ == strip_nuls(s@),
{
    let n = s.unicode_len();
    let mut out = String::new();
    let mut i: usize = 0;
    while i < n
        invariant
            i <= n,
            n == s@.len(),
            out@ == strip_nuls(s@.take(i as int)),
        decreases n - i,
    {
        proof {
            assert(s@.take(i + 1).drop_last() =~= s@.take(i as int));
            assert(s@.take(i + 1).last() == s@[i as int]);
        }
        let c = s.get_char(i);
        if c != '\u{0}' {
            let piece = s.substring_char(i, i + 1);
            out.append(piece);
            proof {
                assert(out@ =~= strip_nuls(s@.take(i + 1)));
            }
        }
        i += 1;
    }
    proof {
        assert(s@.take(n as int) =~= s@);
    }
    out
}

/// Finds the position of the first CRLF pair in `s`.
pub fn find_crlf_first(s: &str) -> (r: Option<usize>)
    ensures
        r matches Some(i) ==> crlf_first(s@) == i as int,
        r is None ==> crlf_first(s@) < 0,
{
    let n = s.unicode_len();
    if n < 2 {
        proof {
            lemma_crlf_first(s@);
            if crlf_first(s@) >= 0 {
                assert(crlf_at(s@, crlf_first(s@)));
            }
        }
        return None;
    }
    let mut i: usize = 0;
    while i < n - 1
        invariant
            i <= n - 1,
            n == s@.len(),
            n >= 2,
            forall|j: int| 0 <= j < i ==> !crlf_at(s@, j),
        decreases n - i,
    {
        if s.get_char(i) == '\r' && s.get_char(i + 1) == '\n' {
            proof {
                lemma_crlf_first_unique(s@, i as int);
            }
            return Some(i);
        }
        proof {
            assert(!crlf_at(s@, i as int));
        }
        i += 1;
    }
    proof {
        lemma_crlf_first(s@);
        assert(forall|j: int| crlf_at(s@, j) ==> 0 <= j < n - 1);
        if crlf_first(s@) >= 0 {
            assert(crlf_at(s@, crlf_first(s@)));
        }
    }
    None
}

/// Finds the position of the last CRLF pair in `s`.
pub fn find_crlf_last(s: &str) -> (r: Option<usize>)
    ensures
        r matches Some(i) ==> crlf_last(s@) == i as int,
        r is None ==> crlf_last(s@) < 0,
{
    let n = s.unicode_len();
    if n < 2 {
        proof {
            lemma_crlf_last(s@);
            if crlf_last(s@) >= 0 {
                assert(crlf_at(s@, crlf_last(s@)));
            }
        }
        return None;
    }
    let mut i: usize = n - 2;
    loop
        invariant_except_break
            0 <= i <= n - 2,
            n == s@.len(),
            n >= 2,
            forall|j: int| i < j ==> !crlf_at(s@, j),
        ensures
            forall|j: int| !crlf_at(s@, j),
        decreases i,
    {
        if s.get_char(i) == '\r' && s.get_char(i + 1) == '\n' {
            proof {
                lemma_crlf_last_unique(s@, i as int);
            }
            return Some(i);
        }
        proof {
            assert(!crlf_at(s@, i as int));
        }
        if i == 0 {
            break ;
        }
        i -= 1;
    }
    proof {
        lemma_crlf_last(s@);
        if crlf_last(s@) >= 0 {
            assert(crlf_at(s@, crlf_last(s@)));
        }
    }
    None
}

/// The part of `s` up to the first CRLF pair.
pub fn first_line_str<'a>(s: &'a str) -> (r: &'a str)
    ensures
        r@ == first_line(s@),
{
    match find_crlf_first(s) {
        Some(i) => {
            proof {
                lemma_crlf_first(s@);
            }
            let r = s.substring_char(0, i);
            proof {
                assert(r@ =~= first_line(s@));
            }
            r
        },
        None => s,
    }
}

/// The part of `s` after the last CRLF pair.
pub fn last_line_str<'a>(s: &'a str) -> (r: &'a str)
    ensures
        r@ == last_line(s@),
{
    match find_crlf_last(s) {
        Some(i) => {
            proof {
                lemma_crlf_last(s@);
            }
            let n = s.unicode_len();
            let r = s.substring_char(i + 2, n);
            proof {
                assert(r@ =~= last_line(s@));
            }
            r
        },
        None => s,
    }
}

/// Whether the stripped text `t` holds a well-formed request line:
/// its first line must have at least two space-separated tokens.
pub open spec fn req_wellformed(t: Seq<char>) -> bool {
    first_ix(first_line(t), ' ') >= 0
}

/// The method token of the request line.
pub open spec fn req_method(t: Seq<char>) -> Seq<char> {
    before_first(first_line(t), ' ')
}

/// The second token of the request line: the path with an optional query tail.
pub open spec fn req_url(t: Seq<char>) -> Seq<char> {
    before_first(after_first(first_line(t), ' '), ' ')
}

/// The path part of the URL token: everything before the first `?`.
pub open spec fn req_path(t: Seq<char>) -> Seq<char> {
    before_first(req_url(t), '?')
}

/// The query string of the URL token: everything after the first `?`,
/// empty when there is no `?`.
pub open spec fn req_query_str(t: Seq<char>) -> Seq<char> {
    after_first(req_url(t), '?')
}

/// The query parameters parsed from the query string.
pub open spec fn req_query_map(t: Seq<char>) -> Map<Seq<char>, Seq<char>> {
    params_of(req_query_str(t))
}

/// The post parameters parsed from the text after the last CRLF pair,
/// which stands in for the body under single-read framing.
pub open spec fn req_post_map(t: Seq<char>) -> Map<Seq<char>, Seq<char>> {
    params_of(last_line(t))
}

/// The data sent by the caller: query parameters from the URL and post
/// parameters from the body stand-in, both immutable after construction.
pub struct Request {
    post_parameters: ParamMap,
    query_parameters: ParamMap,
}

impl Request {
    /// Both parameter maps keep their keys unique.
    pub closed spec fn wf(&self) -> bool {
        self.post_parameters.wf() && self.query_parameters.wf()
    }

    /// The post parameters as a mapping.
    pub closed spec fn post(&self) -> Map<Seq<char>, Seq<char>> {
        self.post_parameters@
    }

    /// The query parameters as a mapping.
    pub closed spec fn query(&self) -> Map<Seq<char>, Seq<char>> {
        self.query_parameters@
    }

    /// A request with no parameters at all.
    pub fn new() -> (r: Request)
        ensures
            r.wf(),
            r.post() == Map::<Seq<char>, Seq<char>>::empty(),
            r.query() == Map::<Seq<char>, Seq<char>>::empty(),
    {
        Request { post_parameters: ParamMap::new(), query_parameters: ParamMap::new() }
    }

    /// Returns the POST parameters of this request.
    pub fn get_post_parameters(&self) -> (r: ParamMap)
        requires
            self.wf(),
        ensures
            r.wf(),
            r@ == self.post(),
    {
        self.post_parameters.duplicate()
    }

    /// Returns the GET (query) parameters of this request.
    pub fn get_query_parameters(&self) -> (r: ParamMap)
        requires
            self.wf(),
        ensures
            r.wf(),
            r@ == self.query(),
    {
        self.query_parameters.duplicate()
    }
}

/// A decoded request: the method and path that route dispatch matches on,
/// the raw URL token that static resolution falls back to, and the
/// parameter maps handed to the matched handler.
pub struct ParsedRequest {
    pub method: String,
    pub path: String,
    pub url: String,
    pub request: Request,
}

impl ParsedRequest {
    /// The carried request keeps its maps well formed.
    pub open spec fn wf(&self) -> bool {
        self.request.wf()
    }
}

/// Decodes the text of one fixed-size read into a request.  The NUL
/// padding is stripped first; a request line with fewer than two tokens
/// yields `None`, and such a connection produces no response at all.
pub fn parse_request(text: &str) -> (r: Option<ParsedRequest>)
    ensures
        r is Some <==> req_wellformed(strip_nuls(text@)),
        r matches Some(p) ==> p.wf() && p.method@ == req_method(strip_nuls(text@))
            && p.path@ == req_path(strip_nuls(text@))
            && p.url@ == req_url(strip_nuls(text@))
            && p.request.query() == req_query_map(strip_nuls(text@))
            && p.request.post() == req_post_map(strip_nuls(text@)),
{
    let stripped = remove_nuls(text);
    let line = first_line_str(stripped.as_str());
    match find_char(line, ' ') {
        None => None,
        Some(_) => {
            let method = before_first_str(line, ' ').to_owned();
            let rest = after_first_str(line, ' ');
            let url = before_first_str(rest, ' ');
            let path = before_first_str(url, '?').to_owned();
            let query_str = after_first_str(url, '?');
            let query_parameters = parse_parameters(query_str);
            let post_parameters = parse_parameters(last_line_str(stripped.as_str()));
            Some(
                ParsedRequest {
                    method,
                    path,
                    url: url.to_owned(),
                    request: Request { post_parameters, query_parameters },
                },
            )
        },
    }
}

} // verus!
