//! Matchers for request paths, queries, header values and bodies.
use crate::backends::{
    json_equal, json_includes, json_parses, json_text_includes, json_texts_equal, pairs_view,
    regex_compiles, regex_finds, regex_is_match, urlencoded_decode, urlencoded_pairs,
};
use crate::text::{
    byte_list, chars_of, owned, push_byte_list, push_str, str_eq, str_is_empty, string_of_chars,
};
use vstd::prelude::*;

verus! {

/// A binary object that a request body is compared with.
#[derive(Clone, Debug)]
pub struct BinaryBody {
    path: Option<String>,
    content: Vec<u8>,
}

/// The plain value of a `BinaryBody`.
pub struct BinaryBodyView {
    pub path: Option<Seq<char>>,
    pub content: Seq<u8>,
}

impl View for BinaryBody {
    type V = BinaryBodyView;

    closed spec fn view(&self) -> BinaryBodyView {
        BinaryBodyView {
            path: match self.path {
                Some(p) => Some(p@),
                None => None,
            },
            content: self.content@,
        }
    }
}

impl BinaryBodyView {
    /// Two binary bodies are the same when both carry a file path and the
    /// paths are equal, or, otherwise, when their contents are equal.
    pub open spec fn same_as(self, other: BinaryBodyView) -> bool {
        match (self.path, other.path) {
            (Some(p), Some(o)) => p == o,
            _ => self.content == other.content,
        }
    }

    /// The rendering of a binary body: its file path where it has one,
    /// otherwise the first (at most eight) bytes of its content.
    pub open spec fn display(self) -> Seq<char> {
        match self.path {
            Some(p) => "filepath: "@ + p,
            None => "filecontent: "@ + byte_list(self.content.take(
                if self.content.len() < 8 { self.content.len() as int } else { 8 },
            )),
        }
    }
}

/// Whether two byte slices are equal.
pub fn bytes_eq(a: &[u8], b: &[u8]) -> (r: bool)
    ensures
        r == (a@ == b@),
{
    if a.len() != b.len() {
        return false;
    }
    let mut i: usize = 0;
    while i < a.len()
        invariant
            a@.len() == b@.len(),
            i <= a@.len(),
            forall|j: int| 0 <= j < i ==> a@[j] == b@[j],
        decreases a@.len() - i,
    {
        if a[i] != b[i] {
            return false;
        }
        i = i + 1;
    }
    proof {
        assert(a@ =~= b@);
    }
    true
}

impl BinaryBody {
    /// A binary body holding `content`, with no file path.
    pub fn from_bytes(content: Vec<u8>) -> (r: Self)
        ensures
            r@.path is None,
            r@.content == content@,
    {
        BinaryBody { path: None, content }
    }

    /// A binary body read from a file: its path, where it has a textual
    /// form, and the bytes that were read from it.
    pub fn from_parts(path: Option<String>, content: Vec<u8>) -> (r: Self)
        ensures
            r@.path == (match path {
                Some(p) => Some(p@),
                None => None::<Seq<char>>,
            }),
            r@.content == content@,
    {
        BinaryBody { path, content }
    }

    /// The bytes of the body.
    pub fn content(&self) -> (r: &[u8])
        ensures
            r@ == self@.content,
    {
        self.content.as_slice()
    }

    /// Whether two binary bodies are the same (see `BinaryBodyView::same_as`).
    pub fn same_as(&self, other: &BinaryBody) -> (r: bool)
        ensures
            r == self@.same_as(other@),
    {
        match (&self.path, &other.path) {
            (Some(p), Some(o)) => *p == *o,
            _ => bytes_eq(self.content.as_slice(), other.content.as_slice()),
        }
    }

    /// A copy of the body.
    pub fn duplicate(&self) -> (r: BinaryBody)
        ensures
            r@ == self@,
    {
        let path = match &self.path {
            Some(p) => Some(p.clone()),
            None => None,
        };
        let content = copy_bytes(self.content.as_slice());
        BinaryBody { path, content }
    }

    /// Appends the rendering of the body (see `BinaryBodyView::display`).
    pub fn push_display(&self, s: &mut String)
        ensures
            final(s)@ == old(s)@ + self@.display(),
    {
        match &self.path {
            Some(p) => {
                push_str(s, "filepath: ");
                proof {
                    reveal_strlit("filepath: ");
                }
                push_str(s, p.as_str());
            },
            None => {
                push_str(s, "filecontent: ");
                proof {
                    reveal_strlit("filecontent: ");
                }
                let n = if self.content.len() < 8 { self.content.len() } else { 8 };
                let head = copy_prefix(self.content.as_slice(), n);
                push_byte_list(s, head.as_slice());
            },
        }
        proof {
            assert(final(s)@ =~= old(s)@ + self@.display());
        }
    }
}

/// A copy of a byte slice.
pub fn copy_bytes(b: &[u8]) -> (r: Vec<u8>)
    ensures
        r@ == b@,
{
    copy_prefix(b, b.len())
}

/// A copy of the first `n` bytes of a slice.
pub fn copy_prefix(b: &[u8], n: usize) -> (r: Vec<u8>)
    requires
        n <= b@.len(),
    ensures
        r@ == b@.take(n as int),
{
    let mut out: Vec<u8> = Vec::new();
    let mut i: usize = 0;
    while i < n
        invariant
            n <= b@.len(),
            i <= n,
            out@ == b@.take(i as int),
        decreases n - i,
    {
        out.push(b[i]);
        proof {
            assert(b@.take(i + 1) =~= b@.take(i as int).push(b@[i as int]));
        }
        i = i + 1;
    }
    out
}

/// Matches a request path, a query, a header value or a body in one of
/// several ways.
#[derive(Debug)]
pub enum Matcher {
    /// The exact value.
    Exact(String),
    /// The body, byte for byte.
    Binary(BinaryBody),
    /// A regular expression that must be found in the value.
    Regex(String),
    /// A JSON document, given by its serialized text, that must equal the value.
    Json(String),
    /// A JSON document, given as a string, that must equal the value.
    JsonString(String),
    /// A JSON document, given by its serialized text, that the value must contain.
    PartialJson(String),
    /// A JSON document, given as a string, that the value must contain.
    PartialJsonString(String),
    /// A URL-encoded key/value pair, both given unencoded.
    UrlEncoded(String, String),
    /// At least one of the matchers.
    AnyOf(Vec<Matcher>),
    /// All of the matchers.
    AllOf(Vec<Matcher>),
    /// Any value.
    Any,
    /// A header that is not present.
    Missing,
}

/// The plain value of a `Matcher`.
pub enum MatcherView {
    Exact(Seq<char>),
    Binary(BinaryBodyView),
    Regex(Seq<char>),
    Json(Seq<char>),
    JsonString(Seq<char>),
    PartialJson(Seq<char>),
    PartialJsonString(Seq<char>),
    UrlEncoded(Seq<char>, Seq<char>),
    AnyOf(Seq<MatcherView>),
    AllOf(Seq<MatcherView>),
    Any,
    Missing,
}

impl Matcher {
    /// The plain value of the matcher.
    pub open spec fn model(&self) -> MatcherView
        decreases self,
    {
        match self {
            Matcher::Exact(v) => MatcherView::Exact(v@),
            Matcher::Binary(b) => MatcherView::Binary(b@),
            Matcher::Regex(v) => MatcherView::Regex(v@),
            Matcher::Json(v) => MatcherView::Json(v@),
            Matcher::JsonString(v) => MatcherView::JsonString(v@),
            Matcher::PartialJson(v) => MatcherView::PartialJson(v@),
            Matcher::PartialJsonString(v) => MatcherView::PartialJsonString(v@),
            Matcher::UrlEncoded(f, v) => MatcherView::UrlEncoded(f@, v@),
            Matcher::AnyOf(ms) => MatcherView::AnyOf(
                Seq::new(
                    ms.len() as nat,
                    |i: int|
                        if 0 <= i < ms.len() {
                            ms@[i].model()
                        } else {
                            MatcherView::Any
                        },
                ),
            ),
            Matcher::AllOf(ms) => MatcherView::AllOf(
                Seq::new(
                    ms.len() as nat,
                    |i: int|
                        if 0 <= i < ms.len() {
                            ms@[i].model()
                        } else {
                            MatcherView::Any
                        },
                ),
            ),
            Matcher::Any => MatcherView::Any,
            Matcher::Missing => MatcherView::Missing,
        }
    }
}

impl View for Matcher {
    type V = MatcherView;

    open spec fn view(&self) -> MatcherView {
        self.model()
    }
}

/// The views of a list of matchers.
pub open spec fn matchers_view(ms: Seq<Matcher>) -> Seq<MatcherView> {
    Seq::new(ms.len(), |i: int| ms[i]@)
}

/// The value that the last pair with key `key` carries, if any pair has it.
pub open spec fn last_value_of(pairs: Seq<(Seq<char>, Seq<char>)>, key: Seq<char>) -> Option<Seq<char>>
    decreases pairs.len(),
{
    if pairs.len() == 0 {
        None
    } else if pairs.last().0 == key {
        Some(pairs.last().1)
    } else {
        last_value_of(pairs.drop_last(), key)
    }
}

impl MatcherView {
    /// The outcome of matching one value: `Some(b)` where matching answers
    /// `b`, `None` where it cannot complete (a regular expression that does
    /// not compile, or a JSON text that does not parse).
    pub open spec fn value_result(self, other: Seq<char>) -> Option<bool>
        decreases self, 0nat,
    {
        match self {
            MatcherView::Exact(v) => Some(v == other),
            MatcherView::Binary(_) => Some(false),
            MatcherView::Regex(r) => if regex_compiles(r) {
                Some(regex_finds(r, other))
            } else {
                None
            },
            MatcherView::Json(j) => if json_parses(j) && json_parses(other) {
                Some(json_equal(j, other))
            } else {
                None
            },
            MatcherView::JsonString(j) => if json_parses(j) && json_parses(other) {
                Some(json_equal(j, other))
            } else {
                None
            },
            MatcherView::PartialJson(j) => if json_parses(j) && json_parses(other) {
                Some(json_includes(other, j))
            } else {
                None
            },
            MatcherView::PartialJsonString(j) => if json_parses(j) && json_parses(other) {
                Some(json_includes(other, j))
            } else {
                None
            },
            MatcherView::UrlEncoded(f, v) => match urlencoded_pairs(other) {
                Some(pairs) => Some(last_value_of(pairs, f) == Some(v)),
                None => Some(false),
            },
            MatcherView::AnyOf(ms) => MatcherView::any_value_from(ms, other, 0),
            MatcherView::AllOf(ms) => MatcherView::all_value_from(ms, other, 0),
            MatcherView::Any => Some(true),
            MatcherView::Missing => Some(other.len() == 0),
        }
    }

    /// Matching `other` with `ms[i..]` until one of them matches.
    pub open spec fn any_value_from(ms: Seq<MatcherView>, other: Seq<char>, i: int) -> Option<bool>
        decreases ms, ms.len() - i,
    {
        if i < 0 || i >= ms.len() {
            Some(false)
        } else {
            match ms[i].value_result(other) {
                None => None,
                Some(true) => Some(true),
                Some(false) => MatcherView::any_value_from(ms, other, i + 1),
            }
        }
    }

    /// Matching `other` with `ms[i..]` until one of them does not match.
    pub open spec fn all_value_from(ms: Seq<MatcherView>, other: Seq<char>, i: int) -> Option<bool>
        decreases ms, ms.len() - i,
    {
        if i < 0 || i >= ms.len() {
            Some(true)
        } else {
            match ms[i].value_result(other) {
                None => None,
                Some(false) => Some(false),
                Some(true) => MatcherView::all_value_from(ms, other, i + 1),
            }
        }
    }
}

/// Whether the last pair with key `key` carries `value`.
fn last_value_is(pairs: &Vec<(String, String)>, key: &str, value: &str) -> (r: bool)
    ensures
        r == (last_value_of(pairs_view(pairs@), key@) == Some(value@)),
{
    let mut i: usize = pairs.len();
    proof {
        assert(pairs_view(pairs@).take(pairs@.len() as int) =~= pairs_view(pairs@));
    }
    while i > 0
        invariant
            i <= pairs@.len(),
            last_value_of(pairs_view(pairs@), key@) == last_value_of(pairs_view(pairs@).take(i as int), key@),
        decreases i,
    {
        let ghost pv = pairs_view(pairs@);
        proof {
            assert(pv.take(i as int).drop_last() =~= pv.take(i - 1));
            assert(pv.take(i as int).last() == pv[i - 1]);
        }
        let (k, v) = &pairs[i - 1];
        if str_eq(k.as_str(), key) {
            return str_eq(v.as_str(), value);
        }
        i = i - 1;
    }
    false
}

impl Matcher {
    /// Matches one value (a path, a query or a header value); `None` where
    /// the matcher cannot complete (see `MatcherView::value_result`).
    pub fn matches_value(&self, other: &str) -> (r: Option<bool>)
        ensures
            r == self@.value_result(other@),
        decreases self,
    {
        match self {
            Matcher::Exact(v) => Some(str_eq(v.as_str(), other)),
            Matcher::Binary(_) => Some(false),
            Matcher::Regex(r) => regex_is_match(r.as_str(), other),
            Matcher::Json(j) => json_texts_equal(j.as_str(), other),
            Matcher::JsonString(j) => json_texts_equal(j.as_str(), other),
            Matcher::PartialJson(j) => json_text_includes(other, j.as_str()),
            Matcher::PartialJsonString(j) => json_text_includes(other, j.as_str()),
            Matcher::UrlEncoded(f, v) => match urlencoded_decode(other) {
                Some(pairs) => Some(last_value_is(&pairs, f.as_str(), v.as_str())),
                None => Some(false),
            },
            Matcher::AnyOf(ms) => {
                let ghost mv = self@->AnyOf_0;
                let mut i: usize = 0;
                while i < ms.len()
                    invariant
                        self == Matcher::AnyOf(*ms),
                        mv == self@->AnyOf_0,
                        mv.len() == ms@.len(),
                        forall|j: int| 0 <= j < ms@.len() ==> mv[j] == #[trigger] ms@[j]@,
                        i <= ms@.len(),
                        self@.value_result(other@) == MatcherView::any_value_from(mv, other@, i as int),
                    decreases ms@.len() - i,
                {
                    let m = &ms[i];
                    proof {
                        assert(mv[i as int] == m@);
                    }
                    match m.matches_value(other) {
                        None => return None,
                        Some(true) => return Some(true),
                        Some(false) => {},
                    }
                    i = i + 1;
                }
                Some(false)
            },
            Matcher::AllOf(ms) => {
                let ghost mv = self@->AllOf_0;
                let mut i: usize = 0;
                while i < ms.len()
                    invariant
                        self == Matcher::AllOf(*ms),
                        mv == self@->AllOf_0,
                        mv.len() == ms@.len(),
                        forall|j: int| 0 <= j < ms@.len() ==> mv[j] == #[trigger] ms@[j]@,
                        i <= ms@.len(),
                        self@.value_result(other@) == MatcherView::all_value_from(mv, other@, i as int),
                    decreases ms@.len() - i,
                {
                    let m = &ms[i];
                    proof {
                        assert(mv[i as int] == m@);
                    }
                    match m.matches_value(other) {
                        None => return None,
                        Some(false) => return Some(false),
                        Some(true) => {},
                    }
                    i = i + 1;
                }
                Some(true)
            },
            Matcher::Any => Some(true),
            Matcher::Missing => Some(str_is_empty(other)),
        }
    }
}


/// The views of a list of strings.
pub open spec fn strings_view(v: Seq<String>) -> Seq<Seq<char>> {
    Seq::new(v.len(), |i: int| v[i]@)
}

impl MatcherView {
    /// The outcome of matching all the values of a header (see
    /// `value_result` for `None`). `Missing` matches exactly when there is
    /// no value; `AnyOf` and `AllOf` are applied to the absent header as a
    /// whole; every other matcher needs at least one value and must match
    /// each of them.
    pub open spec fn values_result(self, values: Seq<Seq<char>>) -> Option<bool>
        decreases self, 0nat,
    {
        match self {
            MatcherView::Missing => Some(values.len() == 0),
            MatcherView::AnyOf(ms) => if values.len() == 0 {
                MatcherView::any_values_from(ms, values, 0)
            } else {
                self.every_value_from(values, 0)
            },
            MatcherView::AllOf(ms) => if values.len() == 0 {
                MatcherView::all_values_from(ms, values, 0)
            } else {
                self.every_value_from(values, 0)
            },
            _ => if values.len() == 0 {
                Some(false)
            } else {
                self.every_value_from(values, 0)
            },
        }
    }

    /// Matching each of `values[i..]` in turn until one does not match.
    pub open spec fn every_value_from(self, values: Seq<Seq<char>>, i: int) -> Option<bool>
        decreases values.len() - i,
    {
        if i < 0 || i >= values.len() {
            Some(true)
        } else {
            match self.value_result(values[i]) {
                None => None,
                Some(false) => Some(false),
                Some(true) => self.every_value_from(values, i + 1),
            }
        }
    }

    /// Matching all `values` with `ms[i..]` until one of them matches.
    pub open spec fn any_values_from(ms: Seq<MatcherView>, values: Seq<Seq<char>>, i: int) -> Option<bool>
        decreases ms, ms.len() - i,
    {
        if i < 0 || i >= ms.len() {
            Some(false)
        } else {
            match ms[i].values_result(values) {
                None => None,
                Some(true) => Some(true),
                Some(false) => MatcherView::any_values_from(ms, values, i + 1),
            }
        }
    }

    /// Matching all `values` with `ms[i..]` until one of them does not match.
    pub open spec fn all_values_from(ms: Seq<MatcherView>, values: Seq<Seq<char>>, i: int) -> Option<bool>
        decreases ms, ms.len() - i,
    {
        if i < 0 || i >= ms.len() {
            Some(true)
        } else {
            match ms[i].values_result(values) {
                None => None,
                Some(false) => Some(false),
                Some(true) => MatcherView::all_values_from(ms, values, i + 1),
            }
        }
    }

    /// Whether the matcher accepts a binary body: only `Binary` does, and
    /// only a body with exactly its content.
    pub open spec fn binary_result(self, bytes: Seq<u8>) -> bool {
        match self {
            MatcherView::Binary(b) => bytes == b.content,
            _ => false,
        }
    }

    /// The rendering of a matcher.
    pub open spec fn display(self) -> Seq<char>
        decreases self, 0nat,
    {
        match self {
            MatcherView::Exact(v) => v,
            MatcherView::Binary(b) => b.display() + " (binary)"@,
            MatcherView::Regex(v) => v + " (regex)"@,
            MatcherView::Json(v) => v + " (json)"@,
            MatcherView::JsonString(v) => v + " (json)"@,
            MatcherView::PartialJson(v) => v + " (partial json)"@,
            MatcherView::PartialJsonString(v) => v + " (partial json)"@,
            MatcherView::UrlEncoded(f, v) => f + "="@ + v + " (urlencoded)"@,
            MatcherView::AnyOf(ms) => "("@ + MatcherView::joined(ms, ms.len() as int) + ") (any of)"@,
            MatcherView::AllOf(ms) => "("@ + MatcherView::joined(ms, ms.len() as int) + ") (all of)"@,
            MatcherView::Any => "(any)"@,
            MatcherView::Missing => "(missing)"@,
        }
    }

    /// The renderings of `ms[..n]` joined by `", "`, where a rendering that
    /// follows an empty join replaces it.
    pub open spec fn joined(ms: Seq<MatcherView>, n: int) -> Seq<char>
        decreases ms, n,
    {
        if n <= 0 || n > ms.len() {
            Seq::empty()
        } else {
            let acc = MatcherView::joined(ms, n - 1);
            let d = ms[n - 1].display();
            if acc.len() == 0 {
                d
            } else {
                acc + ", "@ + d
            }
        }
    }
}

impl MatcherView {
    /// Whether two matchers are the same: of the same variant with equal
    /// contents, binary bodies compared as `BinaryBodyView::same_as` says
    /// and lists of matchers compared element by element.
    pub open spec fn same(self, other: MatcherView) -> bool
        decreases self, 0nat,
    {
        match (self, other) {
            (MatcherView::Exact(a), MatcherView::Exact(b)) => a == b,
            (MatcherView::Binary(a), MatcherView::Binary(b)) => a.same_as(b),
            (MatcherView::Regex(a), MatcherView::Regex(b)) => a == b,
            (MatcherView::Json(a), MatcherView::Json(b)) => a == b,
            (MatcherView::JsonString(a), MatcherView::JsonString(b)) => a == b,
            (MatcherView::PartialJson(a), MatcherView::PartialJson(b)) => a == b,
            (MatcherView::PartialJsonString(a), MatcherView::PartialJsonString(b)) => a == b,
            (MatcherView::UrlEncoded(f, v), MatcherView::UrlEncoded(g, w)) => f == g && v == w,
            (MatcherView::AnyOf(ms), MatcherView::AnyOf(ns)) => ms.len() == ns.len()
                && MatcherView::all_same(ms, ns, ms.len() as int),
            (MatcherView::AllOf(ms), MatcherView::AllOf(ns)) => ms.len() == ns.len()
                && MatcherView::all_same(ms, ns, ms.len() as int),
            (MatcherView::Any, MatcherView::Any) => true,
            (MatcherView::Missing, MatcherView::Missing) => true,
            _ => false,
        }
    }

    /// Whether the first `n` matchers of `ms` and of `ns` are pairwise the same.
    pub open spec fn all_same(ms: Seq<MatcherView>, ns: Seq<MatcherView>, n: int) -> bool
        decreases ms, n,
    {
        if n <= 0 || n > ms.len() {
            true
        } else {
            MatcherView::all_same(ms, ns, n - 1) && ms[n - 1].same(ns[n - 1])
        }
    }
}

/// Whether two lists of matchers are the same (see `MatcherView::same`).
fn all_same_as(ms: &Vec<Matcher>, ns: &Vec<Matcher>) -> (r: bool)
    ensures
        r == (ms@.len() == ns@.len() && MatcherView::all_same(
            matchers_view(ms@),
            matchers_view(ns@),
            ms@.len() as int,
        )),
    decreases ms,
{
    if ms.len() != ns.len() {
        return false;
    }
    let ghost mv = matchers_view(ms@);
    let ghost nv = matchers_view(ns@);
    let mut i: usize = 0;
    while i < ms.len()
        invariant
            mv == matchers_view(ms@),
            nv == matchers_view(ns@),
            ms@.len() == ns@.len(),
            i <= ms@.len(),
            MatcherView::all_same(mv, nv, i as int),
        decreases ms@.len() - i,
    {
        if !ms[i].same_as(&ns[i]) {
            proof {
                if MatcherView::all_same(mv, nv, ms@.len() as int) {
                    lemma_all_same_prefix(mv, nv, i as int + 1, ms@.len() as int);
                }
            }
            return false;
        }
        i = i + 1;
    }
    true
}

/// Where a longer prefix is pairwise the same, so is a shorter one.
proof fn lemma_all_same_prefix(ms: Seq<MatcherView>, ns: Seq<MatcherView>, k: int, n: int)
    requires
        0 <= k <= n <= ms.len(),
        MatcherView::all_same(ms, ns, n),
    ensures
        MatcherView::all_same(ms, ns, k),
    decreases n - k,
{
    if k < n {
        lemma_all_same_prefix(ms, ns, k, n - 1);
    }
}

impl Matcher {
    /// Whether two matchers are the same (see `MatcherView::same`).
    pub fn same_as(&self, other: &Matcher) -> (r: bool)
        ensures
            r == self@.same(other@),
        decreases self,
    {
        match (self, other) {
            (Matcher::Exact(a), Matcher::Exact(b)) => *a == *b,
            (Matcher::Binary(a), Matcher::Binary(b)) => a.same_as(b),
            (Matcher::Regex(a), Matcher::Regex(b)) => *a == *b,
            (Matcher::Json(a), Matcher::Json(b)) => *a == *b,
            (Matcher::JsonString(a), Matcher::JsonString(b)) => *a == *b,
            (Matcher::PartialJson(a), Matcher::PartialJson(b)) => *a == *b,
            (Matcher::PartialJsonString(a), Matcher::PartialJsonString(b)) => *a == *b,
            (Matcher::UrlEncoded(f, v), Matcher::UrlEncoded(g, w)) => *f == *g && *v == *w,
            (Matcher::AnyOf(ms), Matcher::AnyOf(ns)) => {
                proof {
                    assert(self@->AnyOf_0 =~= matchers_view(ms@));
                    assert(other@->AnyOf_0 =~= matchers_view(ns@));
                }
                all_same_as(ms, ns)
            },
            (Matcher::AllOf(ms), Matcher::AllOf(ns)) => {
                proof {
                    assert(self@->AllOf_0 =~= matchers_view(ms@));
                    assert(other@->AllOf_0 =~= matchers_view(ns@));
                }
                all_same_as(ms, ns)
            },
            (Matcher::Any, Matcher::Any) => true,
            (Matcher::Missing, Matcher::Missing) => true,
            _ => false,
        }
    }
}

impl Matcher {
    /// Matches all the values of a header (see `MatcherView::values_result`).
    pub fn matches_values(&self, values: &[String]) -> (r: Option<bool>)
        ensures
            r == self@.values_result(strings_view(values@)),
        decreases self,
    {
        let ghost vs = strings_view(values@);
        match self {
            Matcher::Missing => Some(values.len() == 0),
            Matcher::AnyOf(ms) => {
                if values.len() == 0 {
                    let ghost mv = self@->AnyOf_0;
                    let mut i: usize = 0;
                    while i < ms.len()
                        invariant
                            self == Matcher::AnyOf(*ms),
                            values@.len() == 0,
                            vs == strings_view(values@),
                            mv == self@->AnyOf_0,
                            mv.len() == ms@.len(),
                            forall|j: int| 0 <= j < ms@.len() ==> mv[j] == #[trigger] ms@[j]@,
                            i <= ms@.len(),
                            self@.values_result(vs) == MatcherView::any_values_from(mv, vs, i as int),
                        decreases ms@.len() - i,
                    {
                        let m = &ms[i];
                        proof {
                            assert(mv[i as int] == m@);
                        }
                        match m.matches_values(values) {
                            None => return None,
                            Some(true) => return Some(true),
                            Some(false) => {},
                        }
                        i = i + 1;
                    }
                    Some(false)
                } else {
                    self.every_value(values)
                }
            },
            Matcher::AllOf(ms) => {
                if values.len() == 0 {
                    let ghost mv = self@->AllOf_0;
                    let mut i: usize = 0;
                    while i < ms.len()
                        invariant
                            self == Matcher::AllOf(*ms),
                            values@.len() == 0,
                            vs == strings_view(values@),
                            mv == self@->AllOf_0,
                            mv.len() == ms@.len(),
                            forall|j: int| 0 <= j < ms@.len() ==> mv[j] == #[trigger] ms@[j]@,
                            i <= ms@.len(),
                            self@.values_result(vs) == MatcherView::all_values_from(mv, vs, i as int),
                        decreases ms@.len() - i,
                    {
                        let m = &ms[i];
                        proof {
                            assert(mv[i as int] == m@);
                        }
                        match m.matches_values(values) {
                            None => return None,
                            Some(false) => return Some(false),
                            Some(true) => {},
                        }
                        i = i + 1;
                    }
                    Some(true)
                } else {
                    self.every_value(values)
                }
            },
            _ => {
                if values.len() == 0 {
                    Some(false)
                } else {
                    self.every_value(values)
                }
            },
        }
    }

    /// Matches each of the values in turn until one does not match.
    fn every_value(&self, values: &[String]) -> (r: Option<bool>)
        ensures
            r == self@.every_value_from(strings_view(values@), 0),
    {
        let ghost vs = strings_view(values@);
        let mut i: usize = 0;
        while i < values.len()
            invariant
                vs == strings_view(values@),
                i <= values@.len(),
                self@.every_value_from(vs, 0) == self@.every_value_from(vs, i as int),
            decreases values@.len() - i,
        {
            match self.matches_value(values[i].as_str()) {
                None => return None,
                Some(false) => return Some(false),
                Some(true) => {},
            }
            i = i + 1;
        }
        Some(true)
    }

    /// Whether the matcher accepts a binary body (see `MatcherView::binary_result`).
    pub fn matches_binary_value(&self, binary: &[u8]) -> (r: bool)
        ensures
            r == self@.binary_result(binary@),
    {
        match self {
            Matcher::Binary(b) => bytes_eq(binary, b.content()),
            _ => false,
        }
    }

    /// A deep copy of the matcher.
    pub fn duplicate(&self) -> (r: Matcher)
        ensures
            r@ == self@,
        decreases self,
    {
        match self {
            Matcher::Exact(v) => Matcher::Exact(v.clone()),
            Matcher::Binary(b) => Matcher::Binary(b.duplicate()),
            Matcher::Regex(v) => Matcher::Regex(v.clone()),
            Matcher::Json(v) => Matcher::Json(v.clone()),
            Matcher::JsonString(v) => Matcher::JsonString(v.clone()),
            Matcher::PartialJson(v) => Matcher::PartialJson(v.clone()),
            Matcher::PartialJsonString(v) => Matcher::PartialJsonString(v.clone()),
            Matcher::UrlEncoded(f, v) => Matcher::UrlEncoded(f.clone(), v.clone()),
            Matcher::AnyOf(ms) => {
                let out = duplicate_all(ms);
                let ghost out_v = out@;
                let r = Matcher::AnyOf(out);
                proof {
                    assert(r@->AnyOf_0 =~= matchers_view(out_v));
                    assert(self@->AnyOf_0 =~= matchers_view(ms@));
                }
                r
            },
            Matcher::AllOf(ms) => {
                let out = duplicate_all(ms);
                let ghost out_v = out@;
                let r = Matcher::AllOf(out);
                proof {
                    assert(r@->AllOf_0 =~= matchers_view(out_v));
                    assert(self@->AllOf_0 =~= matchers_view(ms@));
                }
                r
            },
            Matcher::Any => Matcher::Any,
            Matcher::Missing => Matcher::Missing,
        }
    }

    /// Appends the rendering of the matcher (see `MatcherView::display`).
    pub fn push_display(&self, s: &mut String)
        ensures
            final(s)@ == old(s)@ + self@.display(),
        decreases self,
    {
        let ghost start = s@;
        match self {
            Matcher::Exact(v) => push_str(s, v.as_str()),
            Matcher::Binary(b) => {
                b.push_display(s);
                push_str(s, " (binary)");
            },
            Matcher::Regex(v) => {
                push_str(s, v.as_str());
                push_str(s, " (regex)");
            },
            Matcher::Json(v) => {
                push_str(s, v.as_str());
                push_str(s, " (json)");
            },
            Matcher::JsonString(v) => {
                push_str(s, v.as_str());
                push_str(s, " (json)");
            },
            Matcher::PartialJson(v) => {
                push_str(s, v.as_str());
                push_str(s, " (partial json)");
            },
            Matcher::PartialJsonString(v) => {
                push_str(s, v.as_str());
                push_str(s, " (partial json)");
            },
            Matcher::UrlEncoded(f, v) => {
                push_str(s, f.as_str());
                push_str(s, "=");
                push_str(s, v.as_str());
                push_str(s, " (urlencoded)");
            },
            Matcher::AnyOf(ms) => {
                push_str(s, "(");
                let j = join_displays(ms);
                proof {
                    assert(self@->AnyOf_0 =~= matchers_view(ms@));
                }
                push_str(s, j.as_str());
                push_str(s, ") (any of)");
            },
            Matcher::AllOf(ms) => {
                push_str(s, "(");
                let j = join_displays(ms);
                proof {
                    assert(self@->AllOf_0 =~= matchers_view(ms@));
                }
                push_str(s, j.as_str());
                push_str(s, ") (all of)");
            },
            Matcher::Any => push_str(s, "(any)"),
            Matcher::Missing => push_str(s, "(missing)"),
        }
        proof {
            assert(s@ =~= start + self@.display());
        }
    }

    /// The rendering of the matcher (see `MatcherView::display`).
    pub fn to_string(&self) -> (r: String)
        ensures
            r@ == self@.display(),
    {
        let mut s = String::new();
        self.push_display(&mut s);
        proof {
            assert(s@ =~= self@.display());
        }
        s
    }
}

/// Deep copies of a list of matchers.
fn duplicate_all(ms: &Vec<Matcher>) -> (r: Vec<Matcher>)
    ensures
        matchers_view(r@) == matchers_view(ms@),
    decreases ms,
{
    let mut out: Vec<Matcher> = Vec::new();
    let mut i: usize = 0;
    while i < ms.len()
        invariant
            i <= ms@.len(),
            out@.len() == i,
            forall|j: int| 0 <= j < i ==> #[trigger] out@[j]@ == ms@[j]@,
        decreases ms@.len() - i,
    {
        let m = ms[i].duplicate();
        out.push(m);
        i = i + 1;
    }
    proof {
        assert(matchers_view(out@) =~= matchers_view(ms@));
    }
    out
}

/// The renderings of a list of matchers joined as `MatcherView::joined` says.
fn join_displays(ms: &Vec<Matcher>) -> (r: String)
    ensures
        r@ == MatcherView::joined(matchers_view(ms@), ms@.len() as int),
    decreases ms,
{
    let ghost mv = matchers_view(ms@);
    let mut acc = String::new();
    let mut i: usize = 0;
    while i < ms.len()
        invariant
            mv == matchers_view(ms@),
            i <= ms@.len(),
            acc@ == MatcherView::joined(mv, i as int),
        decreases ms@.len() - i,
    {
        let mut d = String::new();
        ms[i].push_display(&mut d);
        proof {
            assert(d@ =~= ms@[i as int]@.display());
        }
        if acc.as_str().unicode_len() == 0 {
            acc = d;
        } else {
            push_str(&mut acc, ", ");
            push_str(&mut acc, d.as_str());
        }
        proof {
            assert(mv[i as int] == ms@[i as int]@);
        }
        i = i + 1;
    }
    acc
}

/// The position of the first `'?'` in `s` at or after `i`, if any.
pub open spec fn question_from(s: Seq<char>, i: int) -> Option<int>
    decreases s.len() - i,
{
    if i < 0 || i >= s.len() {
        None
    } else if s[i] == '?' {
        Some(i)
    } else {
        question_from(s, i + 1)
    }
}

/// A path-and-query string split at its first `'?'` into the path and the
/// query; without a `'?'` the query is empty.
pub open spec fn split_path_query(s: Seq<char>) -> (Seq<char>, Seq<char>) {
    match question_from(s, 0) {
        Some(k) => (s.take(k), s.skip(k + 1)),
        None => (s, Seq::empty()),
    }
}

/// Splits a path-and-query string as `split_path_query` says.
pub fn split_at_question(s: &str) -> (r: (String, String))
    ensures
        (r.0@, r.1@) == split_path_query(s@),
{
    let cs = chars_of(s);
    let mut i: usize = 0;
    while i < cs.len()
        invariant
            cs@ == s@,
            i <= cs@.len(),
            question_from(s@, 0) == question_from(s@, i as int),
        decreases cs@.len() - i,
    {
        if cs[i] == '?' {
            let mut path: Vec<char> = Vec::new();
            let mut j: usize = 0;
            while j < i
                invariant
                    cs@ == s@,
                    j <= i < cs@.len(),
                    path@ == cs@.take(j as int),
                decreases i - j,
            {
                path.push(cs[j]);
                proof {
                    assert(cs@.take(j + 1) =~= cs@.take(j as int).push(cs@[j as int]));
                }
                j = j + 1;
            }
            let mut query: Vec<char> = Vec::new();
            let mut k: usize = i + 1;
            while k < cs.len()
                invariant
                    cs@ == s@,
                    i < cs@.len(),
                    i + 1 <= k <= cs@.len(),
                    query@ == cs@.subrange(i + 1, k as int),
                decreases cs@.len() - k,
            {
                query.push(cs[k]);
                proof {
                    assert(cs@.subrange(i + 1, k + 1) =~= cs@.subrange(i + 1, k as int).push(cs@[k as int]));
                }
                k = k + 1;
            }
            proof {
                assert(cs@.subrange(i + 1, cs@.len() as int) =~= s@.skip(i + 1));
            }
            return (string_of_chars(path.as_slice()), string_of_chars(query.as_slice()));
        }
        i = i + 1;
    }
    (owned(s), String::new())
}

/// Matches the path and the query of a request, either together as one
/// string or each with a matcher of its own.
#[derive(Debug)]
pub enum PathAndQueryMatcher {
    /// One matcher for the whole path-and-query string.
    Unified(Matcher),
    /// A matcher for the path and one for the query.
    Split(Box<Matcher>, Box<Matcher>),
}

/// The plain value of a `PathAndQueryMatcher`.
pub enum PathAndQueryView {
    Unified(MatcherView),
    Split(MatcherView, MatcherView),
}

impl View for PathAndQueryMatcher {
    type V = PathAndQueryView;

    open spec fn view(&self) -> PathAndQueryView {
        match self {
            PathAndQueryMatcher::Unified(m) => PathAndQueryView::Unified(m@),
            PathAndQueryMatcher::Split(p, q) => PathAndQueryView::Split((**p)@, (**q)@),
        }
    }
}

impl PathAndQueryView {
    /// The outcome of matching a path-and-query string: the unified matcher
    /// sees it whole; split matchers see the path, and then, if the path
    /// matched, the query.
    pub open spec fn value_result(self, other: Seq<char>) -> Option<bool> {
        match self {
            PathAndQueryView::Unified(m) => m.value_result(other),
            PathAndQueryView::Split(p, q) => {
                let (path, query) = split_path_query(other);
                match p.value_result(path) {
                    None => None,
                    Some(false) => Some(false),
                    Some(true) => q.value_result(query),
                }
            },
        }
    }

    /// The rendering of the path matcher, ending with a line break.
    pub open spec fn display(self) -> Seq<char> {
        match self {
            PathAndQueryView::Unified(m) => m.display() + "\r\n"@,
            PathAndQueryView::Split(p, q) => p.display() + "?"@ + q.display() + "\r\n"@,
        }
    }
}

impl PathAndQueryView {
    /// Whether two path matchers are the same: both unified with the same
    /// matcher, or both split with the same path and query matchers.
    pub open spec fn same(self, other: PathAndQueryView) -> bool {
        match (self, other) {
            (PathAndQueryView::Unified(a), PathAndQueryView::Unified(b)) => a.same(b),
            (PathAndQueryView::Split(p, q), PathAndQueryView::Split(r, s)) => p.same(r) && q.same(s),
            _ => false,
        }
    }
}

impl PathAndQueryMatcher {
    /// Matches a path-and-query string (see `PathAndQueryView::value_result`).
    pub fn matches_value(&self, other: &str) -> (r: Option<bool>)
        ensures
            r == self@.value_result(other@),
    {
        match self {
            PathAndQueryMatcher::Unified(m) => m.matches_value(other),
            PathAndQueryMatcher::Split(p, q) => {
                let (path, query) = split_at_question(other);
                match p.matches_value(path.as_str()) {
                    None => None,
                    Some(false) => Some(false),
                    Some(true) => q.matches_value(query.as_str()),
                }
            },
        }
    }

    /// Appends the rendering (see `PathAndQueryView::display`).
    pub fn push_display(&self, s: &mut String)
        ensures
            final(s)@ == old(s)@ + self@.display(),
    {
        let ghost start = s@;
        match self {
            PathAndQueryMatcher::Unified(m) => {
                m.push_display(s);
                push_str(s, "\r\n");
            },
            PathAndQueryMatcher::Split(p, q) => {
                p.push_display(s);
                push_str(s, "?");
                q.push_display(s);
                push_str(s, "\r\n");
            },
        }
        proof {
            assert(s@ =~= start + self@.display());
        }
    }

    /// Whether two path matchers are the same (see `PathAndQueryView::same`).
    pub fn same_as(&self, other: &PathAndQueryMatcher) -> (r: bool)
        ensures
            r == self@.same(other@),
    {
        match (self, other) {
            (PathAndQueryMatcher::Unified(a), PathAndQueryMatcher::Unified(b)) => a.same_as(b),
            (PathAndQueryMatcher::Split(p, q), PathAndQueryMatcher::Split(r, s)) => {
                let same_path = (**p).same_as(&**r);
                same_path && (**q).same_as(&**s)
            },
            _ => false,
        }
    }

    /// A deep copy.
    pub fn duplicate(&self) -> (r: PathAndQueryMatcher)
        ensures
            r@ == self@,
    {
        match self {
            PathAndQueryMatcher::Unified(m) => PathAndQueryMatcher::Unified(m.duplicate()),
            PathAndQueryMatcher::Split(p, q) => PathAndQueryMatcher::Split(
                Box::new(p.duplicate()),
                Box::new(q.duplicate()),
            ),
        }
    }
}
} // verus!
