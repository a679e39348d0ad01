//! Mock definitions: what a mock matches, what it responds, and how many
//! requests it expects.
use crate::backends::{is_alphanumeric, random_alphanumeric, status_code};
use crate::diff::{compare, is_difference};
use crate::matcher::{Matcher, MatcherView, PathAndQueryMatcher, PathAndQueryView};
use crate::request::{Request, RequestView};
use crate::response::{default_response, Body, BodyView, Response, ResponseView};
use crate::server::{Server, StateView};
use crate::text::{
    decimal, push_decimal, push_str, str_eq, to_lowercase, to_uppercase, unicode_lowercase,
    unicode_uppercase, utf8_lossy, utf8_lossy_decode,
};
use vstd::prelude::*;

verus! {

/// The definition of a mock as the server keeps it.
#[derive(Debug)]
pub struct InnerMock {
    id: String,
    method: String,
    path: PathAndQueryMatcher,
    headers: Vec<(String, Matcher)>,
    body: Matcher,
    response: Response,
    hits: usize,
    expected_hits_at_least: Option<usize>,
    expected_hits_at_most: Option<usize>,
}

/// The plain value of an `InnerMock`.
pub struct InnerMockView {
    pub id: Seq<char>,
    pub method: Seq<char>,
    pub path: PathAndQueryView,
    pub headers: Seq<(Seq<char>, MatcherView)>,
    pub body: MatcherView,
    pub response: ResponseView,
    pub hits: usize,
    pub expected_hits_at_least: Option<usize>,
    pub expected_hits_at_most: Option<usize>,
}

/// The views of a list of header matchers.
pub open spec fn header_matchers_view(v: Seq<(String, Matcher)>) -> Seq<(Seq<char>, MatcherView)> {
    Seq::new(v.len(), |i: int| (v[i].0@, v[i].1@))
}

impl View for InnerMock {
    type V = InnerMockView;

    closed spec fn view(&self) -> InnerMockView {
        InnerMockView {
            id: self.id@,
            method: self.method@,
            path: self.path@,
            headers: header_matchers_view(self.headers@),
            body: self.body@,
            response: self.response@,
            hits: self.hits,
            expected_hits_at_least: self.expected_hits_at_least,
            expected_hits_at_most: self.expected_hits_at_most,
        }
    }
}

/// The rendering of header matchers, one `field: matcher` line each.
pub open spec fn header_matchers_display(hs: Seq<(Seq<char>, MatcherView)>) -> Seq<char>
    decreases hs.len(),
{
    if hs.len() == 0 {
        Seq::empty()
    } else {
        header_matchers_display(hs.drop_last()) + hs.last().0 + ": "@ + hs.last().1.display() + "\r\n"@
    }
}

/// The rendering of a body matcher inside a mock's rendering.
pub open spec fn body_display(m: MatcherView) -> Seq<char> {
    match m {
        MatcherView::Exact(v) => v + "\r\n"@,
        MatcherView::JsonString(v) => v + "\r\n"@,
        MatcherView::PartialJsonString(v) => v + "\r\n"@,
        MatcherView::Regex(v) => v + "\r\n"@,
        MatcherView::Binary(_) => "(binary)\r\n"@,
        MatcherView::Json(v) => v + "\r\n"@,
        MatcherView::PartialJson(v) => v + "\r\n"@,
        MatcherView::UrlEncoded(f, v) => f + "="@ + v,
        MatcherView::Missing => "(missing)\r\n"@,
        MatcherView::AnyOf(_) => "(any of)\r\n"@,
        MatcherView::AllOf(_) => "(all of)\r\n"@,
        MatcherView::Any => Seq::empty(),
    }
}

/// The first value in `vs` for which `f` gives `None`, or else the
/// conjunction of all of them, computed in order and stopping at the first
/// `Some(false)`.
pub open spec fn headers_result_from(
    hs: Seq<(Seq<char>, MatcherView)>,
    request: RequestView,
    i: int,
) -> Option<bool>
    decreases hs.len() - i,
{
    if i < 0 || i >= hs.len() {
        Some(true)
    } else {
        match hs[i].1.values_result(request.header(hs[i].0)) {
            None => None,
            Some(false) => Some(false),
            Some(true) => headers_result_from(hs, request, i + 1),
        }
    }
}

/// Whether two lists of header matchers are the same: equal names, in the
/// same order, with the same matchers.
pub open spec fn header_matchers_same(hs: Seq<(Seq<char>, MatcherView)>, gs: Seq<(Seq<char>, MatcherView)>) -> bool {
    hs.len() == gs.len() && forall|i: int| #![trigger hs[i]] 0 <= i < hs.len() ==> hs[i].0 == gs[i].0 && hs[i].1.same(gs[i].1)
}

impl InnerMockView {
    /// Whether `hits` requests fulfil the mock's expectation: between the
    /// bounds that are set, and exactly one where none is.
    pub open spec fn matched_hits(self, hits: int) -> bool {
        match (self.expected_hits_at_least, self.expected_hits_at_most) {
            (Some(min), Some(max)) => min <= hits && hits <= max,
            (Some(min), None) => min <= hits,
            (None, Some(max)) => hits <= max,
            (None, None) => hits == 1,
        }
    }

    /// Whether the mock still waits for requests: fewer hits than the upper
    /// bound where one is set, else than the lower bound, else than one.
    pub open spec fn is_missing_hits(self) -> bool {
        match (self.expected_hits_at_least, self.expected_hits_at_most) {
            (Some(_), Some(max)) => self.hits < max,
            (Some(min), None) => self.hits < min,
            (None, Some(max)) => self.hits < max,
            (None, None) => self.hits < 1,
        }
    }

    /// The outcome of matching a request: the method, then the path and
    /// query, then each header matcher in turn, then the body, stopping at
    /// the first that does not match. The body is compared as text (UTF-8,
    /// invalid sequences replaced) and, failing that, as bytes. `None` where
    /// a matcher cannot complete, or where the request body was not read.
    pub open spec fn request_result(self, request: RequestView) -> Option<bool> {
        if self.method != request.method {
            Some(false)
        } else {
            match self.path.value_result(request.path_and_query) {
                None => None,
                Some(false) => Some(false),
                Some(true) => match headers_result_from(self.headers, request, 0) {
                    None => None,
                    Some(false) => Some(false),
                    Some(true) => match request.body {
                        None => None,
                        Some(b) => match self.body.value_result(utf8_lossy_decode(b)) {
                            None => None,
                            Some(true) => Some(true),
                            Some(false) => Some(self.body.binary_result(b)),
                        },
                    },
                },
            }
        }
    }

    /// The rendering of a mock: its method and path, its header matchers,
    /// and its body matcher.
    pub open spec fn display(self) -> Seq<char> {
        "\r\n"@ + self.method + " "@ + self.path.display() + header_matchers_display(self.headers)
            + body_display(self.body)
    }

    /// The mock expecting exactly `hits` requests.
    pub open spec fn with_exactly(self, hits: usize) -> InnerMockView {
        InnerMockView { expected_hits_at_least: Some(hits), expected_hits_at_most: Some(hits), ..self }
    }

    /// The mock expecting at least `hits` requests, without an upper bound
    /// below that.
    pub open spec fn with_at_least(self, hits: usize) -> InnerMockView {
        InnerMockView {
            expected_hits_at_least: Some(hits),
            expected_hits_at_most: match self.expected_hits_at_most {
                Some(max) => if max < hits {
                    None
                } else {
                    Some(max)
                },
                None => None,
            },
            ..self
        }
    }

    /// The mock expecting at most `hits` requests, without a lower bound
    /// above that.
    pub open spec fn with_at_most(self, hits: usize) -> InnerMockView {
        InnerMockView {
            expected_hits_at_most: Some(hits),
            expected_hits_at_least: match self.expected_hits_at_least {
                Some(min) => if min > hits {
                    None
                } else {
                    Some(min)
                },
                None => None,
            },
            ..self
        }
    }

    /// Whether a lower and an upper bound, where both are set, are in order.
    pub open spec fn bounds_in_order(self) -> bool {
        match (self.expected_hits_at_least, self.expected_hits_at_most) {
            (Some(min), Some(max)) => min <= max,
            _ => true,
        }
    }

    /// Whether two mock definitions are the same: identifier, method, path,
    /// header matchers, body matcher, response and hits; the expectations
    /// are not compared.
    pub open spec fn same(self, other: InnerMockView) -> bool {
        &&& self.id == other.id
        &&& self.method == other.method
        &&& self.path.same(other.path)
        &&& header_matchers_same(self.headers, other.headers)
        &&& self.body.same(other.body)
        &&& self.response.same(other.response)
        &&& self.hits == other.hits
    }

    /// The mock with its number of hits replaced.
    pub open spec fn with_hits(self, hits: usize) -> InnerMockView {
        InnerMockView { hits, ..self }
    }
}

impl InnerMock {
    /// Whether two mock definitions are the same (see `InnerMockView::same`).
    pub fn same_as(&self, other: &InnerMock) -> (r: bool)
        ensures
            r == self@.same(other@),
    {
        if self.id != other.id || self.method != other.method || self.hits != other.hits {
            return false;
        }
        if !self.path.same_as(&other.path) || !self.body.same_as(&other.body) || !self.response.same_as(
            &other.response,
        ) {
            return false;
        }
        if self.headers.len() != other.headers.len() {
            proof {
                assert(self@.headers.len() == self.headers@.len());
                assert(other@.headers.len() == other.headers@.len());
            }
            return false;
        }
        let ghost hv = self@.headers;
        let ghost gv = other@.headers;
        let mut i: usize = 0;
        while i < self.headers.len()
            invariant
                hv == self@.headers,
                gv == other@.headers,
                hv.len() == gv.len(),
                self.headers@.len() == hv.len(),
                other.headers@.len() == gv.len(),
                i <= hv.len(),
                forall|j: int| #![trigger hv[j]] 0 <= j < i ==> hv[j].0 == gv[j].0 && hv[j].1.same(gv[j].1),
            decreases hv.len() - i,
        {
            let (name, matcher) = &self.headers[i];
            let (other_name, other_matcher) = &other.headers[i];
            proof {
                assert(hv[i as int] == (name@, matcher@));
                assert(gv[i as int] == (other_name@, other_matcher@));
            }
            let same_name = *name == *other_name;
            let same_matcher = matcher.same_as(other_matcher);
            if !same_name || !same_matcher {
                proof {
                    assert(!(hv[i as int].0 == gv[i as int].0 && hv[i as int].1.same(gv[i as int].1)));
                    assert(!header_matchers_same(hv, gv));
                }
                return false;
            }
            i = i + 1;
        }
        true
    }

    /// The identifier of the mock.
    pub fn id(&self) -> (r: &str)
        ensures
            r@ == self@.id,
    {
        self.id.as_str()
    }

    /// The number of requests the mock has answered.
    pub fn hits(&self) -> (r: usize)
        ensures
            r == self@.hits,
    {
        self.hits
    }

    /// Counts one more answered request.
    pub fn record_hit(&mut self)
        requires
            old(self)@.hits < usize::MAX,
        ensures
            final(self)@ == old(self)@.with_hits((old(self)@.hits + 1) as usize),
    {
        self.hits = self.hits + 1;
    }

    /// The mock's response.
    pub fn response(&self) -> (r: &Response)
        ensures
            r@ == self@.response,
    {
        &self.response
    }

    /// Whether `hits` requests fulfil the expectation (see `InnerMockView::matched_hits`).
    pub fn matched_hits(&self, hits: usize) -> (r: bool)
        ensures
            r == self@.matched_hits(hits as int),
    {
        match (self.expected_hits_at_least, self.expected_hits_at_most) {
            (Some(min), Some(max)) => hits >= min && hits <= max,
            (Some(min), None) => hits >= min,
            (None, Some(max)) => hits <= max,
            (None, None) => hits == 1,
        }
    }

    /// Whether the mock still waits for requests (see `InnerMockView::is_missing_hits`).
    pub fn is_missing_hits(&self) -> (r: bool)
        ensures
            r == self@.is_missing_hits(),
    {
        match (self.expected_hits_at_least, self.expected_hits_at_most) {
            (Some(_at_least), Some(at_most)) => self.hits < at_most,
            (Some(at_least), None) => self.hits < at_least,
            (None, Some(at_most)) => self.hits < at_most,
            (None, None) => self.hits < 1,
        }
    }

    /// Matches a request (see `InnerMockView::request_result`).
    pub fn matches(&self, request: &Request) -> (r: Option<bool>)
        ensures
            r == self@.request_result(request@),
    {
        if !str_eq(self.method.as_str(), request.method()) {
            return Some(false);
        }
        match self.path.matches_value(request.path_and_query()) {
            None => { return None; },
            Some(false) => { return Some(false); },
            Some(true) => {},
        }
        let ghost hv = header_matchers_view(self.headers@);
        let mut i: usize = 0;
        while i < self.headers.len()
            invariant
                hv == header_matchers_view(self.headers@),
                hv == self@.headers,
                self@.method == request@.method,
                self@.path.value_result(request@.path_and_query) == Some(true),
                i <= self.headers@.len(),
                headers_result_from(hv, request@, 0) == headers_result_from(hv, request@, i as int),
            decreases self.headers@.len() - i,
        {
            let pair = &self.headers[i];
            let values = request.header(pair.0.as_str());
            proof {
                assert(hv[i as int] == (pair.0@, pair.1@));
            }
            match pair.1.matches_values(values.as_slice()) {
                None => { return None; },
                Some(false) => { return Some(false); },
                Some(true) => {},
            }
            i = i + 1;
        }
        match request.body() {
            Err(_) => None,
            Ok(body) => {
                let text = utf8_lossy(body.as_slice());
                match self.body.matches_value(text.as_str()) {
                    None => None,
                    Some(true) => Some(true),
                    Some(false) => Some(self.body.matches_binary_value(body.as_slice())),
                }
            },
        }
    }

    /// Appends the rendering of the mock (see `InnerMockView::display`).
    pub fn push_display(&self, s: &mut String)
        ensures
            final(s)@ == old(s)@ + self@.display(),
    {
        let ghost start = s@;
        push_str(s, "\r\n");
        push_str(s, self.method.as_str());
        push_str(s, " ");
        self.path.push_display(s);
        let ghost head = s@;
        let ghost hv = header_matchers_view(self.headers@);
        let mut i: usize = 0;
        while i < self.headers.len()
            invariant
                hv == header_matchers_view(self.headers@),
                i <= self.headers@.len(),
                s@ == head + header_matchers_display(hv.take(i as int)),
            decreases self.headers@.len() - i,
        {
            let pair = &self.headers[i];
            push_str(s, pair.0.as_str());
            push_str(s, ": ");
            pair.1.push_display(s);
            push_str(s, "\r\n");
            proof {
                assert(hv[i as int] == (pair.0@, pair.1@));
                assert(hv.take(i + 1).drop_last() =~= hv.take(i as int));
                assert(s@ =~= head + header_matchers_display(hv.take(i + 1)));
            }
            i = i + 1;
        }
        proof {
            assert(hv.take(self.headers@.len() as int) =~= hv);
        }
        let ghost mid = s@;
        match &self.body {
            Matcher::Exact(v) => {
                push_str(s, v.as_str());
                push_str(s, "\r\n");
            },
            Matcher::JsonString(v) => {
                push_str(s, v.as_str());
                push_str(s, "\r\n");
            },
            Matcher::PartialJsonString(v) => {
                push_str(s, v.as_str());
                push_str(s, "\r\n");
            },
            Matcher::Regex(v) => {
                push_str(s, v.as_str());
                push_str(s, "\r\n");
            },
            Matcher::Binary(_) => push_str(s, "(binary)\r\n"),
            Matcher::Json(v) => {
                push_str(s, v.as_str());
                push_str(s, "\r\n");
            },
            Matcher::PartialJson(v) => {
                push_str(s, v.as_str());
                push_str(s, "\r\n");
            },
            Matcher::UrlEncoded(f, v) => {
                push_str(s, f.as_str());
                push_str(s, "=");
                push_str(s, v.as_str());
            },
            Matcher::Missing => push_str(s, "(missing)\r\n"),
            Matcher::AnyOf(_) => push_str(s, "(any of)\r\n"),
            Matcher::AllOf(_) => push_str(s, "(all of)\r\n"),
            Matcher::Any => {},
        }
        proof {
            assert(s@ =~= mid + body_display(self.body@));
            assert(s@ =~= start + self@.display());
        }
    }

    /// A copy of the mock.
    pub fn duplicate(&self) -> (r: InnerMock)
        ensures
            r@ == self@,
    {
        let ghost hv = header_matchers_view(self.headers@);
        let mut headers: Vec<(String, Matcher)> = Vec::new();
        let mut i: usize = 0;
        while i < self.headers.len()
            invariant
                hv == header_matchers_view(self.headers@),
                i <= self.headers@.len(),
                headers@.len() == i,
                header_matchers_view(headers@) == hv.take(i as int),
            decreases self.headers@.len() - i,
        {
            let pair = &self.headers[i];
            let f = pair.0.clone();
            let m = pair.1.duplicate();
            headers.push((f, m));
            proof {
                assert(headers@[i as int] == (f, m));
                assert(header_matchers_view(headers@) =~= hv.take(i + 1));
            }
            i = i + 1;
        }
        proof {
            assert(hv.take(self.headers@.len() as int) =~= hv);
        }
        InnerMock {
            id: self.id.clone(),
            method: self.method.clone(),
            path: self.path.duplicate(),
            headers,
            body: self.body.duplicate(),
            response: self.response.duplicate(),
            hits: self.hits,
            expected_hits_at_least: self.expected_hits_at_least,
            expected_hits_at_most: self.expected_hits_at_most,
        }
    }
}

/// A mocked request: what it matches, what it responds and how many
/// requests it expects. Created with `Server::mock`, registered with
/// `Mock::create`.
#[derive(Debug)]
pub struct Mock {
    inner: InnerMock,
    created: bool,
}

/// The plain value of a `Mock`.
pub struct MockView {
    pub inner: InnerMockView,
    pub created: bool,
}

impl View for Mock {
    type V = MockView;

    closed spec fn view(&self) -> MockView {
        MockView { inner: self.inner@, created: self.created }
    }
}

/// The message that reports a mock whose expectation was not met: what
/// was expected, how many requests came, and, where there is one, the last
/// unmatched request together with its difference from the mock.
pub open spec fn assert_message(
    m: InnerMockView,
    hits: usize,
    last: Option<(Seq<char>, Seq<char>)>,
) -> Seq<char> {
    let shown = m.display();
    let tail = " request(s) to:\n"@ + shown + "\n...but received "@ + decimal(hits as nat) + "\n\n"@;
    let head = match (m.expected_hits_at_least, m.expected_hits_at_most) {
        (Some(min), Some(max)) => if min == max {
            "\n> Expected "@ + decimal(min as nat) + tail
        } else {
            "\n> Expected between "@ + decimal(min as nat) + " and "@ + decimal(max as nat) + tail
        },
        (Some(min), None) => "\n> Expected at least "@ + decimal(min as nat) + tail,
        (None, Some(max)) => "\n> Expected at most "@ + decimal(max as nat) + tail,
        (None, None) => "\n> Expected 1"@ + tail,
    };
    match last {
        Some((request, difference)) => head + "> The last unmatched request was:\n"@ + request + "\n"@
            + "> Difference:\n"@ + difference + "\n"@,
        None => head,
    }
}

/// Whether `msg` reports mock `m` with `hits` requests and the last
/// unmatched request, if any: `assert_message` with a difference between
/// the mock's rendering and that request (see `is_difference`).
pub open spec fn is_assert_message(
    m: InnerMockView,
    hits: usize,
    last_request: Option<Seq<char>>,
    msg: Seq<char>,
) -> bool {
    match last_request {
        None => msg == assert_message(m, hits, None),
        Some(l) => is_message_for(m, hits, l, msg),
    }
}

/// Whether `msg` reports mock `m` with `hits` requests and the last
/// unmatched request `l`, with some difference between them.
pub open spec fn is_message_for(m: InnerMockView, hits: usize, l: Seq<char>, msg: Seq<char>) -> bool {
    exists|d: Seq<char>| #[trigger] is_message_with(m, hits, l, d, msg)
}

/// Whether `msg` reports mock `m` with `hits` requests, the last unmatched
/// request `l` and `d` as their difference.
pub open spec fn is_message_with(m: InnerMockView, hits: usize, l: Seq<char>, d: Seq<char>, msg: Seq<char>) -> bool {
    is_difference(m.display(), l, d) && msg == assert_message(m, hits, Some((l, d)))
}

/// The message of an assertion on a mock that the server does not know.
pub open spec fn unknown_mock_message() -> Seq<char> {
    "could not retrieve enough information about the remote mock"@
}

/// Whether `r` is what asserting the expectation of mock `m` on a server
/// in state `state` gives: `Ok` where the server knows the mock and its hits
/// fulfil the expectation; otherwise the message that reports the failure.
pub open spec fn is_assert_outcome(m: InnerMockView, state: StateView, r: Result<(), Seq<char>>) -> bool {
    match state.mock_hits(m.id) {
        None => r == Err::<(), Seq<char>>(unknown_mock_message()),
        Some(h) => if m.matched_hits(h as int) {
            r is Ok
        } else {
            r matches Err(msg) && is_assert_message(m, h, state.last_unmatched(), msg)
        },
    }
}

/// Whether the expectation of mock `m` is fulfilled on a server in state
/// `state`: false where the server does not know the mock.
pub open spec fn matched_outcome(m: InnerMockView, state: StateView) -> bool {
    match state.mock_hits(m.id) {
        None => false,
        Some(h) => m.matched_hits(h as int),
    }
}

impl Mock {
    /// A new, not yet registered mock for `method` (upper-cased) and `path`:
    /// a fresh random identifier of 24 ASCII letters and digits, any headers,
    /// any body, the default response, no hits and no explicit expectation.
    pub fn new(method: &str, path: Matcher) -> (r: Mock)
        ensures
            r@.inner.id.len() == 24,
            forall|i: int| 0 <= i < 24 ==> is_alphanumeric(#[trigger] r@.inner.id[i]),
            r@.inner.method == unicode_uppercase(method@),
            r@.inner.path == PathAndQueryView::Unified(path@),
            r@.inner.headers == Seq::<(Seq<char>, MatcherView)>::empty(),
            r@.inner.body == MatcherView::Any,
            r@.inner.response == default_response(),
            r@.inner.hits == 0,
            r@.inner.expected_hits_at_least is None,
            r@.inner.expected_hits_at_most is None,
            !r@.created,
    {
        let inner = InnerMock {
            id: random_alphanumeric(24),
            method: to_uppercase(method),
            path: PathAndQueryMatcher::Unified(path),
            headers: Vec::new(),
            body: Matcher::Any,
            response: Response::default(),
            hits: 0,
            expected_hits_at_least: None,
            expected_hits_at_most: None,
        };
        proof {
            assert(inner@.headers =~= Seq::<(Seq<char>, MatcherView)>::empty());
        }
        Mock { inner, created: false }
    }

    /// Whether two mocks have the same definition (see `InnerMockView::same`).
    pub fn same_as(&self, other: &Mock) -> (r: bool)
        ensures
            r == self@.inner.same(other@.inner),
    {
        self.inner.same_as(&other.inner)
    }

    /// The warning for a mock that is dropped without having been created:
    /// `None` for a created mock.
    pub fn missing_create_warning(&self) -> (r: Option<String>)
        ensures
            match r {
                Some(w) => !self@.created && w@ == "Missing .create() call on mock "@ + self@.inner.display(),
                None => self@.created,
            },
    {
        if self.created {
            None
        } else {
            let mut w = String::new();
            push_str(&mut w, "Missing .create() call on mock ");
            self.inner.push_display(&mut w);
            Some(w)
        }
    }

    /// The identifier of the mock.
    pub fn id(&self) -> (r: &str)
        ensures
            r@ == self@.inner.id,
    {
        self.inner.id()
    }

    /// The definition of the mock.
    pub fn inner(&self) -> (r: &InnerMock)
        ensures
            r@ == self@.inner,
    {
        &self.inner
    }

    /// Matches the query separately from the path; the path keeps its
    /// matcher, and a query matcher set before is replaced.
    pub fn match_query(self, query: Matcher) -> (r: Mock)
        ensures
            r@.inner == (InnerMockView {
                path: match self@.inner.path {
                    PathAndQueryView::Unified(p) => PathAndQueryView::Split(p, query@),
                    PathAndQueryView::Split(p, _) => PathAndQueryView::Split(p, query@),
                },
                ..self@.inner
            }),
            r@.created == self@.created,
    {
        let mut s = self;
        let new_path = match &s.inner.path {
            PathAndQueryMatcher::Unified(matcher) => PathAndQueryMatcher::Split(
                Box::new(matcher.duplicate()),
                Box::new(query),
            ),
            PathAndQueryMatcher::Split(path, _) => PathAndQueryMatcher::Split(
                Box::new(path.duplicate()),
                Box::new(query),
            ),
        };
        s.inner.path = new_path;
        s
    }

    /// Adds a matcher for the header `field`, whose name is lower-cased.
    pub fn match_header(self, field: &str, value: Matcher) -> (r: Mock)
        ensures
            r@.inner == (InnerMockView {
                headers: self@.inner.headers.push((unicode_lowercase(field@), value@)),
                ..self@.inner
            }),
            r@.created == self@.created,
    {
        let mut s = self;
        let ghost before = s.inner.headers@;
        s.inner.headers.push((to_lowercase(field), value));
        proof {
            assert(header_matchers_view(s.inner.headers@) =~= header_matchers_view(before).push(
                (unicode_lowercase(field@), s.inner.headers@.last().1@),
            ));
        }
        s
    }

    /// Sets the matcher for the body.
    pub fn match_body(self, body: Matcher) -> (r: Mock)
        ensures
            r@.inner == (InnerMockView { body: body@, ..self@.inner }),
            r@.created == self@.created,
    {
        let mut s = self;
        s.inner.body = body;
        s
    }

    /// Sets the status code of the response; the code, taken modulo 2^16,
    /// must lie between 100 and 999.
    pub fn with_status(self, status: usize) -> (r: Mock)
        requires
            100 <= (status as u16) && (status as u16) <= 999,
        ensures
            r@.inner == (InnerMockView {
                response: ResponseView { status: status as u16, ..self@.inner.response },
                ..self@.inner
            }),
            r@.created == self@.created,
    {
        let mut s = self;
        let code: u16 = status as u16;
        match status_code(code) {
            Some(c) => {
                s.inner.response.status = c;
            },
            None => {},
        }
        s
    }

    /// Adds a header to the response.
    pub fn with_header(self, field: &str, value: &str) -> (r: Mock)
        ensures
            r@.inner == (InnerMockView {
                response: ResponseView {
                    headers: self@.inner.response.headers.push((field@, value@)),
                    ..self@.inner.response
                },
                ..self@.inner
            }),
            r@.created == self@.created,
    {
        let mut s = self;
        let ghost before = s.inner.response.headers@;
        s.inner.response.headers.push((String::from_str(field), String::from_str(value)));
        proof {
            assert(crate::request::fields_view(s.inner.response.headers@) =~= crate::request::fields_view(
                before,
            ).push((field@, value@)));
        }
        s
    }

    /// Sets fixed bytes as the body of the response.
    pub fn with_body(self, body: &[u8]) -> (r: Mock)
        ensures
            r@.inner == (InnerMockView {
                response: ResponseView { body: BodyView::Bytes(body@), ..self@.inner.response },
                ..self@.inner
            }),
            r@.created == self@.created,
    {
        let mut s = self;
        s.inner.response.body = Body::Bytes(crate::matcher::copy_bytes(body));
        s
    }

    /// Marks the response body as written by a callback as a chunked stream;
    /// the callback itself is kept by the caller under the mock's identifier.
    pub fn with_chunked_body(self) -> (r: Mock)
        ensures
            r@.inner == (InnerMockView {
                response: ResponseView { body: BodyView::Chunked, ..self@.inner.response },
                ..self@.inner
            }),
            r@.created == self@.created,
    {
        let mut s = self;
        s.inner.response.body = Body::Chunked;
        s
    }

    /// The former name of `with_chunked_body`.
    pub fn with_body_from_fn(self) -> (r: Mock)
        ensures
            r@.inner == (InnerMockView {
                response: ResponseView { body: BodyView::Chunked, ..self@.inner.response },
                ..self@.inner
            }),
            r@.created == self@.created,
    {
        self.with_chunked_body()
    }

    /// Marks the response body as computed by a callback from the request;
    /// the callback itself is kept by the caller under the mock's identifier.
    pub fn with_body_from_request(self) -> (r: Mock)
        ensures
            r@.inner == (InnerMockView {
                response: ResponseView { body: BodyView::FromRequest, ..self@.inner.response },
                ..self@.inner
            }),
            r@.created == self@.created,
    {
        let mut s = self;
        s.inner.response.body = Body::FromRequest;
        s
    }

    /// Expects exactly `hits` requests.
    pub fn expect(self, hits: usize) -> (r: Mock)
        ensures
            r@.inner == self@.inner.with_exactly(hits),
            r@.created == self@.created,
    {
        let mut s = self;
        s.inner.expected_hits_at_least = Some(hits);
        s.inner.expected_hits_at_most = Some(hits);
        s
    }

    /// Expects at least `hits` requests; an upper bound below it is dropped.
    pub fn expect_at_least(self, hits: usize) -> (r: Mock)
        ensures
            r@.inner == self@.inner.with_at_least(hits),
            r@.created == self@.created,
    {
        let mut s = self;
        s.inner.expected_hits_at_least = Some(hits);
        match s.inner.expected_hits_at_most {
            Some(max) => {
                if max < hits {
                    s.inner.expected_hits_at_most = None;
                }
            },
            None => {},
        }
        s
    }

    /// Expects at most `hits` requests; a lower bound above it is dropped.
    pub fn expect_at_most(self, hits: usize) -> (r: Mock)
        ensures
            r@.inner == self@.inner.with_at_most(hits),
            r@.created == self@.created,
    {
        let mut s = self;
        s.inner.expected_hits_at_most = Some(hits);
        match s.inner.expected_hits_at_least {
            Some(min) => {
                if min > hits {
                    s.inner.expected_hits_at_least = None;
                }
            },
            None => {},
        }
        s
    }

    /// Whether `hits` requests fulfil the expectation.
    pub fn matched_hits(&self, hits: usize) -> (r: bool)
        ensures
            r == self@.inner.matched_hits(hits as int),
    {
        self.inner.matched_hits(hits)
    }

    /// The rendering of the mock (see `InnerMockView::display`).
    pub fn to_string(&self) -> (r: String)
        ensures
            r@ == self@.inner.display(),
    {
        let mut s = String::new();
        self.inner.push_display(&mut s);
        proof {
            assert(s@ =~= self@.inner.display());
        }
        s
    }

    /// The message reporting an unmet expectation (see `is_assert_message`).
    pub fn build_assert_message(&self, hits: usize, last_request: Option<String>) -> (r: String)
        ensures
            is_assert_message(
                self@.inner,
                hits,
                match last_request {
                    Some(l) => Some(l@),
                    None => None::<Seq<char>>,
                },
                r@,
            ),
    {
        let shown = self.to_string();
        let mut s = String::new();
        match (self.inner.expected_hits_at_least, self.inner.expected_hits_at_most) {
            (Some(min), Some(max)) => {
                if min == max {
                    push_str(&mut s, "\n> Expected ");
                    push_decimal(&mut s, min);
                } else {
                    push_str(&mut s, "\n> Expected between ");
                    push_decimal(&mut s, min);
                    push_str(&mut s, " and ");
                    push_decimal(&mut s, max);
                }
            },
            (Some(min), None) => {
                push_str(&mut s, "\n> Expected at least ");
                push_decimal(&mut s, min);
            },
            (None, Some(max)) => {
                push_str(&mut s, "\n> Expected at most ");
                push_decimal(&mut s, max);
            },
            (None, None) => {
                push_str(&mut s, "\n> Expected 1");
            },
        }
        push_str(&mut s, " request(s) to:\n");
        push_str(&mut s, shown.as_str());
        push_str(&mut s, "\n...but received ");
        push_decimal(&mut s, hits);
        push_str(&mut s, "\n\n");
        let ghost head = s@;
        proof {
            assert(head =~= assert_message(self@.inner, hits, None));
        }
        match &last_request {
            Some(last) => {
                push_str(&mut s, "> The last unmatched request was:\n");
                push_str(&mut s, last.as_str());
                push_str(&mut s, "\n");
                let difference = compare(shown.as_str(), last.as_str());
                push_str(&mut s, "> Difference:\n");
                push_str(&mut s, difference.as_str());
                push_str(&mut s, "\n");
                proof {
                    assert(s@ =~= assert_message(self@.inner, hits, Some((last@, difference@))));
                    assert(is_message_with(self@.inner, hits, last@, difference@, s@));
                    assert(is_assert_message(self@.inner, hits, Some(last@), s@));
                }
            },
            None => {
                proof {
                    assert(is_assert_message(self@.inner, hits, None, s@));
                }
            },
        }
        s
    }

    /// Checks that the expected number of requests reached the mock on
    /// `server`: `Ok` where it did; otherwise the message that reports the
    /// failure, which names the last unmatched request where there is one.
    pub fn assert_hits(&self, server: &Server) -> (r: Result<(), String>)
        ensures
            is_assert_outcome(
                self@.inner,
                server@.state,
                match r {
                    Ok(_) => Ok(()),
                    Err(m) => Err(m@),
                },
            ),
    {
        match server.state().get_mock_hits(self.inner.id()) {
            Some(hits) => {
                if self.inner.matched_hits(hits) {
                    Ok(())
                } else {
                    let last_request = server.state().get_last_unmatched_request();
                    Err(self.build_assert_message(hits, last_request))
                }
            },
            None => Err(String::from_str("could not retrieve enough information about the remote mock")),
        }
    }

    /// Whether the expected number of requests reached the mock on `server`;
    /// false where the server does not know the mock.
    pub fn matched(&self, server: &Server) -> (r: bool)
        ensures
            r == matched_outcome(self@.inner, server@.state),
    {
        match server.state().get_mock_hits(self.inner.id()) {
            Some(hits) => self.inner.matched_hits(hits),
            None => false,
        }
    }

    /// Registers the mock on `server`, which serves it from then on.
    pub fn create(self, server: &mut Server) -> (r: Mock)
        ensures
            r@.inner == self@.inner,
            r@.created,
            final(server)@.address == old(server)@.address,
            final(server)@.state.mocks == old(server)@.state.mocks.push(self@.inner),
            final(server)@.state.unmatched == old(server)@.state.unmatched,
    {
        let mut s = self;
        server.add_mock(s.inner.duplicate());
        s.created = true;
        s
    }

    /// Removes the mock from `server` (the first one it holds with the
    /// mock's identifier).
    pub fn remove(&self, server: &mut Server)
        ensures
            final(server)@.address == old(server)@.address,
            final(server)@.state == old(server)@.state.without_mock(self@.inner.id),
    {
        server.remove_mock(self.inner.id());
    }
}

} // verus!
