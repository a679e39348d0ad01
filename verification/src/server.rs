//! The bookkeeping of a mock server: the registered mocks with their hit
//! counts, the requests that no mock matched, and the choice of the mock
//! that answers a request.
use crate::matcher::Matcher;
use crate::mock::{InnerMock, InnerMockView, Mock};
use crate::request::{Request, RequestView};
use crate::response::{plan_response, planned_response, ResponsePlan, ResponsePlanView};
use crate::text::{owned, push_str, str_eq};
use vstd::prelude::*;

verus! {

/// A mock registered on a server.
#[derive(Debug)]
pub struct RemoteMock {
    inner: InnerMock,
}

impl View for RemoteMock {
    type V = InnerMockView;

    closed spec fn view(&self) -> InnerMockView {
        self.inner@
    }
}

impl RemoteMock {
    /// Wraps a mock definition.
    pub fn new(inner: InnerMock) -> (r: RemoteMock)
        ensures
            r@ == inner@,
    {
        RemoteMock { inner }
    }

    /// The mock definition.
    pub fn inner(&self) -> (r: &InnerMock)
        ensures
            r@ == self@,
    {
        &self.inner
    }
}

/// The views of a list of registered mocks.
pub open spec fn mocks_view(v: Seq<RemoteMock>) -> Seq<InnerMockView> {
    Seq::new(v.len(), |i: int| v[i]@)
}

/// The views of a list of requests.
pub open spec fn requests_view(v: Seq<Request>) -> Seq<RequestView> {
    Seq::new(v.len(), |i: int| v[i]@)
}

/// The state of a server: the registered mocks, in order of registration,
/// and the requests that no mock matched, in order of arrival.
#[derive(Debug)]
pub struct State {
    mocks: Vec<RemoteMock>,
    unmatched_requests: Vec<Request>,
}

/// The plain value of a `State`.
pub struct StateView {
    pub mocks: Seq<InnerMockView>,
    pub unmatched: Seq<RequestView>,
}

impl View for State {
    type V = StateView;

    closed spec fn view(&self) -> StateView {
        StateView { mocks: mocks_view(self.mocks@), unmatched: requests_view(self.unmatched_requests@) }
    }
}

/// The position of the first mock with identifier `id` at or after `i`.
pub open spec fn position_of(mocks: Seq<InnerMockView>, id: Seq<char>, i: int) -> Option<int>
    decreases mocks.len() - i,
{
    if i < 0 || i >= mocks.len() {
        None
    } else if mocks[i].id == id {
        Some(i)
    } else {
        position_of(mocks, id, i + 1)
    }
}

/// Whether matching `request` against some of `mocks` cannot complete.
pub open spec fn some_match_fails(mocks: Seq<InnerMockView>, request: RequestView) -> bool {
    exists|i: int| 0 <= i < mocks.len() && (#[trigger] mocks[i].request_result(request)) is None
}

/// Whether the `i`-th mock matches `request`.
pub open spec fn matches_at(mocks: Seq<InnerMockView>, request: RequestView, i: int) -> bool {
    mocks[i].request_result(request) == Some(true)
}

/// The first mock at or after `i` that matches `request` and still waits
/// for requests.
pub open spec fn first_waiting_from(mocks: Seq<InnerMockView>, request: RequestView, i: int) -> Option<int>
    decreases mocks.len() - i,
{
    if i < 0 || i >= mocks.len() {
        None
    } else if matches_at(mocks, request, i) && mocks[i].is_missing_hits() {
        Some(i)
    } else {
        first_waiting_from(mocks, request, i + 1)
    }
}

/// The last mock before `n` that matches `request`.
pub open spec fn last_matching_before(mocks: Seq<InnerMockView>, request: RequestView, n: int) -> Option<int>
    decreases n,
{
    if n <= 0 || n > mocks.len() {
        None
    } else if matches_at(mocks, request, n - 1) {
        Some(n - 1)
    } else {
        last_matching_before(mocks, request, n - 1)
    }
}

/// The mock that answers `request`: the first matching mock that still
/// waits for requests, or else the last matching mock.
pub open spec fn chosen_mock(mocks: Seq<InnerMockView>, request: RequestView) -> Option<int> {
    match first_waiting_from(mocks, request, 0) {
        Some(i) => Some(i),
        None => last_matching_before(mocks, request, mocks.len() as int),
    }
}

impl StateView {
    /// The hits of the first mock with identifier `id`, if there is one.
    pub open spec fn mock_hits(self, id: Seq<char>) -> Option<usize> {
        match position_of(self.mocks, id, 0) {
            Some(i) => Some(self.mocks[i].hits),
            None => None,
        }
    }

    /// The state without the first mock with identifier `id`.
    pub open spec fn without_mock(self, id: Seq<char>) -> StateView {
        match position_of(self.mocks, id, 0) {
            Some(i) => StateView { mocks: self.mocks.remove(i), unmatched: self.unmatched },
            None => self,
        }
    }

    /// The rendering of the last unmatched request, if there is one.
    pub open spec fn last_unmatched(self) -> Option<Seq<char>> {
        if self.unmatched.len() == 0 {
            None
        } else {
            Some(self.unmatched.last().formatted())
        }
    }
}

/// What became of a request.
#[derive(Debug)]
pub enum HandleOutcome {
    /// A mock answered; its identifier, the response to send, and the request.
    Matched { mock_id: String, response: ResponsePlan, request: Request },
    /// No mock matched; the request was recorded and is answered with status 501.
    Unmatched,
    /// Matching could not complete (a matcher that cannot be evaluated, or a
    /// body that was not read), or the answering mock cannot count one more
    /// hit; the state is unchanged and no response is sent.
    Failed,
}

impl State {
    /// An empty state.
    pub fn new() -> (r: State)
        ensures
            r@.mocks == Seq::<InnerMockView>::empty(),
            r@.unmatched == Seq::<RequestView>::empty(),
    {
        let r = State { mocks: Vec::new(), unmatched_requests: Vec::new() };
        proof {
            assert(r@.mocks =~= Seq::<InnerMockView>::empty());
            assert(r@.unmatched =~= Seq::<RequestView>::empty());
        }
        r
    }

    /// Registers a mock.
    pub fn add_mock(&mut self, inner: InnerMock)
        ensures
            final(self)@.mocks == old(self)@.mocks.push(inner@),
            final(self)@.unmatched == old(self)@.unmatched,
    {
        let ghost before = self.mocks@;
        self.mocks.push(RemoteMock::new(inner));
        proof {
            assert(mocks_view(self.mocks@) =~= mocks_view(before).push(inner@));
        }
    }

    /// Registers a mock already wrapped for the server.
    pub fn add_remote_mock(&mut self, remote_mock: RemoteMock)
        ensures
            final(self)@.mocks == old(self)@.mocks.push(remote_mock@),
            final(self)@.unmatched == old(self)@.unmatched,
    {
        let ghost before = self.mocks@;
        self.mocks.push(remote_mock);
        proof {
            assert(mocks_view(self.mocks@) =~= mocks_view(before).push(remote_mock@));
        }
    }

    fn find_mock(&self, mock_id: &str) -> (r: Option<usize>)
        ensures
            match r {
                Some(i) => position_of(self@.mocks, mock_id@, 0) == Some(i as int) && i < self.mocks@.len(),
                None => position_of(self@.mocks, mock_id@, 0) is None,
            },
    {
        let ghost mv = self@.mocks;
        let mut i: usize = 0;
        while i < self.mocks.len()
            invariant
                mv == self@.mocks,
                mv == mocks_view(self.mocks@),
                i <= self.mocks@.len(),
                position_of(mv, mock_id@, 0) == position_of(mv, mock_id@, i as int),
            decreases self.mocks@.len() - i,
        {
            if str_eq(self.mocks[i].inner().id(), mock_id) {
                return Some(i);
            }
            i = i + 1;
        }
        None
    }

    /// The hits of the first mock with identifier `mock_id`, if any.
    pub fn get_mock_hits(&self, mock_id: &str) -> (r: Option<usize>)
        ensures
            r == self@.mock_hits(mock_id@),
    {
        match self.find_mock(mock_id) {
            Some(i) => Some(self.mocks[i].inner().hits()),
            None => None,
        }
    }

    /// Removes the first mock with identifier `mock_id`; true where there was one.
    pub fn remove_mock(&mut self, mock_id: &str) -> (r: bool)
        ensures
            final(self)@ == old(self)@.without_mock(mock_id@),
            r == (position_of(old(self)@.mocks, mock_id@, 0) is Some),
    {
        match self.find_mock(mock_id) {
            Some(i) => {
                let ghost before = self.mocks@;
                self.mocks.remove(i);
                proof {
                    assert(mocks_view(self.mocks@) =~= mocks_view(before).remove(i as int));
                }
                true
            },
            None => false,
        }
    }

    /// The rendering of the last unmatched request, if any.
    pub fn get_last_unmatched_request(&self) -> (r: Option<String>)
        ensures
            match r {
                Some(s) => self@.last_unmatched() == Some(s@),
                None => self@.last_unmatched() is None,
            },
    {
        let n = self.unmatched_requests.len();
        if n == 0 {
            None
        } else {
            Some(self.unmatched_requests[n - 1].formatted())
        }
    }

    /// Removes all mocks and all unmatched requests.
    pub fn clear(&mut self)
        ensures
            final(self)@.mocks == Seq::<InnerMockView>::empty(),
            final(self)@.unmatched == Seq::<RequestView>::empty(),
    {
        self.mocks.clear();
        self.unmatched_requests.clear();
        proof {
            assert(mocks_view(self.mocks@) =~= Seq::<InnerMockView>::empty());
            assert(requests_view(self.unmatched_requests@) =~= Seq::<RequestView>::empty());
        }
    }

    /// Answers a request. Every mock is matched against it in order of
    /// registration. If some match cannot complete, nothing changes and the
    /// outcome is `Failed`. Otherwise the first matching mock that still
    /// waits for requests answers, or else the last matching mock: its hit
    /// count goes up by one and the outcome carries its response. Where no
    /// mock matches, the request is recorded as unmatched.
    pub fn handle_request(&mut self, request: Request) -> (r: HandleOutcome)
        ensures
            some_match_fails(old(self)@.mocks, request@) ==> r is Failed && final(self)@ == old(self)@,
            !some_match_fails(old(self)@.mocks, request@) ==> match chosen_mock(old(self)@.mocks, request@) {
                Some(k) => if old(self)@.mocks[k].hits == usize::MAX {
                    r is Failed && final(self)@ == old(self)@
                } else {
                    &&& r matches HandleOutcome::Matched { mock_id, response, request: req }
                    &&& mock_id@ == old(self)@.mocks[k].id
                    &&& response@ == planned_response(request@, old(self)@.mocks[k].response)
                    &&& req@ == request@
                    &&& final(self)@.mocks == old(self)@.mocks.update(
                        k,
                        old(self)@.mocks[k].with_hits((old(self)@.mocks[k].hits + 1) as usize),
                    )
                    &&& final(self)@.unmatched == old(self)@.unmatched
                },
                None => {
                    &&& r is Unmatched
                    &&& final(self)@.mocks == old(self)@.mocks
                    &&& final(self)@.unmatched == old(self)@.unmatched.push(request@)
                },
            },
    {
        let ghost mv = self@.mocks;
        let ghost rv = request@;
        // Match every mock, in order, as the chosen one depends on all of them.
        let mut waiting: Option<usize> = None;
        let mut last: Option<usize> = None;
        let mut i: usize = 0;
        while i < self.mocks.len()
            invariant
                mv == self@.mocks,
                mv == mocks_view(self.mocks@),
                rv == request@,
                i <= self.mocks@.len(),
                forall|j: int| 0 <= j < i ==> (#[trigger] mv[j].request_result(rv)) is Some,
                match waiting {
                    Some(w) => w < i && first_waiting_from(mv, rv, 0) == Some(w as int),
                    None => first_waiting_from(mv, rv, 0) == first_waiting_from(mv, rv, i as int),
                },
                match last {
                    Some(l) => l < i && last_matching_before(mv, rv, i as int) == Some(l as int),
                    None => last_matching_before(mv, rv, i as int) is None,
                },
            decreases self.mocks@.len() - i,
        {
            let mock = self.mocks[i].inner();
            proof {
                assert(mv[i as int] == mock@);
            }
            match mock.matches(&request) {
                None => {
                    proof {
                        assert(some_match_fails(mv, rv));
                    }
                    return HandleOutcome::Failed;
                },
                Some(true) => {
                    if waiting.is_none() && mock.is_missing_hits() {
                        waiting = Some(i);
                    }
                    last = Some(i);
                },
                Some(false) => {},
            }
            proof {
                lemma_last_matching_step(mv, rv, i as int);
            }
            i = i + 1;
        }
        proof {
            assert(!some_match_fails(mv, rv));
            assert(first_waiting_from(mv, rv, self.mocks@.len() as int) is None);
        }
        let chosen = match waiting {
            Some(w) => Some(w),
            None => last,
        };
        match chosen {
            Some(k) => {
                if self.mocks[k].inner().hits() == usize::MAX {
                    return HandleOutcome::Failed;
                }
                let ghost before = self.mocks@;
                let mock_id = owned(self.mocks[k].inner().id());
                let response = plan_response(&request, self.mocks[k].inner().response());
                let mut entry = self.mocks.remove(k);
                entry.inner.record_hit();
                self.mocks.insert(k, entry);
                proof {
                    assert(mocks_view(self.mocks@) =~= mocks_view(before).update(k as int, entry@));
                }
                HandleOutcome::Matched { mock_id, response, request }
            },
            None => {
                let ghost before = self.unmatched_requests@;
                self.unmatched_requests.push(request);
                proof {
                    assert(requests_view(self.unmatched_requests@) =~= requests_view(before).push(rv));
                }
                HandleOutcome::Unmatched
            },
        }
    }
}

/// One step of the search for the last matching mock.
proof fn lemma_last_matching_step(mocks: Seq<InnerMockView>, request: RequestView, i: int)
    requires
        0 <= i < mocks.len(),
    ensures
        last_matching_before(mocks, request, i + 1) == (if matches_at(mocks, request, i) {
            Some(i)
        } else {
            last_matching_before(mocks, request, i)
        }),
{
}

/// One instance of the mock server: its address and its state.
#[derive(Debug)]
pub struct Server {
    address: String,
    state: State,
}

/// The plain value of a `Server`.
pub struct ServerView {
    pub address: Seq<char>,
    pub state: StateView,
}

impl View for Server {
    type V = ServerView;

    closed spec fn view(&self) -> ServerView {
        ServerView { address: self.address@, state: self.state@ }
    }
}

impl Server {
    /// A server listening at `address` (host and port), with no mocks.
    pub fn new(address: String) -> (r: Server)
        ensures
            r@.address == address@,
            r@.state.mocks == Seq::<InnerMockView>::empty(),
            r@.state.unmatched == Seq::<RequestView>::empty(),
    {
        Server { address, state: State::new() }
    }

    /// The state of the server.
    pub fn state(&self) -> (r: &State)
        ensures
            r@ == self@.state,
    {
        &self.state
    }

    /// A new mock for `method` and `path`; it is served only once created.
    pub fn mock(&mut self, method: &str, path: Matcher) -> (r: Mock)
        ensures
            final(self)@ == old(self)@,
            r@.inner.method == crate::text::unicode_uppercase(method@),
            r@.inner.path == crate::matcher::PathAndQueryView::Unified(path@),
            r@.inner.headers == Seq::<(Seq<char>, crate::matcher::MatcherView)>::empty(),
            r@.inner.body == crate::matcher::MatcherView::Any,
            r@.inner.response == crate::response::default_response(),
            r@.inner.hits == 0,
            r@.inner.expected_hits_at_least is None,
            r@.inner.expected_hits_at_most is None,
            r@.inner.id.len() == 24,
            forall|i: int| 0 <= i < 24 ==> crate::backends::is_alphanumeric(#[trigger] r@.inner.id[i]),
            !r@.created,
    {
        Mock::new(method, path)
    }

    /// The URL of the server, including the protocol.
    pub fn url(&self) -> (r: String)
        ensures
            r@ == "http://"@ + self@.address,
    {
        let mut s = String::new();
        push_str(&mut s, "http://");
        push_str(&mut s, self.address.as_str());
        s
    }

    /// The host and port of the server.
    pub fn host_with_port(&self) -> (r: String)
        ensures
            r@ == self@.address,
    {
        self.address.clone()
    }

    /// The rendering of the server, naming its address.
    pub fn to_string(&self) -> (r: String)
        ensures
            r@ == "server "@ + self@.address,
    {
        let mut s = String::new();
        push_str(&mut s, "server ");
        push_str(&mut s, self.address.as_str());
        s
    }

    /// Removes all the mocks and all the unmatched requests.
    pub fn reset(&mut self)
        ensures
            final(self)@.address == old(self)@.address,
            final(self)@.state.mocks == Seq::<InnerMockView>::empty(),
            final(self)@.state.unmatched == Seq::<RequestView>::empty(),
    {
        self.state.clear();
    }

    /// Registers a mock definition.
    pub fn add_mock(&mut self, inner: InnerMock)
        ensures
            final(self)@.address == old(self)@.address,
            final(self)@.state.mocks == old(self)@.state.mocks.push(inner@),
            final(self)@.state.unmatched == old(self)@.state.unmatched,
    {
        self.state.add_mock(inner);
    }

    /// Removes the first mock with identifier `mock_id`; true where there was one.
    pub fn remove_mock(&mut self, mock_id: &str) -> (r: bool)
        ensures
            final(self)@.address == old(self)@.address,
            final(self)@.state == old(self)@.state.without_mock(mock_id@),
            r == (position_of(old(self)@.state.mocks, mock_id@, 0) is Some),
    {
        self.state.remove_mock(mock_id)
    }

    /// Answers a request (see `State::handle_request`).
    pub fn handle_request(&mut self, request: Request) -> (r: HandleOutcome)
        ensures
            final(self)@.address == old(self)@.address,
            some_match_fails(old(self)@.state.mocks, request@) ==> r is Failed && final(self)@.state
                == old(self)@.state,
            !some_match_fails(old(self)@.state.mocks, request@) ==> match chosen_mock(
                old(self)@.state.mocks,
                request@,
            ) {
                Some(k) => if old(self)@.state.mocks[k].hits == usize::MAX {
                    r is Failed && final(self)@.state == old(self)@.state
                } else {
                    &&& r matches HandleOutcome::Matched { mock_id, response, request: req }
                    &&& mock_id@ == old(self)@.state.mocks[k].id
                    &&& response@ == planned_response(request@, old(self)@.state.mocks[k].response)
                    &&& req@ == request@
                    &&& final(self)@.state.mocks == old(self)@.state.mocks.update(
                        k,
                        old(self)@.state.mocks[k].with_hits((old(self)@.state.mocks[k].hits + 1) as usize),
                    )
                    &&& final(self)@.state.unmatched == old(self)@.state.unmatched
                },
                None => {
                    &&& r is Unmatched
                    &&& final(self)@.state.mocks == old(self)@.state.mocks
                    &&& final(self)@.state.unmatched == old(self)@.state.unmatched.push(request@)
                },
            },
    {
        self.state.handle_request(request)
    }
}

} // verus!
