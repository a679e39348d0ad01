//! Mock responses, the response sent for a request, and the buffer behind
//! a chunked response body.
use crate::matcher::{bytes_eq, copy_bytes};
use crate::request::{fields_view, Request, RequestView};
use crate::text::{decimal, decimal_string, owned, str_eq};
use vstd::prelude::*;

verus! {

/// The body of a mock response: fixed bytes, or produced by a callback,
/// either streamed in chunks or computed from the request.
#[derive(Debug)]
pub enum Body {
    /// Fixed bytes.
    Bytes(Vec<u8>),
    /// Written by a callback as a chunked stream.
    Chunked,
    /// Computed by a callback from the request.
    FromRequest,
}

/// The plain value of a `Body`.
pub enum BodyView {
    Bytes(Seq<u8>),
    Chunked,
    FromRequest,
}

impl View for Body {
    type V = BodyView;

    open spec fn view(&self) -> BodyView {
        match self {
            Body::Bytes(b) => BodyView::Bytes(b@),
            Body::Chunked => BodyView::Chunked,
            Body::FromRequest => BodyView::FromRequest,
        }
    }
}

impl Body {
    /// A copy of the body.
    pub fn duplicate(&self) -> (r: Body)
        ensures
            r@ == self@,
    {
        match self {
            Body::Bytes(b) => Body::Bytes(copy_bytes(b.as_slice())),
            Body::Chunked => Body::Chunked,
            Body::FromRequest => Body::FromRequest,
        }
    }
}

impl BodyView {
    /// Whether two bodies are the same: equal bytes, or callback bodies of
    /// the same kind (the callbacks themselves are kept by the caller under
    /// the mock's identifier).
    pub open spec fn same(self, other: BodyView) -> bool {
        match (self, other) {
            (BodyView::Bytes(a), BodyView::Bytes(b)) => a == b,
            (BodyView::Chunked, BodyView::Chunked) => true,
            (BodyView::FromRequest, BodyView::FromRequest) => true,
            _ => false,
        }
    }
}

impl Body {
    /// Whether two bodies are the same (see `BodyView::same`).
    pub fn same_as(&self, other: &Body) -> (r: bool)
        ensures
            r == self@.same(other@),
    {
        match (self, other) {
            (Body::Bytes(a), Body::Bytes(b)) => bytes_eq(a.as_slice(), b.as_slice()),
            (Body::Chunked, Body::Chunked) => true,
            (Body::FromRequest, Body::FromRequest) => true,
            _ => false,
        }
    }
}

/// Whether two lists of header fields are equal, pair by pair.
pub fn fields_eq(a: &Vec<(String, String)>, b: &Vec<(String, String)>) -> (r: bool)
    ensures
        r == (fields_view(a@) == fields_view(b@)),
{
    if a.len() != b.len() {
        proof {
            assert(fields_view(a@).len() != fields_view(b@).len());
        }
        return false;
    }
    let mut i: usize = 0;
    while i < a.len()
        invariant
            a@.len() == b@.len(),
            i <= a@.len(),
            forall|j: int| 0 <= j < i ==> #[trigger] fields_view(a@)[j] == fields_view(b@)[j],
        decreases a@.len() - i,
    {
        if a[i].0 != b[i].0 || a[i].1 != b[i].1 {
            proof {
                assert(fields_view(a@)[i as int] != fields_view(b@)[i as int]);
            }
            return false;
        }
        i = i + 1;
    }
    proof {
        assert(fields_view(a@) =~= fields_view(b@));
    }
    true
}

/// A mock response: status code, header fields in order, body.
#[derive(Debug)]
pub struct Response {
    pub status: u16,
    pub headers: Vec<(String, String)>,
    pub body: Body,
}

/// The plain value of a `Response`.
pub struct ResponseView {
    pub status: u16,
    pub headers: Seq<(Seq<char>, Seq<char>)>,
    pub body: BodyView,
}

impl View for Response {
    type V = ResponseView;

    open spec fn view(&self) -> ResponseView {
        ResponseView { status: self.status, headers: fields_view(self.headers@), body: self.body@ }
    }
}

impl ResponseView {
    /// Whether two responses are the same: equal status, equal header
    /// fields in the same order, and the same body.
    pub open spec fn same(self, other: ResponseView) -> bool {
        self.status == other.status && self.headers == other.headers && self.body.same(other.body)
    }
}

impl Response {
    /// Whether two responses are the same (see `ResponseView::same`).
    pub fn same_as(&self, other: &Response) -> (r: bool)
        ensures
            r == self@.same(other@),
    {
        self.status == other.status && fields_eq(&self.headers, &other.headers) && self.body.same_as(&other.body)
    }
}

/// The response of a new mock: status 200, the single header
/// `connection: close`, and an empty body.
pub open spec fn default_response() -> ResponseView {
    ResponseView {
        status: 200,
        headers: seq![("connection"@, "close"@)],
        body: BodyView::Bytes(Seq::empty()),
    }
}

impl Default for Response {
    fn default() -> (r: Response)
        ensures
            r@ == default_response(),
    {
        let mut headers: Vec<(String, String)> = Vec::new();
        headers.push((owned("connection"), owned("close")));
        let r = Response { status: 200, headers, body: Body::Bytes(Vec::new()) };
        proof {
            assert(r@.headers =~= default_response().headers);
            assert(r@.body == default_response().body) by {
                assert(r.body->Bytes_0@ =~= Seq::<u8>::empty());
            }
        }
        r
    }
}

/// A copy of a list of header fields.
pub fn copy_fields(v: &Vec<(String, String)>) -> (r: Vec<(String, String)>)
    ensures
        fields_view(r@) == fields_view(v@),
{
    let ghost fv = fields_view(v@);
    let mut out: Vec<(String, String)> = Vec::new();
    let mut i: usize = 0;
    while i < v.len()
        invariant
            fv == fields_view(v@),
            i <= v@.len(),
            out@.len() == i,
            fields_view(out@) == fv.take(i as int),
        decreases v@.len() - i,
    {
        let pair = &v[i];
        let a = pair.0.clone();
        let b = pair.1.clone();
        out.push((a, b));
        proof {
            assert(out@[i as int] == (a, b));
            assert(fields_view(out@) =~= fv.take(i + 1));
        }
        i = i + 1;
    }
    proof {
        assert(fv.take(v@.len() as int) =~= fv);
    }
    out
}

impl Response {
    /// A copy of the response.
    pub fn duplicate(&self) -> (r: Response)
        ensures
            r@ == self@,
    {
        Response { status: self.status, headers: copy_fields(&self.headers), body: self.body.duplicate() }
    }
}

/// The body that is sent for a request.
#[derive(Debug)]
pub enum PlannedBody {
    /// No body (a `HEAD` request).
    Empty,
    /// Fixed bytes.
    Bytes(Vec<u8>),
    /// The mock's chunked callback.
    Chunked,
    /// The mock's callback applied to the request.
    FromRequest,
}

/// The plain value of a `PlannedBody`.
pub enum PlannedBodyView {
    Empty,
    Bytes(Seq<u8>),
    Chunked,
    FromRequest,
}

/// The response that is sent for a request: status, header fields in
/// order, and body.
#[derive(Debug)]
pub struct ResponsePlan {
    pub status: u16,
    pub headers: Vec<(String, String)>,
    pub body: PlannedBody,
}

/// The plain value of a `ResponsePlan`.
pub struct ResponsePlanView {
    pub status: u16,
    pub headers: Seq<(Seq<char>, Seq<char>)>,
    pub body: PlannedBodyView,
}

impl View for ResponsePlan {
    type V = ResponsePlanView;

    open spec fn view(&self) -> ResponsePlanView {
        ResponsePlanView {
            status: self.status,
            headers: fields_view(self.headers@),
            body: match self.body {
                PlannedBody::Empty => PlannedBodyView::Empty,
                PlannedBody::Bytes(b) => PlannedBodyView::Bytes(b@),
                PlannedBody::Chunked => PlannedBodyView::Chunked,
                PlannedBody::FromRequest => PlannedBodyView::FromRequest,
            },
        }
    }
}

/// The response sent for `request` from a mock response: the mock's status
/// and headers; no body for a `HEAD` request; otherwise the mock's body,
/// where fixed bytes come with a `content-length` header unless the request
/// itself carries one.
pub open spec fn planned_response(request: RequestView, response: ResponseView) -> ResponsePlanView {
    if request.method == "HEAD"@ {
        ResponsePlanView { status: response.status, headers: response.headers, body: PlannedBodyView::Empty }
    } else {
        match response.body {
            BodyView::Bytes(b) => ResponsePlanView {
                status: response.status,
                headers: if request.has_header("content-length"@) {
                    response.headers
                } else {
                    response.headers.push(("content-length"@, decimal(b.len())))
                },
                body: PlannedBodyView::Bytes(b),
            },
            BodyView::Chunked => ResponsePlanView {
                status: response.status,
                headers: response.headers,
                body: PlannedBodyView::Chunked,
            },
            BodyView::FromRequest => ResponsePlanView {
                status: response.status,
                headers: response.headers,
                body: PlannedBodyView::FromRequest,
            },
        }
    }
}

/// Computes the response sent for `request` (see `planned_response`).
pub fn plan_response(request: &Request, response: &Response) -> (r: ResponsePlan)
    ensures
        r@ == planned_response(request@, response@),
{
    let mut headers = copy_fields(&response.headers);
    let body = if str_eq(request.method(), "HEAD") {
        PlannedBody::Empty
    } else {
        match &response.body {
            Body::Bytes(b) => {
                if !request.has_header("content-length") {
                    let len = decimal_string(b.len());
                    let ghost before = headers@;
                    headers.push((owned("content-length"), len));
                    proof {
                        assert(fields_view(headers@) =~= fields_view(before).push(("content-length"@, decimal(b@.len()))));
                    }
                }
                PlannedBody::Bytes(copy_bytes(b.as_slice()))
            },
            Body::Chunked => PlannedBody::Chunked,
            Body::FromRequest => PlannedBody::FromRequest,
        }
    };
    let r = ResponsePlan { status: response.status, headers, body };
    proof {
        assert(r@.headers =~= planned_response(request@, response@).headers);
    }
    r
}

/// The response sent where no mock matches a request: status 501, no
/// header field and no body.
pub open spec fn not_found_plan() -> ResponsePlanView {
    ResponsePlanView { status: 501, headers: Seq::empty(), body: PlannedBodyView::Empty }
}

/// Computes the response sent where no mock matches (see `not_found_plan`).
pub fn respond_with_mock_not_found() -> (r: ResponsePlan)
    ensures
        r@ == not_found_plan(),
{
    let r = ResponsePlan { status: 501, headers: Vec::new(), body: PlannedBody::Empty };
    proof {
        assert(r@.headers =~= Seq::<(Seq<char>, Seq<char>)>::empty());
    }
    r
}

/// The outcome of polling a chunked body.
#[derive(Debug)]
pub enum ChunkPoll {
    /// The bytes written since the last poll.
    Ready(Vec<u8>),
    /// Nothing written yet, and the writer has not finished.
    Pending,
    /// Nothing more will come.
    Done,
}

/// The buffer between the callback that writes a chunked body and the
/// stream that delivers it.
pub struct Chunked {
    buffer: Vec<u8>,
    finished: bool,
}

/// The plain value of a `Chunked` buffer.
pub struct ChunkedView {
    pub buffer: Seq<u8>,
    pub finished: bool,
}

impl View for Chunked {
    type V = ChunkedView;

    closed spec fn view(&self) -> ChunkedView {
        ChunkedView { buffer: self.buffer@, finished: self.finished }
    }
}

impl Chunked {
    /// An empty, unfinished buffer.
    pub fn new() -> (r: Chunked)
        ensures
            r@.buffer == Seq::<u8>::empty(),
            !r@.finished,
    {
        Chunked { buffer: Vec::new(), finished: false }
    }

    /// Marks the body as complete.
    pub fn finish(&mut self)
        ensures
            final(self)@.buffer == old(self)@.buffer,
            final(self)@.finished,
    {
        self.finished = true;
    }

    /// Appends written bytes; all of them are accepted.
    pub fn write(&mut self, buf: &[u8]) -> (n: usize)
        ensures
            n == buf@.len(),
            final(self)@.buffer == old(self)@.buffer + buf@,
            final(self)@.finished == old(self)@.finished,
    {
        let mut i: usize = 0;
        let ghost start = self.buffer@;
        while i < buf.len()
            invariant
                i <= buf@.len(),
                self.buffer@ == start + buf@.take(i as int),
                self.finished == old(self).finished,
            decreases buf@.len() - i,
        {
            self.buffer.push(buf[i]);
            proof {
                assert(start + buf@.take(i + 1) =~= (start + buf@.take(i as int)).push(buf@[i as int]));
            }
            i = i + 1;
        }
        proof {
            assert(buf@.take(buf@.len() as int) =~= buf@);
        }
        buf.len()
    }

    /// Flushing marks the body as complete.
    pub fn flush(&mut self)
        ensures
            final(self)@.buffer == old(self)@.buffer,
            final(self)@.finished,
    {
        self.finished = true;
    }

    /// Takes the buffered bytes if there are any; otherwise reports whether
    /// more may come.
    pub fn poll_next(&mut self) -> (r: ChunkPoll)
        ensures
            old(self)@.buffer.len() > 0 ==> (r matches ChunkPoll::Ready(b) && b@ == old(self)@.buffer
                && final(self)@.buffer.len() == 0),
            old(self)@.buffer.len() == 0 && !old(self)@.finished ==> r is Pending && final(self)@ == old(self)@,
            old(self)@.buffer.len() == 0 && old(self)@.finished ==> r is Done && final(self)@ == old(self)@,
            final(self)@.finished == old(self)@.finished,
    {
        if self.buffer.len() > 0 {
            let mut data: Vec<u8> = Vec::new();
            std::mem::swap(&mut data, &mut self.buffer);
            ChunkPoll::Ready(data)
        } else if !self.finished {
            ChunkPoll::Pending
        } else {
            ChunkPoll::Done
        }
    }
}

} // verus!
