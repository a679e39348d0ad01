//! Properties of the library that relate several of its operations.
use crate::diff::{diff_segments, is_difference, segment_texts, shown_as, shows, spec_compare};
use crate::matcher::{question_from, split_path_query, MatcherView, PathAndQueryView};
use crate::backends::{json_equal, json_parses};
use crate::mock::{headers_result_from, is_assert_outcome, matched_outcome, InnerMockView};
use crate::request::RequestView;
use crate::response::{planned_response, BodyView, PlannedBodyView, ResponseView};
use crate::server::{
    chosen_mock, first_waiting_from, last_matching_before, matches_at, position_of,
    some_match_fails, StateView,
};
use crate::text::{ascii_lower, decimal, utf8_lossy_decode};
use vstd::prelude::*;

verus! {

/// `Any` matches every value.
pub proof fn law_any_matches_every_value(value: Seq<char>)
    ensures
        MatcherView::Any.value_result(value) == Some(true),
{
}

/// `Missing` matches a header exactly when the request has no value for it.
pub proof fn law_missing_matches_absent_header(values: Seq<Seq<char>>)
    ensures
        MatcherView::Missing.values_result(values) == Some(values.len() == 0),
{
}

/// Every matcher other than `Missing`, `AnyOf` and `AllOf` needs the header
/// to be present.
pub proof fn law_header_must_be_present(m: MatcherView)
    requires
        !(m is Missing),
        !(m is AnyOf),
        !(m is AllOf),
    ensures
        m.values_result(Seq::empty()) == Some(false),
{
}

/// Header lookups ignore the letter case of the name.
pub proof fn law_header_names_ignore_case(request: RequestView, a: Seq<char>, b: Seq<char>)
    requires
        ascii_lower(a) == ascii_lower(b),
    ensures
        request.header(a) == request.header(b),
        request.has_header(a) == request.has_header(b),
{
}

/// A query given in the path behaves as the same query matched apart: for a
/// path without `'?'` and a non-empty query, `Exact(path?query)` and the
/// split pair `Exact(path)`, `Exact(query)` accept the same requests.
pub proof fn law_query_in_path_or_apart(path: Seq<char>, query: Seq<char>, value: Seq<char>)
    requires
        forall|i: int| 0 <= i < path.len() ==> path[i] != '?',
        query.len() > 0,
    ensures
        PathAndQueryView::Unified(MatcherView::Exact(path + seq!['?'] + query)).value_result(value)
            == PathAndQueryView::Split(MatcherView::Exact(path), MatcherView::Exact(query)).value_result(value),
{
    let whole = path + seq!['?'] + query;
    let (p, q) = split_path_query(value);
    if value == whole {
        lemma_question_after_prefix(path, query, 0);
        assert(whole.take(path.len() as int) =~= path);
        assert(whole.skip(path.len() + 1 as int) =~= query);
    } else {
        match question_from(value, 0) {
            Some(k) => {
                lemma_question_found(value, 0);
                if p == path && q == query {
                    assert(value =~= whole) by {
                        assert(value.take(k) == path);
                        assert(value.skip(k + 1) == query);
                        assert forall|j: int| 0 <= j < value.len() implies value[j] == whole[j] by {
                            if j < k {
                                assert(value[j] == value.take(k)[j]);
                            } else if j > k {
                                assert(value[j] == value.skip(k + 1)[j - k - 1]);
                            }
                        }
                    }
                }
            },
            None => {},
        }
    }
}

/// The search for `'?'` finds the one that follows a prefix without any.
proof fn lemma_question_after_prefix(path: Seq<char>, query: Seq<char>, i: int)
    requires
        forall|j: int| 0 <= j < path.len() ==> path[j] != '?',
        0 <= i <= path.len(),
    ensures
        question_from(path + seq!['?'] + query, i) == Some(path.len() as int),
    decreases path.len() - i,
{
    let whole = path + seq!['?'] + query;
    if i < path.len() {
        assert(whole[i] == path[i]);
        lemma_question_after_prefix(path, query, i + 1);
    } else {
        assert(whole[i] == '?');
    }
}

/// What the search for `'?'` finds is a `'?'` at or after where it started.
proof fn lemma_question_found(s: Seq<char>, i: int)
    requires
        question_from(s, i) is Some,
    ensures
        i <= question_from(s, i)->0 < s.len(),
        s[question_from(s, i)->0] == '?',
    decreases s.len() - i,
{
    if 0 <= i < s.len() && s[i] != '?' {
        lemma_question_found(s, i + 1);
    }
}

/// By default a mock expects exactly one request.
pub proof fn law_default_expectation_is_one(m: InnerMockView, hits: int)
    requires
        m.expected_hits_at_least is None,
        m.expected_hits_at_most is None,
    ensures
        m.matched_hits(hits) <==> hits == 1,
        m.is_missing_hits() <==> m.hits == 0,
{
}

/// A mock that expects exactly `n` requests is satisfied by `n` hits and
/// no other number, and waits for requests while it has fewer.
pub proof fn law_expect_exactly(m: InnerMockView, n: usize, hits: int)
    ensures
        m.with_exactly(n).matched_hits(hits) <==> hits == n,
        m.with_exactly(n).is_missing_hits() <==> m.hits < n,
{
}

/// Setting either bound keeps the two bounds in order.
pub proof fn law_bounds_stay_in_order(m: InnerMockView, n: usize)
    ensures
        m.with_at_least(n).bounds_in_order(),
        m.with_at_most(n).bounds_in_order(),
        m.with_exactly(n).bounds_in_order(),
{
}

/// A `HEAD` request is answered without a body.
pub proof fn law_head_has_no_body(request: RequestView, response: ResponseView)
    requires
        request.method == "HEAD"@,
    ensures
        planned_response(request, response).body == PlannedBodyView::Empty,
        planned_response(request, response).status == response.status,
        planned_response(request, response).headers == response.headers,
{
}

/// A registered mock is known with no hits until it answers a request.
pub proof fn law_created_mock_has_no_hits(state: StateView, mock: InnerMockView)
    requires
        mock.hits == 0,
        position_of(state.mocks, mock.id, 0) is None,
    ensures
        (StateView { mocks: state.mocks.push(mock), unmatched: state.unmatched }).mock_hits(mock.id) == Some(0usize),
{
    lemma_position_of_push(state.mocks, mock, 0);
}

proof fn lemma_position_of_push(mocks: Seq<InnerMockView>, mock: InnerMockView, i: int)
    requires
        0 <= i <= mocks.len(),
        position_of(mocks, mock.id, i) is None,
    ensures
        position_of(mocks.push(mock), mock.id, i) == Some(mocks.len() as int),
    decreases mocks.len() - i,
{
    let pushed = mocks.push(mock);
    if i < mocks.len() {
        assert(pushed[i] == mocks[i]);
        lemma_position_of_push(mocks, mock, i + 1);
    } else {
        assert(pushed[i] == mock);
    }
}

/// A removed mock is no longer known, where identifiers are distinct.
pub proof fn law_removed_mock_is_unknown(state: StateView, id: Seq<char>)
    requires
        forall|a: int, b: int|
            0 <= a < b < state.mocks.len() ==> #[trigger] state.mocks[a].id != #[trigger] state.mocks[b].id,
    ensures
        state.without_mock(id).mock_hits(id) is None,
{
    match position_of(state.mocks, id, 0) {
        Some(k) => {
            lemma_position_is_first(state.mocks, id, 0);
            let rest = state.mocks.remove(k);
            lemma_position_absent(rest, id, 0, k, state.mocks);
        },
        None => {},
    }
}

proof fn lemma_position_is_first(mocks: Seq<InnerMockView>, id: Seq<char>, i: int)
    requires
        0 <= i,
        position_of(mocks, id, i) is Some,
    ensures
        i <= position_of(mocks, id, i)->0 < mocks.len(),
        mocks[position_of(mocks, id, i)->0].id == id,
        forall|j: int| i <= j < position_of(mocks, id, i)->0 ==> mocks[j].id != id,
    decreases mocks.len() - i,
{
    if i < mocks.len() && mocks[i].id != id {
        lemma_position_is_first(mocks, id, i + 1);
    }
}

proof fn lemma_position_absent(rest: Seq<InnerMockView>, id: Seq<char>, i: int, k: int, mocks: Seq<InnerMockView>)
    requires
        0 <= k < mocks.len(),
        0 <= i,
        rest == mocks.remove(k),
        mocks[k].id == id,
        forall|j: int| 0 <= j < k ==> mocks[j].id != id,
        forall|a: int, b: int| 0 <= a < b < mocks.len() ==> #[trigger] mocks[a].id != #[trigger] mocks[b].id,
    ensures
        position_of(rest, id, i) is None,
    decreases rest.len() - i,
{
    if i < rest.len() {
        if i < k {
            assert(rest[i] == mocks[i]);
        } else {
            assert(rest[i] == mocks[i + 1]);
            assert(mocks[k].id != mocks[i + 1].id);
        }
        lemma_position_absent(rest, id, i + 1, k, mocks);
    }
}

/// A server without mocks records every request as unmatched.
pub proof fn law_no_mock_no_match(request: RequestView)
    ensures
        !some_match_fails(Seq::<InnerMockView>::empty(), request),
        chosen_mock(Seq::<InnerMockView>::empty(), request) is None,
{
}

/// Which mock answers a request: it matches the request; where it still
/// waits for requests, no earlier matching mock does; where it does not,
/// no matching mock waits and it is the last matching one. No mock answers
/// exactly when none matches.
pub proof fn law_answering_mock(mocks: Seq<InnerMockView>, request: RequestView)
    ensures
        chosen_mock(mocks, request) is None <==> forall|j: int| 0 <= j < mocks.len() ==> !matches_at(mocks, request, j),
        chosen_mock(mocks, request) matches Some(k) ==> {
            &&& 0 <= k < mocks.len()
            &&& matches_at(mocks, request, k)
            &&& mocks[k].is_missing_hits() ==> forall|j: int|
                0 <= j < k && matches_at(mocks, request, j) ==> !mocks[j].is_missing_hits()
            &&& !mocks[k].is_missing_hits() ==> forall|j: int|
                0 <= j < mocks.len() && matches_at(mocks, request, j) ==> !mocks[j].is_missing_hits() && j <= k
        },
{
    lemma_first_waiting(mocks, request, 0);
    lemma_last_matching(mocks, request, mocks.len() as int);
}

proof fn lemma_first_waiting(mocks: Seq<InnerMockView>, request: RequestView, i: int)
    requires
        0 <= i,
    ensures
        match first_waiting_from(mocks, request, i) {
            Some(k) => i <= k < mocks.len() && matches_at(mocks, request, k) && mocks[k].is_missing_hits()
                && forall|j: int| i <= j < k && matches_at(mocks, request, j) ==> !mocks[j].is_missing_hits(),
            None => forall|j: int| i <= j < mocks.len() && matches_at(mocks, request, j) ==> !mocks[j].is_missing_hits(),
        },
    decreases mocks.len() - i,
{
    if i < mocks.len() && !(matches_at(mocks, request, i) && mocks[i].is_missing_hits()) {
        lemma_first_waiting(mocks, request, i + 1);
    }
}

proof fn lemma_last_matching(mocks: Seq<InnerMockView>, request: RequestView, n: int)
    requires
        0 <= n <= mocks.len(),
    ensures
        match last_matching_before(mocks, request, n) {
            Some(k) => 0 <= k < n && matches_at(mocks, request, k)
                && forall|j: int| k < j < n ==> !matches_at(mocks, request, j),
            None => forall|j: int| 0 <= j < n ==> !matches_at(mocks, request, j),
        },
    decreases n,
{
    if n > 0 && !matches_at(mocks, request, n - 1) {
        lemma_last_matching(mocks, request, n - 1);
    }
}

/// A pool hands its free servers out in the order in which they were
/// given back: giving one back leaves the next one handed out unchanged,
/// unless none was free, and then the one given back is next.
pub proof fn law_pool_first_in_first_out<T>(free: Seq<T>, server: T)
    ensures
        free.len() > 0 ==> free.push(server)[0] == free[0] && free.push(server).skip(1) == free.skip(1).push(server),
        free.len() == 0 ==> free.push(server)[0] == server && free.push(server).skip(1) == Seq::<T>::empty(),
{
    assert(free.len() > 0 ==> free.push(server).skip(1) =~= free.skip(1).push(server));
    assert(free.len() == 0 ==> free.push(server).skip(1) =~= Seq::<T>::empty());
}

/// A mock is matched exactly when asserting it passes.
pub proof fn law_matched_iff_assert_passes(m: InnerMockView, state: StateView, r: Result<(), Seq<char>>)
    requires
        is_assert_outcome(m, state, r),
    ensures
        matched_outcome(m, state) <==> r is Ok,
{
}

/// Matching the query with `Any` ignores the query: only the path matcher
/// decides.
pub proof fn law_any_query_ignores_query(p: MatcherView, value: Seq<char>)
    ensures
        PathAndQueryView::Split(p, MatcherView::Any).value_result(value) == p.value_result(
            split_path_query(value).0,
        ),
{
}

/// Where every matcher of a list can be evaluated on a value, `AnyOf`
/// matches it exactly when one of them does, and `AllOf` exactly when all
/// of them do.
pub proof fn law_any_of_and_all_of(ms: Seq<MatcherView>, value: Seq<char>)
    requires
        forall|i: int| 0 <= i < ms.len() ==> (#[trigger] ms[i].value_result(value)) is Some,
    ensures
        MatcherView::AnyOf(ms).value_result(value) == Some(
            exists|i: int| 0 <= i < ms.len() && #[trigger] ms[i].value_result(value) == Some(true),
        ),
        MatcherView::AllOf(ms).value_result(value) == Some(
            forall|i: int| 0 <= i < ms.len() ==> #[trigger] ms[i].value_result(value) == Some(true),
        ),
{
    lemma_any_all_from(ms, value, 0);
}

/// `AnyOf` and `AllOf` over the matchers from `i` on.
proof fn lemma_any_all_from(ms: Seq<MatcherView>, value: Seq<char>, i: int)
    requires
        0 <= i <= ms.len(),
        forall|j: int| 0 <= j < ms.len() ==> (#[trigger] ms[j].value_result(value)) is Some,
    ensures
        MatcherView::any_value_from(ms, value, i) == Some(
            exists|j: int| i <= j < ms.len() && #[trigger] ms[j].value_result(value) == Some(true),
        ),
        MatcherView::all_value_from(ms, value, i) == Some(
            forall|j: int| i <= j < ms.len() ==> #[trigger] ms[j].value_result(value) == Some(true),
        ),
    decreases ms.len() - i,
{
    if i < ms.len() {
        lemma_any_all_from(ms, value, i + 1);
        assert(ms[i].value_result(value) is Some);
    }
}

/// The difference without colours is one that `compare` may give: every
/// coloured segment shown as it is.
pub proof fn law_uncoloured_difference(expected: Seq<char>, actual: Seq<char>)
    ensures
        is_difference(expected, actual, spec_compare(expected, actual)),
{
    let segs = diff_segments(expected, actual);
    let outs = segment_texts(segs);
    assert forall|i: int| 0 <= i < segs.len() implies #[trigger] shown_as(segs[i], outs[i]) by {
        assert(outs[i] == segs[i].1);
    }
    assert(shows(segs, outs));
}

/// A mock with both a lower bound `a` and an upper bound `b` keeps waiting
/// for requests while its hits are below `b`, whatever `a` is: reaching the
/// lower bound does not hand requests on to later mocks.
pub proof fn law_both_bounds_wait_below_upper(m: InnerMockView, a: usize, b: usize)
    requires
        m.expected_hits_at_least == Some(a),
        m.expected_hits_at_most == Some(b),
    ensures
        m.is_missing_hits() <==> m.hits < b,
        a <= m.hits < b ==> m.is_missing_hits() && m.matched_hits(m.hits as int),
{
}

/// Which mock answers depends on the upper bound: of two matching mocks, the
/// earlier one, expecting between `a` and `b` requests with fewer than `b`
/// hits, answers before the later one, also once it has `a` hits.
pub proof fn law_earlier_mock_answers_until_upper_bound(
    mocks: Seq<InnerMockView>,
    request: RequestView,
    a: usize,
    b: usize,
)
    requires
        mocks.len() == 2,
        mocks[0].expected_hits_at_least == Some(a),
        mocks[0].expected_hits_at_most == Some(b),
        mocks[0].hits < b,
        matches_at(mocks, request, 0),
        matches_at(mocks, request, 1),
    ensures
        chosen_mock(mocks, request) == Some(0int),
{
}

/// An exact body matcher accepts a request whose method, path and headers
/// match exactly when the decoded body equals its text, whatever the body,
/// the empty one included.
pub proof fn law_exact_body_decides(m: InnerMockView, request: RequestView, v: Seq<char>, b: Seq<u8>)
    requires
        m.method == request.method,
        m.path.value_result(request.path_and_query) == Some(true),
        headers_result_from(m.headers, request, 0) == Some(true),
        m.body == MatcherView::Exact(v),
        request.body == Some(b),
    ensures
        m.request_result(request) == Some(v == utf8_lossy_decode(b)),
        v != utf8_lossy_decode(b) ==> m.request_result(request) == Some(false),
{
}

/// `JsonString` compares for equality as `Json` does: on every value the
/// two give the same answer, and on texts that parse it is whether the
/// parsed values are equal.
pub proof fn law_json_string_is_equality(j: Seq<char>, other: Seq<char>)
    ensures
        MatcherView::JsonString(j).value_result(other) == MatcherView::Json(j).value_result(other),
        json_parses(j) && json_parses(other) ==> MatcherView::JsonString(j).value_result(other) == Some(
            json_equal(j, other),
        ),
        !(json_parses(j) && json_parses(other)) ==> MatcherView::JsonString(j).value_result(other) is None,
{
}

/// Setting a lower bound keeps an upper bound that is not below it, and
/// drops only one that is; so setting both bounds, `a <= b`, in either
/// order expects between `a` and `b` requests.
pub proof fn law_lower_bound_keeps_upper(m: InnerMockView, n: usize, a: usize, b: usize, hits: int)
    ensures
        m.expected_hits_at_most matches Some(max) && max >= n ==> m.with_at_least(n).expected_hits_at_most
            == m.expected_hits_at_most,
        m.expected_hits_at_most matches Some(max) && max < n ==> m.with_at_least(n).expected_hits_at_most is None,
        m.expected_hits_at_least matches Some(min) && min <= n ==> m.with_at_most(n).expected_hits_at_least
            == m.expected_hits_at_least,
        a <= b ==> (m.with_at_most(b).with_at_least(a).matched_hits(hits) <==> a <= hits <= b),
        a <= b ==> (m.with_at_least(a).with_at_most(b).matched_hits(hits) <==> a <= hits <= b),
{
}

/// The response to a request other than `HEAD` carries the mock's header
/// fields first, in order, whatever the body: exactly those for a callback
/// body, followed by `content-length` for fixed bytes unless the request
/// has one; its status is the mock's.
pub proof fn law_response_keeps_mock_headers(request: RequestView, response: ResponseView)
    requires
        request.method != "HEAD"@,
    ensures
        planned_response(request, response).status == response.status,
        planned_response(request, response).headers.len() >= response.headers.len(),
        planned_response(request, response).headers.take(response.headers.len() as int) == response.headers,
        !(response.body is Bytes) ==> planned_response(request, response).headers == response.headers,
        response.body matches BodyView::Bytes(bytes) ==> planned_response(request, response).headers == (
        if request.has_header("content-length"@) {
            response.headers
        } else {
            response.headers.push(("content-length"@, decimal(bytes.len())))
        }),
{
    let p = planned_response(request, response);
    assert(p.headers.take(response.headers.len() as int) =~= response.headers);
}

} // verus!
