use mockito::command::{Command, CommandReply};
use mockito::diff::{clean, compare};
use mockito::error::{Error, ErrorKind};
use mockito::legacy;
use mockito::matcher::{split_at_question, BinaryBody, Matcher, PathAndQueryMatcher};
use mockito::mock_builder::MockBuilder;
use mockito::request::Request;
use mockito::response::{plan_response, respond_with_mock_not_found, Body, ChunkPoll, Chunked, PlannedBody, Response};
use mockito::server::{HandleOutcome, RemoteMock, Server, State};
use mockito::server_pool::ServerPool;
use mockito::url::Url;

fn exact(s: &str) -> Matcher {
    Matcher::Exact(s.to_string())
}

fn get(path_and_query: &str, headers: &[(&str, &str)]) -> Request {
    let path = path_and_query.split('?').next().unwrap().to_string();
    let fields = headers.iter().map(|(k, v)| (k.to_string(), v.to_string())).collect();
    Request::new("GET".to_string(), path, path_and_query.to_string(), fields, Some(Vec::new()))
}

fn strings(values: &[&str]) -> Vec<String> {
    values.iter().map(|v| v.to_string()).collect()
}

fn status_of(outcome: HandleOutcome) -> u16 {
    match outcome {
        HandleOutcome::Matched { response, .. } => response.status,
        HandleOutcome::Unmatched => 501,
        HandleOutcome::Failed => 0,
    }
}

// ---- errors ----

#[test]
fn error_message_with_context() {
    let e = Error::new_with_context(ErrorKind::InvalidStatusCode, "1000");
    assert_eq!(e.kind, ErrorKind::InvalidStatusCode);
    assert_eq!(e.to_string(), "invalid status code (context: 1000)");
}

#[test]
fn error_message_without_context() {
    let e = Error::new(ErrorKind::FileNotFound);
    assert!(e.context.is_none());
    assert_eq!(e.to_string(), "file not found (context: none)");
}

#[test]
fn error_kind_descriptions() {
    assert_eq!(ErrorKind::ServerFailure.description(), "the server is not running");
    assert_eq!(ErrorKind::ServerBusy.description(), "the server is busy");
    assert_eq!(ErrorKind::Deadlock.description(), "a lock can't be bypassed");
    assert_eq!(ErrorKind::ResponseFailure.description(), "could not deliver a response");
    assert_eq!(ErrorKind::RequestBodyFailure.description(), "failed to read the request body");
    assert_eq!(ErrorKind::ResponseBodyFailure.description(), "failed to write the response body");
}

#[test]
fn request_body_not_read_is_an_error() {
    let r = Request::new("GET".to_string(), "/".to_string(), "/".to_string(), Vec::new(), None);
    match r.body() {
        Err(e) => assert_eq!(e.kind, ErrorKind::RequestBodyFailure),
        Ok(_) => panic!("the body was never read"),
    }
    assert!(r.utf8_lossy_body().is_err());
}

// ---- addresses ----

#[test]
fn proxy_hosts() {
    assert_eq!(Url::proxy_host(1234), "127.0.0.1:1234");
    assert_eq!(Url::proxy_host_with_protocol(0), "http://127.0.0.1:0");
}

#[test]
fn server_addresses() {
    let s = Server::new("127.0.0.1:5000".to_string());
    assert_eq!(s.host_with_port(), "127.0.0.1:5000");
    assert_eq!(s.url(), "http://127.0.0.1:5000");
    assert_eq!(s.to_string(), "server 127.0.0.1:5000");
    assert_eq!(legacy::server_address(&s), "127.0.0.1:5000");
    assert_eq!(legacy::server_url(&s), "http://127.0.0.1:5000");
}

// ---- matchers ----

#[test]
fn exact_and_any_and_missing_values() {
    assert_eq!(exact("a").matches_value("a"), Some(true));
    assert_eq!(exact("a").matches_value("A"), Some(false));
    assert_eq!(Matcher::Any.matches_value(""), Some(true));
    assert_eq!(Matcher::Missing.matches_value(""), Some(true));
    assert_eq!(Matcher::Missing.matches_value("x"), Some(false));
}

#[test]
fn invalid_regex_cannot_be_evaluated() {
    assert_eq!(Matcher::Regex("(".to_string()).matches_value("("), None);
    assert_eq!(Matcher::Regex("^a+$".to_string()).matches_value("aaa"), Some(true));
}

#[test]
fn invalid_json_cannot_be_evaluated() {
    assert_eq!(Matcher::JsonString("{".to_string()).matches_value("{}"), None);
    assert_eq!(Matcher::PartialJsonString("{}".to_string()).matches_value("nope"), None);
    assert_eq!(Matcher::Json("[1,2]".to_string()).matches_value("[1, 2]"), Some(true));
    assert_eq!(Matcher::Json("[1,2]".to_string()).matches_value("[2, 1]"), Some(false));
}

#[test]
fn urlencoded_last_value_of_a_key_counts() {
    let m = Matcher::UrlEncoded("a".to_string(), "1".to_string());
    assert_eq!(m.matches_value("a=1"), Some(true));
    assert_eq!(m.matches_value("a=1&a=2"), Some(false));
    assert_eq!(Matcher::UrlEncoded("a".to_string(), "2".to_string()).matches_value("a=1&a=2"), Some(true));
    assert_eq!(m.matches_value("b=1"), Some(false));
}

#[test]
fn header_values_need_presence() {
    let none: Vec<String> = Vec::new();
    assert_eq!(exact("x").matches_values(&none), Some(false));
    assert_eq!(Matcher::Any.matches_values(&none), Some(false));
    assert_eq!(Matcher::Missing.matches_values(&none), Some(true));
    assert_eq!(Matcher::Missing.matches_values(&strings(&[""])), Some(false));
    assert_eq!(exact("x").matches_values(&strings(&["x", "x"])), Some(true));
    assert_eq!(exact("x").matches_values(&strings(&["x", "y"])), Some(false));
    assert_eq!(Matcher::AnyOf(vec![Matcher::Missing, exact("x")]).matches_values(&none), Some(true));
    assert_eq!(Matcher::AllOf(vec![Matcher::Missing, exact("x")]).matches_values(&none), Some(false));
}

#[test]
fn binary_bodies() {
    let b = BinaryBody::from_bytes(vec![1, 2, 3, 4, 5, 6, 7, 8, 9, 10]);
    assert_eq!(b.content(), &[1, 2, 3, 4, 5, 6, 7, 8, 9, 10]);
    let m = Matcher::Binary(b.duplicate());
    assert_eq!(m.to_string(), "filecontent: [1, 2, 3, 4, 5, 6, 7, 8] (binary)");
    assert!(m.matches_binary_value(&[1, 2, 3, 4, 5, 6, 7, 8, 9, 10]));
    assert!(!m.matches_binary_value(&[1, 2, 3]));
    assert!(!exact("x").matches_binary_value(b"x"));
    assert_eq!(m.matches_value("anything"), Some(false));

    let p = BinaryBody::from_parts(Some("files/a.bin".to_string()), vec![0]);
    assert_eq!(Matcher::Binary(p.duplicate()).to_string(), "filepath: files/a.bin (binary)");
    let q = BinaryBody::from_parts(Some("files/a.bin".to_string()), vec![1]);
    assert!(p.same_as(&q));
    assert!(b.same_as(&BinaryBody::from_bytes(vec![1, 2, 3, 4, 5, 6, 7, 8, 9, 10])));
    assert!(!b.same_as(&BinaryBody::from_bytes(vec![1])));
}

#[test]
fn matcher_renderings() {
    assert_eq!(Matcher::Json("{\"a\":1}".to_string()).to_string(), "{\"a\":1} (json)");
    assert_eq!(Matcher::PartialJsonString("{}".to_string()).to_string(), "{} (partial json)");
    assert_eq!(Matcher::AnyOf(Vec::new()).to_string(), "() (any of)");
    assert_eq!(Matcher::Missing.to_string(), "(missing)");
}

#[test]
fn split_path_and_query() {
    assert_eq!(split_at_question("/a?b?c"), ("/a".to_string(), "b?c".to_string()));
    assert_eq!(split_at_question("/a"), ("/a".to_string(), String::new()));
    let m = PathAndQueryMatcher::Split(Box::new(exact("/a")), Box::new(Matcher::Missing));
    assert_eq!(m.matches_value("/a"), Some(true));
    assert_eq!(m.matches_value("/a?x"), Some(false));
    assert_eq!(m.matches_value("/b"), Some(false));
}

#[test]
fn query_in_path_or_apart_agree() {
    let unified = PathAndQueryMatcher::Unified(exact("/p?q=1"));
    let split = PathAndQueryMatcher::Split(Box::new(exact("/p")), Box::new(exact("q=1")));
    for value in ["/p?q=1", "/p?q=2", "/p", "/x?q=1", "/p?q=1?"] {
        assert_eq!(unified.matches_value(value), split.matches_value(value));
    }
}

// ---- requests ----

#[test]
fn request_headers_and_rendering() {
    let r = Request::new(
        "POST".to_string(),
        "/x".to_string(),
        "/x?y=1".to_string(),
        vec![("accept".to_string(), "a".to_string()), ("accept".to_string(), "b".to_string())],
        Some(b"body".to_vec()),
    );
    assert_eq!(r.header("Accept"), strings(&["a", "b"]));
    assert!(r.has_header("ACCEPT"));
    assert!(!r.has_header("host"));
    assert_eq!(r.utf8_lossy_body().unwrap(), "body");
    assert_eq!(r.formatted(), "\r\nPOST /x?y=1\r\naccept: a\r\naccept: b\r\nbody\r\n");
}

// ---- responses ----

#[test]
fn head_request_gets_no_body() {
    let response = Response { status: 200, headers: Vec::new(), body: Body::Bytes(b"abc".to_vec()) };
    let head = Request::new("HEAD".to_string(), "/".to_string(), "/".to_string(), Vec::new(), Some(Vec::new()));
    let plan = plan_response(&head, &response);
    assert!(matches!(plan.body, PlannedBody::Empty));
    assert!(plan.headers.is_empty());
}

#[test]
fn fixed_body_gets_its_length_unless_the_request_has_one() {
    let response = Response { status: 201, headers: Vec::new(), body: Body::Bytes(b"abc".to_vec()) };
    let plan = plan_response(&get("/", &[]), &response);
    assert_eq!(plan.status, 201);
    assert_eq!(plan.headers, vec![("content-length".to_string(), "3".to_string())]);
    assert!(matches!(plan.body, PlannedBody::Bytes(ref b) if b == b"abc"));

    let plan = plan_response(&get("/", &[("content-length", "0")]), &response);
    assert!(plan.headers.is_empty());
}

#[test]
fn default_response() {
    let r = Response::default();
    assert_eq!(r.status, 200);
    assert_eq!(r.headers, vec![("connection".to_string(), "close".to_string())]);
    assert!(matches!(r.body, Body::Bytes(ref b) if b.is_empty()));
}

#[test]
fn chunked_buffer() {
    let mut c = Chunked::new();
    assert!(matches!(c.poll_next(), ChunkPoll::Pending));
    assert_eq!(c.write(b"ab"), 2);
    assert_eq!(c.write(b"c"), 1);
    match c.poll_next() {
        ChunkPoll::Ready(b) => assert_eq!(b, b"abc".to_vec()),
        _ => panic!("bytes were written"),
    }
    assert!(matches!(c.poll_next(), ChunkPoll::Pending));
    c.write(b"d");
    c.flush();
    assert!(matches!(c.poll_next(), ChunkPoll::Ready(ref b) if b == b"d"));
    assert!(matches!(c.poll_next(), ChunkPoll::Done));
}

// ---- diffs ----

#[test]
fn clean_line_breaks() {
    assert_eq!(clean("a\r\nb\r\r\n"), "a\nb\r\n");
}

#[test]
fn compare_equal_texts() {
    colored::control::set_override(true);
    assert_eq!(compare("\r\nGET /\r\n", "\r\nGET /\r\n"), "\nGET /\n\n");
}

#[test]
fn compare_changed_line_shows_kept_and_inserted_words() {
    colored::control::set_override(false);
    assert_eq!(compare("\r\nGET /hello\r\n", "\r\nGET /bye\r\n"), "\nGET /hello\nGET /bye\n\n");
}

// ---- mocks ----

#[test]
fn mock_identifiers_are_alphanumeric() {
    let mut s = Server::new("h:1".to_string());
    let m = s.mock("get", exact("/"));
    assert_eq!(m.id().len(), 24);
    assert!(m.id().chars().all(|c| c.is_ascii_alphanumeric()));
    assert_eq!(m.inner().hits(), 0);
    assert_eq!(m.to_string(), "\r\nGET /\r\n");
}

#[test]
fn default_expectation_is_exactly_one() {
    let mut s = Server::new("h:1".to_string());
    let m = s.mock("GET", exact("/"));
    assert!(!m.matched_hits(0));
    assert!(m.matched_hits(1));
    assert!(!m.matched_hits(2));
}

#[test]
fn expect_exactly_n() {
    let mut s = Server::new("h:1".to_string());
    let m = s.mock("GET", exact("/")).expect(2);
    assert!(!m.matched_hits(1));
    assert!(m.matched_hits(2));
    assert!(!m.matched_hits(3));
}

#[test]
fn bounds_stay_in_order() {
    let mut s = Server::new("h:1".to_string());
    let m = s.mock("GET", exact("/")).expect_at_most(2).expect_at_least(5);
    assert!(m.matched_hits(100));
    assert!(!m.matched_hits(4));
    let m = s.mock("GET", exact("/")).expect_at_least(5).expect_at_most(2);
    assert!(m.matched_hits(0));
    assert!(!m.matched_hits(3));
}

#[test]
fn assert_on_unknown_mock() {
    let mut s = Server::new("h:1".to_string());
    let m = s.mock("GET", exact("/"));
    assert_eq!(
        m.assert_hits(&s),
        Err("could not retrieve enough information about the remote mock".to_string())
    );
    assert!(!m.matched(&s));
}

#[test]
fn build_assert_message_without_last_request() {
    let mut s = Server::new("h:1".to_string());
    let m = s.mock("GET", exact("/a")).expect_at_most(1);
    assert_eq!(
        m.build_assert_message(3, None),
        "\n> Expected at most 1 request(s) to:\n\r\nGET /a\r\n\n...but received 3\n\n"
    );
}

#[test]
fn created_mock_has_no_hits_and_answers() {
    let mut s = Server::new("h:1".to_string());
    let m = s.mock("GET", exact("/")).create(&mut s);
    assert_eq!(s.state().get_mock_hits(m.id()), Some(0));
    assert_eq!(status_of(s.handle_request(get("/", &[]))), 200);
    assert_eq!(s.state().get_mock_hits(m.id()), Some(1));
}

#[test]
fn removed_mock_is_unknown() {
    let mut s = Server::new("h:1".to_string());
    let m = s.mock("GET", exact("/")).create(&mut s);
    assert!(s.remove_mock(m.id()));
    assert_eq!(s.state().get_mock_hits(m.id()), None);
    assert!(!s.remove_mock(m.id()));
}

#[test]
fn no_mock_no_match() {
    let mut s = Server::new("h:1".to_string());
    assert_eq!(status_of(s.handle_request(get("/x", &[("accept", "y")]))), 501);
    assert_eq!(s.state().get_last_unmatched_request(), Some("\r\nGET /x\r\naccept: y\r\n".to_string()));
}

#[test]
fn first_waiting_mock_answers_then_the_last_matching_one() {
    let mut s = Server::new("h:1".to_string());
    s.mock("GET", exact("/")).with_status(201).create(&mut s);
    s.mock("GET", exact("/")).with_status(202).create(&mut s);
    s.mock("GET", exact("/other")).with_status(203).create(&mut s);
    assert_eq!(status_of(s.handle_request(get("/", &[]))), 201);
    assert_eq!(status_of(s.handle_request(get("/", &[]))), 202);
    assert_eq!(status_of(s.handle_request(get("/", &[]))), 202);
    assert_eq!(status_of(s.handle_request(get("/", &[]))), 202);
}

#[test]
fn failing_matcher_changes_nothing() {
    let mut s = Server::new("h:1".to_string());
    let m = s.mock("GET", exact("/")).create(&mut s);
    s.mock("GET", Matcher::Regex("(".to_string())).create(&mut s);
    assert_eq!(status_of(s.handle_request(get("/", &[]))), 0);
    assert_eq!(s.state().get_mock_hits(m.id()), Some(0));
    assert_eq!(s.state().get_last_unmatched_request(), None);
}

#[test]
fn header_names_ignore_case_in_mocks() {
    let mut s = Server::new("h:1".to_string());
    s.mock("GET", exact("/")).match_header("X-Key", exact("v")).create(&mut s);
    assert_eq!(status_of(s.handle_request(get("/", &[("x-key", "v")]))), 200);
}

#[test]
fn reset_removes_everything() {
    let mut s = Server::new("h:1".to_string());
    let m = s.mock("GET", exact("/")).create(&mut s);
    s.handle_request(get("/nope", &[]));
    legacy::reset(&mut s);
    assert_eq!(s.state().get_mock_hits(m.id()), None);
    assert_eq!(s.state().get_last_unmatched_request(), None);
    assert_eq!(s.host_with_port(), "h:1");
}

#[test]
fn legacy_mock_is_not_yet_served() {
    let mut s = Server::new("h:1".to_string());
    let m = legacy::mock(&mut s, "GET", exact("/"));
    assert_eq!(status_of(s.handle_request(get("/", &[]))), 501);
    let m = m.create(&mut s);
    assert_eq!(status_of(s.handle_request(get("/", &[]))), 200);
    assert!(m.matched(&s));
}

// ---- commands ----

#[test]
fn commands_on_a_state() {
    let mut state = State::new();
    let mut s = Server::new("h:1".to_string());
    let m = s.mock("GET", exact("/"));
    let id = m.id().to_string();
    let reply = Command::handle(Command::CreateMock { remote_mock: RemoteMock::new(m.inner().duplicate()) }, &mut state);
    assert!(matches!(reply, CommandReply::Created(true)));
    let reply = Command::handle(Command::GetMockHits { mock_id: id.clone() }, &mut state);
    assert!(matches!(reply, CommandReply::Hits(Some(0))));
    state.handle_request(get("/missing", &[]));
    let reply = Command::handle(Command::GetLastUnmatchedRequest, &mut state);
    assert!(matches!(reply, CommandReply::LastUnmatchedRequest(Some(ref r)) if r == "\r\nGET /missing\r\n"));
    let reply = Command::handle(Command::RemoveMock { mock_id: id.clone() }, &mut state);
    assert!(matches!(reply, CommandReply::Removed(true)));
    let reply = Command::handle(Command::GetMockHits { mock_id: id }, &mut state);
    assert!(matches!(reply, CommandReply::Hits(None)));
}

// ---- builder ----

#[test]
fn builder_keeps_one_value_per_header() {
    let mut b = MockBuilder::new("GET / HTTP/1.1");
    b.header("a", "1").with().header("b", "2").header("a", "3");
    assert_eq!(b.request_line(), "GET / HTTP/1.1");
    assert_eq!(
        b.headers(),
        &vec![("a".to_string(), "3".to_string()), ("b".to_string(), "2".to_string())]
    );
}

// ---- equality ----

#[test]
fn matchers_compare_structurally() {
    let a = Matcher::AnyOf(vec![exact("x"), Matcher::Regex("y".to_string())]);
    let b = Matcher::AnyOf(vec![exact("x"), Matcher::Regex("y".to_string())]);
    let c = Matcher::AnyOf(vec![exact("x")]);
    assert!(a.same_as(&b));
    assert!(!a.same_as(&c));
    assert!(!exact("x").same_as(&Matcher::Regex("x".to_string())));
    let p = Matcher::Binary(BinaryBody::from_parts(Some("f".to_string()), vec![1]));
    let q = Matcher::Binary(BinaryBody::from_parts(Some("f".to_string()), vec![2]));
    assert!(p.same_as(&q));
}

#[test]
fn responses_compare_structurally() {
    let a = Response { status: 200, headers: vec![("a".to_string(), "1".to_string())], body: Body::Bytes(vec![1]) };
    let b = a.duplicate();
    assert!(a.same_as(&b));
    let c = Response { status: 200, headers: vec![("a".to_string(), "2".to_string())], body: Body::Bytes(vec![1]) };
    assert!(!a.same_as(&c));
    assert!(Body::Chunked.same_as(&Body::Chunked));
    assert!(!Body::Chunked.same_as(&Body::FromRequest));
}

#[test]
fn mocks_compare_without_expectations() {
    let mut s = Server::new("h:1".to_string());
    let m = s.mock("GET", exact("/")).match_header("a", exact("1"));
    let d = m.inner().duplicate();
    assert!(m.inner().same_as(&d));
    let other = s.mock("GET", exact("/"));
    assert!(!m.same_as(&other));
    let m = m.expect(5);
    assert!(m.inner().same_as(&d));
}

#[test]
fn missing_create_warning_names_the_mock() {
    let mut s = Server::new("h:1".to_string());
    let m = s.mock("GET", exact("/"));
    assert_eq!(m.missing_create_warning(), Some("Missing .create() call on mock \r\nGET /\r\n".to_string()));
    let m = m.create(&mut s);
    assert_eq!(m.missing_create_warning(), None);
}

// ---- pool ----

#[test]
fn pool_hands_out_first_given_back_first() {
    let mut pool: ServerPool<u32> = ServerPool::new();
    assert_eq!(pool.take_free(), None);
    pool.give_back(1);
    pool.give_back(2);
    assert_eq!(pool.free_count(), 2);
    assert_eq!(pool.take_free(), Some(1));
    pool.give_back(3);
    assert_eq!(pool.take_free(), Some(2));
    assert_eq!(pool.take_free(), Some(3));
    assert_eq!(pool.take_free(), None);
}

#[test]
fn matched_exactly_when_assert_passes() {
    let mut s = Server::new("h:1".to_string());
    let m = s.mock("GET", exact("/")).expect(2).create(&mut s);
    for _ in 0..3 {
        assert_eq!(m.matched(&s), m.assert_hits(&s).is_ok());
        s.handle_request(get("/", &[]));
    }
    assert!(!m.matched(&s));
}

#[test]
fn unmatched_requests_get_501_without_body() {
    let plan = respond_with_mock_not_found();
    assert_eq!(plan.status, 501);
    assert!(plan.headers.is_empty());
    assert!(matches!(plan.body, PlannedBody::Empty));
}

#[test]
fn compare_in_colour() {
    colored::control::set_override(true);
    assert_eq!(
        compare("\r\nGET /hello\r\n", "\r\nGET /bye\r\nx: 1\r\n"),
        "\n\u{1b}[31mGET /hello\n\u{1b}[0m\u{1b}[32mGET\u{1b}[0m\u{1b}[32m \u{1b}[0m\u{1b}[42;30m/bye\u{1b}[0m\u{1b}[32m\n\u{1b}[0m\u{1b}[92mx: 1\n\u{1b}[0m\n"
    );
}

#[test]
fn compare_of_equal_texts_is_the_text() {
    for x in ["", "a", "a\r\nb", "a\n\nb\r\n", "\r\r\n"] {
        assert_eq!(compare(x, x), format!("{}\n", x.replace("\r\n", "\n")));
    }
}
