# mockito

HTTP mocking for tests: define mocks (method, path and query, header and
body matchers, a response and an expected number of requests), let a local
server answer requests with them, and check afterwards that the expected
requests arrived.

## Layout

- `src/` — the verified library (Verus):
  - `matcher.rs` — matchers for paths, queries, header values and bodies;
  - `request.rs`, `response.rs` — requests as the server reads them, mock
    responses, the response sent for a request, the chunk buffer of streamed
    bodies;
  - `mock.rs` — mock definitions, their rendering and the assertion messages;
  - `server.rs` — the state of a server and the choice of the mock that
    answers a request; `command.rs` — commands on that state;
    `server_pool.rs` — the free list of the server pool;
  - `diff.rs` — the difference between a mock and the last unmatched request;
  - `error.rs`, `url.rs`, `legacy.rs`, `mock_builder.rs`, `text.rs`;
  - `backends.rs` — the calls into regex, serde_json, assert-json-diff,
    serde_urlencoded, similar, colored, rand and http, each with its
    contract;
  - `laws.rs` — properties that relate several operations, proved.
- `app/` — the running side: the hyper listener, the pool of running
  servers, callbacks of callback bodies, files, the default server and the
  panics and log lines of assertions.
- `tests/` — tests of the library.
