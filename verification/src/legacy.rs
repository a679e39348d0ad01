//! The former interface around one default server, kept by the caller.
use crate::matcher::{Matcher, MatcherView, PathAndQueryView};
use crate::mock::Mock;
use crate::request::RequestView;
use crate::mock::InnerMockView;
use crate::server::Server;
use crate::backends::is_alphanumeric;
use crate::response::default_response;
use vstd::prelude::*;

verus! {

/// A new mock for `method` and `path` on the default server (see `Server::mock`).
pub fn mock(server: &mut Server, method: &str, path: Matcher) -> (r: Mock)
    ensures
        final(server)@ == old(server)@,
        r@.inner.method == crate::text::unicode_uppercase(method@),
        r@.inner.path == PathAndQueryView::Unified(path@),
        r@.inner.headers == Seq::<(Seq<char>, MatcherView)>::empty(),
        r@.inner.body == MatcherView::Any,
        r@.inner.response == default_response(),
        r@.inner.hits == 0,
        r@.inner.expected_hits_at_least is None,
        r@.inner.expected_hits_at_most is None,
        r@.inner.id.len() == 24,
        forall|i: int| 0 <= i < 24 ==> is_alphanumeric(#[trigger] r@.inner.id[i]),
        !r@.created,
{
    server.mock(method, path)
}

/// The host and port of the default server.
pub fn server_address(server: &Server) -> (r: String)
    ensures
        r@ == server@.address,
{
    server.host_with_port()
}

/// The `http://` URL of the default server.
pub fn server_url(server: &Server) -> (r: String)
    ensures
        r@ == "http://"@ + server@.address,
{
    server.url()
}

/// Removes all the mocks of the default server.
pub fn reset(server: &mut Server)
    ensures
        final(server)@.address == old(server)@.address,
        final(server)@.state.mocks == Seq::<InnerMockView>::empty(),
        final(server)@.state.unmatched == Seq::<RequestView>::empty(),
{
    server.reset();
}

} // verus!
