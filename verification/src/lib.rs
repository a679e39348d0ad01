//! HTTP mocking: request matchers, mock definitions, the bookkeeping of a
//! mock server and the rendering of its diagnostics.
use vstd::prelude::*;

pub mod backends;
pub mod command;
pub mod diff;
pub mod error;
pub mod laws;
pub mod legacy;
pub mod matcher;
pub mod mock;
pub mod mock_builder;
pub mod request;
pub mod response;
pub mod server;
pub mod server_pool;
pub mod text;
pub mod url;

pub use error::{Error, ErrorKind};
pub use matcher::Matcher;
pub use mock::Mock;
pub use request::Request;
pub use server::Server;

verus! {
}
