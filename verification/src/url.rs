//! The address of the local proxy that intercepted URLs point to.
use crate::text::{decimal, push_decimal, push_str};
use vstd::prelude::*;

verus! {

/// A URL that may be redirected to the local mock server.
pub struct Url<'a>(pub &'a str);

impl<'a> Url<'a> {
    /// The host and port of the local server listening on `port`.
    pub fn proxy_host(port: usize) -> (r: String)
        ensures
            r@ == "127.0.0.1:"@ + decimal(port as nat),
    {
        let mut s = String::new();
        push_str(&mut s, "127.0.0.1:");
        push_decimal(&mut s, port);
        s
    }

    /// The `http://` URL of the local server listening on `port`.
    pub fn proxy_host_with_protocol(port: usize) -> (r: String)
        ensures
            r@ == "http://127.0.0.1:"@ + decimal(port as nat),
    {
        let mut s = String::new();
        push_str(&mut s, "http://127.0.0.1:");
        push_decimal(&mut s, port);
        s
    }
}

} // verus!
