use vstd::prelude::*;

verus! {

/// The HTTP methods the method router can dispatch on.
#[derive(Clone, Copy, Debug, PartialEq, Eq, Structural, Hash)]
pub enum Method {
    Get,
    Head,
    Post,
    Put,
    Delete,
    Connect,
    Options,
    Trace,
    Patch,
}

/// An inbound request as the middleware pipeline sees it: the transport
/// collaborator parses the wire format and hands over plain values.
#[derive(Debug)]
pub struct Request {
    /// The request method.
    pub method: Method,
    /// The request path, e.g. `/api/v1/login`.
    pub path: String,
    /// The request body; consumed at most once per request.
    pub body: Option<Vec<u8>>,
}

} // verus!
