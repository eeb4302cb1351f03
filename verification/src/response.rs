use vstd::prelude::*;

verus! {

/// The outbound response accumulator: born as a generic success with an
/// empty body, then edited by middleware as the chain runs.
#[derive(Debug)]
pub struct Response {
    /// Status code; 200 until some middleware changes it.
    pub status: u16,
    /// Response body.
    pub body: Vec<u8>,
}

impl Response {
    /// A fresh response: generic success, empty body.
    pub fn new() -> (r: Response)
        ensures
            r.status == 200,
            r.body@ == Seq::<u8>::empty(),
    {
        Response { status: 200, body: Vec::new() }
    }

    /// Set the status code.
    pub fn set_status(&mut self, status: u16)
        ensures
            final(self).status == status,
            final(self).body@ == old(self).body@,
    {
        self.status = status;
    }

    /// Replace the body.
    pub fn set_body(&mut self, body: Vec<u8>)
        ensures
            final(self).status == old(self).status,
            final(self).body@ == body@,
    {
        self.body = body;
    }

    /// Drop the body, leaving it empty.
    pub fn take_body(&mut self)
        ensures
            final(self).status == old(self).status,
            final(self).body@ == Seq::<u8>::empty(),
    {
        self.body = Vec::new();
    }
}

impl Default for Response {
    /// Same fresh response as `new`.
    fn default() -> (r: Response)
        ensures
            r.status == 200,
            r.body@ == Seq::<u8>::empty(),
    {
        Response::new()
    }
}

/// The failure a middleware may return: a status code and a message.  It
/// aborts the remaining continuation and propagates up through every
/// caller's `next()` until an ancestor intercepts it.
#[derive(Debug)]
pub struct Error {
    /// Status code carried by the failure.
    pub status: u16,
    /// Human-readable message.
    pub message: String,
}

} // verus!
