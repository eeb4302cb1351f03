//! A minimal middleware-based HTTP service core: an ordered pipeline of
//! request handlers executed in onion order, plus path and method routers
//! that dispatch a request to the right handler subtree.
//!
//! The pipeline, the `next()` continuation mechanism and the routing state
//! machine are verified against a mathematical interpreter (`model`): every
//! public operation states exactly what it does to the per-request state.
//! Wire parsing, sockets and task executors are collaborators outside this
//! crate; they hand the pipeline a plain [`Request`] and receive a plain
//! [`Response`] back.

use vstd::prelude::*;

mod context;
pub mod laws;
mod dispatch;
mod executor;
mod middleware;
pub mod model;
mod request;
mod response;
mod setter;
mod text;

pub use context::Context;
pub use executor::BuiltInExecutor;
pub use middleware::{MethodRouter, Middleware, Recover, Router, Step, M};
pub use request::{Method, Request};
pub use response::{Error, Response};
pub use setter::{RouterLike, RouterSetter, SetEndpoint, SetFallback, SetTableItem};

use crate::model::{initial_state, serve_outcome, Failure};

verus! {

/// The middleware-based service: an ordered, immutable-after-assembly list
/// of middleware, plus the executor value the transport shell will use to
/// drive connections.  Assembly appends middleware in execution order;
/// serving walks them in onion order.
pub struct Amiya<Exec> {
    /// The executor handed to the transport shell; the pipeline only
    /// carries it.
    pub executor: Exec,
    /// The middleware, in the order they were added.
    pub middleware_list: Vec<Middleware>,
}

/// Create an [`Amiya`] instance with the built-in executor and no
/// middleware.
pub fn new() -> (a: Amiya<BuiltInExecutor>)
    ensures
        a.middleware_list@ == Seq::<Middleware>::empty(),
        a.executor == BuiltInExecutor,
{
    Amiya::new()
}

impl Amiya<BuiltInExecutor> {
    /// A pipeline with the built-in executor and no middleware.
    pub fn new() -> (a: Amiya<BuiltInExecutor>)
        ensures
            a.middleware_list@ == Seq::<Middleware>::empty(),
            a.executor == BuiltInExecutor,
    {
        Amiya { executor: BuiltInExecutor, middleware_list: Vec::new() }
    }
}

impl Default for Amiya<BuiltInExecutor> {
    /// Same as [`Amiya::new`].
    fn default() -> (a: Amiya<BuiltInExecutor>)
        ensures
            a.middleware_list@ == Seq::<Middleware>::empty(),
            a.executor == BuiltInExecutor,
    {
        Amiya::new()
    }
}

impl<Exec> Amiya<Exec> {
    /// Add a middleware to the end; middleware run in the order added.
    pub fn uses(self, middleware: Middleware) -> (a: Amiya<Exec>)
        ensures
            a.middleware_list@ == self.middleware_list@.push(middleware),
            a.executor == self.executor,
    {
        let mut s = self;
        s.middleware_list.push(middleware);
        s
    }

    /// Replace the executor the transport shell will use.
    pub fn executor<NewExec>(self, executor: NewExec) -> (a: Amiya<NewExec>)
        ensures
            a.middleware_list@ == self.middleware_list@,
            a.executor == executor,
    {
        Amiya { executor, middleware_list: self.middleware_list }
    }

    /// Serve one request through the pipeline: build a fresh context whose
    /// continuation is the whole middleware list, invoke `next()` once, and
    /// return the response — or the failure, if no middleware intercepted
    /// it.  The outcome is a function of the middleware list and the
    /// request alone, so serving the same request twice produces identical
    /// results.
    pub fn serve(&self, req: Request) -> (res: Result<Response, Error>)
        ensures
            ({
                let out = serve_outcome(self.middleware_list@, req);
                match res {
                    Ok(resp) => out.failure is None && resp.status == out.state.status
                        && resp.body@ == out.state.body,
                    Err(e) => out.failure == Some(
                        Failure { status: e.status, message: e.message@ },
                    ),
                }
            }),
    {
        let Request { method, path, body } = req;
        let head = Request { method, path, body: None };
        let ctx = Context::new(&head, body, &self.middleware_list);
        proof {
            assert(ctx.model() == initial_state(req));
        }
        let (done, r) = ctx.next();
        match r {
            Ok(u) => Ok(done.resp),
            Err(e) => Err(e),
        }
    }

    /// This pipeline as a middleware of another pipeline: when invoked it
    /// runs its own full chain first, then forwards control to the caller's
    /// remaining continuation, so composition preserves onion order.
    pub fn into_middleware(self) -> (m: Middleware)
        ensures
            m == Middleware::SubApp(self.middleware_list),
    {
        Middleware::SubApp(self.middleware_list)
    }
}

} // verus!
