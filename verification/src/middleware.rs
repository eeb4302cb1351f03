use vstd::prelude::*;

use crate::request::Method;

verus! {

/// One primitive effect a scripted middleware performs on the per-request state.
#[derive(Debug)]
pub enum Step {
    /// Set the response status code.
    SetStatus(u16),
    /// Replace the response body.
    SetBody(Vec<u8>),
    /// Append a note to the request-scoped extension data.
    Note(String),
    /// Consume the request body; only the first consumer sees it.
    TakeBody,
    /// Abort the chain with a failure carrying a status and a message.
    Fail(u16, String),
}

/// What a scripted middleware does when its own `next()` call reports a
/// failure: replace the response status and body and swallow the failure.
#[derive(Debug)]
pub struct Recover {
    pub status: u16,
    pub body: Vec<u8>,
}

/// A scripted middleware, the workhorse handler of the pipeline: it runs
/// `pre`, then (when `call_next` is set) drives the rest of the chain via
/// `next()`, then runs `post`.  Code in `pre` runs top-down in pipeline
/// order, code in `post` bottom-up, which yields the onion execution model.
#[derive(Debug)]
pub struct M {
    /// Steps run before the continuation.
    pub pre: Vec<Step>,
    /// Whether the middleware invokes its continuation at all.  When false
    /// the middleware short-circuits: nothing below it in the chain runs.
    pub call_next: bool,
    /// When set, a failure reported by `next()` is intercepted here instead
    /// of propagating further up.
    pub recover: Option<Recover>,
    /// Steps run after the continuation has returned.
    pub post: Vec<Step>,
}

/// Anything that can consume a `Context` and produce a terminal or
/// propagated result, optionally invoking the continuation.
#[derive(Debug)]
pub enum Middleware {
    /// A scripted handler.
    M(M),
    /// Dispatch on the remaining, not-yet-matched path.
    Router(Box<Router>),
    /// Dispatch on the request method.
    MethodRouter(MethodRouter),
    /// A nested pipeline: runs its own chain first, then forwards control to
    /// the caller's remaining continuation.
    SubApp(Vec<Middleware>),
}

/// The path router: consumes part of the remaining path and re-dispatches to
/// a sub-middleware.
///
/// When several table keys match the same remaining path (a key may span
/// several segments, so `"a"` and `"a/b"` can both match `a/b/c`), the
/// longest key wins, and of a key registered twice the later entry.  The
/// tie-break is deterministic: two distinct keys of equal length cannot
/// both match one path.
#[derive(Debug)]
pub struct Router {
    /// Handler for a remaining path that is empty once the leading separator
    /// is stripped.
    pub endpoint: Option<Middleware>,
    /// Handler for a non-empty remaining path that no table or parametric
    /// entry matched; receives the remaining path unchanged.
    pub fallback: Option<Middleware>,
    /// The parametric entry: matches one whole segment and records it in the
    /// path bindings under the stored name.
    pub any: Option<(String, Middleware)>,
    /// Static table: key -> sub-middleware.  A key may contain separators
    /// and then claims several segments at once.
    pub table: Vec<(String, Middleware)>,
}

/// The method router: dispatches on the request method; an unbound method
/// yields status 405 with an empty body and no delegate runs.
#[derive(Debug)]
pub struct MethodRouter {
    /// Method -> sub-middleware bindings; keys unique.
    pub table: Vec<(Method, Middleware)>,
}

/// Structural size of a middleware tree; the termination measure for the
/// dispatch interpreter.
pub open spec fn size_mw(m: Middleware) -> nat
    decreases m,
{
    match m {
        Middleware::M(_) => 1,
        Middleware::Router(r) => 1 + size_router(*r),
        Middleware::MethodRouter(mr) => 1 + size_mtable(mr.table@),
        Middleware::SubApp(l) => 1 + size_list(l@),
    }
}

/// Combined size of a router's sub-middleware.
pub open spec fn size_router(r: Router) -> nat
    decreases r,
{
    size_opt(r.endpoint) + size_opt(r.fallback) + size_any(r.any) + size_table(r.table@)
}

/// Size of an optional sub-middleware.
pub open spec fn size_opt(o: Option<Middleware>) -> nat
    decreases o,
{
    match o {
        Option::None => 0,
        Option::Some(m) => size_mw(m),
    }
}

/// Size of the parametric entry.
pub open spec fn size_any(o: Option<(String, Middleware)>) -> nat
    decreases o,
{
    match o {
        Option::None => 0,
        Option::Some(p) => size_mw(p.1),
    }
}

/// Combined size of the entries of a router table.
pub open spec fn size_table(t: Seq<(String, Middleware)>) -> nat
    decreases t,
{
    if t.len() == 0 {
        0
    } else {
        size_mw(t[0].1) + size_table(t.subrange(1, t.len() as int))
    }
}

/// Combined size of the entries of a method table.
pub open spec fn size_mtable(t: Seq<(Method, Middleware)>) -> nat
    decreases t,
{
    if t.len() == 0 {
        0
    } else {
        size_mw(t[0].1) + size_mtable(t.subrange(1, t.len() as int))
    }
}

/// Combined size of a middleware chain.
pub open spec fn size_list(s: Seq<Middleware>) -> nat
    decreases s,
{
    if s.len() == 0 {
        0
    } else {
        size_mw(s[0]) + size_list(s.subrange(1, s.len() as int))
    }
}

/// Every entry of a router table weighs no more than the whole table.
pub proof fn lemma_size_table_entry(t: Seq<(String, Middleware)>, i: int)
    requires
        0 <= i < t.len(),
    ensures
        size_mw(t[i].1) <= size_table(t),
    decreases t.len(),
{
    if i > 0 {
        lemma_size_table_entry(t.subrange(1, t.len() as int), i - 1);
    }
}

/// Every entry of a method table weighs no more than the whole table.
pub proof fn lemma_size_mtable_entry(t: Seq<(Method, Middleware)>, i: int)
    requires
        0 <= i < t.len(),
    ensures
        size_mw(t[i].1) <= size_mtable(t),
    decreases t.len(),
{
    if i > 0 {
        lemma_size_mtable_entry(t.subrange(1, t.len() as int), i - 1);
    }
}

} // verus!
