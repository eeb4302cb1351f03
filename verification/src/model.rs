use vstd::prelude::*;

use crate::middleware::{
    lemma_size_mtable_entry, lemma_size_table_entry, size_list, size_mtable, size_mw, size_router,
    MethodRouter, Middleware, Router, Step,
};
use crate::request::{Method, Request};

verus! {

/// The mathematical value of the per-request state that a middleware chain
/// reads and writes: response accumulator, extension notes, request body
/// handle, remaining path and captured path bindings, plus the (read-only)
/// request method.
pub ghost struct StateModel {
    /// Response status code.
    pub status: u16,
    /// Response body.
    pub body: Seq<u8>,
    /// Request-scoped extension data: an append-only list of notes.
    pub notes: Seq<Seq<char>>,
    /// The request method; never changed by any middleware.
    pub req_method: Method,
    /// The request body, if not consumed yet.
    pub req_body: Option<Seq<u8>>,
    /// The not-yet-matched suffix of the request path.
    pub remain: Seq<char>,
    /// Captured path bindings, parameter name -> segment value.
    pub args: Map<Seq<char>, Seq<char>>,
}

/// A failure raised by a middleware; it aborts the remaining continuation
/// and propagates up through every caller's `next()`.
pub ghost struct Failure {
    /// Status code carried by the failure.
    pub status: u16,
    /// Message carried by the failure.
    pub message: Seq<char>,
}

/// The outcome of running part of a chain: the state afterwards, and the
/// failure that is propagating, if any.
pub ghost struct RunOut {
    /// The per-request state after the run.
    pub state: StateModel,
    /// `None` on success; `Some` while a failure propagates.
    pub failure: Option<Failure>,
}

/// What one step does to the state.
pub open spec fn run_step(s: Step, st: StateModel) -> RunOut {
    match s {
        Step::SetStatus(c) => RunOut { state: StateModel { status: c, ..st }, failure: None },
        Step::SetBody(b) => RunOut { state: StateModel { body: b@, ..st }, failure: None },
        Step::Note(n) => RunOut {
            state: StateModel { notes: st.notes.push(n@), ..st },
            failure: None,
        },
        Step::TakeBody => RunOut { state: StateModel { req_body: None, ..st }, failure: None },
        Step::Fail(c, m) => RunOut {
            state: st,
            failure: Some(Failure { status: c, message: m@ }),
        },
    }
}

/// Runs a step script until it ends or a step fails.
pub open spec fn run_steps(ss: Seq<Step>, st: StateModel) -> RunOut
    decreases ss.len(),
{
    if ss.len() == 0 {
        RunOut { state: st, failure: None }
    } else {
        let first = run_step(ss[0], st);
        if first.failure is Some {
            first
        } else {
            run_steps(ss.subrange(1, ss.len() as int), first.state)
        }
    }
}

/// The remaining path with a single leading separator stripped.
pub open spec fn strip_lead(p: Seq<char>) -> Seq<char> {
    if p.len() > 0 && p[0] == '/' {
        p.subrange(1, p.len() as int)
    } else {
        p
    }
}

/// Whether table key `k` matches the (stripped) remaining path `p`: `p`
/// starts with `k`, and the match ends exactly at `p`'s end or at a
/// separator, so that key `ab` never claims a segment `abc`.
pub open spec fn key_matches(p: Seq<char>, k: Seq<char>) -> bool {
    k.len() <= p.len() && p.subrange(0, k.len() as int) == k && (p.len() == k.len() || p[k.len() as int]
        == '/')
}

/// The remaining path after key `k` matched `p`: empty on an exact match,
/// else the suffix starting at the separator.
pub open spec fn rest_after(p: Seq<char>, k: Seq<char>) -> Seq<char> {
    if p.len() == k.len() {
        Seq::empty()
    } else {
        p.subrange(k.len() as int, p.len() as int)
    }
}

/// Length of the first path segment of `p`: the index of the first
/// separator, or `p.len()` if there is none.
pub open spec fn seg_end(p: Seq<char>) -> int
    decreases p.len(),
{
    if p.len() == 0 {
        0
    } else if p[0] == '/' {
        0
    } else {
        1 + seg_end(p.subrange(1, p.len() as int))
    }
}

/// The index of the best-matching table entry for path `p`, searching from
/// entry `i` on: among matching keys the longest wins, and among equally
/// long ones the latest registered.  Two distinct keys of equal length
/// cannot both match the same path, so the equal-length rule only makes a
/// re-registration of a key shadow the earlier entry.
pub open spec fn table_match_from(t: Seq<(String, Middleware)>, p: Seq<char>, i: int) -> Option<
    int,
>
    decreases t.len() - i,
{
    if i >= t.len() {
        None
    } else {
        let rest = table_match_from(t, p, i + 1);
        if key_matches(p, t[i].0@) {
            match rest {
                None => Some(i),
                Some(j) => if t[j].0@.len() >= t[i].0@.len() {
                    Some(j)
                } else {
                    Some(i)
                },
            }
        } else {
            rest
        }
    }
}

/// The best-matching table entry for path `p`, if any.
pub open spec fn table_match(t: Seq<(String, Middleware)>, p: Seq<char>) -> Option<int> {
    table_match_from(t, p, 0)
}

/// A best match is a real entry and its key matches.
pub proof fn lemma_table_match_from_props(t: Seq<(String, Middleware)>, p: Seq<char>, i: int)
    ensures
        match table_match_from(t, p, i) {
            Some(j) => i <= j < t.len() && key_matches(p, t[j].0@),
            None => true,
        },
    decreases t.len() - i,
{
    if i < t.len() {
        lemma_table_match_from_props(t, p, i + 1);
    }
}

/// The entry bound to method `m`, if any: the latest registered wins, so a
/// re-registration of a method shadows the earlier entry.
pub open spec fn mtable_match(t: Seq<(Method, Middleware)>, m: Method) -> Option<int>
    decreases t.len(),
{
    if t.len() == 0 {
        None
    } else if t[t.len() - 1].0 == m {
        Some(t.len() - 1)
    } else {
        mtable_match(t.subrange(0, t.len() - 1), m)
    }
}

/// A method match is a real entry bound to the method.
pub proof fn lemma_mtable_match_props(t: Seq<(Method, Middleware)>, m: Method)
    ensures
        match mtable_match(t, m) {
            Some(j) => 0 <= j < t.len() && t[j].0 == m,
            None => true,
        },
    decreases t.len(),
{
    if t.len() > 0 {
        lemma_mtable_match_props(t.subrange(0, t.len() - 1), m);
    }
}

/// A routing miss: status becomes 404, nothing else changes, no failure.
pub open spec fn miss(st: StateModel) -> RunOut {
    RunOut { state: StateModel { status: 404u16, ..st }, failure: None }
}

/// Runs the continuation `tail`: the first element handles the request with
/// the rest as its continuation.  An empty continuation succeeds with no
/// effect.  The caller's remaining path is untouched by whatever the inner
/// run did to its own.
pub open spec fn run_chain(tail: Seq<Middleware>, st: StateModel) -> RunOut
    decreases size_list(tail), 3int,
{
    if tail.len() == 0 {
        RunOut { state: st, failure: None }
    } else {
        let out = run_mw(tail[0], tail.subrange(1, tail.len() as int), st);
        RunOut { state: StateModel { remain: st.remain, ..out.state }, failure: out.failure }
    }
}

/// Runs one middleware with continuation `tail`.
pub open spec fn run_mw(h: Middleware, tail: Seq<Middleware>, st: StateModel) -> RunOut
    decreases size_mw(h) + size_list(tail), 0int,
{
    match h {
        Middleware::M(m) => {
            let pre = run_steps(m.pre@, st);
            if pre.failure is Some {
                pre
            } else if m.call_next {
                let inner = run_chain(tail, pre.state);
                if inner.failure is Some {
                    match m.recover {
                        Some(rec) => run_steps(
                            m.post@,
                            StateModel { status: rec.status, body: rec.body@, ..inner.state },
                        ),
                        None => inner,
                    }
                } else {
                    run_steps(m.post@, inner.state)
                }
            } else {
                run_steps(m.post@, pre.state)
            }
        },
        Middleware::Router(r) => run_router(*r, tail, st),
        Middleware::MethodRouter(mr) => run_method_router(mr, tail, st),
        Middleware::SubApp(l) => {
            let own = run_chain(l@, st);
            if own.failure is Some {
                own
            } else {
                run_chain(tail, own.state)
            }
        },
    }
}

/// Routes by the remaining path: endpoint when the stripped path is empty,
/// else the best table match, else the parametric or fallback tier.
pub open spec fn run_router(r: Router, tail: Seq<Middleware>, st: StateModel) -> RunOut
    decreases size_router(r) + size_list(tail), 2int,
{
    let p = strip_lead(st.remain);
    if p.len() == 0 {
        match r.endpoint {
            Some(e) => run_mw(e, tail, StateModel { remain: p, ..st }),
            None => miss(st),
        }
    } else {
        match table_match(r.table@, p) {
            Some(i) => {
                proof {
                    lemma_table_match_from_props(r.table@, p, 0);
                    lemma_size_table_entry(r.table@, i);
                }
                run_mw(
                    r.table@[i].1,
                    tail,
                    StateModel { remain: rest_after(p, r.table@[i].0@), ..st },
                )
            },
            None => run_router_unmatched(r, tail, st, p),
        }
    }
}

/// The tiers below the table: the parametric entry captures one segment,
/// else the fallback sees the remaining path unchanged, else a 404 miss.
pub open spec fn run_router_unmatched(
    r: Router,
    tail: Seq<Middleware>,
    st: StateModel,
    p: Seq<char>,
) -> RunOut
    decreases size_router(r) + size_list(tail), 1int,
{
    if p.len() > 0 && p[0] != '/' && r.any is Some {
        let entry = r.any->0;
        let cut = seg_end(p);
        run_mw(
            entry.1,
            tail,
            StateModel {
                remain: p.subrange(cut, p.len() as int),
                args: st.args.insert(entry.0@, p.subrange(0, cut)),
                ..st
            },
        )
    } else {
        match r.fallback {
            Some(f) => run_mw(f, tail, st),
            None => miss(st),
        }
    }
}

/// Dispatches on the request method; an unbound method yields 405 with an
/// empty body and no delegate runs.
pub open spec fn run_method_router(mr: MethodRouter, tail: Seq<Middleware>, st: StateModel) -> RunOut
    decreases size_mtable(mr.table@) + size_list(tail), 2int,
{
    match mtable_match(mr.table@, st.req_method) {
        Some(i) => {
            proof {
                lemma_mtable_match_props(mr.table@, st.req_method);
                lemma_size_mtable_entry(mr.table@, i);
            }
            run_mw(mr.table@[i].1, tail, st)
        },
        None => RunOut {
            state: StateModel { status: 405u16, body: Seq::empty(), ..st },
            failure: None,
        },
    }
}

/// The fresh state the dispatcher builds for an incoming request: a generic
/// success response with an empty body, fresh extension data, the full
/// request path as the remaining path, and no bindings.
pub open spec fn initial_state(req: Request) -> StateModel {
    StateModel {
        status: 200u16,
        body: Seq::empty(),
        notes: Seq::empty(),
        req_method: req.method,
        req_body: match req.body {
            Some(b) => Some(b@),
            None => None,
        },
        remain: req.path@,
        args: Map::empty(),
    }
}

/// What serving `req` through `chain` produces; serving is a function of
/// the chain and the request alone, so serving the same request twice
/// produces identical outcomes.
pub open spec fn serve_outcome(chain: Seq<Middleware>, req: Request) -> RunOut {
    run_chain(chain, initial_state(req))
}

} // verus!
