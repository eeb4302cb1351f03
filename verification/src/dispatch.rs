use vstd::prelude::*;

use crate::context::{failure_of, lemma_args_map_push, Context};
use crate::middleware::{
    lemma_size_mtable_entry, lemma_size_table_entry, size_list, size_mtable, size_mw, size_router,
    MethodRouter, Middleware, Router, Step,
};
use crate::model::{
    lemma_mtable_match_props, lemma_table_match_from_props, mtable_match, run_method_router,
    run_mw, run_router, run_router_unmatched, run_steps, strip_lead, table_match,
    table_match_from,
};
use crate::request::Method;
use crate::response::Error;
use crate::text::{
    clone_bytes, first_seg_len, lemma_seg_end_props, matches_key, rest_after_key, strip_lead_owned,
    substr_owned,
};

verus! {

/// Runs a step script on the context until it ends or a step fails.
fn run_steps_exec<'x>(steps: &Vec<Step>, ctx: Context<'x>) -> (out: (
    Context<'x>,
    Result<(), Error>,
))
    requires
        ctx.wf(),
    ensures
        out.0.wf(),
        out.0.req == ctx.req,
        out.0.chain == ctx.chain,
        out.0.pos == ctx.pos,
        ({
            let r = run_steps(steps@, ctx.model());
            out.0.model() == r.state && failure_of(out.1) == r.failure
        }),
{
    let mut cur = ctx;
    let mut i: usize = 0;
    let n = steps.len();
    proof {
        assert(steps@.subrange(0, n as int) =~= steps@);
    }
    while i < n
        invariant
            cur.wf(),
            cur.req == ctx.req,
            cur.chain == ctx.chain,
            cur.pos == ctx.pos,
            0 <= i <= n,
            n == steps@.len(),
            run_steps(steps@, ctx.model()) == run_steps(
                steps@.subrange(i as int, n as int),
                cur.model(),
            ),
        decreases n - i,
    {
        let ghost rest = steps@.subrange(i as int, n as int);
        proof {
            assert(rest[0] == steps@[i as int]);
            assert(rest.subrange(1, rest.len() as int) =~= steps@.subrange(
                i + 1 as int,
                n as int,
            ));
        }
        let step = &steps[i];
        match step {
            Step::SetStatus(c) => {
                cur.resp.set_status(*c);
            },
            Step::SetBody(b) => {
                cur.resp.set_body(clone_bytes(b));
            },
            Step::Note(s) => {
                let ghost before = cur.ex@;
                cur.ex.push(s.clone());
                proof {
                    assert(cur.ex@.map_values(|t: String| t@) =~= before.map_values(
                        |t: String| t@,
                    ).push(s@));
                }
            },
            Step::TakeBody => {
                cur.body = None;
            },
            Step::Fail(c, m) => {
                return (cur, Err(Error { status: *c, message: m.clone() }));
            },
        }
        i += 1;
    }
    proof {
        assert(steps@.subrange(n as int, n as int) =~= Seq::<Step>::empty());
    }
    (cur, Ok(()))
}

/// Scans the router table for the best match: among matching keys the
/// longest wins, among equally long ones the latest registered.
fn best_table_entry(t: &Vec<(String, Middleware)>, p: &str) -> (r: Option<usize>)
    ensures
        match r {
            Some(i) => 0 <= i < t@.len() && table_match(t@, p@) == Some(i as int),
            None => table_match(t@, p@) is None,
        },
{
    let n = t.len();
    let mut best: Option<usize> = None;
    let mut i: usize = n;
    while i > 0
        invariant
            0 <= i <= n,
            n == t@.len(),
            match best {
                Some(j) => i <= j < n && table_match_from(t@, p@, i as int) == Some(j as int),
                None => table_match_from(t@, p@, i as int) is None,
            },
        decreases i,
    {
        i = i - 1;
        let entry = &t[i];
        if matches_key(p, entry.0.as_str()) {
            match best {
                Some(j) => {
                    let prev = &t[j];
                    if prev.0.as_str().unicode_len() >= entry.0.as_str().unicode_len() {
                        best = Some(j);
                    } else {
                        best = Some(i);
                    }
                },
                None => {
                    best = Some(i);
                },
            }
        }
    }
    best
}

/// Finds the entry bound to the request method, if any: the latest wins.
fn find_method_entry(t: &Vec<(Method, Middleware)>, m: Method) -> (r: Option<usize>)
    ensures
        match r {
            Some(i) => 0 <= i < t@.len() && mtable_match(t@, m) == Some(i as int),
            None => mtable_match(t@, m) is None,
        },
{
    let n = t.len();
    let mut i: usize = n;
    proof {
        assert(t@.subrange(0, n as int) =~= t@);
    }
    while i > 0
        invariant
            0 <= i <= n,
            n == t@.len(),
            mtable_match(t@, m) == mtable_match(t@.subrange(0, i as int), m),
        decreases i,
    {
        i = i - 1;
        let ghost upto = t@.subrange(0, i + 1 as int);
        proof {
            assert(upto[upto.len() - 1] == t@[i as int]);
            assert(upto.subrange(0, upto.len() - 1) =~= t@.subrange(0, i as int));
        }
        if t[i].0 == m {
            return Some(i);
        }
    }
    proof {
        assert(t@.subrange(0, 0) =~= Seq::<(Method, Middleware)>::empty());
    }
    None
}

/// Routes by the remaining path, as `run_router` says.
fn router_handle<'x>(r: &'x Router, ctx: Context<'x>) -> (out: (Context<'x>, Result<(), Error>))
    requires
        ctx.wf(),
    ensures
        out.0.wf(),
        out.0.req == ctx.req,
        ({
            let o = run_router(*r, ctx.continuation(), ctx.model());
            out.0.model() == o.state && failure_of(out.1) == o.failure
        }),
    decreases size_router(*r) + size_list(ctx.continuation()), 2int,
{
    let stripped = strip_lead_owned(ctx.remain_path.as_str());
    if stripped.as_str().is_empty() {
        match &r.endpoint {
            Some(e) => {
                let mut c = ctx;
                c.remain_path = stripped;
                e.handle(c)
            },
            None => {
                let mut c = ctx;
                c.resp.set_status(404);
                (c, Ok(()))
            },
        }
    } else {
        let found = best_table_entry(&r.table, stripped.as_str());
        match found {
            Some(i) => {
                proof {
                    lemma_table_match_from_props(r.table@, stripped@, 0);
                    lemma_size_table_entry(r.table@, i as int);
                }
                let entry = &r.table[i];
                let rest = rest_after_key(stripped.as_str(), entry.0.as_str());
                let mut c = ctx;
                c.remain_path = rest;
                entry.1.handle(c)
            },
            None => router_unmatched_handle(r, ctx, stripped),
        }
    }
}

/// The tiers below the table: parametric entry, then fallback, then 404.
/// `stripped` is the remaining path with one leading separator stripped.
fn router_unmatched_handle<'x>(r: &'x Router, ctx: Context<'x>, stripped: String) -> (out: (
    Context<'x>,
    Result<(), Error>,
))
    requires
        ctx.wf(),
        stripped@ == strip_lead(ctx.model().remain),
        stripped@.len() > 0,
    ensures
        out.0.wf(),
        out.0.req == ctx.req,
        ({
            let o = run_router_unmatched(*r, ctx.continuation(), ctx.model(), stripped@);
            out.0.model() == o.state && failure_of(out.1) == o.failure
        }),
    decreases size_router(*r) + size_list(ctx.continuation()), 1int,
{
    let p = stripped.as_str();
    if p.get_char(0) != '/' && r.any.is_some() {
        match &r.any {
            Some(a) => {
                proof {
                    lemma_seg_end_props(p@);
                }
                let cut = first_seg_len(p);
                let value = substr_owned(p, 0, cut);
                let rest = substr_owned(p, cut, p.unicode_len());
                let mut c = ctx;
                c.remain_path = rest;
                let ghost before = c.router_matches@;
                c.router_matches.push((a.0.clone(), value));
                proof {
                    lemma_args_map_push(before, c.router_matches@[before.len() as int]);
                    assert(before.push(c.router_matches@[before.len() as int])
                        =~= c.router_matches@);
                }
                a.1.handle(c)
            },
            None => {
                // unreachable: is_some() was checked
                let mut c = ctx;
                c.resp.set_status(404);
                (c, Ok(()))
            },
        }
    } else {
        match &r.fallback {
            Some(f) => f.handle(ctx),
            None => {
                let mut c = ctx;
                c.resp.set_status(404);
                (c, Ok(()))
            },
        }
    }
}

/// Dispatches on the request method, as `run_method_router` says.
fn method_router_handle<'x>(mr: &'x MethodRouter, ctx: Context<'x>) -> (out: (
    Context<'x>,
    Result<(), Error>,
))
    requires
        ctx.wf(),
    ensures
        out.0.wf(),
        out.0.req == ctx.req,
        ({
            let o = run_method_router(*mr, ctx.continuation(), ctx.model());
            out.0.model() == o.state && failure_of(out.1) == o.failure
        }),
    decreases size_mtable(mr.table@) + size_list(ctx.continuation()), 2int,
{
    let found = find_method_entry(&mr.table, ctx.req.method);
    match found {
        Some(i) => {
            proof {
                lemma_mtable_match_props(mr.table@, ctx.model().req_method);
                lemma_size_mtable_entry(mr.table@, i as int);
            }
            let entry = &mr.table[i];
            entry.1.handle(ctx)
        },
        None => {
            let mut c = ctx;
            c.resp.set_status(405);
            c.resp.take_body();
            (c, Ok(()))
        },
    }
}

impl Middleware {
    /// Handles the request carried by `ctx`, whose continuation is the rest
    /// of the chain below this middleware.
    pub fn handle<'x>(&'x self, ctx: Context<'x>) -> (out: (Context<'x>, Result<(), Error>))
        requires
            ctx.wf(),
        ensures
            out.0.wf(),
            out.0.req == ctx.req,
            ({
                let o = run_mw(*self, ctx.continuation(), ctx.model());
                out.0.model() == o.state && failure_of(out.1) == o.failure
            }),
        decreases size_mw(*self) + size_list(ctx.continuation()), 0int,
    {
        match self {
            Middleware::M(m) => {
                let (c1, r1) = run_steps_exec(&m.pre, ctx);
                match r1 {
                    Err(e) => (c1, Err(e)),
                    Ok(u) => {
                        if m.call_next {
                            let (c2, r2) = c1.next();
                            match r2 {
                                Err(e) => match &m.recover {
                                    Some(rec) => {
                                        let mut c3 = c2;
                                        c3.resp.set_status(rec.status);
                                        c3.resp.set_body(clone_bytes(&rec.body));
                                        run_steps_exec(&m.post, c3)
                                    },
                                    None => (c2, Err(e)),
                                },
                                Ok(u2) => run_steps_exec(&m.post, c2),
                            }
                        } else {
                            run_steps_exec(&m.post, c1)
                        }
                    },
                }
            },
            Middleware::Router(r) => router_handle(r, ctx),
            Middleware::MethodRouter(mr) => method_router_handle(mr, ctx),
            Middleware::SubApp(l) => {
                let Context { req, resp, ex, body, remain_path, router_matches, chain, pos } = ctx;
                let sub = Context {
                    req,
                    resp,
                    ex,
                    body,
                    remain_path: remain_path.clone(),
                    router_matches,
                    chain: l,
                    pos: 0,
                };
                proof {
                    assert(sub.continuation() =~= l@);
                }
                let (s2, r1) = sub.next();
                let back = Context {
                    req,
                    resp: s2.resp,
                    ex: s2.ex,
                    body: s2.body,
                    remain_path,
                    router_matches: s2.router_matches,
                    chain,
                    pos,
                };
                match r1 {
                    Err(e) => (back, Err(e)),
                    Ok(u) => back.next(),
                }
            },
        }
    }
}

} // verus!
