use vstd::prelude::*;

use crate::middleware::{size_list, Middleware};
use crate::model::{run_chain, Failure, StateModel};
use crate::request::Request;
use crate::response::{Error, Response};
use crate::text::str_eq;

verus! {

/// The path bindings as a map: a later entry for the same name wins.
pub open spec fn args_map(s: Seq<(String, String)>) -> Map<Seq<char>, Seq<char>>
    decreases s.len(),
{
    if s.len() == 0 {
        Map::empty()
    } else {
        args_map(s.subrange(0, s.len() - 1)).insert(s[s.len() - 1].0@, s[s.len() - 1].1@)
    }
}

/// Appending a binding updates the map at that name.
pub proof fn lemma_args_map_push(s: Seq<(String, String)>, e: (String, String))
    ensures
        args_map(s.push(e)) == args_map(s).insert(e.0@, e.1@),
{
    assert(s.push(e).subrange(0, s.push(e).len() - 1) =~= s);
}

/// The last entry for a name gives that name's value in the map.
pub proof fn lemma_args_map_found(s: Seq<(String, String)>, i: int)
    requires
        0 <= i < s.len(),
        forall|j: int| i < j < s.len() ==> s[j].0@ != s[i].0@,
    ensures
        args_map(s).dom().contains(s[i].0@),
        args_map(s)[s[i].0@] == s[i].1@,
    decreases s.len(),
{
    if i < s.len() - 1 {
        let t = s.subrange(0, s.len() - 1);
        assert(forall|j: int| i < j < t.len() ==> t[j].0@ != t[i].0@);
        lemma_args_map_found(t, i);
    }
}

/// A name bound by no entry is not in the map.
pub proof fn lemma_args_map_absent(s: Seq<(String, String)>, k: Seq<char>)
    requires
        forall|j: int| 0 <= j < s.len() ==> s[j].0@ != k,
    ensures
        !args_map(s).dom().contains(k),
    decreases s.len(),
{
    if s.len() > 0 {
        lemma_args_map_absent(s.subrange(0, s.len() - 1), k);
    }
}

/// How a middleware result reads as a model value.
pub open spec fn failure_of(r: Result<(), Error>) -> Option<Failure> {
    match r {
        Ok(u) => None,
        Err(e) => Some(Failure { status: e.status, message: e.message@ }),
    }
}

/// The context middleware works on: the per-request state bundle threaded
/// through the pipeline.  Each middleware receives it by value and `next()`
/// hands a narrowed copy to the rest of the chain, so exactly one context
/// is live at any depth of the call tree.
pub struct Context<'x> {
    /// The incoming request, read-only for the whole pipeline.
    pub req: &'x Request,
    /// The outbound response, edited by middleware.
    pub resp: Response,
    /// Request-scoped extension data: an append-only list of notes.
    pub ex: Vec<String>,
    /// The request body; `body()` hands it out at most once.
    pub body: Option<Vec<u8>>,
    /// The suffix of the request path no router has matched yet.
    pub remain_path: String,
    /// Captured path bindings; a later entry for a name shadows an earlier.
    pub router_matches: Vec<(String, String)>,
    /// The full middleware chain this context walks.
    pub chain: &'x Vec<Middleware>,
    /// Position in `chain`: the continuation is everything from here on.
    pub pos: usize,
}

impl<'x> Context<'x> {
    /// Internal invariant: the cursor lies within the chain.
    pub open spec fn wf(&self) -> bool {
        self.pos <= self.chain@.len()
    }

    /// The not-yet-invoked suffix of the middleware chain.
    pub open spec fn continuation(&self) -> Seq<Middleware> {
        self.chain@.skip(self.pos as int)
    }

    /// The mathematical value of the per-request state.
    pub open spec fn model(&self) -> StateModel {
        StateModel {
            status: self.resp.status,
            body: self.resp.body@,
            notes: self.ex@.map_values(|s: String| s@),
            req_method: self.req.method,
            req_body: match self.body {
                Some(b) => Some(b@),
                None => None,
            },
            remain: self.remain_path@,
            args: args_map(self.router_matches@),
        }
    }

    /// A fresh context for one request: generic success response with empty
    /// body, fresh extension data, the full request path still to match,
    /// no bindings, and the whole chain as continuation.  `body` is the
    /// request body, handed over separately so the request itself can stay
    /// borrowed.
    pub fn new(req: &'x Request, body: Option<Vec<u8>>, chain: &'x Vec<Middleware>) -> (c: Context<
        'x,
    >)
        ensures
            c.wf(),
            c.req == req,
            c.continuation() == chain@,
            c.model() == (StateModel {
                status: 200u16,
                body: Seq::<u8>::empty(),
                notes: Seq::<Seq<char>>::empty(),
                req_method: req.method,
                req_body: match body {
                    Some(b) => Some(b@),
                    None => None,
                },
                remain: req.path@,
                args: Map::<Seq<char>, Seq<char>>::empty(),
            }),
    {
        let c = Context {
            req,
            resp: Response::new(),
            ex: Vec::new(),
            body,
            remain_path: req.path.clone(),
            router_matches: Vec::new(),
            chain,
            pos: 0,
        };
        proof {
            assert(c.continuation() =~= chain@);
            assert(c.ex@.map_values(|s: String| s@) =~= Seq::<Seq<char>>::empty());
        }
        c
    }

    /// Runs all inner middleware: the head of the continuation handles the
    /// request with the rest as its continuation, and this context resumes
    /// afterwards with its own remaining path.  On an exhausted context the
    /// call succeeds and changes nothing, so a second call to `next()`
    /// after the chain has run is harmless.
    pub fn next(self) -> (out: (Context<'x>, Result<(), Error>))
        requires
            self.wf(),
        ensures
            out.0.wf(),
            out.0.req == self.req,
            out.0.chain == self.chain,
            self.continuation().len() == 0 ==> out.0 == self && out.1 is Ok,
            self.continuation().len() > 0 ==> out.0.continuation() == self.continuation().skip(1),
            ({
                let r = run_chain(self.continuation(), self.model());
                out.0.model() == r.state && failure_of(out.1) == r.failure
            }),
        decreases size_list(self.continuation()), 3int,
    {
        if self.pos < self.chain.len() {
            let Context { req, resp, ex, body, remain_path, router_matches, chain, pos } = self;
            let current: &Middleware = &chain[pos];
            let child = Context {
                req,
                resp,
                ex,
                body,
                remain_path: remain_path.clone(),
                router_matches,
                chain,
                pos: pos + 1,
            };
            proof {
                assert(self.continuation()[0] == current);
                assert(self.continuation().subrange(1, self.continuation().len() as int)
                    =~= child.continuation());
            }
            let (c2, r) = current.handle(child);
            let out = Context {
                req,
                resp: c2.resp,
                ex: c2.ex,
                body: c2.body,
                remain_path,
                router_matches: c2.router_matches,
                chain,
                pos: pos + 1,
            };
            (out, r)
        } else {
            (self, Ok(()))
        }
    }

    /// The path the next router can match: only the sub-path no router
    /// middleware has consumed yet.
    pub fn path(&self) -> (r: &str)
        ensures
            r@ == self.model().remain,
    {
        self.remain_path.as_str()
    }

    /// The captured path binding for `name`, set when a router's parametric
    /// entry matched a segment.
    pub fn arg(&self, name: &str) -> (r: Option<&str>)
        ensures
            match r {
                Some(v) => self.model().args.dom().contains(name@) && v@ == self.model().args[name@],
                None => !self.model().args.dom().contains(name@),
            },
    {
        let n = self.router_matches.len();
        let mut i: usize = n;
        while i > 0
            invariant
                0 <= i <= n,
                n == self.router_matches@.len(),
                forall|j: int| i <= j < n ==> self.router_matches@[j].0@ != name@,
            decreases i,
        {
            i = i - 1;
            let entry = &self.router_matches[i];
            if str_eq(entry.0.as_str(), name) {
                proof {
                    lemma_args_map_found(self.router_matches@, i as int);
                }
                return Some(entry.1.as_str());
            }
        }
        proof {
            lemma_args_map_absent(self.router_matches@, name@);
        }
        None
    }

    /// The request body; only the first call returns `Some`.
    pub fn body(&mut self) -> (r: Option<Vec<u8>>)
        ensures
            final(self).req == old(self).req,
            final(self).chain == old(self).chain,
            final(self).pos == old(self).pos,
            final(self).model() == (StateModel { req_body: None, ..old(self).model() }),
            match r {
                Some(b) => old(self).model().req_body == Some(b@),
                None => old(self).model().req_body is None,
            },
    {
        self.body.take()
    }
}

} // verus!
