use vstd::prelude::*;

use crate::middleware::{MethodRouter, Middleware, Router};
use crate::request::Method;
use crate::text::substr_owned;

verus! {

/// Whether a table path names the parametric entry: `{name}`.
pub open spec fn is_param_key(p: Seq<char>) -> bool {
    p.len() >= 2 && p[0] == '{' && p[p.len() - 1] == '}'
}

/// The parameter name inside `{name}`.
pub open spec fn param_name(p: Seq<char>) -> Seq<char> {
    p.subrange(1, p.len() - 1)
}

/// Relates a router before and after registering `m` under `path`: a
/// `{name}` path replaces the parametric entry, any other path appends a
/// table entry (a later entry for the same key shadows an earlier one).
pub open spec fn router_inserted(old_r: Router, path: Seq<char>, m: Middleware, new_r: Router) -> bool {
    &&& new_r.endpoint == old_r.endpoint
    &&& new_r.fallback == old_r.fallback
    &&& if is_param_key(path) {
        &&& new_r.table@ == old_r.table@
        &&& new_r.any matches Some(a) && a.0@ == param_name(path) && a.1 == m
    } else {
        &&& new_r.any == old_r.any
        &&& new_r.table@.len() == old_r.table@.len() + 1
        &&& new_r.table@.subrange(0, old_r.table@.len() as int) == old_r.table@
        &&& new_r.table@[old_r.table@.len() as int].0@ == path
        &&& new_r.table@[old_r.table@.len() as int].1 == m
    }
}

/// As `router_inserted`, for registering a whole sub-router.
pub open spec fn router_inserted_sub(
    old_r: Router,
    path: Seq<char>,
    sub: Router,
    new_r: Router,
) -> bool {
    &&& new_r.endpoint == old_r.endpoint
    &&& new_r.fallback == old_r.fallback
    &&& if is_param_key(path) {
        &&& new_r.table@ == old_r.table@
        &&& new_r.any matches Some(a) && a.0@ == param_name(path) && (a.1 matches Middleware::Router(b) && *b == sub)
    } else {
        &&& new_r.any == old_r.any
        &&& new_r.table@.len() == old_r.table@.len() + 1
        &&& new_r.table@.subrange(0, old_r.table@.len() as int) == old_r.table@
        &&& new_r.table@[old_r.table@.len() as int].0@ == path
        &&& (new_r.table@[old_r.table@.len() as int].1 matches Middleware::Router(b) && *b == sub)
    }
}

/// Anything whose construction edits a router: a [`Router`] itself, or a
/// setter environment that forwards the edits to the router table item it
/// is building.
pub trait RouterLike: Sized {
    /// The router under edit.
    spec fn router_model(&self) -> Router;

    /// Self with the router under edit replaced by `r`, all else equal.
    spec fn with_router_model(&self, r: Router) -> Self;

    /// Set the endpoint handler, replacing any previous one.
    fn set_endpoint(&mut self, m: Middleware)
        ensures
            *final(self) == old(self).with_router_model(
                Router { endpoint: Some(m), ..old(self).router_model() },
            ),
    ;

    /// Set the fallback handler, replacing any previous one.
    fn set_fallback(&mut self, m: Middleware)
        ensures
            *final(self) == old(self).with_router_model(
                Router { fallback: Some(m), ..old(self).router_model() },
            ),
    ;

    /// Register `m` under `path`: a `{name}` path sets the parametric
    /// entry, any other path adds a table entry.
    fn insert_to_router_table(&mut self, path: &str, m: Middleware)
        ensures
            router_inserted(old(self).router_model(), path@, m, final(self).router_model()),
            *final(self) == old(self).with_router_model(final(self).router_model()),
    ;

    /// Replacing the router under edit indeed makes it the router under
    /// edit.
    proof fn lemma_with_model(&self, r: Router)
        ensures
            self.with_router_model(r).router_model() == r,
    ;
}

impl Router {
    /// A router with nothing registered.
    pub fn new() -> (r: Router)
        ensures
            r.endpoint is None,
            r.fallback is None,
            r.any is None,
            r.table@ == Seq::<(String, Middleware)>::empty(),
    {
        Router { endpoint: None, fallback: None, any: None, table: Vec::new() }
    }

    /// Enter the endpoint edit environment.
    pub fn endpoint(self) -> (s: RouterSetter<Router, SetEndpoint>)
        ensures
            s.router == self,
            s.method_router.table@ == Seq::<(Method, Middleware)>::empty(),
    {
        RouterSetter::new_endpoint_setter(self)
    }

    /// Enter the fallback edit environment.
    pub fn fallback(self) -> (s: RouterSetter<Router, SetFallback>)
        ensures
            s.router == self,
            s.method_router.table@ == Seq::<(Method, Middleware)>::empty(),
    {
        RouterSetter::new_fallback_setter(self)
    }

    /// Add a table item for `path` and enter the endpoint edit environment
    /// of that item's sub-router.
    pub fn at(self, path: &str) -> (s: RouterSetter<RouterSetter<Router, SetTableItem>, SetEndpoint>)
        ensures
            s.router.router == self,
            s.router.which.path@ == path@,
            s.router.sub_router.endpoint is None,
            s.router.sub_router.fallback is None,
            s.router.sub_router.any is None,
            s.router.sub_router.table@ == Seq::<(String, Middleware)>::empty(),
            s.method_router.table@ == Seq::<(Method, Middleware)>::empty(),
    {
        RouterSetter::new_router_table_setter(self, path).endpoint()
    }
}

impl Default for Router {
    /// Same as [`Router::new`].
    fn default() -> (r: Router)
        ensures
            r.endpoint is None,
            r.fallback is None,
            r.any is None,
            r.table@ == Seq::<(String, Middleware)>::empty(),
    {
        Router::new()
    }
}

impl RouterLike for Router {
    open spec fn router_model(&self) -> Router {
        *self
    }

    open spec fn with_router_model(&self, r: Router) -> Router {
        r
    }

    fn set_endpoint(&mut self, m: Middleware) {
        self.endpoint = Some(m);
    }

    fn set_fallback(&mut self, m: Middleware) {
        self.fallback = Some(m);
    }

    proof fn lemma_with_model(&self, r: Router) {
    }

    fn insert_to_router_table(&mut self, path: &str, m: Middleware) {
        let n = path.unicode_len();
        if n >= 2 && path.get_char(0) == '{' && path.get_char(n - 1) == '}' {
            let name = substr_owned(path, 1, n - 1);
            self.any = Some((name, m));
        } else {
            let ghost before = self.table@;
            self.table.push((path.to_owned(), m));
            proof {
                assert(self.table@.subrange(0, before.len() as int) =~= before);
            }
        }
    }
}

impl MethodRouter {
    /// A method router with nothing registered.
    pub fn new() -> (r: MethodRouter)
        ensures
            r.table@ == Seq::<(Method, Middleware)>::empty(),
    {
        MethodRouter { table: Vec::new() }
    }

    /// Bind `middleware` to `method`; a later binding for the same method
    /// shadows an earlier one.
    pub fn method(self, method: Method, middleware: Middleware) -> (r: MethodRouter)
        ensures
            r.table@ == self.table@.push((method, middleware)),
    {
        let mut s = self;
        s.table.push((method, middleware));
        s
    }

    /// Bind `middleware` to `GET`.
    pub fn get(self, middleware: Middleware) -> (r: MethodRouter)
        ensures
            r.table@ == self.table@.push((Method::Get, middleware)),
    {
        self.method(Method::Get, middleware)
    }

    /// Bind `middleware` to `HEAD`.
    pub fn head(self, middleware: Middleware) -> (r: MethodRouter)
        ensures
            r.table@ == self.table@.push((Method::Head, middleware)),
    {
        self.method(Method::Head, middleware)
    }

    /// Bind `middleware` to `POST`.
    pub fn post(self, middleware: Middleware) -> (r: MethodRouter)
        ensures
            r.table@ == self.table@.push((Method::Post, middleware)),
    {
        self.method(Method::Post, middleware)
    }

    /// Bind `middleware` to `PUT`.
    pub fn put(self, middleware: Middleware) -> (r: MethodRouter)
        ensures
            r.table@ == self.table@.push((Method::Put, middleware)),
    {
        self.method(Method::Put, middleware)
    }

    /// Bind `middleware` to `DELETE`.
    pub fn delete(self, middleware: Middleware) -> (r: MethodRouter)
        ensures
            r.table@ == self.table@.push((Method::Delete, middleware)),
    {
        self.method(Method::Delete, middleware)
    }

    /// Bind `middleware` to `CONNECT`.
    pub fn connect(self, middleware: Middleware) -> (r: MethodRouter)
        ensures
            r.table@ == self.table@.push((Method::Connect, middleware)),
    {
        self.method(Method::Connect, middleware)
    }

    /// Bind `middleware` to `OPTIONS`.
    pub fn options(self, middleware: Middleware) -> (r: MethodRouter)
        ensures
            r.table@ == self.table@.push((Method::Options, middleware)),
    {
        self.method(Method::Options, middleware)
    }

    /// Bind `middleware` to `TRACE`.
    pub fn trace(self, middleware: Middleware) -> (r: MethodRouter)
        ensures
            r.table@ == self.table@.push((Method::Trace, middleware)),
    {
        self.method(Method::Trace, middleware)
    }

    /// Bind `middleware` to `PATCH`.
    pub fn patch(self, middleware: Middleware) -> (r: MethodRouter)
        ensures
            r.table@ == self.table@.push((Method::Patch, middleware)),
    {
        self.method(Method::Patch, middleware)
    }
}

impl Default for MethodRouter {
    /// Same as [`MethodRouter::new`].
    fn default() -> (r: MethodRouter)
        ensures
            r.table@ == Seq::<(Method, Middleware)>::empty(),
    {
        MethodRouter::new()
    }
}

/// Witness: the setter edits the endpoint slot.
pub struct SetEndpoint {}

/// Witness: the setter edits the fallback slot.
pub struct SetFallback {}

/// Witness: the setter edits the table item for `path`.
pub struct SetTableItem {
    /// The path key of the item under edit.
    pub path: String,
}

/// A router editing environment: it carries the router being edited, the
/// sub-router and method router it may build, and a witness saying which
/// slot a finish method will set.  A finish method (`uses`, `is`, `method`,
/// `done`) consumes the environment, sets the slot, and returns the edited
/// router.
pub struct RouterSetter<R, W> {
    /// The router (or outer environment) being edited.
    pub router: R,
    /// The sub-router built by `at`/`fallback`/`endpoint` chains below a
    /// table item.
    pub sub_router: Router,
    /// The method router built by `method` and its shortcuts.
    pub method_router: MethodRouter,
    /// Which slot the finish methods set.
    pub which: W,
}

impl<R: RouterLike> RouterSetter<R, SetEndpoint> {
    /// An endpoint edit environment for `router`.
    pub fn new_endpoint_setter(router: R) -> (s: Self)
        ensures
            s.router == router,
            s.method_router.table@ == Seq::<(Method, Middleware)>::empty(),
    {
        RouterSetter {
            router,
            sub_router: Router::new(),
            method_router: MethodRouter::new(),
            which: SetEndpoint {  },
        }
    }

    /// Finish: use `middleware` as the endpoint handler.
    pub fn uses(self, middleware: Middleware) -> (r: R)
        ensures
            r == self.router.with_router_model(
                Router { endpoint: Some(middleware), ..self.router.router_model() },
            ),
    {
        let mut router = self.router;
        router.set_endpoint(middleware);
        router
    }

    /// Finish: the endpoint dispatches `method` to `middleware`.
    pub fn method(self, method: Method, middleware: Middleware) -> (r: R)
        ensures
            r.router_model().fallback == self.router.router_model().fallback,
            r.router_model().any == self.router.router_model().any,
            r.router_model().table@ == self.router.router_model().table@,
            r.router_model().endpoint matches Some(mm) && mm matches Middleware::MethodRouter(mr)
                && mr.table@ == self.method_router.table@.push((method, middleware)),
            r == self.router.with_router_model(r.router_model()),
    {
        let mut router = self.router;
        let mm = Middleware::MethodRouter(self.method_router.method(method, middleware));
        proof {
            router.lemma_with_model(Router { endpoint: Some(mm), ..router.router_model() });
        }
        router.set_endpoint(mm);
        router
    }
}

impl<R: RouterLike> RouterSetter<R, SetFallback> {
    /// A fallback edit environment for `router`.
    pub fn new_fallback_setter(router: R) -> (s: Self)
        ensures
            s.router == router,
            s.method_router.table@ == Seq::<(Method, Middleware)>::empty(),
    {
        RouterSetter {
            router,
            sub_router: Router::new(),
            method_router: MethodRouter::new(),
            which: SetFallback {  },
        }
    }

    /// Finish: use `middleware` as the fallback handler.
    pub fn uses(self, middleware: Middleware) -> (r: R)
        ensures
            r == self.router.with_router_model(
                Router { fallback: Some(middleware), ..self.router.router_model() },
            ),
    {
        let mut router = self.router;
        router.set_fallback(middleware);
        router
    }

    /// Finish: the fallback dispatches `method` to `middleware`.
    pub fn method(self, method: Method, middleware: Middleware) -> (r: R)
        ensures
            r.router_model().endpoint == self.router.router_model().endpoint,
            r.router_model().any == self.router.router_model().any,
            r.router_model().table@ == self.router.router_model().table@,
            r.router_model().fallback matches Some(mm) && mm matches Middleware::MethodRouter(mr)
                && mr.table@ == self.method_router.table@.push((method, middleware)),
            r == self.router.with_router_model(r.router_model()),
    {
        let mut router = self.router;
        let mm = Middleware::MethodRouter(self.method_router.method(method, middleware));
        proof {
            router.lemma_with_model(Router { fallback: Some(mm), ..router.router_model() });
        }
        router.set_fallback(mm);
        router
    }
}

impl<R: RouterLike> RouterSetter<R, SetTableItem> {
    /// A table item edit environment for `path` under `router`.
    pub fn new_router_table_setter(router: R, path: &str) -> (s: Self)
        ensures
            s.router == router,
            s.which.path@ == path@,
            s.sub_router.endpoint is None,
            s.sub_router.fallback is None,
            s.sub_router.any is None,
            s.sub_router.table@ == Seq::<(String, Middleware)>::empty(),
            s.method_router.table@ == Seq::<(Method, Middleware)>::empty(),
    {
        RouterSetter {
            router,
            sub_router: Router::new(),
            method_router: MethodRouter::new(),
            which: SetTableItem { path: path.to_owned() },
        }
    }

    /// Enter the endpoint edit environment of the item's sub-router.
    pub fn endpoint(self) -> (s: RouterSetter<RouterSetter<R, SetTableItem>, SetEndpoint>)
        ensures
            s.router == self,
            s.method_router.table@ == Seq::<(Method, Middleware)>::empty(),
    {
        RouterSetter::new_endpoint_setter(self)
    }

    /// Finish this table item: register the sub-router built so far under
    /// the item's path.
    pub fn done(self) -> (r: R)
        ensures
            router_inserted_sub(
                self.router.router_model(),
                self.which.path@,
                self.sub_router,
                r.router_model(),
            ),
            r == self.router.with_router_model(r.router_model()),
    {
        let mut router = self.router;
        router.insert_to_router_table(
            self.which.path.as_str(),
            Middleware::Router(Box::new(self.sub_router)),
        );
        router
    }
}

impl<R: RouterLike> RouterLike for RouterSetter<R, SetTableItem> {
    open spec fn router_model(&self) -> Router {
        self.sub_router
    }

    open spec fn with_router_model(&self, r: Router) -> Self {
        RouterSetter { sub_router: r, ..*self }
    }

    fn set_endpoint(&mut self, m: Middleware) {
        self.sub_router.set_endpoint(m);
    }

    fn set_fallback(&mut self, m: Middleware) {
        self.sub_router.set_fallback(m);
    }

    proof fn lemma_with_model(&self, r: Router) {
    }

    fn insert_to_router_table(&mut self, path: &str, m: Middleware) {
        self.sub_router.insert_to_router_table(path, m);
    }
}

impl<R: RouterLike> RouterSetter<RouterSetter<R, SetTableItem>, SetEndpoint> {
    /// Switch to the fallback edit environment of the same table item.
    pub fn fallback(self) -> (s: RouterSetter<RouterSetter<R, SetTableItem>, SetFallback>)
        ensures
            s.router == self.router,
            s.method_router.table@ == Seq::<(Method, Middleware)>::empty(),
    {
        RouterSetter::new_fallback_setter(self.router)
    }

    /// Add a table item for `path` inside the same item's sub-router and
    /// enter its endpoint edit environment.
    pub fn at(self, path: &str) -> (s: RouterSetter<
        RouterSetter<RouterSetter<R, SetTableItem>, SetTableItem>,
        SetEndpoint,
    >)
        ensures
            s.router.router == self.router,
            s.router.which.path@ == path@,
            s.router.sub_router.endpoint is None,
            s.router.sub_router.fallback is None,
            s.router.sub_router.any is None,
            s.router.sub_router.table@ == Seq::<(String, Middleware)>::empty(),
            s.method_router.table@ == Seq::<(Method, Middleware)>::empty(),
    {
        RouterSetter::new_router_table_setter(self.router, path).endpoint()
    }

    /// Finish the whole table item: register `middleware` itself under the
    /// item's path, discarding the sub-router.
    pub fn is(self, middleware: Middleware) -> (r: R)
        ensures
            router_inserted(
                self.router.router.router_model(),
                self.router.which.path@,
                middleware,
                r.router_model(),
            ),
            r == self.router.router.with_router_model(r.router_model()),
    {
        let inner = self.router;
        let mut router = inner.router;
        router.insert_to_router_table(inner.which.path.as_str(), middleware);
        router
    }
}

} // verus!
