use amiya::{Context, Method, MethodRouter, Middleware, Request, Router, RouterLike, Step, M};

fn responder(body: &str) -> Middleware {
    Middleware::M(M {
        pre: vec![Step::SetBody(body.as_bytes().to_vec())],
        call_next: false,
        recover: None,
        post: vec![],
    })
}

fn request(method: Method, path: &str) -> Request {
    Request { method, path: path.to_string(), body: None }
}

#[test]
fn multi_segment_key_dispatches_with_empty_remaining_path() {
    // A table key may claim several segments at once; on an exact match the
    // remaining path is empty, so the item's endpoint answers.
    let router = Router::new().at("v1/login").uses(responder("login")).done();
    let app = amiya::new().uses(Middleware::Router(Box::new(router)));
    let resp = app.serve(request(Method::Get, "/v1/login")).unwrap();
    assert_eq!(resp.status, 200);
    assert_eq!(resp.body, b"login".to_vec());
}

#[test]
fn fallback_wins_over_endpoint_on_nonempty_remaining_path() {
    let router = Router::new()
        .endpoint()
        .uses(responder("endpoint"))
        .fallback()
        .uses(responder("fallback"));
    let app = amiya::new().uses(Middleware::Router(Box::new(router)));
    let resp = app.serve(request(Method::Get, "/static/a/b.png")).unwrap();
    assert_eq!(resp.status, 200);
    assert_eq!(resp.body, b"fallback".to_vec());
}

#[test]
fn root_path_dispatches_to_endpoint() {
    let router = Router::new().endpoint().uses(responder("endpoint"));
    let app = amiya::new().uses(Middleware::Router(Box::new(router)));
    let resp = app.serve(request(Method::Get, "/")).unwrap();
    assert_eq!(resp.status, 200);
    assert_eq!(resp.body, b"endpoint".to_vec());
}

#[test]
fn parametric_entry_captures_segment_and_redispatches() {
    let router = Router::new()
        .at("users")
        .at("{id}")
        .at("profile")
        .uses(responder("profile-page"))
        .done()
        .done()
        .done();
    let chain = vec![Middleware::Router(Box::new(router))];
    let req = request(Method::Get, "/users/42/profile");
    let ctx = Context::new(&req, None, &chain);
    let (ctx, r) = ctx.next();
    assert!(r.is_ok());
    assert_eq!(ctx.resp.status, 200);
    assert_eq!(ctx.resp.body, b"profile-page".to_vec());
    assert_eq!(ctx.arg("id"), Some("42"));
    assert_eq!(ctx.arg("other"), None);
}

#[test]
fn unbound_method_yields_405_with_empty_body() {
    let pre_writer = Middleware::M(M {
        pre: vec![Step::SetBody(b"will be cleared".to_vec())],
        call_next: true,
        recover: None,
        post: vec![],
    });
    let methods = MethodRouter::new().method(Method::Get, responder("got"));
    let app = amiya::new().uses(pre_writer).uses(Middleware::MethodRouter(methods));
    let resp = app.serve(request(Method::Put, "/")).unwrap();
    assert_eq!(resp.status, 405);
    assert!(resp.body.is_empty());
}

#[test]
fn bound_method_delegates_without_consuming_path() {
    let methods = MethodRouter::new().get(responder("got"));
    let app = amiya::new().uses(Middleware::MethodRouter(methods));
    let resp = app.serve(request(Method::Get, "/anything")).unwrap();
    assert_eq!(resp.status, 200);
    assert_eq!(resp.body, b"got".to_vec());
}

#[test]
fn method_rebinding_last_wins() {
    let methods = MethodRouter::new()
        .method(Method::Get, responder("first"))
        .method(Method::Get, responder("second"));
    let app = amiya::new().uses(Middleware::MethodRouter(methods));
    let resp = app.serve(request(Method::Get, "/")).unwrap();
    assert_eq!(resp.body, b"second".to_vec());
}

#[test]
fn unmatched_path_yields_404() {
    let router = Router::new().at("api").uses(responder("api")).done();
    let app = amiya::new().uses(Middleware::Router(Box::new(router)));
    let resp = app.serve(request(Method::Get, "/nope")).unwrap();
    assert_eq!(resp.status, 404);
    assert!(resp.body.is_empty());
}

#[test]
fn key_match_respects_segment_boundary() {
    // Key "ab" must not claim the segment "abc".
    let router = Router::new().at("ab").uses(responder("ab")).done();
    let app = amiya::new().uses(Middleware::Router(Box::new(router)));
    let resp = app.serve(request(Method::Get, "/abc")).unwrap();
    assert_eq!(resp.status, 404);
    let resp = app.serve(request(Method::Get, "/ab")).unwrap();
    assert_eq!(resp.status, 200);
    assert_eq!(resp.body, b"ab".to_vec());
}

#[test]
fn longest_table_key_wins() {
    let mut router = Router::new();
    router.insert_to_router_table("a", responder("short"));
    router.insert_to_router_table("a/b", responder("long"));
    let app = amiya::new().uses(Middleware::Router(Box::new(router)));
    let resp = app.serve(request(Method::Get, "/a/b/c")).unwrap();
    // Key "a/b" matches more of the path than key "a", so it wins; the
    // sub-middleware sees remaining path "/c", which it ignores here.
    assert_eq!(resp.body, b"long".to_vec());
    let resp = app.serve(request(Method::Get, "/a/x")).unwrap();
    assert_eq!(resp.body, b"short".to_vec());
}

#[test]
fn reregistered_table_key_last_wins() {
    let mut router = Router::new();
    router.insert_to_router_table("x", responder("first"));
    router.insert_to_router_table("x", responder("second"));
    let app = amiya::new().uses(Middleware::Router(Box::new(router)));
    let resp = app.serve(request(Method::Get, "/x")).unwrap();
    assert_eq!(resp.body, b"second".to_vec());
}

#[test]
fn table_entry_with_remaining_path_delegates_deeper() {
    let inner = Router::new().at("v1").uses(responder("v1")).done();
    let router = Router::new().at("api").is(Middleware::Router(Box::new(inner)));
    let app = amiya::new().uses(Middleware::Router(Box::new(router)));
    let resp = app.serve(request(Method::Get, "/api/v1")).unwrap();
    assert_eq!(resp.body, b"v1".to_vec());
    let resp = app.serve(request(Method::Get, "/api/nope")).unwrap();
    assert_eq!(resp.status, 404);
}

#[test]
fn parametric_entry_loses_to_table_match() {
    let mut router = Router::new();
    router.insert_to_router_table("users", responder("static"));
    router.insert_to_router_table("{seg}", responder("param"));
    let app = amiya::new().uses(Middleware::Router(Box::new(router)));
    let resp = app.serve(request(Method::Get, "/users")).unwrap();
    assert_eq!(resp.body, b"static".to_vec());
    let resp = app.serve(request(Method::Get, "/other")).unwrap();
    assert_eq!(resp.body, b"param".to_vec());
}

#[test]
fn endpoint_method_shortcut_builds_method_router() {
    let router = Router::new().endpoint().method(Method::Post, responder("posted"));
    let app = amiya::new().uses(Middleware::Router(Box::new(router)));
    let resp = app.serve(request(Method::Post, "/")).unwrap();
    assert_eq!(resp.body, b"posted".to_vec());
    let resp = app.serve(request(Method::Get, "/")).unwrap();
    assert_eq!(resp.status, 405);
}

#[test]
fn fallback_sees_the_unconsumed_path() {
    // The fallback receives the remaining path unchanged, so a router used
    // as fallback can still match the very segments nothing else claimed.
    let inner = Router::new().at("static").uses(responder("static-file")).done();
    let outer = Router::new().fallback().uses(Middleware::Router(Box::new(inner)));
    let app = amiya::new().uses(Middleware::Router(Box::new(outer)));
    let resp = app.serve(request(Method::Get, "/static")).unwrap();
    assert_eq!(resp.body, b"static-file".to_vec());
}

#[test]
fn parametric_entry_skips_empty_segment() {
    let mut router = Router::new();
    router.insert_to_router_table("{seg}", responder("param"));
    let app = amiya::new().uses(Middleware::Router(Box::new(router)));
    let resp = app.serve(request(Method::Get, "//x")).unwrap();
    assert_eq!(resp.status, 404);
}

#[test]
fn callers_remaining_path_survives_inner_routing() {
    let router = Router::new().at("x").uses(responder("x")).done();
    let chain = vec![Middleware::Router(Box::new(router))];
    let req = request(Method::Get, "/x");
    let ctx = Context::new(&req, None, &chain);
    assert_eq!(ctx.path(), "/x");
    let (ctx, r) = ctx.next();
    assert!(r.is_ok());
    // Routers below consumed the path in their own contexts only.
    assert_eq!(ctx.path(), "/x");
    assert_eq!(ctx.resp.body, b"x".to_vec());
}

#[test]
fn empty_path_dispatches_to_endpoint() {
    let router = Router::new().endpoint().uses(responder("endpoint"));
    let app = amiya::new().uses(Middleware::Router(Box::new(router)));
    let resp = app.serve(request(Method::Get, "")).unwrap();
    assert_eq!(resp.body, b"endpoint".to_vec());
}
