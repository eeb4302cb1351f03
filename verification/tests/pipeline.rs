use amiya::{Context, Method, Middleware, Recover, Request, Step, M};

fn noter(name: &str, call_next: bool) -> Middleware {
    Middleware::M(M {
        pre: vec![Step::Note(format!("{}-pre", name))],
        call_next,
        recover: None,
        post: vec![Step::Note(format!("{}-post", name))],
    })
}

fn get_request(path: &str) -> Request {
    Request { method: Method::Get, path: path.to_string(), body: None }
}

#[test]
fn onion_order_three_middleware() {
    let chain = vec![noter("A", true), noter("B", true), noter("C", true)];
    let req = get_request("/");
    let ctx = Context::new(&req, None, &chain);
    let (ctx, r) = ctx.next();
    assert!(r.is_ok());
    assert_eq!(ctx.ex, ["A-pre", "B-pre", "C-pre", "C-post", "B-post", "A-post"]);
}

#[test]
fn short_circuit_skips_later_middleware() {
    let chain = vec![noter("A", true), noter("B", false), noter("C", true)];
    let req = get_request("/");
    let ctx = Context::new(&req, None, &chain);
    let (ctx, r) = ctx.next();
    assert!(r.is_ok());
    assert_eq!(ctx.ex, ["A-pre", "B-pre", "B-post", "A-post"]);
}

#[test]
fn next_on_exhausted_context_is_harmless() {
    let chain: Vec<Middleware> = Vec::new();
    let req = get_request("/");
    let ctx = Context::new(&req, None, &chain);
    let (ctx, r) = ctx.next();
    assert!(r.is_ok());
    assert_eq!(ctx.resp.status, 200);
    assert!(ctx.resp.body.is_empty());
    assert_eq!(ctx.ex, Vec::<String>::new());
    let (ctx, r) = ctx.next();
    assert!(r.is_ok());
    assert_eq!(ctx.resp.status, 200);
    assert!(ctx.resp.body.is_empty());
    assert_eq!(ctx.ex, Vec::<String>::new());
}

#[test]
fn serve_same_request_twice_gives_identical_responses() {
    let app = amiya::new().uses(Middleware::M(M {
        pre: vec![Step::SetStatus(201), Step::SetBody(b"made".to_vec())],
        call_next: true,
        recover: None,
        post: vec![],
    }));
    let first = app.serve(get_request("/x")).unwrap();
    let second = app.serve(get_request("/x")).unwrap();
    assert_eq!(first.status, second.status);
    assert_eq!(first.body, second.body);
    assert_eq!(first.status, 201);
    assert_eq!(first.body, b"made".to_vec());
}

#[test]
fn failure_propagates_to_serve() {
    let app = amiya::new()
        .uses(noter("A", true))
        .uses(Middleware::M(M {
            pre: vec![Step::Fail(418, "boom".to_string())],
            call_next: false,
            recover: None,
            post: vec![],
        }));
    let err = app.serve(get_request("/")).unwrap_err();
    assert_eq!(err.status, 418);
    assert_eq!(err.message, "boom");
}

#[test]
fn recovery_converts_any_failure_to_fixed_response() {
    let catcher = Middleware::M(M {
        pre: vec![],
        call_next: true,
        recover: Some(Recover { status: 500, body: b"caught".to_vec() }),
        post: vec![],
    });
    let failer = Middleware::M(M {
        pre: vec![Step::SetBody(b"partial".to_vec()), Step::Fail(418, "boom".to_string())],
        call_next: false,
        recover: None,
        post: vec![],
    });
    let app = amiya::new().uses(catcher).uses(failer);
    let resp = app.serve(get_request("/")).unwrap();
    assert_eq!(resp.status, 500);
    assert_eq!(resp.body, b"caught".to_vec());
}

#[test]
fn recovery_is_transparent_on_success() {
    let catcher = Middleware::M(M {
        pre: vec![],
        call_next: true,
        recover: Some(Recover { status: 500, body: b"caught".to_vec() }),
        post: vec![],
    });
    let ok_handler = Middleware::M(M {
        pre: vec![Step::SetStatus(204)],
        call_next: false,
        recover: None,
        post: vec![],
    });
    let app = amiya::new().uses(catcher).uses(ok_handler);
    let resp = app.serve(get_request("/")).unwrap();
    assert_eq!(resp.status, 204);
}

#[test]
fn sub_app_runs_its_chain_then_forwards() {
    let sub = amiya::new().uses(noter("S1", true)).uses(noter("S2", true));
    let chain = vec![noter("A", true), sub.into_middleware(), noter("C", true)];
    let req = get_request("/");
    let ctx = Context::new(&req, None, &chain);
    let (ctx, r) = ctx.next();
    assert!(r.is_ok());
    assert_eq!(
        ctx.ex,
        ["A-pre", "S1-pre", "S2-pre", "S2-post", "S1-post", "C-pre", "C-post", "A-post"]
    );
}

#[test]
fn request_body_is_consumed_at_most_once() {
    let chain = vec![noter("A", true)];
    let req = get_request("/");
    let ctx = Context::new(&req, Some(b"payload".to_vec()), &chain);
    let (mut ctx, r) = ctx.next();
    assert!(r.is_ok());
    assert_eq!(ctx.body(), Some(b"payload".to_vec()));
    assert_eq!(ctx.body(), None);
}

#[test]
fn take_body_step_consumes_the_request_body() {
    let taker = Middleware::M(M {
        pre: vec![Step::TakeBody],
        call_next: true,
        recover: None,
        post: vec![],
    });
    let chain = vec![taker];
    let req = get_request("/");
    let ctx = Context::new(&req, Some(b"payload".to_vec()), &chain);
    let (mut ctx, r) = ctx.next();
    assert!(r.is_ok());
    assert_eq!(ctx.body(), None);
}

#[test]
fn post_steps_see_inner_edits() {
    let outer = Middleware::M(M {
        pre: vec![],
        call_next: true,
        recover: None,
        post: vec![Step::SetBody(b"outer".to_vec())],
    });
    let inner = Middleware::M(M {
        pre: vec![Step::SetStatus(201), Step::SetBody(b"inner".to_vec())],
        call_next: false,
        recover: None,
        post: vec![],
    });
    let app = amiya::new().uses(outer).uses(inner);
    let resp = app.serve(get_request("/")).unwrap();
    assert_eq!(resp.status, 201);
    assert_eq!(resp.body, b"outer".to_vec());
}
