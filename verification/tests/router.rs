use uhttp::request::Method;
use uhttp::router::{without_context, Dispatch, RouteBuilder, Router, Step};

fn route_of(d: &Dispatch) -> (usize, Vec<(String, String)>, bool) {
    match d {
        Dispatch::Route { index, params, params_first } => (*index, params.clone(), *params_first),
        Dispatch::NotFound => panic!("expected a route"),
    }
}

fn pairs(v: &[(&str, &str)]) -> Vec<(String, String)> {
    v.iter().map(|(a, b)| (a.to_string(), b.to_string())).collect()
}

#[test]
fn method_table_answers_with_decoded_parameters() {
    let mut r: Router<u32, &str, &str> = Router::new(7);
    r.get("/users/:id", "get-user");
    r.post("/users/:id", "post-user");
    let d = r.dispatch(&Method::Get, "/users/a%20b");
    let (i, ps, first) = route_of(&d);
    assert_eq!(r.route(i).handler, "get-user");
    assert_eq!(ps, pairs(&[("id", "a b")]));
    assert!(!first);
    let (i, _, _) = route_of(&r.dispatch(&Method::Post, "/users/1"));
    assert_eq!(r.route(i).handler, "post-user");
    assert_eq!(*r.context(), 7);
}

#[test]
fn other_methods_fall_back_to_any_routes() {
    let mut r: Router<(), &str, &str> = Router::new_without_context();
    r.any("/files/*", "any-files");
    r.get("/files/special", "special");
    let (i, _, first) = route_of(&r.dispatch(&Method::Get, "/files/special"));
    assert_eq!(r.route(i).handler, "special");
    assert!(!first);
    let (i, ps, first) = route_of(&r.dispatch(&Method::Get, "/files/a/b"));
    assert_eq!(r.route(i).handler, "any-files");
    assert_eq!(ps, pairs(&[("*1", "a/b")]));
    assert!(first);
    let (i, _, _) = route_of(&r.dispatch(&Method::Delete, "/files/x"));
    assert_eq!(r.route(i).handler, "any-files");
    let (i, _, _) = route_of(&r.dispatch(&Method::Options, "/files/x"));
    assert_eq!(r.route(i).handler, "any-files");
}

#[test]
fn unmatched_request_is_not_found() {
    let mut r: Router<(), &str, &str> = Router::new(());
    r.get("/a", "a");
    assert!(matches!(r.dispatch(&Method::Get, "/b"), Dispatch::NotFound));
    assert!(matches!(r.dispatch(&Method::Post, "/a"), Dispatch::NotFound));
    r.with_all("m0");
    let steps = r.steps(&Dispatch::NotFound);
    assert_eq!(steps, vec![Step::Global(0), Step::NotFound]);
}

#[test]
fn later_route_with_the_same_pattern_wins() {
    let mut r: Router<(), &str, &str> = Router::new(());
    r.put("/x", "first");
    r.put("/x", "second");
    assert_eq!(r.route_len(), 2);
    let (i, _, _) = route_of(&r.dispatch(&Method::Put, "/x"));
    assert_eq!(r.route(i).handler, "second");
}

#[test]
fn middleware_runs_in_order_before_the_handler() {
    let mut r: Router<(), &str, &str> = Router::new(());
    r.with_all("g0");
    r.with_all("g1");
    r.with("m0").with("m1").patch(&mut r, "/p/:k", "h");
    assert_eq!(r.middleware(), &vec!["g0", "g1"]);
    let d = r.dispatch(&Method::Patch, "/p/v");
    let (i, ps, _) = route_of(&d);
    assert_eq!(r.route(i).middleware, vec!["m0", "m1"]);
    assert_eq!(ps, pairs(&[("k", "v")]));
    assert_eq!(
        r.steps(&d),
        vec![Step::Global(0), Step::Global(1), Step::RouteMiddleware(0), Step::RouteMiddleware(1), Step::SetParams, Step::Handler]
    );
}

#[test]
fn builder_any_route_is_in_every_table_without_middleware() {
    let mut r: Router<(), &str, &str> = Router::new(());
    r.with_all("g");
    RouteBuilder { middleware: vec!["m"] }.any(&mut r, "/q/:id", "h");
    let d = r.dispatch(&Method::Get, "/q/3");
    let (i, ps, first) = route_of(&d);
    assert!(r.route(i).middleware.is_empty());
    assert_eq!(ps, pairs(&[("id", "3")]));
    assert!(!first);
    assert_eq!(r.steps(&d), vec![Step::Global(0), Step::SetParams, Step::Handler]);
    for m in [Method::Post, Method::Put, Method::Patch, Method::Delete, Method::Trace] {
        let (j, _, _) = route_of(&r.dispatch(&m, "/q/4"));
        assert_eq!(j, i);
    }
}

#[test]
fn any_table_match_sets_parameters_first() {
    let mut r: Router<(), &str, &str> = Router::new(());
    r.with_all("g");
    r.any("/z/:n", "h");
    let d = r.dispatch(&Method::Get, "/z/1");
    assert!(route_of(&d).2);
    assert_eq!(r.steps(&d), vec![Step::Global(0), Step::SetParams, Step::Handler]);
}

#[test]
fn route_builder_methods_use_their_tables() {
    let mut r: Router<(), &str, &str> = Router::new(());
    r.with("a").get(&mut r, "/g", "g");
    r.with("a").post(&mut r, "/p", "p");
    r.with("a").put(&mut r, "/u", "u");
    r.with("a").delete(&mut r, "/d", "d");
    r.without_context().get(&mut r, "/nc", "nc");
    r.without_context().any(&mut r, "/nca", "nca");
    let (i, _, _) = route_of(&r.dispatch(&Method::Post, "/p"));
    assert_eq!(r.route(i).handler, "p");
    assert!(matches!(r.dispatch(&Method::Get, "/p"), Dispatch::NotFound));
    let (i, _, _) = route_of(&r.dispatch(&Method::Delete, "/d"));
    assert_eq!(r.route(i).handler, "d");
    let (i, _, _) = route_of(&r.dispatch(&Method::Get, "/nc"));
    assert!(r.route(i).middleware.is_empty());
    let (i, _, first) = route_of(&r.dispatch(&Method::Head, "/nca"));
    assert_eq!(r.route(i).handler, "nca");
    assert!(!first);
    let (i, _, first) = route_of(&r.dispatch(&Method::Get, "/nca"));
    assert_eq!(r.route(i).handler, "nca");
    assert!(first);
}

#[test]
fn without_context_drops_only_the_context() {
    let w = without_context("handler");
    assert_eq!(w.handler, "handler");
    assert_eq!(w.arguments(1u8, 2u16, "ctx"), (1u8, 2u16));
}
