use uhttp::mux::{MuxDispatch, Router};
use uhttp::request::Method;

fn index_of(d: MuxDispatch) -> (usize, Vec<(String, String)>) {
    match d {
        MuxDispatch::Route { index, params } => (index, params),
        MuxDispatch::Fallback => panic!("fallback"),
        MuxDispatch::NotFound => panic!("not found"),
    }
}

#[test]
fn each_method_has_its_table() {
    let mut r: Router<&str> = Router::new();
    r.get("/r", "get");
    r.post("/r", "post");
    r.put("/r", "put");
    r.patch("/r", "patch");
    r.delete("/r", "delete");
    r.head("/r", "head");
    r.connect("/r", "connect");
    for (m, name) in [
        (Method::Get, "get"),
        (Method::Post, "post"),
        (Method::Put, "put"),
        (Method::Patch, "patch"),
        (Method::Delete, "delete"),
        (Method::Head, "head"),
        (Method::Connect, "connect"),
    ] {
        let (i, _) = index_of(r.dispatch(&m, "/r"));
        assert_eq!(*r.handler_at(i), name);
    }
    assert!(matches!(r.dispatch(&Method::Options, "/r"), MuxDispatch::NotFound));
}

#[test]
fn unmatched_request_goes_to_the_fallback() {
    let mut r: Router<&str> = Router::new();
    r.get("/posts/:slug", "post");
    assert!(matches!(r.dispatch(&Method::Get, "/other"), MuxDispatch::NotFound));
    assert!(r.fallback().is_none());
    r.not_found("fallback");
    assert_eq!(*r.fallback(), Some("fallback"));
    assert!(matches!(r.dispatch(&Method::Get, "/other"), MuxDispatch::Fallback));
    let (i, ps) = index_of(r.dispatch(&Method::Get, "/posts/hello%2Fworld"));
    assert_eq!(*r.handler_at(i), "post");
    assert_eq!(ps, vec![("slug".to_string(), "hello/world".to_string())]);
}
