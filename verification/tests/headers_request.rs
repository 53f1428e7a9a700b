use uhttp::headers::HeaderMap;
use uhttp::request::{Method, Request, Uri, Version};

fn request_with(headers: HeaderMap, method: Method, path: &str, query: Option<&str>) -> Request<()> {
    Request::new((), headers, method, Version::Http11, Uri::new(path.to_string(), query.map(|q| q.to_string())))
}

#[test]
fn header_lookup_ignores_case_and_takes_first() {
    let mut h = HeaderMap::new();
    assert_eq!(h.len(), 0);
    h.append("Accept-Encoding", b"gzip");
    h.append("accept-encoding", b"br");
    h.append("X-Other", b"1");
    assert_eq!(h.len(), 3);
    assert_eq!(h.get("ACCEPT-ENCODING"), Some(&b"gzip"[..]));
    assert_eq!(h.get("x-other"), Some(&b"1"[..]));
    assert_eq!(h.get("Missing"), None);
}

#[test]
fn header_text_requires_visible_ascii() {
    let mut h = HeaderMap::new();
    h.append("Name", b"caf\xC3\xA9");
    h.append("Plain", b"text value");
    assert_eq!(h.get("Name"), Some(&b"caf\xC3\xA9"[..]));
    assert_eq!(h.get_text("Name"), None);
    assert_eq!(h.get_text("Plain"), Some(&b"text value"[..]));
    assert_eq!(h.get_text("Missing"), None);
}

#[test]
fn method_names() {
    assert_eq!(Method::Get.as_str(), "GET");
    assert_eq!(Method::Options.as_str(), "OPTIONS");
    assert_eq!(Method::Patch.as_str(), "PATCH");
    assert_eq!(Method::Extension("PURGE".to_string()).as_str(), "PURGE");
}

#[test]
fn uri_path_and_query() {
    let u = Uri::new("/a/b".to_string(), Some("x=1&y=2".to_string()));
    assert_eq!(u.path(), "/a/b");
    assert_eq!(u.query(), Some("x=1&y=2"));
    assert_eq!(u.path_and_query(), Some("/a/b?x=1&y=2".to_string()));
    let u = Uri::new("/only".to_string(), None);
    assert_eq!(u.query(), None);
    assert_eq!(u.path_and_query(), Some("/only".to_string()));
    let u = Uri::new(String::new(), None);
    assert_eq!(u.path_and_query(), None);
}

#[test]
fn request_accessors_return_parts() {
    let mut h = HeaderMap::new();
    h.append("Host", b"example.com");
    let mut req = Request::new(vec![1u8, 2, 3], h, Method::Post, Version::Http2, Uri::new("/p".to_string(), None));
    assert!(matches!(req.method(), Method::Post));
    assert_eq!(*req.version(), Version::Http2);
    assert_eq!(req.uri().path(), "/p");
    assert_eq!(req.headers().get("host"), Some(&b"example.com"[..]));
    req.body().push(4);
    assert_eq!(*req.body(), vec![1, 2, 3, 4]);
    assert!(req.params().is_empty());
}

#[test]
fn last_parameter_of_a_name_wins() {
    let mut req = request_with(HeaderMap::new(), Method::Get, "/x", None);
    req.set_params(vec![
        ("id".to_string(), "1".to_string()),
        ("name".to_string(), "a".to_string()),
        ("id".to_string(), "2".to_string()),
    ]);
    assert_eq!(req.param("id"), Some(&"2".to_string()));
    assert_eq!(req.param("name"), Some(&"a".to_string()));
    assert_eq!(req.param("missing"), None);
    assert_eq!(req.params().len(), 3);
}
