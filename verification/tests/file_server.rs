use uhttp::content_hash::{hash, ContentHasher};
use uhttp::file_server::{
    choose_encoding, etag_from_metadata, file_path, has_modified, not_found_plan, plan_file_response, ETagStrategy,
};
use uhttp::headers::HeaderMap;
use uhttp::plan::{ContentEncoding, PlanBody};
use uhttp::request::{Method, Request, Uri, Version};

fn get(path: &str, fields: &[(&str, &[u8])]) -> Request<()> {
    let mut h = HeaderMap::new();
    for (n, v) in fields {
        h.append(n, v);
    }
    Request::new((), h, Method::Get, Version::Http11, Uri::new(path.to_string(), None))
}

fn fields(plan: &uhttp::plan::ResponsePlan) -> Vec<(&str, &str)> {
    plan.headers.iter().map(|(n, v)| (n.as_str(), v.as_str())).collect()
}

#[test]
fn default_etag_strategy_is_last_modified() {
    assert_eq!(ETagStrategy::default(), ETagStrategy::LastModified);
}

#[test]
fn file_path_joins_the_directory_and_the_named_file() {
    assert_eq!(file_path("public", "/"), Some("public/index.html".to_string()));
    assert_eq!(file_path("public/", "/about"), Some("public/about.html".to_string()));
    assert_eq!(file_path("public", "/css/a.css"), Some("public/css/a.css".to_string()));
    assert_eq!(file_path("public", "/x/.."), Some("public/x/...html".to_string()));
    assert_eq!(file_path("public", "/a..b/c..d.txt"), Some("public/a..b/c..d.txt".to_string()));
}

#[test]
fn paths_that_climb_out_of_the_directory_are_refused() {
    assert_eq!(file_path("public", "/../secret.txt"), None);
    assert_eq!(file_path("public", "/a/../../secret.txt"), None);
    assert_eq!(file_path("public", "/a/.."), Some("public/a/...html".to_string()));
    assert_eq!(file_path("public", "//../x"), None);
    assert_eq!(file_path("public", "/a/../b"), None);
}

#[test]
fn metadata_etag_is_hex_time_hex_length_and_encoding() {
    assert_eq!(etag_from_metadata(255, 16, "gzip"), "ff10gzip");
    assert_eq!(etag_from_metadata(0, 0, ""), "00");
    let nanos: u128 = 1_700_000_000_123_456_789;
    assert_eq!(etag_from_metadata(nanos, 4096, "br"), format!("{:x}{:x}{}", nanos, 4096u64, "br"));
}

#[test]
fn content_hash_is_xxh3_in_sixteen_hex_digits() {
    let data = b"hello world";
    let expected = format!("{:016x}", xxhash_rust::xxh3::xxh3_64(data));
    assert_eq!(hash(data), expected);
    assert_ne!(hash(data), hash(b"hello worle"));
    assert_eq!(hash(b"").len(), 16);
}

#[test]
fn chunked_hashing_matches_hashing_at_once() {
    let mut h = ContentHasher::new();
    h.update(b"hello ");
    h.update(b"");
    h.update(b"world");
    assert_eq!(h.finish(), hash(b"hello world"));
}

#[test]
fn encoding_preference_is_zstd_then_br_then_gzip() {
    let mut h = HeaderMap::new();
    h.append("Accept-Encoding", b"gzip, br, zstd");
    assert_eq!(choose_encoding(true, &h), ContentEncoding::Zstd);
    assert_eq!(choose_encoding(false, &h), ContentEncoding::Identity);
    let mut h = HeaderMap::new();
    h.append("accept-encoding", b"gzip, br");
    assert_eq!(choose_encoding(true, &h), ContentEncoding::Brotli);
    let mut h = HeaderMap::new();
    h.append("Accept-Encoding", b"gzip");
    assert_eq!(choose_encoding(true, &h), ContentEncoding::Gzip);
    let mut h = HeaderMap::new();
    h.append("Accept-Encoding", b"deflate");
    assert_eq!(choose_encoding(true, &h), ContentEncoding::Identity);
    assert_eq!(choose_encoding(true, &HeaderMap::new()), ContentEncoding::Identity);
    let mut h = HeaderMap::new();
    h.append("Accept-Encoding", b"br\n");
    assert_eq!(choose_encoding(true, &h), ContentEncoding::Identity);
}

#[test]
fn has_modified_is_false_only_for_the_same_tag() {
    assert!(!has_modified(&get("/", &[("If-None-Match", b"abc")]), "abc"));
    assert!(has_modified(&get("/", &[("If-None-Match", b"abd")]), "abc"));
    assert!(has_modified(&get("/", &[]), "abc"));
}

#[test]
fn not_found_has_no_fields_and_no_body() {
    let p = not_found_plan();
    assert_eq!(p.status, 404);
    assert!(p.headers.is_empty());
    assert!(matches!(p.body, PlanBody::Empty));
}

#[test]
fn file_response_sets_type_encoding_and_tag() {
    let req = get("/index.html", &[]);
    let p = plan_file_response(&req, "public/index.html", ContentEncoding::Brotli, Some("t1".to_string()));
    assert_eq!(p.status, 200);
    assert_eq!(fields(&p), vec![("Content-Type", "text/html"), ("Content-Encoding", "br"), ("ETag", "t1")]);
    assert!(matches!(p.body, PlanBody::Stream(ContentEncoding::Brotli)));
}

#[test]
fn file_response_without_tag_or_extension() {
    let req = get("/data", &[]);
    let p = plan_file_response(&req, "public/data", ContentEncoding::Identity, None);
    assert_eq!(p.status, 200);
    assert_eq!(fields(&p), vec![("Content-Type", "application/octet-stream")]);
    assert!(matches!(p.body, PlanBody::Stream(ContentEncoding::Identity)));
}

#[test]
fn file_response_to_a_current_copy_is_not_modified() {
    let req = get("/a.css", &[("If-None-Match", b"t1")]);
    let p = plan_file_response(&req, "public/a.css", ContentEncoding::Gzip, Some("t1".to_string()));
    assert_eq!(p.status, 304);
    assert_eq!(fields(&p), vec![("Content-Type", "text/css"), ("Content-Encoding", "gzip")]);
    assert!(matches!(p.body, PlanBody::Empty));
}
