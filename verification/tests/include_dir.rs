use std::io::Read;

use uhttp::content_hash::hash;
use uhttp::headers::HeaderMap;
use uhttp::include_dir::{
    build_cache, get_all_files, get_header, make_entry, plan_embedded_response, CacheEntry, EmbeddedDir, EmbeddedFile,
    FileCache, FileServerIncludeDirOptions,
};
use uhttp::plan::PlanBody;
use uhttp::request::{Method, Request, Uri, Version};

fn file(path: &str, contents: &[u8]) -> EmbeddedFile {
    EmbeddedFile { path: path.to_string(), contents: contents.to_vec() }
}

fn tree() -> EmbeddedDir {
    EmbeddedDir {
        files: vec![file("index.html", b"<h1>home</h1>"), file("about.html", b"about")],
        dirs: vec![
            EmbeddedDir { files: vec![file("css/site.css", b"body{}")], dirs: vec![] },
            EmbeddedDir {
                files: vec![],
                dirs: vec![EmbeddedDir { files: vec![file("js/deep/app.js", b"run()")], dirs: vec![] }],
            },
        ],
    }
}

fn get(path: &str, fields: &[(&str, &[u8])]) -> Request<()> {
    let mut h = HeaderMap::new();
    for (n, v) in fields {
        h.append(n, v);
    }
    Request::new((), h, Method::Get, Version::Http11, Uri::new(path.to_string(), None))
}

fn field<'a>(plan: &'a uhttp::plan::ResponsePlan, name: &str) -> Option<&'a str> {
    plan.headers.iter().find(|(n, _)| n == name).map(|(_, v)| v.as_str())
}

fn body(plan: &uhttp::plan::ResponsePlan) -> Vec<u8> {
    match &plan.body {
        PlanBody::Bytes(b) => b.clone(),
        _ => panic!("expected bytes"),
    }
}

#[test]
fn files_are_listed_own_first_then_each_subdirectory() {
    let files = get_all_files(&tree());
    let paths: Vec<&str> = files.iter().map(|(p, _)| p.as_str()).collect();
    assert_eq!(paths, vec!["index.html", "about.html", "css/site.css", "js/deep/app.js"]);
    assert_eq!(files[3].1, b"run()".to_vec());
}

#[test]
fn entry_holds_compressed_forms_and_their_hashes() {
    let e: CacheEntry = make_entry("a/b.css", b"body { color: red }".to_vec(), true);
    assert_eq!(e.mime_type, "text/css");
    assert_eq!(e.hash, hash(b"body { color: red }"));
    let mut unzipped = Vec::new();
    flate2::read::GzDecoder::new(e.contents_gzip.as_slice()).read_to_end(&mut unzipped).unwrap();
    assert_eq!(unzipped, b"body { color: red }".to_vec());
    let mut unbrotli = Vec::new();
    brotli::Decompressor::new(e.contents_br.as_slice(), 4096).read_to_end(&mut unbrotli).unwrap();
    assert_eq!(unbrotli, b"body { color: red }".to_vec());
    assert_eq!(e.hash_gzip, hash(&e.contents_gzip));
    assert_eq!(e.hash_br, hash(&e.contents_br));
}

#[test]
fn entry_without_compression_has_empty_forms() {
    let e = make_entry("x", b"abc".to_vec(), false);
    assert_eq!(e.mime_type, "application/octet-stream");
    assert!(e.contents_br.is_empty() && e.contents_gzip.is_empty());
    assert!(e.hash_br.is_empty() && e.hash_gzip.is_empty());
    assert_eq!(e.contents, b"abc".to_vec());
}

#[test]
fn cache_finds_paths_as_paths_compare() {
    let mut c = FileCache::new();
    c.insert("a/b.txt", make_entry("a/b.txt", b"one".to_vec(), false));
    assert_eq!(c.get("a//b.txt").map(|e| e.contents.clone()), Some(b"one".to_vec()));
    assert_eq!(c.get("a/./b.txt").map(|e| e.contents.clone()), Some(b"one".to_vec()));
    assert!(c.get("a/b.txt/").is_some());
    assert!(c.get("/a/b.txt").is_none());
    assert!(c.get("a/c.txt").is_none());
    c.insert("a/b.txt", make_entry("a/b.txt", b"two".to_vec(), false));
    assert_eq!(c.get("a/b.txt").map(|e| e.contents.clone()), Some(b"two".to_vec()));
}

#[test]
fn embedded_request_answers_from_the_cache() {
    let cache = build_cache(&FileServerIncludeDirOptions { dir: tree(), compress: false });
    let p = plan_embedded_response(&get("/", &[]), false, &cache);
    assert_eq!(p.status, 200);
    assert_eq!(field(&p, "Content-Type"), Some("text/html"));
    assert_eq!(field(&p, "ETag"), Some(hash(b"<h1>home</h1>").as_str()));
    assert_eq!(body(&p), b"<h1>home</h1>".to_vec());
    let p = plan_embedded_response(&get("/about", &[]), false, &cache);
    assert_eq!(body(&p), b"about".to_vec());
    let p = plan_embedded_response(&get("/js/deep/app.js", &[]), false, &cache);
    assert_eq!(field(&p, "Content-Type"), Some("text/javascript"));
    assert_eq!(body(&p), b"run()".to_vec());
}

#[test]
fn embedded_request_for_a_missing_file_is_not_found() {
    let cache = build_cache(&FileServerIncludeDirOptions { dir: tree(), compress: false });
    let p = plan_embedded_response(&get("/nothing", &[]), false, &cache);
    assert_eq!(p.status, 404);
    assert!(p.headers.is_empty());
    assert!(matches!(p.body, PlanBody::Empty));
}

#[test]
fn embedded_request_prefers_brotli_then_gzip() {
    let cache = build_cache(&FileServerIncludeDirOptions { dir: tree(), compress: true });
    let p = plan_embedded_response(&get("/css/site.css", &[("Accept-Encoding", b"gzip, br")]), true, &cache);
    let e = cache.get("css/site.css").unwrap();
    assert_eq!(p.status, 200);
    assert_eq!(field(&p, "Content-Encoding"), Some("br"));
    assert_eq!(field(&p, "ETag"), Some(e.hash_br.as_str()));
    assert_eq!(body(&p), e.contents_br);
    let p = plan_embedded_response(&get("/css/site.css", &[("Accept-Encoding", b"gzip")]), true, &cache);
    assert_eq!(field(&p, "Content-Encoding"), Some("gzip"));
    assert_eq!(body(&p), e.contents_gzip);
    let p = plan_embedded_response(&get("/css/site.css", &[("Accept-Encoding", b"gzip")]), false, &cache);
    assert_eq!(field(&p, "Content-Encoding"), None);
    assert_eq!(body(&p), b"body{}".to_vec());
}

#[test]
fn current_copy_is_judged_by_the_plain_hash() {
    let cache = build_cache(&FileServerIncludeDirOptions { dir: tree(), compress: true });
    let e = cache.get("index.html").unwrap();
    let plain = e.hash.clone();
    let p = plan_embedded_response(
        &get("/", &[("Accept-Encoding", b"br"), ("If-None-Match", plain.as_bytes())]),
        true,
        &cache,
    );
    assert_eq!(p.status, 304);
    assert_eq!(field(&p, "Content-Encoding"), Some("br"));
    assert_eq!(field(&p, "ETag"), None);
    assert!(matches!(p.body, PlanBody::Empty));
    let br_tag = e.hash_br.clone();
    let p = plan_embedded_response(
        &get("/", &[("Accept-Encoding", b"br"), ("If-None-Match", br_tag.as_bytes())]),
        true,
        &cache,
    );
    assert_eq!(p.status, 200);
}

#[test]
fn get_header_reads_text_values() {
    let req = get("/", &[("X-A", b"v"), ("X-B", b"\xff")]);
    assert_eq!(get_header(&req, "x-a"), Some(&b"v"[..]));
    assert_eq!(get_header(&req, "X-B"), None);
    assert_eq!(get_header(&req, "X-C"), None);
}
