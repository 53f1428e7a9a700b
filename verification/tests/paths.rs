use uhttp::paths::{determine_file, join_path};

#[test]
fn determine_file_root_is_index() {
    assert_eq!(determine_file("/"), "index.html");
}

#[test]
fn determine_file_keeps_extension() {
    assert_eq!(determine_file("/css/site.css"), "css/site.css");
    assert_eq!(determine_file("//a/b.js"), "a/b.js");
}

#[test]
fn determine_file_adds_html() {
    assert_eq!(determine_file("/about"), "about.html");
    assert_eq!(determine_file("/.hidden"), ".hidden.html");
    assert_eq!(determine_file("/a.b/c"), "a.b/c.html");
    assert_eq!(determine_file("/x/.."), "x/...html");
}

#[test]
fn join_path_adds_separator() {
    assert_eq!(join_path("public", "a.css"), "public/a.css");
    assert_eq!(join_path("public/", "a.css"), "public/a.css");
    assert_eq!(join_path("", "a.css"), "a.css");
}
