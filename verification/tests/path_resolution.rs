use yunxi_webdisk::resolver::{decode_path, depth_of_path, resolve, route, Route};

#[test]
fn escapes_are_decoded() {
    assert_eq!(decode_path("a%20b"), "a b");
    assert_eq!(decode_path("%e4%bd%a0%E5%A5%BD.txt"), "你好.txt");
    assert_eq!(decode_path("plain/path.txt"), "plain/path.txt");
    assert_eq!(decode_path(""), "");
    assert_eq!(decode_path("%41%2f%2F"), "A//");
}

#[test]
fn a_percent_sign_without_two_hex_digits_stays() {
    assert_eq!(decode_path("100%"), "100%");
    assert_eq!(decode_path("%zz"), "%zz");
    assert_eq!(decode_path("%4"), "%4");
    assert_eq!(decode_path("%%41"), "%A");
    assert_eq!(decode_path("%4g%41"), "%4gA");
}

#[test]
fn bytes_that_are_not_utf8_give_the_empty_path() {
    assert_eq!(decode_path("%ff"), "");
    assert_eq!(decode_path("dir/%c3"), "");
    assert_eq!(decode_path("%ed%a0%80"), "");
    assert_eq!(decode_path("%c0%af"), "");
}

#[test]
fn depth_counts_names_below_the_root() {
    assert_eq!(depth_of_path(""), Some(0));
    assert_eq!(depth_of_path("."), Some(0));
    assert_eq!(depth_of_path("a"), Some(1));
    assert_eq!(depth_of_path("a/"), Some(1));
    assert_eq!(depth_of_path("a/b/c"), Some(3));
    assert_eq!(depth_of_path("a//b/./c"), Some(3));
    assert_eq!(depth_of_path("a/.."), Some(0));
    assert_eq!(depth_of_path("a/b/../c"), Some(2));
    assert_eq!(depth_of_path("..."), Some(1));
    assert_eq!(depth_of_path("..a"), Some(1));
}

#[test]
fn paths_that_leave_the_root_have_no_depth() {
    assert_eq!(depth_of_path(".."), None);
    assert_eq!(depth_of_path("../etc/passwd"), None);
    assert_eq!(depth_of_path("a/../.."), None);
    assert_eq!(depth_of_path("a/../../a"), None);
    assert_eq!(depth_of_path("/etc/passwd"), None);
    assert_eq!(depth_of_path("/"), None);
    assert_eq!(depth_of_path("./../x"), None);
}

#[test]
fn resolve_keeps_the_path_as_written() {
    let r = resolve("docs/a%20b/../c.txt").unwrap();
    assert_eq!(r.relative, "docs/a b/../c.txt");
    assert!(!r.at_root);
    let root = resolve("").unwrap();
    assert_eq!(root.relative, "");
    assert!(root.at_root);
    assert!(resolve("sub/..").unwrap().at_root);
    assert!(resolve("./").unwrap().at_root);
    assert!(!resolve("sub").unwrap().at_root);
    let undecodable = resolve("%ff").unwrap();
    assert_eq!(undecodable.relative, "");
    assert!(undecodable.at_root);
}

#[test]
fn resolve_refuses_what_leaves_the_root() {
    assert!(resolve("..").is_none());
    assert!(resolve("%2e%2e/secret").is_none());
    assert!(resolve("a/%2E%2E/%2e%2e/b").is_none());
    assert!(resolve("%2fetc/passwd").is_none());
    assert!(resolve("/etc").is_none());
}

#[test]
fn the_candidate_path_lies_under_the_root() {
    let r = resolve("docs/a%20b.txt").unwrap();
    assert_eq!(r.under("data/www"), "data/www/docs/a b.txt");
    assert_eq!(r.under("data/www/"), "data/www/docs/a b.txt");
    assert_eq!(r.under("/"), "/docs/a b.txt");
    assert_eq!(r.under(""), "docs/a b.txt");
    let root = resolve("").unwrap();
    assert_eq!(root.under("data/www"), "data/www/");
    for (base, rel) in [("data/www", "x/y"), ("data/www/", "x"), ("/srv", ""), ("", "x"), ("a", "./b/../c")] {
        let joined = std::path::Path::new(base).join(rel);
        assert_eq!(std::path::Path::new(&resolve(rel).unwrap().under(base)), joined.as_path());
    }
}

#[test]
fn the_answer_follows_what_is_there() {
    assert_eq!(route(false, false), Route::NotFound);
    assert_eq!(route(false, true), Route::NotFound);
    assert_eq!(route(true, true), Route::ServeFile);
    assert_eq!(route(true, false), Route::ListDirectory);
}
