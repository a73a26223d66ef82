use rocket::{Origin, UriError};

#[test]
fn parse_splits_path_and_query() {
    let o = Origin::parse("/foo/bar?x=1&y").unwrap();
    assert_eq!(o.path(), "/foo/bar");
    assert_eq!(o.query(), Some("x=1&y"));
    assert_eq!(o.render(), "/foo/bar?x=1&y");
}

#[test]
fn parse_without_query() {
    let o = Origin::parse("/foo/").unwrap();
    assert_eq!(o.path(), "/foo/");
    assert_eq!(o.query(), None);
    assert!(o.has_trailing_slash());
    assert!(!o.is_root());
}

#[test]
fn parse_empty_query() {
    let o = Origin::parse("/foo?").unwrap();
    assert_eq!(o.path(), "/foo");
    assert_eq!(o.query(), Some(""));
    assert_eq!(o.render(), "/foo?");
}

#[test]
fn parse_query_may_hold_question_marks() {
    let o = Origin::parse("/a?b?c").unwrap();
    assert_eq!(o.path(), "/a");
    assert_eq!(o.query(), Some("b?c"));
}

#[test]
fn parse_root() {
    let o = Origin::parse("/").unwrap();
    assert!(o.is_root());
    assert!(o.has_trailing_slash());
    assert_eq!(Origin::root().render(), "/");
}

#[test]
fn parse_rejects_empty() {
    assert!(matches!(Origin::parse(""), Err(UriError::Empty)));
    assert!(matches!(Origin::parse_route(""), Err(UriError::Empty)));
}

#[test]
fn parse_rejects_non_ascii() {
    assert!(matches!(Origin::parse("/caf\u{e9}"), Err(UriError::NotAscii)));
    assert!(matches!(Origin::parse("\u{e9}"), Err(UriError::NotAscii)));
}

#[test]
fn parse_rejects_relative() {
    assert!(matches!(Origin::parse("foo"), Err(UriError::Relative)));
    assert!(matches!(Origin::parse("?a"), Err(UriError::Relative)));
    assert!(matches!(Origin::parse("http://x/"), Err(UriError::Relative)));
}

#[test]
fn parse_rejects_fragment_and_space() {
    assert!(matches!(Origin::parse("/a#b"), Err(UriError::Invalid)));
    assert!(matches!(Origin::parse("/a?b#c"), Err(UriError::Invalid)));
    assert!(matches!(Origin::parse("/a b"), Err(UriError::Invalid)));
    assert!(matches!(Origin::parse_route("/a#b"), Err(UriError::Invalid)));
    assert!(matches!(Origin::parse("/a\"b"), Err(UriError::Invalid)));
}

#[test]
fn parse_rejects_question_mark_only_in_path() {
    assert!(Origin::parse("/a?b/c?d").is_ok());
    assert!(matches!(Origin::parse("/a[b"), Err(UriError::Invalid)));
}

#[test]
fn parse_rejects_dynamic_in_base() {
    assert!(matches!(Origin::parse("/<a>"), Err(UriError::Dynamic)));
    assert!(matches!(Origin::parse("/a?<b>"), Err(UriError::Dynamic)));
}

#[test]
fn parse_invalid_comes_before_dynamic() {
    assert!(matches!(Origin::parse("/<a> b"), Err(UriError::Invalid)));
}

#[test]
fn parse_route_accepts_dynamic() {
    let o = Origin::parse_route("/user/<id>?<q..>").unwrap();
    assert_eq!(o.path(), "/user/<id>");
    assert_eq!(o.query(), Some("<q..>"));
}

#[test]
fn parse_accepts_every_path_byte() {
    let all = "/AZaz09-._~!$&'()*+,;=:@%/";
    let o = Origin::parse(all).unwrap();
    assert_eq!(o.path(), all);
}

#[test]
fn join_keeps_route_query_and_ignores_base_query() {
    let base = Origin::parse("/foo?x").unwrap();
    let route = Origin::parse_route("/bar?y").unwrap();
    let joined = base.join(&route);
    assert_eq!(joined.path(), "/foo/bar");
    assert_eq!(joined.query(), Some("y"));
}

#[test]
fn join_of_root_route_is_the_base_path() {
    let base = Origin::parse("/foo/").unwrap();
    let joined = base.join(&Origin::root());
    assert_eq!(joined.render(), "/foo/");
}

#[test]
fn join_of_slashes_only() {
    let base = Origin::parse("/foo").unwrap();
    let route = Origin::parse_route("//").unwrap();
    assert_eq!(base.join(&route).render(), "/foo/");
}

#[test]
fn clear_query_drops_the_query() {
    let o = Origin::parse("/a?b").unwrap().clear_query();
    assert_eq!(o.render(), "/a");
    assert_eq!(o.query(), None);
}

#[test]
fn same_path_ignores_the_query() {
    let a = Origin::parse("/a?b").unwrap();
    let b = Origin::parse("/a?c").unwrap();
    let c = Origin::parse("/a/").unwrap();
    assert!(a.same_path(&b));
    assert!(!a.same_path(&c));
}

#[test]
fn clone_of_origin_is_equal() {
    let a = Origin::parse("/a?b").unwrap();
    let b = a.clone();
    assert_eq!(a.render(), b.render());
}
