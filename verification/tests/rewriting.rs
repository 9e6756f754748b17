use rilot::{
    build_forward_uri, compose_target_uri, finish_forward_uri, rewritten_path_and_query,
    trim_end_slashes,
};

#[test]
fn strip_removes_the_rule_prefix() {
    let out = rewritten_path_and_query("strip", "/api", "/api/items?x=1");
    assert_eq!(out, "/items?x=1");
}

#[test]
fn strip_passes_through_when_prefix_absent() {
    let out = rewritten_path_and_query("strip", "/api", "/other/items");
    assert_eq!(out, "/other/items");
}

#[test]
fn none_passes_through() {
    let out = rewritten_path_and_query("none", "/api", "/api/items?x=1");
    assert_eq!(out, "/api/items?x=1");
}

#[test]
fn unknown_rewrite_mode_passes_through() {
    let out = rewritten_path_and_query("mirror", "/api", "/api/items");
    assert_eq!(out, "/api/items");
}

#[test]
fn strip_twice_equals_once_when_prefix_is_gone() {
    let once = rewritten_path_and_query("strip", "/api", "/api/items");
    let twice = rewritten_path_and_query("strip", "/api", once.as_str());
    assert_eq!(once, twice);
    assert_eq!(once, "/items");
}

#[test]
fn compose_trims_trailing_slashes() {
    assert_eq!(compose_target_uri("http://u/", "/items"), "http://u/items");
    assert_eq!(compose_target_uri("http://u///", "/items"), "http://u/items");
    assert_eq!(compose_target_uri("http://u", "/items"), "http://u/items");
}

#[test]
fn compose_never_doubles_the_slash_at_the_join() {
    let joined = compose_target_uri("http://u/", "/a//b");
    assert_eq!(joined, "http://u/a//b");
    assert!(!joined.contains("u//a"));
}

#[test]
fn compose_preserves_the_suffix_verbatim() {
    let joined = compose_target_uri("http://u/", "/a?x=%2F&y=//");
    assert!(joined.ends_with("/a?x=%2F&y=//"));
}

#[test]
fn trim_end_slashes_examples() {
    assert_eq!(trim_end_slashes("http://u///"), "http://u");
    assert_eq!(trim_end_slashes("///"), "");
    assert_eq!(trim_end_slashes("http://u"), "http://u");
}

#[test]
fn strip_rewrite_forwards_to_stripped_target() {
    let uri = build_forward_uri("http://u", "strip", "/api", "/api/items?x=1");
    assert_eq!(uri, "http://u/items?x=1");
}

#[test]
fn forward_uri_is_vetted() {
    let ok = finish_forward_uri("http://u", "none", "/a", "/a/b");
    match ok {
        Ok(u) => assert_eq!(u, "http://u/a/b"),
        Err(_) => panic!("a well-formed URI was rejected"),
    }
    let bad = finish_forward_uri("ht tp://u", "none", "/a", "/a b");
    match bad {
        Ok(u) => panic!("an ill-formed URI was accepted: {}", u),
        Err(e) => {
            assert_eq!(e.status, 500);
            assert_eq!(e.body, "Error constructing target URL.");
        },
    }
}
