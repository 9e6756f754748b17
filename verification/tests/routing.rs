use rilot::{
    default_rewrite_mode, default_rule_type, matches_rule, not_found_response, route, Config,
    ProxyConfig, ProxyRule,
};

fn rule(path: &str, match_type: &str) -> ProxyRule {
    ProxyRule { path: path.to_string(), match_type: match_type.to_string() }
}

fn binding(path: &str, match_type: &str, app_uri: &str) -> ProxyConfig {
    ProxyConfig {
        app_name: "app".to_string(),
        app_uri: app_uri.to_string(),
        override_file: None,
        rule: rule(path, match_type),
        rewrite: "none".to_string(),
    }
}

#[test]
fn defaults_are_contain_and_none() {
    assert_eq!(default_rule_type(), "contain");
    assert_eq!(default_rewrite_mode(), "none");
    let r = ProxyRule::new("/a".to_string(), None);
    assert_eq!(r.match_type, "contain");
    let r = ProxyRule::new("/a".to_string(), Some("exact".to_string()));
    assert_eq!(r.match_type, "exact");
    let b = ProxyConfig::new(
        "n".to_string(),
        "http://u".to_string(),
        None,
        ProxyRule::new("/a".to_string(), None),
        None,
    );
    assert_eq!(b.rewrite, "none");
}

#[test]
fn no_match_gives_404_not_found() {
    let cfg = Config { proxies: vec![binding("/api", "contain", "http://u")] };
    assert_eq!(route(&cfg, "/other"), None);
    let resp = not_found_response();
    assert_eq!(resp.status, 404);
    assert_eq!(resp.body, "Not Found");
}

#[test]
fn first_match_wins_over_later_exact() {
    let cfg = Config {
        proxies: vec![binding("/x", "contain", "http://a"), binding("/x/y", "exact", "http://b")],
    };
    assert_eq!(route(&cfg, "/x/y"), Some(0));
    assert_eq!(cfg.proxies[0].app_uri, "http://a");
    let uri = rilot::build_forward_uri("http://a", "none", "/x", "/x/y");
    assert_eq!(uri, "http://a/x/y");
}

#[test]
fn routing_is_deterministic_across_calls() {
    let cfg = Config {
        proxies: vec![binding("/a", "contain", "http://a"), binding("/a/b", "contain", "http://b")],
    };
    let first = route(&cfg, "/a/b/c");
    let second = route(&cfg, "/a/b/c");
    assert_eq!(first, second);
    assert_eq!(first, Some(0));
}

#[test]
fn exact_needs_byte_equality() {
    let r = rule("/x", "exact");
    assert!(matches_rule(&r, "/x"));
    assert!(!matches_rule(&r, "/x/"));
    assert!(!matches_rule(&r, "/xy"));
    assert!(!matches_rule(&r, "/X"));
}

#[test]
fn contain_is_a_prefix_match() {
    let r = rule("/x", "contain");
    assert!(matches_rule(&r, "/x"));
    assert!(matches_rule(&r, "/xy"));
    assert!(matches_rule(&r, "/x/y"));
    assert!(!matches_rule(&r, "/y/x"));
}

#[test]
fn unknown_match_type_degrades_to_contain() {
    let r = rule("/x", "prefix-of-some-kind");
    assert!(matches_rule(&r, "/x/anything"));
    assert!(!matches_rule(&r, "/"));
}

#[test]
fn no_normalisation_happens() {
    let r = rule("/API", "contain");
    assert!(!matches_rule(&r, "/api/items"));
    let r = rule("/a/", "exact");
    assert!(!matches_rule(&r, "/a"));
    let r = rule("/a%20b", "contain");
    assert!(matches_rule(&r, "/a%20b/c"));
    assert!(!matches_rule(&r, "/a b/c"));
}

#[test]
fn empty_config_matches_nothing() {
    let cfg = Config { proxies: vec![] };
    assert_eq!(route(&cfg, "/"), None);
}
