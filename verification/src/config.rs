//! The proxy configuration model: an ordered list of route bindings, each
//! pairing a path rule with an upstream base URI, an optional Wasm override
//! component, and a rewrite mode.

use vstd::prelude::*;

verus! {

/// One routing entry: a path pattern and how it is matched.
///
/// `match_type` is `"exact"` for byte-for-byte equality or `"contain"` for a
/// byte-prefix match; any other value behaves as `"contain"`.
pub struct ProxyRule {
    pub path: String,
    pub match_type: String,
}

/// One route binding: a rule, the upstream it forwards to, an optional Wasm
/// override component, and the rewrite mode (`"none"` or `"strip"`).
pub struct ProxyConfig {
    pub app_name: String,
    pub app_uri: String,
    pub override_file: Option<String>,
    pub rule: ProxyRule,
    pub rewrite: String,
}

/// The whole configuration: an ordered sequence of bindings. Order is
/// significant: the first matching rule wins.
pub struct Config {
    pub proxies: Vec<ProxyConfig>,
}

/// The rule match type used when the configuration names none.
pub fn default_rule_type() -> (r: String)
    ensures
        r@ == "contain"@,
{
    proof {
        reveal_strlit("contain");
    }
    "contain".to_owned()
}

/// The rewrite mode used when the configuration names none.
pub fn default_rewrite_mode() -> (r: String)
    ensures
        r@ == "none"@,
{
    proof {
        reveal_strlit("none");
    }
    "none".to_owned()
}

impl ProxyRule {
    /// Builds a rule, filling in the default match type when none is given.
    pub fn new(path: String, match_type: Option<String>) -> (r: ProxyRule)
        ensures
            r.path == path,
            match match_type {
                Some(t) => r.match_type == t,
                None => r.match_type@ == "contain"@,
            },
    {
        let mt = match match_type {
            Some(t) => t,
            None => default_rule_type(),
        };
        ProxyRule { path, match_type: mt }
    }
}

impl ProxyConfig {
    /// Builds a binding, filling in the default rewrite mode when none is given.
    pub fn new(
        app_name: String,
        app_uri: String,
        override_file: Option<String>,
        rule: ProxyRule,
        rewrite: Option<String>,
    ) -> (r: ProxyConfig)
        ensures
            r.app_name == app_name,
            r.app_uri == app_uri,
            r.override_file == override_file,
            r.rule == rule,
            match rewrite {
                Some(w) => r.rewrite == w,
                None => r.rewrite@ == "none"@,
            },
    {
        let rw = match rewrite {
            Some(w) => w,
            None => default_rewrite_mode(),
        };
        ProxyConfig { app_name, app_uri, override_file, rule, rewrite: rw }
    }
}

} // verus!
