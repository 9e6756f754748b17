//! The routing engine: select the first configured binding whose rule matches
//! the request path. Matching is deliberately literal — no normalisation, no
//! case folding, no percent-decoding.

use vstd::prelude::*;

use crate::config::{Config, ProxyConfig, ProxyRule};
use crate::strutil::{str_eq, str_starts_with};

verus! {

/// What one rule says of one path: `"exact"` asks for character-for-character
/// equality; `"contain"` — and any unknown match type — asks for a prefix.
pub open spec fn rule_matches(rule: ProxyRule, path: Seq<char>) -> bool {
    if rule.match_type@ == "exact"@ {
        path == rule.path@
    } else {
        rule.path@.is_prefix_of(path)
    }
}

/// The index of the first binding whose rule matches, if any.
pub open spec fn spec_route(proxies: Seq<ProxyConfig>, path: Seq<char>) -> Option<int>
    decreases proxies.len(),
{
    if proxies.len() == 0 {
        None
    } else if rule_matches(proxies[0].rule, path) {
        Some(0)
    } else {
        match spec_route(proxies.skip(1), path) {
            Some(i) => Some(i + 1),
            None => None,
        }
    }
}

/// Tests one rule against a path.
pub fn matches_rule(rule: &ProxyRule, path: &str) -> (r: bool)
    ensures
        r == rule_matches(*rule, path@),
{
    proof {
        reveal_strlit("exact");
    }
    if str_eq(rule.match_type.as_str(), "exact") {
        str_eq(path, rule.path.as_str())
    } else {
        str_starts_with(path, rule.path.as_str())
    }
}

/// Returns the index of the first binding whose rule matches `path`, or
/// `None` when no rule matches. The first matching binding wins even when a
/// later rule is more specific.
pub fn route(config: &Config, path: &str) -> (r: Option<usize>)
    ensures
        match r {
            Some(i) => {
                &&& spec_route(config.proxies@, path@) == Some(i as int)
                &&& i < config.proxies@.len()
                &&& rule_matches(config.proxies@[i as int].rule, path@)
                &&& forall|j: int|
                    0 <= j < i ==> !rule_matches(config.proxies@[j].rule, path@)
            },
            None => {
                &&& spec_route(config.proxies@, path@) is None
                &&& forall|j: int|
                    0 <= j < config.proxies@.len() ==> !rule_matches(
                        config.proxies@[j].rule,
                        path@,
                    )
            },
        },
{
    let n = config.proxies.len();
    let mut i: usize = 0;
    proof {
        assert(config.proxies@.skip(0) =~= config.proxies@);
    }
    while i < n
        invariant
            n == config.proxies@.len(),
            0 <= i <= n,
            forall|j: int| 0 <= j < i ==> !rule_matches(config.proxies@[j].rule, path@),
            spec_route(config.proxies@, path@) == match spec_route(
                config.proxies@.skip(i as int),
                path@,
            ) {
                Some(k) => Some(k + i),
                None => None::<int>,
            },
        decreases n - i,
    {
        proof {
            assert(config.proxies@.skip(i as int)[0] == config.proxies@[i as int]);
            assert(config.proxies@.skip(i as int).skip(1) =~= config.proxies@.skip(i + 1));
        }
        if matches_rule(&config.proxies[i].rule, path) {
            return Some(i);
        }
        i += 1;
    }
    proof {
        assert(config.proxies@.skip(n as int) =~= Seq::<ProxyConfig>::empty());
    }
    None
}

/// Routing is deterministic: the matched index is a function of the
/// configuration and the path alone, and it is the earliest index whose rule
/// matches.
pub proof fn lemma_route_deterministic(proxies: Seq<ProxyConfig>, path: Seq<char>)
    ensures
        match spec_route(proxies, path) {
            Some(i) => {
                &&& 0 <= i < proxies.len()
                &&& rule_matches(proxies[i].rule, path)
                &&& forall|j: int| 0 <= j < i ==> !rule_matches(proxies[j].rule, path)
            },
            None => forall|j: int| 0 <= j < proxies.len() ==> !rule_matches(proxies[j].rule, path),
        },
    decreases proxies.len(),
{
    if proxies.len() > 0 && !rule_matches(proxies[0].rule, path) {
        lemma_route_deterministic(proxies.skip(1), path);
        assert forall|j: int| 0 <= j < proxies.len() && j >= 1 implies proxies.skip(1)[j - 1]
            == proxies[j] by {}
    }
}

/// `exact` and `contain` are asymmetric: an exact rule matches only the path
/// equal to its pattern, while a contain rule matches every path that extends
/// its pattern.
pub proof fn lemma_exact_contain_asymmetry(rule: ProxyRule, path: Seq<char>)
    ensures
        rule.match_type@ == "exact"@ ==> (rule_matches(rule, path) <==> path == rule.path@),
        rule.match_type@ != "exact"@ ==> (rule_matches(rule, path) <==> rule.path@.is_prefix_of(
            path,
        )),
        rule.match_type@ != "exact"@ && rule_matches(rule, path) ==> path.len()
            >= rule.path@.len(),
{
}

} // verus!
