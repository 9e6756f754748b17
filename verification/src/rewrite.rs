//! The request-rewriting engine: computing the forwarded path-and-query and
//! composing it with the upstream base URL.

use vstd::prelude::*;

use crate::strutil::{strip_prefix_or_keep, str_eq, trim_end_slashes, trim_trailing_slashes};
use vstd::string::StringExecFns;

verus! {

/// The forwarded path-and-query: under `"strip"` the rule's path is removed
/// when it stands as a literal prefix, otherwise the input passes through
/// unchanged. Every rewrite mode other than `"strip"` passes through.
pub open spec fn spec_rewritten(
    rewrite: Seq<char>,
    rule_path: Seq<char>,
    pq: Seq<char>,
) -> Seq<char> {
    if rewrite == "strip"@ && rule_path.is_prefix_of(pq) {
        pq.skip(rule_path.len() as int)
    } else {
        pq
    }
}

/// Computes the forwarded path-and-query for one matched binding.
pub fn rewritten_path_and_query(rewrite: &str, rule_path: &str, pq: &str) -> (r: String)
    ensures
        r@ == spec_rewritten(rewrite@, rule_path@, pq@),
{
    proof {
        reveal_strlit("strip");
    }
    if str_eq(rewrite, "strip") {
        strip_prefix_or_keep(pq, rule_path)
    } else {
        pq.to_owned()
    }
}

/// Stripping is idempotent: once the rule's path no longer stands as a prefix
/// of the stripped result, stripping again changes nothing.
pub proof fn lemma_strip_idempotent(rule_path: Seq<char>, pq: Seq<char>)
    requires
        !rule_path.is_prefix_of(spec_rewritten("strip"@, rule_path, pq)),
    ensures
        spec_rewritten("strip"@, rule_path, spec_rewritten("strip"@, rule_path, pq))
            == spec_rewritten("strip"@, rule_path, pq),
{
}

/// The composed upstream URI: the base with its trailing `'/'` characters
/// removed, followed by the suffix verbatim.
pub open spec fn spec_composed(base: Seq<char>, suffix: Seq<char>) -> Seq<char> {
    trim_trailing_slashes(base) + suffix
}

/// Composes the final upstream URI string from a base URL and a
/// path-and-query suffix.
pub fn compose_target_uri(base: &str, suffix: &str) -> (r: String)
    ensures
        r@ == spec_composed(base@, suffix@),
{
    let trimmed = trim_end_slashes(base);
    trimmed.concat(suffix)
}

/// A trimmed base never ends in `'/'`.
pub proof fn lemma_trim_no_trailing_slash(s: Seq<char>)
    ensures
        trim_trailing_slashes(s).len() > 0 ==> trim_trailing_slashes(s)[trim_trailing_slashes(
            s,
        ).len() - 1] != '/',
        trim_trailing_slashes(s).len() <= s.len(),
        trim_trailing_slashes(s) == s.take(trim_trailing_slashes(s).len() as int),
    decreases s.len(),
{
    if s.len() > 0 && s[s.len() - 1] == '/' {
        lemma_trim_no_trailing_slash(s.take(s.len() - 1));
        assert(s.take(s.len() - 1).take(trim_trailing_slashes(s).len() as int) =~= s.take(
            trim_trailing_slashes(s).len() as int,
        ));
    } else {
        assert(s.take(s.len() as int) =~= s);
    }
}

/// Composition never places two consecutive `'/'` at the join, and preserves
/// the suffix verbatim after the trimmed base.
pub proof fn lemma_compose_no_double_slash(base: Seq<char>, suffix: Seq<char>)
    ensures
        spec_composed(base, suffix).skip(trim_trailing_slashes(base).len() as int) == suffix,
        spec_composed(base, suffix).take(trim_trailing_slashes(base).len() as int)
            == trim_trailing_slashes(base),
        ({
            let t = trim_trailing_slashes(base);
            t.len() > 0 && suffix.len() > 0 ==> !(spec_composed(base, suffix)[t.len() - 1] == '/'
                && spec_composed(base, suffix)[t.len() as int] == '/')
        }),
{
    let t = trim_trailing_slashes(base);
    lemma_trim_no_trailing_slash(base);
    assert((t + suffix).skip(t.len() as int) =~= suffix);
    assert((t + suffix).take(t.len() as int) =~= t);
}

} // verus!
