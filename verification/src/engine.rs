//! The component engine's caching policy. The compiled-component cache
//! itself lives with the host that owns the runtime; the decisions — when
//! the cache is consulted, when a compile result is stored — are made here.

use vstd::prelude::*;

use crate::strutil::{eq_ignore_ascii_case_spec, str_eq_ignore_ascii_case};

verus! {

/// True when the environment setting asks for production mode: the value is
/// `production`, compared ignoring ASCII case. An unset value means
/// development mode.
pub open spec fn production_mode(env_val: Option<Seq<char>>) -> bool {
    match env_val {
        Some(v) => eq_ignore_ascii_case_spec(v, "production"@),
        None => false,
    }
}

/// Decides whether the component cache is enabled for this process.
pub fn cache_enabled(env_val: Option<&str>) -> (r: bool)
    ensures
        r == production_mode(
            match env_val {
                Some(v) => Some(v@),
                None => None,
            },
        ),
{
    match env_val {
        Some(v) => str_eq_ignore_ascii_case(v, "production"),
        None => false,
    }
}

/// What one invocation does about compilation.
#[derive(Debug, Clone, Copy, PartialEq, Eq, Structural)]
pub enum CacheStep {
    /// Production mode, cache hit: reuse the compiled component.
    Reuse,
    /// Production mode, cache miss: compile, then store the result.
    CompileAndStore,
    /// Development mode: compile from the file, bypassing the cache.
    CompileOnly,
}

/// The caching policy: the cache is consulted only in production mode, and
/// only a production-mode miss stores anything.
pub open spec fn spec_cache_step(production: bool, cached: bool) -> CacheStep {
    if production {
        if cached {
            CacheStep::Reuse
        } else {
            CacheStep::CompileAndStore
        }
    } else {
        CacheStep::CompileOnly
    }
}

/// Decides one invocation's compilation step.
pub fn cache_step(production: bool, cached: bool) -> (r: CacheStep)
    ensures
        r == spec_cache_step(production, cached),
{
    if production {
        if cached {
            CacheStep::Reuse
        } else {
            CacheStep::CompileAndStore
        }
    } else {
        CacheStep::CompileOnly
    }
}

/// In production mode a cached component is never recompiled, and outside
/// production mode every invocation compiles and the cache stays untouched.
pub proof fn lemma_cache_policy(production: bool, cached: bool)
    ensures
        production && cached ==> spec_cache_step(production, cached) == CacheStep::Reuse,
        production && !cached ==> spec_cache_step(production, cached)
            == CacheStep::CompileAndStore,
        !production ==> spec_cache_step(production, cached) == CacheStep::CompileOnly,
        spec_cache_step(production, cached) == CacheStep::Reuse ==> cached,
{
}

} // verus!
