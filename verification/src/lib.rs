//! A programmable HTTP reverse proxy core: routing, path rewriting, and the
//! guest-override ABI (JSON over stdio pipes), with the decision logic verified.


mod config;
mod engine;
mod error;
mod front;
mod logfmt;
mod guest;
mod json;
mod outside;
mod pipeline;
mod rewrite;
mod router;
mod strutil;

pub use config::{Config, ProxyConfig, ProxyRule};
pub use config::{default_rewrite_mode, default_rule_type};
pub use engine::{cache_enabled, cache_step, lemma_cache_policy, production_mode, spec_cache_step, CacheStep};
pub use error::{spec_message, RilotError};
pub use front::{bind_host, bind_port, parse_u16, spec_bind_port, spec_parse_u16};
pub use guest::{
    empty_output_model, input_json, interpret_guest_stdout, json_escaped, pairs_view,
    parse_wasm_output, strings_view, wasm_output_json_at, WasmEngineError, WasmInput, WasmOutput,
    WasmOutputModel,
};
pub use logfmt::{spec_level_tag, spec_log_line, spec_log_target, u32_to_dec, LogLevel, Logger};
pub use pipeline::{
    body_read_error_response, build_forward_uri, chosen_base, collapse_headers,
    collapsed_headers, finish_forward_uri, forward_uri, guest_body_text, not_found_response,
    ops_view, plan_header_ops, plan_request_forward, planned_ops, raw_pairs_view, select_target_base,
    upstream_error_response, uri_error_response, wasm_failure_response, ErrorResponse, HeaderOp,
    HeaderOpModel,
};
pub use outside::{header_name_ok, header_value_ok, lossy_decode, uri_ok};
pub use rewrite::{spec_rewritten, rewritten_path_and_query, lemma_strip_idempotent, spec_composed, compose_target_uri, lemma_trim_no_trailing_slash, lemma_compose_no_double_slash};
pub use router::{route, matches_rule, rule_matches, spec_route, lemma_route_deterministic, lemma_exact_contain_asymmetry};
pub use strutil::{str_eq, str_starts_with, strip_prefix_or_keep, trim_end_slashes, str_eq_ignore_ascii_case};
