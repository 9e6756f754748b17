use rilot::{
    bind_host, bind_port, cache_enabled, cache_step, parse_u16, CacheStep, LogLevel, Logger,
    RilotError,
};

#[test]
fn production_enables_the_cache_case_insensitively() {
    assert!(cache_enabled(Some("production")));
    assert!(cache_enabled(Some("PRODUCTION")));
    assert!(cache_enabled(Some("Production")));
    assert!(!cache_enabled(Some("development")));
    assert!(!cache_enabled(Some("prod")));
    assert!(!cache_enabled(Some("production ")));
    assert!(!cache_enabled(None));
}

#[test]
fn cache_steps_follow_the_policy() {
    assert_eq!(cache_step(true, true), CacheStep::Reuse);
    assert_eq!(cache_step(true, false), CacheStep::CompileAndStore);
    assert_eq!(cache_step(false, true), CacheStep::CompileOnly);
    assert_eq!(cache_step(false, false), CacheStep::CompileOnly);
}

#[test]
fn ports_parse_as_u16_or_fall_back() {
    assert_eq!(parse_u16("8080"), Some(8080));
    assert_eq!(parse_u16("+80"), Some(80));
    assert_eq!(parse_u16("65535"), Some(65535));
    assert_eq!(parse_u16("65536"), None);
    assert_eq!(parse_u16("0"), Some(0));
    assert_eq!(parse_u16(""), None);
    assert_eq!(parse_u16("+"), None);
    assert_eq!(parse_u16("80a"), None);
    assert_eq!(parse_u16("-1"), None);
    assert_eq!(bind_port(Some("9000")), 9000);
    assert_eq!(bind_port(Some("no-port")), 8080);
    assert_eq!(bind_port(None), 8080);
}

#[test]
fn the_host_defaults_to_loopback() {
    assert_eq!(bind_host(None), "127.0.0.1");
    assert_eq!(bind_host(Some("0.0.0.0".to_string())), "0.0.0.0");
}

#[test]
fn log_lines_carry_tag_location_target_and_message() {
    let logger = Logger;
    let line = logger.format_line(
        "2024-01-01 00:00:00.000",
        LogLevel::Info,
        "src/proxy.rs",
        42,
        "other_crate",
        "hello",
    );
    assert_eq!(line, "2024-01-01 00:00:00.000 \u{2139}\u{FE0F} INFO [src/proxy.rs:42] rilot: hello\n");
    let line = logger.format_line("t", LogLevel::Error, "f", 0, "rilot::proxy", "m");
    assert_eq!(line, "t \u{274C} ERROR [f:0] rilot::proxy: m\n");
    let line = logger.format_line("t", LogLevel::Warn, "f", 4294967295, "rilot", "m");
    assert_eq!(line, "t \u{26A0}\u{FE0F} WARN [f:4294967295] rilot: m\n");
}

#[test]
fn trace_records_are_dropped() {
    let logger = Logger;
    assert!(logger.enabled(LogLevel::Error));
    assert!(logger.enabled(LogLevel::Warn));
    assert!(logger.enabled(LogLevel::Info));
    assert!(logger.enabled(LogLevel::Debug));
    assert!(!logger.enabled(LogLevel::Trace));
}

#[test]
fn error_messages_carry_their_prefix() {
    assert_eq!(
        RilotError::ConfigError("bad file".to_string()).message(),
        "Configuration error: bad file"
    );
    assert_eq!(RilotError::WasmError("boom".to_string()).message(), "WASM error: boom");
    assert_eq!(RilotError::ProxyError("p".to_string()).message(), "Proxy error: p");
    assert_eq!(RilotError::IoError("io".to_string()).message(), "IO error: io");
    assert_eq!(RilotError::HttpError("h".to_string()).message(), "HTTP error: h");
    assert_eq!(RilotError::InvalidHeader("x".to_string()).message(), "Invalid header: x");
    assert_eq!(RilotError::InvalidUri("u".to_string()).message(), "Invalid URI: u");
    assert_eq!(
        RilotError::SerializationError("s".to_string()).message(),
        "Serialization error: s"
    );
    assert_eq!(RilotError::Unknown("?".to_string()).message(), "Unknown error: ?");
}
