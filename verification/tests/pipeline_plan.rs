use rilot::{
    body_read_error_response, collapse_headers, guest_body_text, parse_wasm_output,
    plan_header_ops, plan_request_forward, route, select_target_base, upstream_error_response,
    uri_error_response, wasm_failure_response, Config, HeaderOp, ProxyConfig, ProxyRule,
    WasmOutput,
};

fn binding(path: &str, app_uri: &str, rewrite: &str) -> ProxyConfig {
    ProxyConfig {
        app_name: "app".to_string(),
        app_uri: app_uri.to_string(),
        override_file: None,
        rule: ProxyRule { path: path.to_string(), match_type: "contain".to_string() },
        rewrite: rewrite.to_string(),
    }
}

#[test]
fn url_override_redirects_the_forward() {
    let out = parse_wasm_output(r#"{"app_url":"http://z","headers_to_update":{"X-Via":"1"}}"#)
        .expect("answer");
    let proxy = binding("/a", "http://u", "none");
    let base = select_target_base(&proxy.app_uri, &out);
    assert_eq!(base, "http://z");
    let plan = plan_request_forward(&proxy, Some(&out), "/a").expect("plan");
    assert_eq!(plan.0, "http://z/a");
    assert_eq!(plan.1.len(), 1);
    match &plan.1[0] {
        HeaderOp::Put(k, v) => {
            assert_eq!(k, "X-Via");
            assert_eq!(v, "1");
        },
        HeaderOp::Remove(_) => panic!("expected a header update"),
    }
}

#[test]
fn removal_answer_plans_a_remove_patch() {
    let out = parse_wasm_output(r#"{"headers_to_remove":["Authorization"]}"#).expect("answer");
    let ops = plan_header_ops(&out);
    assert_eq!(ops.len(), 1);
    match &ops[0] {
        HeaderOp::Remove(k) => assert_eq!(k, "Authorization"),
        HeaderOp::Put(_, _) => panic!("expected a removal"),
    }
}

#[test]
fn invalid_header_names_and_values_are_skipped() {
    let out = WasmOutput {
        app_url: None,
        headers_to_update: vec![
            ("Bad Header".to_string(), "v".to_string()),
            ("X-Ok".to_string(), "line\nbreak".to_string()),
            ("X-Good".to_string(), "fine".to_string()),
        ],
        headers_to_remove: vec!["".to_string(), "X-Gone".to_string()],
        response_headers_to_add: vec![],
        response_headers_to_remove: vec![],
    };
    let ops = plan_header_ops(&out);
    assert_eq!(ops.len(), 2);
    match &ops[0] {
        HeaderOp::Put(k, v) => {
            assert_eq!(k, "X-Good");
            assert_eq!(v, "fine");
        },
        _ => panic!("expected the one valid update"),
    }
    match &ops[1] {
        HeaderOp::Remove(k) => assert_eq!(k, "X-Gone"),
        _ => panic!("expected the one valid removal"),
    }
}

#[test]
fn updates_come_before_removals_in_guest_order() {
    let out = WasmOutput {
        app_url: None,
        headers_to_update: vec![
            ("X-A".to_string(), "1".to_string()),
            ("X-B".to_string(), "2".to_string()),
        ],
        headers_to_remove: vec!["X-C".to_string(), "X-D".to_string()],
        response_headers_to_add: vec![],
        response_headers_to_remove: vec![],
    };
    let ops = plan_header_ops(&out);
    let names: Vec<String> = ops
        .iter()
        .map(|o| match o {
            HeaderOp::Put(k, _) => format!("+{}", k),
            HeaderOp::Remove(k) => format!("-{}", k),
        })
        .collect();
    assert_eq!(names, vec!["+X-A", "+X-B", "-X-C", "-X-D"]);
}

#[test]
fn header_snapshot_lowercases_and_keeps_first_decodable_value() {
    let raw = vec![
        ("Host".to_string(), b"example".to_vec()),
        ("HOST".to_string(), b"other".to_vec()),
        ("X-Bin".to_string(), vec![0xFF, 0xFE]),
        ("X-Bin".to_string(), b"recovered".to_vec()),
        ("Accept".to_string(), b"text/plain".to_vec()),
    ];
    let snapshot = collapse_headers(&raw);
    assert_eq!(
        snapshot,
        vec![
            ("host".to_string(), "example".to_string()),
            ("x-bin".to_string(), "recovered".to_string()),
            ("accept".to_string(), "text/plain".to_string()),
        ]
    );
}

#[test]
fn guest_sees_lossy_body_text() {
    assert_eq!(guest_body_text(&b"hello".to_vec()), "hello");
    let mangled = guest_body_text(&vec![b'a', 0xFF, b'b']);
    assert_eq!(mangled, "a\u{FFFD}b");
}

#[test]
fn error_responses_match_the_pipeline_texts() {
    assert_eq!(body_read_error_response().status, 500);
    assert_eq!(body_read_error_response().body, "Error reading request body.");
    assert_eq!(wasm_failure_response().status, 500);
    assert_eq!(wasm_failure_response().body, "Wasm override module failed.");
    assert_eq!(uri_error_response().status, 500);
    assert_eq!(uri_error_response().body, "Error constructing target URL.");
    assert_eq!(upstream_error_response().status, 502);
    assert_eq!(upstream_error_response().body, "Error connecting to upstream service.");
}

#[test]
fn a_failed_override_leaves_other_routes_untouched() {
    // One rule's override fails: its request is answered 500 ...
    let failed = wasm_failure_response();
    assert_eq!(failed.status, 500);
    assert_eq!(failed.body, "Wasm override module failed.");
    // ... and the next request, on another rule, still routes and forwards.
    let cfg = Config {
        proxies: vec![binding("/broken", "http://u", "none"), binding("/ok", "http://v", "none")],
    };
    assert_eq!(route(&cfg, "/ok/ping"), Some(1));
    let plan = plan_request_forward(&cfg.proxies[1], None, "/ok/ping").expect("plan");
    assert_eq!(plan.0, "http://v/ok/ping");
    assert!(plan.1.is_empty());
}

#[test]
fn forward_without_override_uses_the_configured_base() {
    let proxy = binding("/api", "http://u/", "strip");
    let plan = plan_request_forward(&proxy, None, "/api/items?x=1").expect("plan");
    assert_eq!(plan.0, "http://u/items?x=1");
    assert!(plan.1.is_empty());
}
