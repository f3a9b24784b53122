use metlo_core::analysis::{combine_process_trace_res, Detection, ProcessTraceRes};
use metlo_core::analysis::Messages;
use metlo_core::findings::{PathMap, TypeSet};
use metlo_core::pipeline::{
    find_endpoint, get_content_type, plan_api_trace, process_api_trace, ConfigSnapshot,
    EndpointConfig, EndpointGroup, GraphQlSource, TracePlan,
};
use metlo_core::trace::{ApiRequest, ApiResponse, ApiTrace, ApiUrl, KeyVal};
use metlo_core::walker::{NodeKind, Observation};

fn kv(name: &str, value: &str) -> KeyVal {
    KeyVal { name: name.to_string(), value: value.to_string() }
}

fn trace(method: &str, path: &str, params: Vec<KeyVal>, headers: Vec<KeyVal>, body: &str, status: Option<u16>) -> ApiTrace {
    ApiTrace {
        request: ApiRequest {
            method: method.to_string(),
            url: ApiUrl { host: "api".to_string(), path: path.to_string(), parameters: params },
            headers,
            body: body.to_string(),
        },
        response: status.map(|s| ApiResponse { status: s, headers: vec![], body: String::new() }),
        meta: None,
    }
}

fn lookup<'a, V>(m: &'a Option<PathMap<V>>, key: &str) -> Option<&'a V> {
    m.as_ref().and_then(|m| m.entries.iter().rev().find(|e| e.0 == key).map(|e| &e.1))
}

fn keys<V>(m: &Option<PathMap<V>>) -> Vec<String> {
    let mut out: Vec<String> = vec![];
    if let Some(m) = m {
        for e in &m.entries {
            if !out.contains(&e.0) {
                out.push(e.0.clone());
            }
        }
    }
    out
}

fn quiet(_o: &Observation) -> Detection {
    Detection { xss: false, sqli: false, fingerprint: String::new() }
}

/// A stand-in for the injection detectors, flagging script tags and `OR 1=1`.
fn stand_in(o: &Observation) -> Detection {
    let mut d = quiet(o);
    if o.kind == NodeKind::Str {
        d.xss = o.text.contains("<script>");
        if o.text.contains(" OR 1=1") {
            d.sqli = true;
            d.fingerprint = "1&1".to_string();
        }
    }
    d
}

fn detect(plan: &TracePlan, f: fn(&Observation) -> Detection) -> Vec<Option<Vec<Detection>>> {
    plan.parts.iter().map(|p| p.as_ref().map(|obs| obs.iter().map(f).collect())).collect()
}

fn run(t: &ApiTrace, config: Option<&ConfigSnapshot>) -> (ProcessTraceRes, bool) {
    let plan = plan_api_trace(t, config);
    let dets = detect(&plan, stand_in);
    process_api_trace(plan, dets, None, None)
}

fn string_only() -> TypeSet {
    TypeSet { null: false, boolean: false, number: false, string: true }
}

fn check_invariants(r: &ProcessTraceRes) {
    let types = keys(&r.data_types);
    for k in keys(&r.xss_detected).iter().chain(keys(&r.sqli_detected).iter()).chain(keys(&r.sensitive_data_detected).iter()) {
        assert!(types.contains(k));
    }
    assert_eq!(r.block, r.xss_detected.is_some() || r.sqli_detected.is_some());
    assert!(r.xss_detected.as_ref().map_or(true, |m| !m.entries.is_empty()));
    assert!(r.sqli_detected.as_ref().map_or(true, |m| !m.entries.is_empty()));
    assert!(r.sensitive_data_detected.as_ref().map_or(true, |m| !m.entries.is_empty()));
    assert!(r.data_types.as_ref().map_or(true, |m| !m.entries.is_empty()));
    assert!(r.validation_errors.as_ref().map_or(true, |m| !m.entries.is_empty()));
}

fn users_config() -> ConfigSnapshot {
    ConfigSnapshot {
        endpoints: vec![EndpointGroup {
            key: "api-get".to_string(),
            endpoints: vec![EndpointConfig {
                path: "/users/{id}/orders".to_string(),
                openapi_spec_name: Some("spec".to_string()),
                is_graph_ql: false,
                full_trace_capture_enabled: true,
            }],
        }],
        authentication_config: vec![],
        collector_url: None,
        api_key: String::new(),
        global_full_trace_capture: false,
        encryption_public_key: None,
        hmac_key: None,
    }
}

#[test]
fn json_xss_in_request_body() {
    let t = trace(
        "POST",
        "/u/42/profile",
        vec![],
        vec![kv("Content-Type", "application/json")],
        "{\"bio\":\"<script>alert(1)</script>\"}",
        Some(200),
    );
    let (r, capture) = run(&t, None);
    assert!(!capture);
    assert!(r.block);
    assert_eq!(keys(&r.xss_detected), vec!["reqBody.bio".to_string()]);
    assert_eq!(lookup(&r.xss_detected, "reqBody.bio").unwrap(), "<script>alert(1)</script>");
    assert_eq!(*lookup(&r.data_types, "reqBody.bio").unwrap(), string_only());
    let body_keys: Vec<String> = keys(&r.data_types).into_iter().filter(|k| k.starts_with("reqBody")).collect();
    assert_eq!(body_keys, vec!["reqBody.bio".to_string()]);
    assert_eq!(r.request_content_type, "application/json");
    assert_eq!(r.response_content_type, "");
    check_invariants(&r);
}

#[test]
fn sqli_in_query() {
    let t = trace("GET", "/items", vec![kv("id", "1 OR 1=1")], vec![], "", Some(200));
    let (r, _) = run(&t, None);
    assert!(r.block);
    assert!(lookup(&r.sqli_detected, "reqQuery.id").is_some());
    assert_eq!(lookup(&r.sqli_detected, "reqQuery.id").unwrap().value, "1 OR 1=1");
    assert_eq!(*lookup(&r.data_types, "reqQuery.id").unwrap(), string_only());
    check_invariants(&r);
}

#[test]
fn endpoint_template_match() {
    let conf = users_config();
    let t = trace("GET", "/users/7/orders", vec![], vec![], "", Some(200));
    assert_eq!(find_endpoint(&conf.endpoints, &t.request.url.host, &t.request.method, &t.request.url.path), Some((0, 0)));
    let plan = plan_api_trace(&t, Some(&conf));
    assert_eq!(plan.endpoint_path, "/users/{id}/orders");
    assert_eq!(plan.openapi_spec_name, Some("spec".to_string()));
    assert!(plan.full_trace_capture_enabled);
}

#[test]
fn endpoint_token_count_mismatch() {
    let conf = users_config();
    let t = trace("GET", "/users/7/orders/9", vec![], vec![], "", Some(200));
    assert_eq!(find_endpoint(&conf.endpoints, &t.request.url.host, &t.request.method, &t.request.url.path), None);
    let plan = plan_api_trace(&t, Some(&conf));
    assert_eq!(plan.endpoint_path, "/users/7/orders/9");
    assert!(!plan.full_trace_capture_enabled);
    assert_eq!(plan.openapi_spec_name, None);
}

#[test]
fn array_and_nested_types() {
    let t = trace("POST", "/x", vec![], vec![kv("content-type", "application/json")], "{\"xs\":[1,\"a\",null]}", Some(200));
    let (r, _) = run(&t, None);
    assert_eq!(
        *lookup(&r.data_types, "reqBody.xs.[]").unwrap(),
        TypeSet { null: true, boolean: false, number: true, string: true }
    );
    assert!(!r.block);
    check_invariants(&r);
}

#[test]
fn large_body_is_cut_at_the_visit_bound() {
    let mut body = String::from("[");
    for i in 0..600 {
        if i > 0 {
            body.push(',');
        }
        body.push_str("\"<script>\"");
    }
    body.push(']');
    let t = trace("POST", "/x", vec![], vec![kv("Content-Type", "application/json")], &body, Some(200));
    let plan = plan_api_trace(&t, None);
    let obs = plan.parts[0].as_ref().unwrap();
    assert_eq!(obs.len(), 500);
    assert_eq!(obs.iter().filter(|o| o.kind == NodeKind::Str).count(), 499);
    let dets = detect(&plan, stand_in);
    let (r, _) = process_api_trace(plan, dets, None, None);
    assert!(r.block);
    check_invariants(&r);
}

#[test]
fn error_status_skips_request_parts() {
    let t = trace("GET", "/items", vec![kv("id", "1 OR 1=1")], vec![kv("a", "b")], "body", Some(500));
    let plan = plan_api_trace(&t, None);
    assert!(plan.parts[0].is_none());
    assert!(plan.parts[1].is_none());
    assert!(plan.parts[2].is_none());
    assert!(plan.parts[3].is_some());
    let dets = detect(&plan, stand_in);
    let (r, _) = process_api_trace(plan, dets, None, None);
    assert!(!r.block);
    assert!(lookup(&r.data_types, "reqQuery.id").is_none());
    check_invariants(&r);
}

#[test]
fn missing_response_still_analyses_empty_body() {
    let t = trace("GET", "/items", vec![], vec![], "", None);
    let plan = plan_api_trace(&t, None);
    let resp = plan.parts[3].as_ref().unwrap();
    assert_eq!(resp.len(), 1);
    assert_eq!(resp[0].path, "resBody");
    assert_eq!(resp[0].text, "");
    assert!(plan.parts[4].is_none());
    let dets = detect(&plan, quiet);
    let (r, _) = process_api_trace(plan, dets, None, None);
    assert_eq!(*lookup(&r.data_types, "resBody").unwrap(), string_only());
}

#[test]
fn invalid_json_contributes_nothing() {
    let t = trace("POST", "/x", vec![], vec![kv("Content-Type", "application/json")], "{not json", Some(200));
    let plan = plan_api_trace(&t, None);
    assert!(plan.parts[0].is_none());
}

#[test]
fn unknown_content_type_is_plain_text() {
    let t = trace("POST", "/x", vec![], vec![kv("Content-Type", "image/png")], "<script>x", Some(200));
    let (r, _) = run(&t, None);
    assert_eq!(lookup(&r.xss_detected, "reqBody").unwrap(), "<script>x");
    check_invariants(&r);
}

#[test]
fn url_encoded_body() {
    let t = trace(
        "POST",
        "/x",
        vec![],
        vec![kv("Content-Type", "application/x-www-form-urlencoded")],
        "name=bob&mail=a%40b.c",
        Some(200),
    );
    let (r, _) = run(&t, None);
    assert_eq!(*lookup(&r.data_types, "reqBody.name").unwrap(), string_only());
    let tags = lookup(&r.sensitive_data_detected, "reqBody.mail").unwrap();
    assert_eq!(tags.tags, vec!["EMAIL".to_string()]);
    assert!(!r.block);
    check_invariants(&r);
}

#[test]
fn multipart_body() {
    let body = "--XyZ\r\nContent-Disposition: form-data; name=\"bio\"\r\n\r\n<script>1</script>\r\n--XyZ--\r\n";
    let t = trace("POST", "/x", vec![], vec![kv("Content-Type", "multipart/form-data; boundary=XyZ")], body, Some(200));
    let (r, _) = run(&t, None);
    assert_eq!(lookup(&r.xss_detected, "reqBody.bio").unwrap(), "<script>1</script>");
    check_invariants(&r);
}

#[test]
fn multipart_without_boundary_contributes_nothing() {
    let t = trace("POST", "/x", vec![], vec![kv("Content-Type", "multipart/form-data")], "abc", Some(200));
    let plan = plan_api_trace(&t, None);
    assert!(plan.parts[0].is_none());
}

#[test]
fn content_type_lookup_ignores_case() {
    let headers = vec![kv("X", "1"), kv("CONTENT-TYPE", "text/plain"), kv("content-type", "x")];
    assert_eq!(get_content_type(&headers), Some("text/plain".to_string()));
    assert_eq!(get_content_type(&vec![kv("X", "1")]), None);
}

#[test]
fn combine_last_write_wins() {
    let mut a = PathMap::new();
    a.insert("p".to_string(), string_only());
    let mut b = PathMap::new();
    b.insert("p".to_string(), TypeSet { null: true, boolean: false, number: false, string: false });
    let mk = |m: PathMap<TypeSet>| ProcessTraceRes {
        block: false,
        xss_detected: None,
        sqli_detected: None,
        sensitive_data_detected: None,
        data_types: Some(m),
        validation_errors: None,
        request_content_type: String::new(),
        response_content_type: String::new(),
        graph_ql_data: None,
    };
    let r = combine_process_trace_res(vec![Some(mk(a)), None, Some(mk(b))], Some("a/b".to_string()), None, Some("{}".to_string()));
    assert_eq!(*lookup(&r.data_types, "p").unwrap(), TypeSet { null: true, boolean: false, number: false, string: false });
    assert_eq!(r.request_content_type, "a/b");
    assert_eq!(r.response_content_type, "");
    assert_eq!(r.graph_ql_data, Some("{}".to_string()));
    assert!(!r.block);
    let with_empty = ProcessTraceRes { data_types: Some(PathMap::new()), ..mk(PathMap::new()) };
    let c = combine_process_trace_res(vec![Some(with_empty)], None, None, None);
    assert!(c.data_types.is_none());
    let empty = combine_process_trace_res(vec![], None, None, None);
    assert!(empty.data_types.is_none());
}

#[test]
fn graph_ql_endpoint_skips_body_and_query() {
    let mut conf = users_config();
    conf.endpoints[0].key = "api-post".to_string();
    conf.endpoints[0].endpoints[0].is_graph_ql = true;
    let t = trace("POST", "/users/1/orders", vec![kv("q", "x")], vec![], "{\"query\":\"{a}\"}", Some(200));
    let plan = plan_api_trace(&t, Some(&conf));
    assert!(plan.is_graph_ql);
    assert_eq!(plan.graph_ql_source, GraphQlSource::Body);
    assert!(plan.parts[0].is_none());
    assert!(plan.parts[1].is_none());
    assert!(plan.parts[2].is_some());
    let plain = plan_api_trace(&t, None);
    assert_eq!(plain.graph_ql_source, GraphQlSource::Skip);
}

#[test]
fn schema_errors_and_graph_ql_result_are_carried() {
    let t = trace("GET", "/items", vec![], vec![], "", Some(200));
    let plan = plan_api_trace(&t, None);
    let dets = detect(&plan, quiet);
    let mut errors = PathMap::new();
    errors.insert("resBody.id".to_string(), Messages { items: vec!["required".to_string()] });
    let (r, _) = process_api_trace(plan, dets, Some(errors), Some("{\"a\":1}".to_string()));
    assert_eq!(lookup(&r.validation_errors, "resBody.id").unwrap().items, vec!["required".to_string()]);
    assert_eq!(r.graph_ql_data, Some("{\"a\":1}".to_string()));
    check_invariants(&r);
    let plan = plan_api_trace(&t, None);
    let dets = detect(&plan, quiet);
    let (e, _) = process_api_trace(plan, dets, Some(PathMap::new()), None);
    assert!(e.validation_errors.is_none());
}
