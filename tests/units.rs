use metlo_core::trace::same_text;
use metlo_core::findings::{insert_data_type, PathMap, TagSet, TypeSet};
use metlo_core::forward::{build_forward_record, classify_response, collector_log_url, full_capture, EncodeError};
use metlo_core::analysis::ProcessTraceRes;
use metlo_core::path_match::{get_split_path, is_endpoint_match};
use metlo_core::session::{find_text, get_session_metadata, session_key, SessionMeta};
use metlo_core::pipeline::Authentication;
use metlo_core::trace::{ApiRequest, ApiResponse, ApiTrace, ApiUrl, KeyVal, TraceMeta};
use metlo_core::walker::NodeKind;

fn kv(name: &str, value: &str) -> KeyVal {
    KeyVal { name: name.to_string(), value: value.to_string() }
}

fn sample_trace(headers: Vec<KeyVal>, status: Option<u16>, source: Option<&str>) -> ApiTrace {
    ApiTrace {
        request: ApiRequest {
            method: "GET".to_string(),
            url: ApiUrl { host: "h".to_string(), path: "/p".to_string(), parameters: vec![kv("q", "1")] },
            headers,
            body: "body".to_string(),
        },
        response: status.map(|s| ApiResponse { status: s, headers: vec![kv("a", "b")], body: "resp".to_string() }),
        meta: source.map(|s| TraceMeta {
            environment: String::new(),
            incoming: true,
            source: s.to_string(),
            source_port: 1,
            destination: String::new(),
            destination_port: 2,
        }),
    }
}

fn empty_res() -> ProcessTraceRes {
    ProcessTraceRes {
        block: false,
        xss_detected: None,
        sqli_detected: None,
        sensitive_data_detected: None,
        data_types: None,
        validation_errors: None,
        request_content_type: String::new(),
        response_content_type: String::new(),
        graph_ql_data: None,
    }
}

fn empty_meta() -> SessionMeta {
    SessionMeta { authentication_provided: None, authentication_successful: None, auth_type: None, unique_session_key: None, user: None }
}

fn auth(kind: &str, header_key: Option<&str>, cookie: Option<&str>) -> Authentication {
    Authentication {
        host: "h".to_string(),
        auth_type: kind.to_string(),
        header_key: header_key.map(|s| s.to_string()),
        jwt_user_path: None,
        cookie_name: cookie.map(|s| s.to_string()),
    }
}

#[test]
fn split_path_trims_slashes() {
    assert_eq!(get_split_path("/users/7/orders/"), vec!["users", "7", "orders"]);
    assert_eq!(get_split_path("a"), vec!["a"]);
    assert_eq!(get_split_path("///"), vec![""]);
    assert_eq!(get_split_path(""), vec![""]);
    assert_eq!(get_split_path("a//b"), vec!["a", "", "b"]);
}

#[test]
fn match_ignores_leading_slashes() {
    for p in ["/users/7", "users/7", "//users/7"] {
        for t in ["/users/{id}", "users/{id}"] {
            assert!(is_endpoint_match(&get_split_path(p), t));
        }
    }
    assert!(!is_endpoint_match(&get_split_path("/users/7"), "/users/{id"));
    assert!(!is_endpoint_match(&get_split_path("/users/7"), "/people/{id}"));
    assert!(!is_endpoint_match(&get_split_path("/users/{id}"), "/users/7"));
}

#[test]
fn data_types_accumulate() {
    let mut m: PathMap<TypeSet> = PathMap::new();
    let p = "a.b".to_string();
    insert_data_type(&mut m, &p, NodeKind::Number);
    insert_data_type(&mut m, &p, NodeKind::Null);
    insert_data_type(&mut m, &p, NodeKind::Container);
    let found = m.find(&p).unwrap();
    assert_eq!(m.entries[found].1, TypeSet { null: true, boolean: false, number: true, string: false });
}

#[test]
fn tag_sets_unite() {
    let a = TagSet { tags: vec!["EMAIL".to_string()] };
    let b = TagSet { tags: vec!["SSN".to_string()] };
    let u = a.union(&b);
    assert_eq!(u.tags, vec!["EMAIL".to_string(), "SSN".to_string()]);
    assert!(TagSet::new().is_empty());
}

#[test]
fn text_search() {
    assert_eq!(find_text("xx Basic abc", "Basic"), Some(3));
    assert_eq!(find_text("basic", "Basic"), None);
    assert_eq!(find_text("ab", "abc"), None);
    assert!(same_text(&"a/b".to_string(), "a/b"));
}

#[test]
fn session_from_basic_auth() {
    let key = vec![7u8; 32];
    let t = sample_trace(vec![kv("Authorization", "Basic dXNlcjpwdw==")], Some(200), None);
    let a = auth("basic", None, None);
    let m = get_session_metadata(Some(&a), &Some(key.clone()), &t);
    assert_eq!(m.authentication_provided, Some(true));
    assert_eq!(m.authentication_successful, Some(true));
    assert_eq!(m.auth_type, Some("basic".to_string()));
    let expected = session_key(&key, " dXNlcjpwdw==");
    assert_eq!(expected.len(), 44);
    assert_ne!(expected, " dXNlcjpwdw==");
    assert_eq!(m.unique_session_key, Some(expected));
}

#[test]
fn session_forbidden_and_header_key() {
    let key = vec![1u8; 16];
    let t = sample_trace(vec![kv("X-Api-Key", "secret")], Some(403), None);
    let m = get_session_metadata(Some(&auth("header", Some("x-api-key"), None)), &Some(key.clone()), &t);
    assert_eq!(m.authentication_successful, Some(false));
    assert_eq!(m.unique_session_key, Some(session_key(&key, "secret")));
    let j = get_session_metadata(Some(&auth("jwt", Some("X-API-KEY"), None)), &Some(key.clone()), &t);
    assert_eq!(j.unique_session_key, m.unique_session_key);
    let none = get_session_metadata(Some(&auth("header", Some("other"), None)), &Some(key.clone()), &t);
    assert_eq!(none.authentication_provided, Some(false));
    assert_eq!(none.unique_session_key, None);
}

#[test]
fn session_cookie_matches_header_name() {
    let key = vec![2u8; 16];
    let t = sample_trace(vec![kv("Cookie", "sid=1"), kv("sid", "abc")], None, None);
    let m = get_session_metadata(Some(&auth("session_cookie", None, Some("sid"))), &Some(key.clone()), &t);
    assert_eq!(m.authentication_successful, Some(false));
    assert_eq!(m.unique_session_key, Some(session_key(&key, "abc")));
}

#[test]
fn session_from_source_and_without_key() {
    let key = vec![3u8; 16];
    let t = sample_trace(vec![], Some(200), Some("10.0.0.1"));
    let m = get_session_metadata(None, &Some(key.clone()), &t);
    assert_eq!(m.unique_session_key, Some(session_key(&key, "10.0.0.1")));
    assert_eq!(m.authentication_provided, None);
    let n = get_session_metadata(Some(&auth("basic", None, None)), &None, &t);
    assert_eq!(n.auth_type, None);
    assert_eq!(n.unique_session_key, None);
    let e = get_session_metadata(None, &Some(key), &sample_trace(vec![], None, Some("")));
    assert_eq!(e.unique_session_key, None);
}

#[test]
fn redacted_forward() {
    let t = sample_trace(vec![kv("a", "b")], Some(201), None);
    let mut res = empty_res();
    res.block = true;
    let r = build_forward_record(t, res, false, None, empty_meta()).ok().unwrap();
    assert!(r.redacted);
    assert!(r.encryption.is_none());
    assert!(r.request.headers.is_empty());
    assert!(r.request.url.parameters.is_empty());
    assert_eq!(r.request.body, "");
    assert_eq!(r.request.method, "GET");
    assert_eq!(r.request.url.path, "/p");
    let resp = r.response.unwrap();
    assert_eq!(resp.status, 201);
    assert!(resp.headers.is_empty());
    assert_eq!(resp.body, "");
    assert!(r.processed_trace_data.block);
    assert!(r.session_meta.is_some());
    assert!(full_capture(true, false) && full_capture(false, true) && !full_capture(false, false));
}

#[test]
fn full_capture_without_key_keeps_content() {
    let t = sample_trace(vec![kv("a", "b")], Some(200), None);
    let r = build_forward_record(t, empty_res(), true, None, empty_meta()).ok().unwrap();
    assert!(!r.redacted);
    assert_eq!(r.request.body, "body");
    assert_eq!(r.request.headers.len(), 1);
    assert!(r.encryption.is_none());
}

#[test]
fn bad_public_key_is_rejected() {
    let t = sample_trace(vec![], Some(200), None);
    let r = build_forward_record(t, empty_res(), true, Some("not a key".to_string()), empty_meta());
    assert!(matches!(r, Err(EncodeError::InvalidPublicKey)));
}

#[test]
fn collector_url_and_outcome() {
    assert_eq!(collector_log_url(&Some("http://c:8081".to_string())), "http://c:8081/api/v2/log-request/single");
    assert_eq!(collector_log_url(&None), "/api/v2/log-request/single");
    let ok = classify_response(200, "x".to_string());
    assert!(ok.ok);
    assert_eq!(ok.msg, None);
    let bad = classify_response(500, "oops".to_string());
    assert!(!bad.ok);
    assert_eq!(bad.msg, Some("oops".to_string()));
}

fn tags_of(s: &str) -> Vec<String> {
    metlo_core::sensitive::detect_sensitive_data(s).tags
}

#[test]
fn sensitive_data_classes() {
    assert_eq!(tags_of("mail me at bob@example.com"), vec!["EMAIL".to_string()]);
    assert_eq!(tags_of("ssn 123-45-6789"), vec!["SSN".to_string()]);
    assert_eq!(tags_of("card 4111111111111111"), vec!["CREDIT_CARD".to_string()]);
    assert_eq!(
        tags_of("a@b.c 123-45-6789 1234567812345678"),
        vec!["EMAIL".to_string(), "SSN".to_string(), "CREDIT_CARD".to_string()]
    );
    assert!(tags_of("").is_empty());
    assert!(tags_of("@b.c and x@.c and 123-456-789 and 411111111111111").is_empty());
}
