use axum::http::header::HeaderName;
use axum::http::{HeaderMap, HeaderValue};
use load_balancer::backend::{ProbeOutcome, ServerConfig, ServerStatus};
use load_balancer::headers::{is_value_text, HeaderEdit};
use load_balancer::proxy::{
    bad_gateway, dispatch, edit_result, plan_forward, plan_with_host, request_headers,
    response_headers, route, target_url, unavailable, ForwardError, ProxyAction, BAD_GATEWAY,
    SERVICE_UNAVAILABLE,
};
use load_balancer::registry::{AppState, ProbeResult};

fn headers(pairs: &[(&str, &str)]) -> HeaderMap {
    let mut map = HeaderMap::new();
    for (name, value) in pairs {
        map.append(
            HeaderName::from_bytes(name.as_bytes()).unwrap(),
            HeaderValue::from_str(value).unwrap(),
        );
    }
    map
}

fn values(map: &HeaderMap, name: &str) -> Vec<String> {
    map.get_all(name).iter().map(|v| v.to_str().unwrap().to_string()).collect()
}

fn full_map() -> HeaderMap {
    let mut map = HeaderMap::new();
    let mut i = 0u32;
    loop {
        let name = HeaderName::from_bytes(format!("x-filler-{}", i).as_bytes()).unwrap();
        if map.try_insert(name, HeaderValue::from_static("v")).is_err() {
            return map;
        }
        i += 1;
    }
}

fn respond_parts(action: ProxyAction) -> (u16, String) {
    match action {
        ProxyAction::Respond { status, body } => (status, body),
        ProxyAction::Forward(_) => panic!("expected an immediate answer"),
    }
}

#[test]
fn target_url_joins_base_path_and_query() {
    assert_eq!(target_url("http://a", "/x/y", Some("k=v&z=1")), "http://a/x/y?k=v&z=1");
    assert_eq!(target_url("http://a", "/x/y", None), "http://a/x/y");
    assert_eq!(target_url("http://a/", "/", None), "http://a/");
    assert_eq!(target_url("http://a", "/x", Some("")), "http://a/x?");
}

#[test]
fn target_url_drops_every_trailing_slash_of_the_base() {
    assert_eq!(target_url("http://a///", "/x", None), "http://a/x");
    assert_eq!(target_url("http://a/b/", "/x", None), "http://a/b/x");
    assert_eq!(target_url("///", "/x", None), "/x");
    assert_eq!(target_url("", "", None), "");
}

#[test]
fn request_headers_name_the_backend_and_drop_accept_encoding() {
    let inbound = headers(&[
        ("host", "localhost:8080"),
        ("accept-encoding", "gzip"),
        ("accept-encoding", "br"),
        ("user-agent", "curl/8"),
        ("referer", "http://elsewhere/"),
        ("x-custom", "1"),
        ("x-custom", "2"),
    ]);
    let out = request_headers(&inbound, "backend.example", "http://backend.example:9000").unwrap();
    assert_eq!(values(&out, "host"), vec!["backend.example"]);
    assert_eq!(values(&out, "referer"), vec!["http://backend.example:9000"]);
    assert!(!out.contains_key("accept-encoding"));
    assert_eq!(values(&out, "user-agent"), vec!["curl/8"]);
    assert_eq!(values(&out, "x-custom"), vec!["1", "2"]);
    assert_eq!(out.keys_len(), 4);
    // the inbound map is untouched
    assert_eq!(values(&inbound, "host"), vec!["localhost:8080"]);
    assert_eq!(values(&inbound, "accept-encoding"), vec!["gzip", "br"]);
}

#[test]
fn request_headers_replace_every_earlier_host_and_referer() {
    let inbound = headers(&[
        ("host", "one"),
        ("x-between", "kept"),
        ("host", "two"),
        ("referer", "r1"),
        ("host", "three"),
        ("referer", "r2"),
    ]);
    let out = request_headers(&inbound, "backend", "http://backend").unwrap();
    assert_eq!(values(&out, "host"), vec!["backend"]);
    assert_eq!(values(&out, "referer"), vec!["http://backend"]);
    assert_eq!(values(&out, "x-between"), vec!["kept"]);
    assert_eq!(out.len(), 3);
}

#[test]
fn request_headers_add_host_and_referer_where_there_were_none() {
    let out = request_headers(&HeaderMap::new(), "", "http://b").unwrap();
    assert_eq!(values(&out, "host"), vec![""]);
    assert_eq!(values(&out, "referer"), vec!["http://b"]);
    assert_eq!(out.len(), 2);
}

#[test]
fn request_headers_reject_text_that_is_no_header_value() {
    let inbound = headers(&[("accept", "*/*")]);
    assert_eq!(
        request_headers(&inbound, "bad\nhost", "http://b").err(),
        Some(ForwardError::InvalidHeaderValue)
    );
    assert_eq!(
        request_headers(&inbound, "host", "http://b/\u{7f}").err(),
        Some(ForwardError::InvalidHeaderValue)
    );
    assert!(request_headers(&inbound, "h\u{e9}te", "http://b/\ttab").is_ok());
}

fn map_with_names(count: u32) -> HeaderMap {
    let mut map = HeaderMap::new();
    for i in 0..count {
        let name = HeaderName::from_bytes(format!("x-filler-{}", i).as_bytes()).unwrap();
        map.try_insert(name, HeaderValue::from_static("v")).unwrap();
    }
    map
}

#[test]
fn request_headers_succeed_while_there_is_room_for_two_names() {
    for count in [0u32, 1, 100, 6552] {
        let inbound = map_with_names(count);
        assert_eq!(inbound.keys_len(), count as usize);
        let out = request_headers(&inbound, "b", "http://b").ok().unwrap();
        assert_eq!(out.keys_len(), count as usize + 2);
        assert_eq!(values(&out, "host"), vec!["b"]);
    }
}

#[test]
fn a_plan_is_made_while_there_is_room_for_two_names() {
    let inbound = map_with_names(6552);
    let plan = plan_forward("http://b:1", "/x", None, &inbound).ok().unwrap();
    assert_eq!(plan.url, "http://b:1/x");
    assert_eq!(plan.headers.keys_len(), 6554);
    let action = route(Some("http://b:1".to_string()), "/x", None, &inbound).ok().unwrap();
    assert!(matches!(action, ProxyAction::Forward(_)));
}

#[test]
fn request_headers_report_a_full_map() {
    let inbound = full_map();
    assert!(!inbound.contains_key("host"));
    assert_eq!(
        request_headers(&inbound, "b", "http://b").err(),
        Some(ForwardError::TooManyHeaders)
    );
}

#[test]
fn header_value_text_follows_the_http_rule() {
    assert!(is_value_text(""));
    assert!(is_value_text("plain text ~"));
    assert!(is_value_text("tab\tinside"));
    assert!(is_value_text("caf\u{e9}"));
    assert!(!is_value_text("line\nbreak"));
    assert!(!is_value_text("nul\0"));
    assert!(!is_value_text("delete\u{7f}"));
    for text in ["", "plain text ~", "tab\tinside", "caf\u{e9}", "line\nbreak", "nul\0", "delete\u{7f}"] {
        assert_eq!(is_value_text(text), HeaderValue::from_str(text).is_ok());
    }
}

#[test]
fn edit_result_maps_each_outcome() {
    assert_eq!(edit_result(HeaderEdit::Done), Ok(()));
    assert_eq!(edit_result(HeaderEdit::BadValue), Err(ForwardError::InvalidHeaderValue));
    assert_eq!(edit_result(HeaderEdit::Full), Err(ForwardError::TooManyHeaders));
}

#[test]
fn response_headers_drop_the_two_security_headers() {
    let upstream = headers(&[
        ("content-type", "text/html"),
        ("content-security-policy", "default-src 'self'"),
        ("content-security-policy", "frame-ancestors 'none'"),
        ("x-frame-options", "DENY"),
        ("set-cookie", "a=1"),
        ("set-cookie", "b=2"),
    ]);
    let out = response_headers(&upstream);
    assert!(!out.contains_key("content-security-policy"));
    assert!(!out.contains_key("x-frame-options"));
    assert_eq!(values(&out, "content-type"), vec!["text/html"]);
    assert_eq!(values(&out, "set-cookie"), vec!["a=1", "b=2"]);
    assert_eq!(out.keys_len(), 2);
    assert!(upstream.contains_key("x-frame-options"));
}

#[test]
fn response_headers_without_security_headers_pass_unchanged() {
    let upstream = headers(&[("content-type", "text/plain")]);
    let out = response_headers(&upstream);
    assert_eq!(out, upstream);
}

#[test]
fn plan_forward_reads_the_host_from_the_base_url() {
    let inbound = headers(&[("accept-encoding", "gzip"), ("host", "localhost:8080")]);
    let plan = plan_forward("https://p.example.org:8443/", "/api/items", Some("page=2"), &inbound)
        .ok()
        .unwrap();
    assert_eq!(plan.url, "https://p.example.org:8443/api/items?page=2");
    assert_eq!(plan.host, "p.example.org");
    assert_eq!(values(&plan.headers, "host"), vec!["p.example.org"]);
    assert_eq!(values(&plan.headers, "referer"), vec!["https://p.example.org:8443/"]);
    assert!(!plan.headers.contains_key("accept-encoding"));
}

#[test]
fn plan_forward_refuses_what_is_no_url() {
    let inbound = HeaderMap::new();
    assert_eq!(
        plan_forward("not a url", "/", None, &inbound).err(),
        Some(ForwardError::InvalidBackendUrl)
    );
    assert_eq!(plan_forward("", "/", None, &inbound).err(), Some(ForwardError::InvalidBackendUrl));
}

#[test]
fn plan_forward_sends_an_empty_host_for_a_url_without_one() {
    let plan = plan_forward("data:text/plain,hi", "/x", None, &HeaderMap::new()).ok().unwrap();
    assert_eq!(plan.host, "");
    assert_eq!(values(&plan.headers, "host"), vec![""]);
}

#[test]
fn plan_with_host_takes_the_host_as_given() {
    let inbound = HeaderMap::new();
    let plan = plan_with_host("http://b/", "/x", None, &inbound, Some(Some("other".to_string())))
        .ok()
        .unwrap();
    assert_eq!(plan.url, "http://b/x");
    assert_eq!(plan.host, "other");
    let plan = plan_with_host("http://b/", "/x", None, &inbound, Some(None)).ok().unwrap();
    assert_eq!(plan.host, "");
    assert_eq!(
        plan_with_host("http://b/", "/x", None, &inbound, None).err(),
        Some(ForwardError::InvalidBackendUrl)
    );
    assert_eq!(
        plan_with_host("http://b/", "/x", None, &inbound, Some(Some("a\rb".to_string()))).err(),
        Some(ForwardError::InvalidHeaderValue)
    );
}

#[test]
fn no_selection_is_answered_with_service_unavailable() {
    let action = route(None, "/x", None, &HeaderMap::new()).ok().unwrap();
    assert_eq!(respond_parts(action), (503, "No backend servers alive".to_string()));
    assert_eq!(respond_parts(unavailable()), (SERVICE_UNAVAILABLE, "No backend servers alive".to_string()));
}

#[test]
fn a_selection_is_forwarded() {
    let action = route(Some("http://b:1/".to_string()), "/x", Some("a=b"), &HeaderMap::new())
        .ok()
        .unwrap();
    match action {
        ProxyAction::Forward(plan) => {
            assert_eq!(plan.url, "http://b:1/x?a=b");
            assert_eq!(plan.host, "b");
        }
        ProxyAction::Respond { .. } => panic!("expected a forward"),
    }
}

#[test]
fn transport_failure_is_answered_with_bad_gateway() {
    let (status, body) = respond_parts(bad_gateway("connection refused"));
    assert_eq!(status, 502);
    assert_eq!(status, BAD_GATEWAY);
    assert_eq!(body, "Bad Gateway: connection refused");
}

#[test]
fn dispatch_without_healthy_backends_answers_503_and_changes_nothing() {
    let a = ServerStatus::new(&ServerConfig { url: "http://a".to_string(), region: None });
    let mut state = AppState::new(vec![a]);
    let action = dispatch(&mut state, "c1", "/x", None, &HeaderMap::new()).ok().unwrap();
    assert_eq!(respond_parts(action).0, 503);
    assert_eq!(state.rr_index(), 0);
    assert_eq!(state.sticky_target("c1"), None);
}

#[test]
fn dispatch_pins_the_client_and_plans_the_request() {
    let a = ServerStatus::new(&ServerConfig { url: "http://a:8000".to_string(), region: None });
    let mut state = AppState::new(vec![a]);
    state.apply_updates(vec![ProbeResult::new(0, ProbeOutcome::Responded(200), 3, "t".to_string())]);
    let inbound = headers(&[("accept-encoding", "gzip")]);
    let action = dispatch(&mut state, "c1", "/x", Some("q=1"), &inbound).ok().unwrap();
    match action {
        ProxyAction::Forward(plan) => {
            assert_eq!(plan.url, "http://a:8000/x?q=1");
            assert_eq!(plan.host, "a");
            assert_eq!(values(&plan.headers, "referer"), vec!["http://a:8000"]);
            assert!(!plan.headers.contains_key("accept-encoding"));
        }
        ProxyAction::Respond { .. } => panic!("expected a forward"),
    }
    assert_eq!(state.sticky_target("c1"), Some("http://a:8000".to_string()));
}
