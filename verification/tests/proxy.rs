use loxone_rest_proxy::proxy::plan_request;
use loxone_rest_proxy::proxy::transport_failure_reply;
use loxone_rest_proxy::proxy::upstream_reply;
use loxone_rest_proxy::proxy::AuthStatus;
use loxone_rest_proxy::proxy::ProxyStep;

#[test]
fn missing_auth_asks_for_credentials() {
    match plan_request(AuthStatus::Missing, "1.2.3.4", "dev/state") {
        ProxyStep::Respond(r) => {
            assert_eq!(r.status, 401);
            assert_eq!(
                r.www_authenticate.as_deref(),
                Some("Basic realm=\"loxone-rest-proxy\"")
            );
            assert!(r.content_type.is_none());
            assert_eq!(r.body, "");
        }
        ProxyStep::Forward(_) => panic!("expected an immediate reply"),
    }
}

#[test]
fn malformed_auth_is_a_bad_request() {
    let msg = "invalid HTTP header (authorization)".to_string();
    match plan_request(AuthStatus::Malformed(msg.clone()), "1.2.3.4", "dev/state") {
        ProxyStep::Respond(r) => {
            assert_eq!(r.status, 400);
            assert!(r.www_authenticate.is_none());
            assert!(r.content_type.is_none());
            assert_eq!(r.body, msg);
        }
        ProxyStep::Forward(_) => panic!("expected an immediate reply"),
    }
}

#[test]
fn credentials_are_forwarded_verbatim() {
    let auth = AuthStatus::Credentials {
        username: "user".to_string(),
        password: "pw".to_string(),
    };
    match plan_request(auth, "1.2.3.4", "dev/state") {
        ProxyStep::Forward(q) => {
            assert_eq!(q.url, "http://1.2.3.4/dev/state");
            assert_eq!(q.username, "user");
            assert_eq!(q.password, "pw");
        }
        ProxyStep::Respond(_) => panic!("expected the call to be forwarded"),
    }
}

#[test]
fn empty_path_is_kept() {
    let auth = AuthStatus::Credentials {
        username: "u".to_string(),
        password: "p".to_string(),
    };
    match plan_request(auth, "10.0.0.7", "") {
        ProxyStep::Forward(q) => assert_eq!(q.url, "http://10.0.0.7/"),
        ProxyStep::Respond(_) => panic!("expected the call to be forwarded"),
    }
}

#[test]
fn path_is_not_escaped() {
    let auth = AuthStatus::Credentials {
        username: "u".to_string(),
        password: "p".to_string(),
    };
    match plan_request(auth, "host:8080", "a b/c?d") {
        ProxyStep::Forward(q) => assert_eq!(q.url, "http://host:8080/a b/c?d"),
        ProxyStep::Respond(_) => panic!("expected the call to be forwarded"),
    }
}

#[test]
fn good_upstream_body_becomes_json() {
    let r = upstream_reply("<LL value=\"42\" control=\"io/0\" Code=\"200\"/>");
    assert_eq!(r.status, 200);
    assert_eq!(r.content_type.as_deref(), Some("application/json"));
    assert!(r.www_authenticate.is_none());
    assert_eq!(r.body, "{\"value\":\"42\",\"control\":\"io/0\",\"code\":\"200\"}");
}

#[test]
fn non_xml_upstream_body_is_a_parse_failure() {
    let r = upstream_reply("not xml");
    assert_eq!(r.status, 500);
    assert!(r.content_type.is_none());
    assert_eq!(r.body, "Parsing XML error");
}

#[test]
fn upstream_body_without_code_is_a_parse_failure() {
    let r = upstream_reply("<LL value=\"42\" control=\"io/0\"/>");
    assert_eq!(r.status, 500);
    assert_eq!(r.body, "Parsing XML error");
}

#[test]
fn transport_failures_become_a_bad_gateway_reply() {
    let r = transport_failure_reply("connection refused");
    assert_eq!(r.status, 502);
    assert!(r.www_authenticate.is_none());
    assert!(r.content_type.is_none());
    assert_eq!(r.body, "Upstream request failed: connection refused");
}

#[test]
fn empty_upstream_body_is_a_parse_failure() {
    let r = upstream_reply("");
    assert_eq!(r.status, 500);
    assert_eq!(r.body, "Parsing XML error");
}
