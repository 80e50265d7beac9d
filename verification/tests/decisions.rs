//! Claims, certificates, URLs and other decisions on plain values.

use apd::admin;
use apd::assertion;
use apd::check;
use apd::cli;
use apd::enrollment;
use apd::httpc::{self, Address, EgressPolicy};
use apd::json::{self, JsonValue};
use apd::router::{self, Route};
use apd::telemetry;
use apd::x509;

fn value(text: &str) -> JsonValue {
    json::parse(text.as_bytes()).unwrap()
}

fn string(v: Option<&JsonValue>) -> String {
    v.unwrap().as_str().unwrap().clone()
}

#[test]
fn claim_lookup_paths() {
    let payload = value(
        r#"{
            "sub": "system:serviceaccount:agents:runner",
            "kubernetes.io": {
                "namespace": "agents",
                "serviceaccount": { "name": "runner" }
            },
            "nested": { "a": { "b": "c" } }
        }"#,
    );
    assert_eq!(
        string(assertion::lookup_claim(&payload, "sub")),
        "system:serviceaccount:agents:runner"
    );
    assert_eq!(
        string(assertion::lookup_claim(&payload, "kubernetes.io.namespace")),
        "agents"
    );
    assert_eq!(
        string(assertion::lookup_claim(&payload, "kubernetes.io.serviceaccount.name")),
        "runner"
    );
    assert_eq!(string(assertion::lookup_claim(&payload, "nested.a.b")), "c");
    assert!(assertion::lookup_claim(&payload, "missing.claim").is_none());
}

#[test]
fn claim_matchers() {
    let m = |m: JsonValue, a: JsonValue| assertion::claim_matches(&m, &a);
    let s = |x: &str| JsonValue::string(x);
    assert!(m(s("exact"), s("exact")));
    assert!(!m(s("exact"), s("other")));
    assert!(m(
        s("system:serviceaccount:agents:*"),
        s("system:serviceaccount:agents:runner")
    ));
    assert!(!m(
        s("system:serviceaccount:agents:*"),
        s("system:serviceaccount:evil:x")
    ));
    assert!(m(value(r#"["a", "b*"]"#), s("a")));
    assert!(m(value(r#"["a", "b*"]"#), s("bcd")));
    assert!(!m(value(r#"["a", "b*"]"#), s("c")));
    assert!(m(s("true"), JsonValue::Bool(true)));
}

#[test]
fn one_of_several_values_matches() {
    let groups = value(r#"["staff", "admins"]"#);
    assert!(assertion::claim_matches(&JsonValue::string("admins"), &groups));
    assert!(!assertion::claim_matches(&JsonValue::string("root"), &groups));
    assert!(!assertion::claim_matches(&JsonValue::string("x"), &value("[]")));
}

#[test]
fn a_claim_named_by_a_url() {
    let payload = value(r#"{"https://acme.com/groups": "apd-admins"}"#);
    assert_eq!(
        string(assertion::lookup_claim(&payload, "https://acme.com/groups")),
        "apd-admins"
    );
}

#[test]
fn aud_forms() {
    assert!(assertion::aud_contains(&value(r#"{"aud": "x"}"#), "x"));
    assert!(assertion::aud_contains(&value(r#"{"aud": ["y", "x"]}"#), "x"));
    assert!(!assertion::aud_contains(&value(r#"{"aud": ["y"]}"#), "x"));
    assert!(!assertion::aud_contains(&value("{}"), "x"));
}

#[test]
fn pem_parsing() {
    let pem = "junk\n-----BEGIN CERTIFICATE-----\nAAEC\n-----END CERTIFICATE-----\nmore\n-----BEGIN CERTIFICATE-----\nAwQF\n-----END CERTIFICATE-----\n";
    let blocks = x509::pem_blocks(pem.as_bytes(), "CERTIFICATE");
    assert_eq!(blocks, vec![vec![0, 1, 2], vec![3, 4, 5]]);
    // raw DER passthrough
    let raw = x509::pem_blocks(&[0x30, 0x03, 0x01, 0x02, 0x03], "CERTIFICATE");
    assert_eq!(raw.len(), 1);
}

#[test]
fn ecdsa_der_conversion() {
    // r with a high bit set gets a 0x00 pad; leading zeros stripped.
    let mut sig = vec![0u8; 64];
    sig[0] = 0x80;
    sig[32] = 0x01;
    let der = x509::ecdsa_fixed_to_der(&sig).unwrap();
    assert_eq!(der[0], 0x30);
    // r: 02 21 00 80 ... ; s: 02 20 01 00...  (s keeps full 32 bytes since
    // only leading zeros are stripped and s[0]=0x01)
    assert_eq!(&der[2..5], &[0x02, 0x21, 0x00]);
    assert!(x509::ecdsa_fixed_to_der(&[1, 2, 3]).is_none());
}

#[test]
fn san_pattern_matching() {
    assert!(x509::san_matches(
        "spiffe://td/ns/agents/*",
        "spiffe://td/ns/agents/sa/runner"
    ));
    assert!(!x509::san_matches(
        "spiffe://td/ns/agents/*",
        "spiffe://td/ns/other/sa/x"
    ));
    assert!(x509::san_matches("agent.example.com", "agent.example.com"));
    assert!(!x509::san_matches("agent.example.com", "evil.example.com"));
}

#[test]
fn secrets_compare_by_content() {
    assert!(enrollment::constant_time_eq(b"secret", b"secret"));
    assert!(!enrollment::constant_time_eq(b"secret", b"secreT"));
    assert!(!enrollment::constant_time_eq(b"secret", b"secre"));
    assert!(enrollment::constant_time_eq(b"", b""));
}

#[test]
fn url_parsing() {
    let u = httpc::parse_url("https://a.example/.well-known/x.json").unwrap();
    assert!(u.https);
    assert_eq!(u.host, "a.example");
    assert_eq!(u.port, 443);
    assert_eq!(u.path_and_query, "/.well-known/x.json");
    let u = httpc::parse_url("http://127.0.0.1:8081").unwrap();
    assert_eq!(u.port, 8081);
    assert_eq!(u.path_and_query, "/");
    assert!(httpc::parse_url("ftp://x").is_err());
    assert!(httpc::parse_url("https://user@x.example/").is_err());
}

#[test]
fn url_faults() {
    let e = |u: &str| httpc::parse_url(u).err().unwrap();
    assert_eq!(e("ftp://x"), "unsupported URL scheme");
    assert_eq!(e("https://user@x.example/"), "userinfo in URL rejected");
    assert_eq!(e("https:///x"), "empty host");
    assert_eq!(e("https://x:65536/"), "number too large to fit in target type");
    let (authority, path) = httpc::signing_parts("https://ps.example:8443/revoke?a=1").unwrap();
    assert_eq!(authority, "ps.example:8443");
    assert_eq!(path, "/revoke");
    let (authority, _) = httpc::signing_parts("https://ps.example:443/revoke").unwrap();
    assert_eq!(authority, "ps.example");
}

fn address(text: &str) -> Address {
    if text.contains(':') {
        let mut out = [0u16; 8];
        let (head, tail) = match text.split_once("::") {
            Some((h, t)) => (h, t),
            None => (text, ""),
        };
        let front: Vec<u16> = head
            .split(':')
            .filter(|s| !s.is_empty())
            .map(|s| u16::from_str_radix(s, 16).unwrap())
            .collect();
        let back: Vec<u16> = tail
            .split(':')
            .filter(|s| !s.is_empty())
            .map(|s| u16::from_str_radix(s, 16).unwrap())
            .collect();
        for (i, s) in front.iter().enumerate() {
            out[i] = *s;
        }
        for (i, s) in back.iter().enumerate() {
            out[8 - back.len() + i] = *s;
        }
        Address::V6(out)
    } else {
        let o: Vec<u8> = text.split('.').map(|s| s.parse().unwrap()).collect();
        Address::V4([o[0], o[1], o[2], o[3]])
    }
}

#[test]
fn ip_admission() {
    let public = address("93.184.216.34");
    assert!(httpc::ip_is_public(&public));
    for bad in [
        "127.0.0.1",
        "10.0.0.1",
        "192.168.1.1",
        "172.16.0.1",
        "169.254.1.1",
        "100.64.0.1",
        "0.0.0.0",
        "198.18.0.1",
        "240.0.0.1",
        "::1",
        "fe80::1",
        "fc00::1",
    ] {
        let ip = address(bad);
        assert!(!httpc::ip_is_public(&ip), "{bad} must be rejected");
    }
    let v6_public = address("2606:2800:220:1::1");
    assert!(httpc::ip_is_public(&v6_public));
}

#[test]
fn more_addresses() {
    for bad in [
        "172.31.255.255",
        "100.127.0.1",
        "192.0.0.1",
        "192.0.2.1",
        "198.51.100.7",
        "203.0.113.9",
        "198.19.1.1",
        "224.0.0.1",
        "255.255.255.255",
        "::",
        "ff02::1",
        "2001:db8::1",
        "febf::1",
        "fdff::1",
    ] {
        assert!(!httpc::ip_is_public(&address(bad)), "{bad}");
    }
    for good in ["172.32.0.1", "100.128.0.1", "192.0.1.1", "198.20.0.1", "223.1.1.1", "2001:db9::1"] {
        assert!(httpc::ip_is_public(&address(good)), "{good}");
    }
}

#[test]
fn egress_rules() {
    let strict = EgressPolicy::from_config(false);
    let dev = EgressPolicy::from_config(true);
    assert_eq!(strict.max_response_bytes, 64 * 1024);
    assert_eq!(
        httpc::request_for(&strict, "http://a.com/").err().unwrap(),
        "plain http egress not allowed"
    );
    for reserved in ["https://x.local/", "https://x.internal/", "https://x.test/", "https://X.TEST./"] {
        assert!(httpc::request_for(&strict, reserved).is_err(), "{reserved}");
        assert!(httpc::request_for(&dev, reserved).is_ok(), "{reserved}");
    }
    assert!(httpc::request_for(&strict, "https://ps.acme.com/x").is_ok());
    assert!(httpc::request_for(&dev, "http://localhost:8080/x").is_ok());

    let mixed = vec![address("93.184.216.34"), address("10.0.0.1")];
    let private = vec![address("10.0.0.1")];
    let public = vec![address("93.184.216.34"), address("2606:2800:220:1::1")];
    assert_eq!(
        httpc::check_addresses(&strict, "h", &mixed).err().unwrap(),
        "host h resolves to private addresses"
    );
    assert_eq!(
        httpc::check_addresses(&strict, "h", &private).err().unwrap(),
        "no admissible address for h"
    );
    assert!(httpc::check_addresses(&strict, "h", &public).is_ok());
    assert!(httpc::check_addresses(&dev, "h", &mixed).is_ok());
    assert!(httpc::check_addresses(&dev, "h", &vec![]).is_err());

    assert!(httpc::check_status(200, "200 OK", "u").is_ok());
    assert_eq!(
        httpc::check_status(302, "302 Found", "u").err().unwrap(),
        "redirect from u refused"
    );
    assert_eq!(
        httpc::check_status(404, "404 Not Found", "u").err().unwrap(),
        "HTTP 404 Not Found from u"
    );
}

#[test]
fn routes() {
    assert!(matches!(router::route("POST", "/enroll"), Route::Enroll));
    assert!(matches!(router::route("GET", "/enroll"), Route::NotFound));
    assert!(matches!(router::route("GET", "/healthz"), Route::Healthz));
    assert!(matches!(router::route("GET", "/inbox"), Route::Inbox));
    match router::route("DELETE", "/subscriptions/evt_1") {
        Route::CancelSubscription(eid) => assert_eq!(eid, "evt_1"),
        _ => panic!("no route"),
    }
    assert!(matches!(router::route("DELETE", "/subscriptions/"), Route::NotFound));
    assert!(matches!(router::route("DELETE", "/subscriptions/a/b"), Route::NotFound));
    match router::route("POST", "/admin/agents/k7q3/revoke") {
        Route::RevokeAgent(l) => assert_eq!(l, "k7q3"),
        _ => panic!("no route"),
    }
    match router::route("POST", "/admin/agents/k7q3/reinstate") {
        Route::ReinstateAgent(l) => assert_eq!(l, "k7q3"),
        _ => panic!("no route"),
    }
    match router::route("GET", "/admin/agents/k7q3") {
        Route::GetAgent(l) => assert_eq!(l, "k7q3"),
        _ => panic!("no route"),
    }
    match router::route("DELETE", "/admin/allowed-keys/abc") {
        Route::RemoveAllowedKey(j) => assert_eq!(j, "abc"),
        _ => panic!("no route"),
    }
    let e = router::no_route("PUT", "/x");
    assert_eq!(e.status, 404);
    assert_eq!(e.detail, "no route for PUT /x");
}

#[test]
fn metric_labels() {
    assert_eq!(telemetry::route_template("/enroll"), "/enroll");
    assert_eq!(telemetry::route_template("/subscriptions/evt_1"), "/subscriptions/{eid}");
    assert_eq!(telemetry::route_template("/admin/agents/x/revoke"), "/admin/agents/{id}/revoke");
    assert_eq!(telemetry::route_template("/admin/agents/x"), "/admin/agents/{id}");
    assert_eq!(telemetry::route_template("/nothing"), "other");
    assert_eq!(telemetry::status_class(204), "2xx");
    assert_eq!(telemetry::status_class(302), "3xx");
    assert_eq!(telemetry::status_class(404), "4xx");
    assert_eq!(telemetry::status_class(500), "5xx");
    assert_eq!(telemetry::status_class(101), "other");
    let cfg = apd::config::TelemetryConfig {
        enabled: true,
        endpoint: Some("http://otel:4318//".to_string()),
        service_name: None,
        metric_interval_secs: Some(0),
    };
    assert_eq!(telemetry::base_url(&cfg), "http://otel:4318");
    assert_eq!(telemetry::service_name(&cfg), "apd");
    assert_eq!(telemetry::metric_interval_secs(&cfg), 1);
}

#[test]
fn command_line() {
    let args = |s: &str| -> Vec<String> { s.split(' ').map(|x| x.to_string()).collect() };
    let a = args("apd keygen --keys k.json --rotate --prune-days 2");
    assert_eq!(cli::flag(&a, "--keys").as_deref(), Some("k.json"));
    assert!(cli::has_flag(&a, "--rotate"));
    assert!(!cli::has_flag(&a, "--federated"));
    assert_eq!(cli::prune_secs(&a), Ok(Some(172800)));
    assert_eq!(cli::flag(&args("apd serve --config"), "--config"), None);
    assert_eq!(
        cli::prune_secs(&args("apd keygen --prune-days x")),
        Err("invalid --prune-days".to_string())
    );
    assert_eq!(cli::prune_secs(&args("apd keygen")), Ok(None));
}

#[test]
fn graded_tokens() {
    assert_eq!(
        check::url_parts("https://a.example/x/y"),
        ("a.example".to_string(), "/x/y".to_string())
    );
    assert_eq!(check::url_parts("http://a:81"), ("a:81".to_string(), "/".to_string()));
    let headers = vec![("signature-error".to_string(), "error=invalid_jwt".to_string())];
    assert_eq!(check::explain(401, &headers), "  [error=invalid_jwt]");
    assert_eq!(check::explain(403, &headers), "");
    assert_eq!(check::pending_url("https://ps.example/", "/p/1"), "https://ps.example/p/1");
    assert_eq!(check::pending_url("https://ps.example", "https://x/p"), "https://x/p");

    let md = value(r#"{"issuer":"https://ps.example","jwks_uri":"https://ps.example/k"}"#);
    let found = check::grade_metadata("https://ps.example", &md);
    assert_eq!(found.iter().map(|c| c.ok).collect::<Vec<_>>(), vec![true, true, false, false]);
    assert_eq!(check::tally(&found), (2, 2));
    assert_eq!(
        found[0].line(),
        "  [PASS] metadata issuer matches the fetch URL — https://ps.example"
    );
    assert_eq!(found[2].line(), "  [FAIL] person_token_endpoint present (REQUIRED)");

    let ks = check::grade_key_set(&value(r#"{"keys":[{"alg":"Ed25519"},{"alg":"EdDSA"}]}"#));
    assert!(ks[0].ok);
    assert_eq!(ks[0].detail, "2 keys");
    assert!(!ks[1].ok);
    assert!(!check::grade_key_set(&value("{}"))[0].ok);
}

#[test]
fn thumbprints_are_recognized() {
    let ok = "kPrK_qmxVWaYVA9wwBF6Iuo3vVzz7TxHCTwXBygrS4k";
    assert_eq!(apd::b64::decode(ok).unwrap().len(), 32);
    let shown = admin::show_text(&Some(ok.to_string()));
    assert_eq!(shown.render(), format!("\"{ok}\""));
    assert_eq!(admin::show_text(&None).render(), "null");
}
