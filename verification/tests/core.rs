//! Keys, tokens, encodings and identifiers.

use apd::b64;
use apd::client;
use apd::crypto::SigningKey;
use apd::decimal;
use apd::ident::{self, AgentId};
use apd::json::{self, JsonValue};
use apd::jwk::{self, Jwk, JwkError, Jwks};
use apd::jwt::{self, ClaimExt, JwtError};
use apd::random;

fn value(text: &str) -> JsonValue {
    json::parse(text.as_bytes()).unwrap()
}

fn key(seed: u8) -> SigningKey {
    jwk::generate_signing_key(&[seed; 32])
}

fn rfc8037_jwk() -> Jwk {
    Jwk {
        kty: "OKP".to_string(),
        crv: "Ed25519".to_string(),
        x: "11qYAYKxCrfVS_7TyWQHOg7hcvPapiMlrwIaaPcHURo".to_string(),
        kid: None,
        alg: None,
        use_: None,
    }
}

#[test]
fn rfc8037_thumbprint() {
    let jwk = rfc8037_jwk();
    assert_eq!(
        jwk.thumbprint().unwrap(),
        "kPrK_qmxVWaYVA9wwBF6Iuo3vVzz7TxHCTwXBygrS4k"
    );
}

#[test]
fn thumbprint_ignores_optional_members() {
    let mut jwk = rfc8037_jwk();
    jwk.kid = Some("some-kid".to_string());
    jwk.alg = Some("Ed25519".to_string());
    jwk.use_ = Some("sig".to_string());
    let t1 = jwk.thumbprint().unwrap();
    jwk.kid = None;
    assert_eq!(t1, jwk.thumbprint().unwrap());
}

#[test]
fn roundtrip_key() {
    let sk = key(7);
    let jwk = Jwk::from_verifying_key(&sk.verifying_key());
    assert_eq!(
        jwk.verifying_key().unwrap().to_bytes(),
        sk.verifying_key().to_bytes()
    );
}

#[test]
fn jwks_find_skips_unsupported() {
    let doc = value(
        r#"{"keys":[
            {"kty":"RSA","n":"abc","e":"AQAB","kid":"k1"},
            {"kty":"OKP","crv":"Ed25519","x":"11qYAYKxCrfVS_7TyWQHOg7hcvPapiMlrwIaaPcHURo","kid":"k1"}
        ]}"#,
    );
    let jwks: Jwks = apd::jwks_cache::read_key_set(doc, "").ok().unwrap();
    assert!(jwks.find("k1").is_some());
    assert!(jwks.find("nope").is_none());
}

#[test]
fn unusable_keys_are_told_apart() {
    let mut k = rfc8037_jwk();
    k.kty = "RSA".to_string();
    assert!(matches!(k.thumbprint(), Err(JwkError::UnsupportedKeyType)));
    let mut k = rfc8037_jwk();
    k.x = "AAAA".to_string();
    assert!(matches!(k.verifying_key(), Err(JwkError::InvalidKey)));
    k.x = "not base64!".to_string();
    assert!(matches!(k.verifying_key(), Err(JwkError::InvalidKey)));
}

#[test]
fn public_part_drops_what_is_optional() {
    let mut k = rfc8037_jwk();
    k.kid = Some("k1".to_string());
    k.use_ = Some("sig".to_string());
    let p = k.public_only();
    assert_eq!(p.kid, None);
    assert_eq!(p.use_, None);
    assert_eq!(p.alg.as_deref(), Some("Ed25519"));
    assert_eq!(p.x, k.x);
}

#[test]
fn jwk_as_json_and_back() {
    let mut k = rfc8037_jwk();
    k.kid = Some("k1".to_string());
    let text = k.to_json().render();
    assert_eq!(
        text,
        r#"{"crv":"Ed25519","kid":"k1","kty":"OKP","x":"11qYAYKxCrfVS_7TyWQHOg7hcvPapiMlrwIaaPcHURo"}"#
    );
    let back = Jwk::from_json(&value(&text)).unwrap();
    assert_eq!(back.kid.as_deref(), Some("k1"));
    assert_eq!(back.x, k.x);
    assert!(Jwk::from_json(&value(r#"{"kty":"OKP","crv":"Ed25519"}"#)).is_none());
}

#[test]
fn sign_verify_roundtrip() {
    let sk = key(1);
    let jwk = Jwk::from_verifying_key(&sk.verifying_key());
    let payload = value(r#"{"iss": "https://ap.example", "exp": 123}"#);
    let token = jwt::sign("aa-agent+jwt", Some("k1"), None, &payload, &sk);
    let decoded = jwt::decode(&token).unwrap();
    assert_eq!(decoded.header.typ.as_deref(), Some("aa-agent+jwt"));
    assert_eq!(decoded.header.kid.as_deref(), Some("k1"));
    jwt::verify_with_jwk(&decoded, &jwk).unwrap();
    assert_eq!(decoded.header.alg, "Ed25519");
    assert_eq!(
        decoded.payload.str_claim("iss").map(|s| s.as_str()),
        Some("https://ap.example")
    );
    assert_eq!(decoded.payload.int_claim("exp"), Some(123));
}

#[test]
fn tampered_rejected() {
    let sk = key(2);
    let jwk = Jwk::from_verifying_key(&sk.verifying_key());
    let token = jwt::sign("t", None, None, &value(r#"{"a": 1}"#), &sk);
    let parts: Vec<&str> = token.split('.').collect();
    let evil_payload = b64::encode(br#"{"a":2}"#);
    let tampered = format!("{}.{}.{}", parts[0], evil_payload, parts[2]);
    let decoded = jwt::decode(&tampered).unwrap();
    assert_eq!(
        jwt::verify_with_jwk(&decoded, &jwk),
        Err(JwtError::BadSignature)
    );
}

#[test]
fn alg_none_rejected() {
    // hand-craft an alg=none token
    let h = b64::encode(br#"{"alg":"none","typ":"aa-agent+jwt"}"#);
    let p = b64::encode(br#"{"iss":"https://x.example"}"#);
    let token = format!("{h}.{p}.");
    // trailing empty signature part decodes to empty vec
    let decoded = jwt::decode(&token).unwrap();
    let sk = key(3);
    let jwk = Jwk::from_verifying_key(&sk.verifying_key());
    assert_eq!(
        jwt::verify_with_jwk(&decoded, &jwk),
        Err(JwtError::UnsupportedAlgorithm)
    );
}

/// RFC 8037 A.4: signing "Example of Ed25519 signing".
#[test]
fn rfc8037_signature_vector() {
    let seed: [u8; 32] =
        b64::decode_fixed("nWGxne_9WmC6hEr0kuwsxERJxWl7MmkZcDusAxyuf2A").unwrap();
    let sk = SigningKey::from_bytes(&seed);
    let jwk = Jwk::from_verifying_key(&sk.verifying_key());
    assert_eq!(jwk.x, "11qYAYKxCrfVS_7TyWQHOg7hcvPapiMlrwIaaPcHURo");
    // Compact JWS from RFC 8037 A.4
    let signing_input = "eyJhbGciOiJFZERTQSJ9.RXhhbXBsZSBvZiBFZDI1NTE5IHNpZ25pbmc";
    let sig = sk.sign(signing_input.as_bytes());
    assert_eq!(
        b64::encode(&sig),
        "hgyY0il_MGCjP0JzlnLWG1PPOt7-09PGcvMg3AIbQR6dWbhijcNR4ki4iylGjg5BhVsPt9g7sVvpAr_MuM0KAg"
    );
}

#[test]
fn malformed_tokens() {
    for bad in ["", "a.b", "a.b.c.d", "!!.e30.AA", "e30.e30.AA", "bm90IGpzb24.e30.AA"] {
        assert!(matches!(jwt::decode(bad), Err(JwtError::Malformed)), "{bad}");
    }
}

#[test]
fn b64_dep_is_reachable() {
    assert_eq!(b64::encode(b"foo"), "Zm9v");
}

#[test]
fn base64_vectors() {
    assert_eq!(b64::encode(b""), "");
    assert_eq!(b64::encode(b"f"), "Zg");
    assert_eq!(b64::encode(b"fo"), "Zm8");
    assert_eq!(b64::encode(&[0xfb, 0xff]), "-_8");
    assert_eq!(b64::encode_std(&[0xfb, 0xff]), "+/8=");
    assert_eq!(b64::decode("Zm8").unwrap(), b"fo");
    assert_eq!(b64::decode_std("+/8=").unwrap(), vec![0xfb, 0xff]);
    assert!(b64::decode("Zg==").is_none());
    assert!(b64::decode("Z").is_none());
    assert!(b64::decode("Zh").is_none());
    assert!(b64::decode("Zm9+").is_none());
}

#[test]
fn numbers_as_text() {
    assert_eq!(decimal::unsigned(0), "0");
    assert_eq!(decimal::unsigned(u64::MAX), "18446744073709551615");
    assert_eq!(decimal::signed(-42), "-42");
    assert_eq!(decimal::signed(i64::MIN), "-9223372036854775808");
    assert_eq!(decimal::parse_unsigned("0042"), Some(42));
    assert_eq!(decimal::parse_unsigned("+7"), Some(7));
    assert_eq!(decimal::parse_unsigned("-7"), None);
    assert_eq!(decimal::parse_unsigned("18446744073709551616"), None);
    assert_eq!(decimal::parse_signed("-9223372036854775808"), Some(i64::MIN));
    assert_eq!(decimal::parse_signed(""), None);
}

#[test]
fn json_is_read_and_written() {
    let v = value(r#"{"b":[1,-2,1.5,null,true],"a":"x\"y"}"#);
    assert_eq!(v.render(), r#"{"a":"x\"y","b":[1,-2,1.5,null,true]}"#);
    assert_eq!(v.str_of("a").map(|s| s.as_str()), Some("x\"y"));
    assert_eq!(v.get("b").unwrap().as_array().unwrap().len(), 5);
    assert!(json::parse(b"{\"a\":").is_err());
    let w = v.copy().with("a", JsonValue::number(3));
    assert_eq!(w.u64_of("a"), Some(3));
    assert_eq!(w.render(), r#"{"a":3,"b":[1,-2,1.5,null,true]}"#);
    assert_eq!(json::quote("a\n\"b\""), r#""a\n\"b\"""#);
}

#[test]
fn server_identifiers() {
    for good in ["https://ap.example", "https://a-b.example.com"] {
        assert!(ident::validate_server_identifier(good, false).is_ok(), "{good}");
    }
    for bad in [
        "http://ap.example",
        "https://ap.example/",
        "https://ap.example:8443",
        "https://AP.example",
        "https://",
        "ap.example",
    ] {
        assert!(ident::validate_server_identifier(bad, false).is_err(), "{bad}");
    }
    assert!(ident::validate_server_identifier("http://127.0.0.1:8420", true).is_ok());
    assert!(ident::validate_server_identifier("http://127.0.0.1:99999", true).is_err());
}

#[test]
fn agent_identifiers() {
    let a = AgentId::parse("aauth:k7q3@ap.example").unwrap();
    assert_eq!(a.to_text(), "aauth:k7q3@ap.example");
    assert!(!a.is_subagent_named());
    let s = a.subagent("worker-1").unwrap();
    assert_eq!(s.to_text(), "aauth:k7q3+worker-1@ap.example");
    assert!(s.is_subagent_named());
    assert!(a.subagent("").is_err());
    assert!(a.subagent("a+b").is_err());
    assert!(a.subagent("UPPER").is_err());
    assert!(AgentId::parse("k7q3@ap.example").is_err());
    assert!(AgentId::parse("aauth:@ap.example").is_err());
    assert!(AgentId::parse("aauth:x@").is_err());
    assert_eq!(ident::local_part("aauth:k7q3@ap.example"), "k7q3");
    assert_eq!(ident::local_part("nothing"), "");
}

#[test]
fn hosts_of_urls() {
    assert_eq!(ident::host_of("https://a.example/x").as_deref(), Some("a.example"));
    assert_eq!(ident::host_of("http://a.example:81").as_deref(), Some("a.example"));
    assert_eq!(ident::host_of("a.example"), None);
}

#[test]
fn random_identifiers() {
    let id = random::random_id(&[0u8, 1, 31, 32, 255]);
    assert_eq!(id.len(), 5);
    assert_eq!(id.as_bytes()[0], id.as_bytes()[3]);
    assert_eq!(id.as_bytes()[2], id.as_bytes()[4]);
    assert!(AgentId::new(&id, "ap.example").is_ok());
    assert_eq!(random::random_token(b"foo"), "Zm9v");
}

#[test]
fn digest_of_a_body() {
    assert_eq!(
        client::content_digest(b"{}"),
        "sha-256=:RBNvo1WzZ4oRRq0W9+hknpT7T8If536DEMBg9hyq/4o=:"
    );
}
