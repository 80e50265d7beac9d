//! Storage, the Redis protocol, signing keys, key caches and certificates.

use apd::anyjwk::AnyJwk;
use apd::b64;
use apd::check::{self, Answer, PersonState};
use apd::config::{self, Config};
use apd::json::{self, JsonValue};
use apd::jwk;
use apd::jwks_cache::{self, JwksCache};
use apd::jwt;
use apd::keys::{self, KeyEntry, KeyFile, KeySet};
use apd::records::{AgentRecord, SubscriptionRecord};
use apd::resp::{self, Progress, Resp};
use apd::sfv::{self, Bare, Content};
use apd::sig::{self, RequestParts, SigErrorCode, SigKeyScheme, VerifyPolicy};
use apd::sigkey;
use apd::storage::{self, MemInner, Snapshot};
use apd::text;
use apd::x509;

fn value(text: &str) -> JsonValue {
    json::parse(text.as_bytes()).unwrap()
}

// ----------------------------------------------------------------- storage

fn roundtrip(store: &mut MemInner) {
    let t = 1_000_000u64;
    let k = |s: &str| format!("t:u1:{s}");

    // put / get / delete
    store.put(&k("a"), b"hello", None, t);
    assert_eq!(store.get(&k("a"), t).as_deref(), Some(&b"hello"[..]));
    assert!(store.delete(&k("a")));
    assert!(store.get(&k("a"), t).is_none());

    // put_if_absent atomicity
    assert!(store.put_if_absent(&k("b"), b"1", None, t));
    assert!(!store.put_if_absent(&k("b"), b"2", None, t));
    assert_eq!(store.get(&k("b"), t).as_deref(), Some(&b"1"[..]));

    // take = get + delete
    assert_eq!(store.take(&k("b"), t).as_deref(), Some(&b"1"[..]));
    assert!(store.take(&k("b"), t).is_none());

    // incr
    assert_eq!(store.incr(&k("c"), t), 1);
    assert_eq!(store.incr(&k("c"), t), 2);

    // lists
    store.list_push(&k("l"), b"x", 10);
    store.list_push(&k("l"), b"y", 10);
    let drained = store.list_drain(&k("l"));
    assert_eq!(drained, vec![b"x".to_vec(), b"y".to_vec()]);
    assert!(store.list_drain(&k("l")).is_empty());

    // list trim to max
    for i in 0..5 {
        store.list_push(&k("m"), &[i], 3);
    }
    assert_eq!(store.list_drain(&k("m")), vec![vec![2], vec![3], vec![4]]);

    // scan_prefix
    store.put(&k("p1"), b"1", None, t);
    store.put(&k("p2"), b"2", None, t);
    let found = store.scan_prefix("t:u1:p", t);
    assert_eq!(found.len(), 2);

    // ttl expiry
    store.put(&k("ttl"), b"v", Some(80), t);
    assert!(store.get(&k("ttl"), t).is_some());
    assert!(store.get(&k("ttl"), t + 160).is_none());
}

#[test]
fn memory_backend() {
    let mut store = MemInner::new();
    roundtrip(&mut store);
}

#[test]
fn file_backend() {
    let empty = Snapshot { kv: Vec::new(), lists: Vec::new() };
    let mut store = MemInner::restore(empty, 0, 0).ok().unwrap();
    roundtrip(&mut store);
    // reload persists kv
    store.put("persist:k", b"v", None, 0);
    let saved = store.snapshot(0, 1_800_000_000);
    let mut store2 = MemInner::restore(saved, 5, 1_800_000_100).ok().unwrap();
    assert_eq!(store2.get("persist:k", 5).as_deref(), Some(&b"v"[..]));
}

#[test]
fn a_snapshot_keeps_deadlines() {
    let mut store = MemInner::new();
    store.put("long", b"a", Some(60_000), 0);
    store.put("short", b"b", Some(5_000), 0);
    store.put("gone", b"c", Some(10), 0);
    store.list_push("l", b"x", 10);
    let snap = store.snapshot(1_000, 500);
    let mut kv: Vec<(String, String, Option<u64>)> = snap
        .kv
        .iter()
        .map(|(k, v, d)| (k.clone(), v.clone(), *d))
        .collect();
    kv.sort();
    assert_eq!(
        kv,
        vec![
            ("long".to_string(), "YQ".to_string(), Some(559)),
            ("short".to_string(), "Yg".to_string(), Some(504)),
        ]
    );
    let mut again = MemInner::restore(snap, 0, 520).ok().unwrap();
    assert!(again.get("short", 0).is_none());
    assert!(again.get("long", 38_000).is_some());
    assert!(again.get("long", 39_001).is_none());
    assert_eq!(again.list_drain("l"), vec![b"x".to_vec()]);
    let bad = Snapshot { kv: vec![("k".to_string(), "!".to_string(), None)], lists: Vec::new() };
    assert_eq!(
        MemInner::restore(bad, 0, 0).err().unwrap().message(),
        "storage error: invalid base64url"
    );
}

#[test]
fn listings_are_sorted_and_fresh() {
    let mut store = MemInner::new();
    store.put("agent:b", b"2", None, 0);
    store.put("agent:a", b"1", None, 0);
    store.put("agents", b"3", None, 0);
    store.put("agent:c", b"4", Some(1), 0);
    let found: Vec<String> = store.scan_prefix("agent:", 10).into_iter().map(|(k, _)| k).collect();
    assert_eq!(found, vec!["agent:a".to_string(), "agent:b".to_string()]);
}

#[test]
fn counting_what_is_no_number_starts_over() {
    let mut store = MemInner::new();
    store.put("n", b"x", None, 0);
    assert_eq!(store.incr("n", 0), 1);
    store.put("n", b"41", None, 0);
    assert_eq!(store.incr("n", 0), 42);
    assert_eq!(store.get("n", 0).unwrap(), b"42");
    assert_eq!(storage::millis(u64::MAX), u64::MAX);
    assert_eq!(storage::millis(3), 3000);
}

// ---------------------------------------------------------- Redis protocol

fn parts(v: &[Vec<u8>]) -> Vec<String> {
    v.iter().map(|b| String::from_utf8(b.clone()).unwrap()).collect()
}

#[test]
fn redis_commands() {
    let c = resp::set_command("apd:", "k", b"v", Some(1500), true);
    assert_eq!(parts(&c), vec!["SET", "apd:k", "v", "NX", "PX", "1500"]);
    assert_eq!(
        resp::command(&c),
        b"*6\r\n$3\r\nSET\r\n$5\r\napd:k\r\n$1\r\nv\r\n$2\r\nNX\r\n$2\r\nPX\r\n$4\r\n1500\r\n".to_vec()
    );
    assert_eq!(parts(&resp::set_command("", "k", b"v", None, false)), vec!["SET", "k", "v"]);
    assert_eq!(parts(&resp::set_command("", "k", b"v", Some(0), false))[4], "1");
    let (push, trim) = resp::push_commands("p:", "l", b"x", 3);
    assert_eq!(parts(&push), vec!["RPUSH", "p:l", "x"]);
    assert_eq!(parts(&trim), vec!["LTRIM", "p:l", "-3", "-1"]);
    let (push, clear) = resp::push_commands("p:", "l", b"x", 0);
    assert_eq!(parts(&push), vec!["RPUSH", "p:l", "x"]);
    assert_eq!(parts(&clear), vec!["DEL", "p:l"]);
    let (_, trim) = resp::push_commands("p:", "l", b"x", usize::MAX);
    assert_eq!(parts(&trim), vec!["LTRIM", "p:l", "-9223372036854775807", "-1"]);
    assert_eq!(parts(&resp::range_command("p:", "l")), vec!["LRANGE", "p:l", "0", "-1"]);
    assert_eq!(parts(&resp::bare_command("MULTI")), vec!["MULTI"]);
    assert_eq!(parts(&resp::key_command("GETDEL", "p:", "k")), vec!["GETDEL", "p:k"]);
    assert_eq!(
        parts(&resp::scan_command("p:", "agent:", "0")),
        vec!["SCAN", "0", "MATCH", "p:agent:*", "COUNT", "200"]
    );
    assert_eq!(resp::store_key("p:", "p:k"), "k");
    assert_eq!(resp::store_key("p:", "other"), "other");
}

fn whole(b: &[u8]) -> Resp {
    match resp::read_reply(b, 0) {
        Progress::Done(r, end) => {
            assert_eq!(end, b.len());
            r
        }
        Progress::More => panic!("more"),
        Progress::Bad(e) => panic!("{e}"),
    }
}

#[test]
fn redis_replies() {
    assert!(matches!(whole(b"+OK\r\n"), Resp::Simple(s) if s == "OK"));
    assert!(matches!(whole(b":-7\r\n"), Resp::Int(-7)));
    assert!(matches!(whole(b"$-1\r\n"), Resp::Bulk(None)));
    assert!(matches!(whole(b"*-1\r\n"), Resp::Array(None)));
    assert!(matches!(whole(b"$3\r\na\r\n\r\n"), Resp::Bulk(Some(b)) if b == b"a\r\n"));
    match whole(b"*2\r\n$1\r\na\r\n*1\r\n:5\r\n") {
        Resp::Array(Some(a)) => assert_eq!(a.len(), 2),
        _ => panic!("no array"),
    }
    for part in [&b""[..], b"+OK", b"+OK\r", b"$3\r\nab", b"*2\r\n:1\r\n"] {
        assert!(matches!(resp::read_reply(part, 0), Progress::More));
    }
    let fault = |b: &[u8]| match resp::read_reply(b, 0) {
        Progress::Bad(e) => e,
        _ => panic!("no fault"),
    };
    assert_eq!(fault(b"?x\r\n"), "redis protocol error");
    assert_eq!(fault(b"+O\rK\n"), "redis protocol error");
    for bad in ["x", "", "9223372036854775808"] {
        let why = bad.parse::<i64>().unwrap_err().to_string();
        for tag in [":", "$", "*"] {
            assert_eq!(fault(format!("{tag}{bad}\r\n").as_bytes()), why);
        }
    }
    let why = std::str::from_utf8(b"+\xff").unwrap_err().to_string();
    assert_eq!(fault(b"+\xff\r\n"), why);
}

#[test]
fn redis_meanings() {
    let e = resp::checked(whole(b"-ERR no\r\n")).err().unwrap();
    assert_eq!(e.message(), "storage error: redis: ERR no");
    assert_eq!(resp::value_reply(whole(b"$1\r\nv\r\n"), "GET").ok().unwrap(), Some(b"v".to_vec()));
    assert_eq!(
        resp::value_reply(whole(b":1\r\n"), "GET").err().unwrap().message(),
        "storage error: unexpected GET reply"
    );
    assert!(resp::created_reply(whole(b"+OK\r\n")).ok().unwrap());
    assert!(!resp::created_reply(whole(b"$-1\r\n")).ok().unwrap());
    assert!(resp::created_reply(whole(b":1\r\n")).is_err());
    assert!(resp::deleted_reply(whole(b":1\r\n")).ok().unwrap());
    assert!(!resp::deleted_reply(whole(b":0\r\n")).ok().unwrap());
    assert!(resp::deleted_reply(whole(b"+OK\r\n")).is_err());
    assert_eq!(resp::counted_reply(whole(b":9\r\n")).ok().unwrap(), 9);
    assert!(resp::counted_reply(whole(b"+OK\r\n")).is_err());
    assert_eq!(
        resp::drained_reply(&whole(b"*2\r\n*2\r\n$1\r\nx\r\n$1\r\ny\r\n:1\r\n")).ok().unwrap(),
        vec![b"x".to_vec(), b"y".to_vec()]
    );
    assert!(resp::drained_reply(&whole(b"*2\r\n*1\r\n:1\r\n:1\r\n")).is_err());
    assert!(resp::drained_reply(&whole(b"+OK\r\n")).is_err());
    let (cursor, keys) =
        resp::page_reply(&whole(b"*2\r\n$2\r\n17\r\n*2\r\n$1\r\nb\r\n$1\r\na\r\n")).ok().unwrap();
    assert_eq!(cursor, "17");
    assert_eq!(resp::sort_keys(keys), vec!["a".to_string(), "b".to_string()]);
    assert!(resp::page_reply(&whole(b"*2\r\n:1\r\n*0\r\n")).is_err());
    assert!(resp::page_reply(&whole(b":1\r\n")).is_err());
}

// -------------------------------------------------------------- own keys

fn entry(id: &str, seed: u8, at: u64) -> KeyEntry {
    keys::new_entry(id, &[seed; 32], at)
}

#[test]
fn keys_are_made_rotated_and_pruned() {
    let (said, file) = keys::keygen(None, "keys.json", false, None, entry("one", 1, 100), 100);
    assert_eq!(said, "created keys.json with new active key 'ap-one'");
    let file = file.unwrap();
    assert_eq!(file.active, "ap-one");

    let (said, none) = keys::keygen(Some(file), "keys.json", false, None, entry("x", 9, 0), 0);
    assert!(none.is_none());
    assert_eq!(
        said,
        "keys file keys.json exists (active 'ap-one', 1 keys). Use --rotate to rotate."
    );

    let file = KeyFile { active: "ap-one".to_string(), keys: vec![entry("one", 1, 100)] };
    let (_, file) = keys::keygen(Some(file), "keys.json", true, None, entry("two", 2, 900), 900);
    let file = file.unwrap();
    assert_eq!(file.active, "ap-two");
    assert_eq!(file.keys.len(), 2);
    let set = KeySet::load(&file).unwrap();
    assert_eq!(set.active_kid, "ap-two");
    assert_eq!(set.public_jwks[0].kid.as_deref(), Some("ap-two"));
    assert!(set.find_public("ap-one").is_some());
    assert!(set.find_public("ap-none").is_none());

    let (_, pruned) =
        keys::keygen(Some(file), "keys.json", false, Some(500), entry("x", 9, 0), 1000);
    let pruned = pruned.unwrap();
    assert_eq!(pruned.keys.len(), 1);
    assert_eq!(pruned.keys[0].kid, "ap-two");
}

#[test]
fn faulty_keys_files() {
    let fault = |f: KeyFile| KeySet::load(&f).err().unwrap();
    assert_eq!(
        fault(KeyFile { active: "a".to_string(), keys: vec![] }),
        "keys file contains no keys"
    );
    assert_eq!(
        fault(KeyFile { active: "a".to_string(), keys: vec![entry("one", 1, 0)] }),
        "active kid 'a' not present in keys"
    );
    let mut bad = entry("one", 1, 0);
    bad.d = "AAAA".to_string();
    assert_eq!(
        fault(KeyFile { active: "ap-one".to_string(), keys: vec![bad] }),
        "bad key seed for kid ap-one"
    );
}

// ------------------------------------------------------ structured fields

#[test]
fn dictionaries() {
    let d = sfv::parse_dictionary(
        "sig=(\"@method\" \"@path\");created=17;keyid=\"k\", a=tok, b, c=?0, d=:Zm9v:",
    )
    .unwrap();
    assert_eq!(d.len(), 5);
    assert_eq!(d[0].raw, "(\"@method\" \"@path\");created=17;keyid=\"k\"");
    assert!(matches!(&d[0].value, Content::Many(v) if v.len() == 2));
    assert!(matches!(sfv::find_param(&d[0].params, "created"), Some(Bare::Int(17))));
    assert!(matches!(&sfv::find_member(&d, "a").unwrap().value, Content::One(Bare::Token(t)) if t == "tok"));
    assert!(matches!(&d[2].value, Content::One(Bare::Bool(true))));
    assert!(matches!(&d[3].value, Content::One(Bare::Bool(false))));
    assert!(matches!(&d[4].value, Content::One(Bare::Bytes(b)) if b == b"foo"));
    assert!(sfv::find_member(&d, "zz").is_none());
    assert_eq!(sfv::parse_dictionary("").unwrap().len(), 0);
    for bad in ["a=", "a=1,", "A=1", "a=(1", "a=\"x", "a=1 b=2", "a=:x"] {
        assert!(sfv::parse_dictionary(bad).is_none(), "{bad}");
    }
}

// ------------------------------------------------------ request signatures

fn signed(query: &str, scheme: &str, seed: u8, created: u64) -> Vec<(String, String)> {
    let none: Vec<(String, String)> = Vec::new();
    let p = RequestParts {
        method: "GET",
        authority: "r.example",
        path: "/x",
        query,
        headers: &none,
    };
    let key = jwk::generate_signing_key(&[seed; 32]);
    let s = sig::sign_request(&p, &Vec::new(), scheme, &key, created).ok().unwrap();
    vec![
        ("signature-input".to_string(), s.signature_input),
        ("signature".to_string(), s.signature),
        ("signature-key".to_string(), s.signature_key),
    ]
}

#[test]
fn signatures_of_requests() {
    let key = jwk::generate_signing_key(&[4; 32]);
    let k = jwk::Jwk::from_verifying_key(&key.verifying_key());
    let headers = signed("?a=1", &sigkey::serialize_hwk(&k), 4, 1000);
    let parts = |query: &'static str, headers| RequestParts {
        method: "GET",
        authority: "r.example",
        path: "/x",
        query,
        headers,
    };
    let policy = |now: u64| VerifyPolicy { now, window_secs: 60, extra_required: Vec::new() };
    let p = sig::parse_request_signature(&parts("?a=1", &headers), &policy(1060)).ok().unwrap();
    assert!(matches!(&p.scheme, SigKeyScheme::Hwk(x) if x.x == k.x));
    assert!(sig::verify_parsed(&p, &k).is_ok());
    let other = jwk::Jwk::from_verifying_key(&jwk::generate_signing_key(&[5; 32]).verifying_key());
    assert!(matches!(
        sig::verify_parsed(&p, &other).err().unwrap().code,
        SigErrorCode::InvalidSignature
    ));
    // another request, the same signature
    let moved = RequestParts {
        method: "GET",
        authority: "other.example",
        path: "/x",
        query: "?a=1",
        headers: &headers,
    };
    let m = sig::parse_request_signature(&moved, &policy(1000)).ok().unwrap();
    assert!(sig::verify_parsed(&m, &k).is_err());
    // too old, too new, missing
    for now in [1061, 939] {
        assert!(sig::parse_request_signature(&parts("?a=1", &headers), &policy(now)).is_err());
    }
    let none: Vec<(String, String)> = Vec::new();
    assert!(sig::parse_request_signature(&parts("", &none), &policy(1000)).is_err());
}

// --------------------------------------------------------------- key cache

fn key_set(kid: &str, seed: u8) -> JsonValue {
    let mut k = jwk::Jwk::from_verifying_key(
        &jwk::generate_signing_key(&[seed; 32]).verifying_key(),
    );
    k.kid = Some(kid.to_string());
    value(&format!(r#"{{"keys":[{}]}}"#, k.to_json().render()))
}

#[test]
fn servers_are_asked_once_a_minute() {
    let mut c = JwksCache::new(vec!["cdn.example".to_string()]);
    let (iss, dwk) = ("https://r.example", "aauth-resource.json");
    assert!(c.get_key(iss, dwk, "k1", 0).is_none());
    assert!(c.refresh_and_get(iss, dwk, "k1", 1_000).is_ok());
    let held = c.refresh_and_get(iss, dwk, "k1", 60_999).err().unwrap();
    assert!(!matches!(held.code, SigErrorCode::UnknownKey));
    assert!(c.refresh_and_get(iss, dwk, "k1", 61_000).is_ok());

    let set = jwks_cache::read_key_set(key_set("k1", 1), "").ok().unwrap();
    assert!(c.fetched(iss, dwk, "k1", set, 61_000).is_ok());
    assert!(c.get_key(iss, dwk, "k1", 61_000 + 86_399_999).is_some());
    assert!(c.get_key(iss, dwk, "k1", 61_000 + 86_400_000).is_none());
    let set = jwks_cache::read_key_set(key_set("k1", 1), "").ok().unwrap();
    let e = c.fetched(iss, dwk, "k2", set, 61_000).err().unwrap();
    assert!(matches!(e.code, SigErrorCode::UnknownKey));
    let e = jwks_cache::read_key_set(value("{}"), "missing field `keys`").err().unwrap();
    assert!(matches!(e.code, SigErrorCode::InvalidKey));
    assert_eq!(e.detail, "invalid JWKS: missing field `keys`");

    // where keys may come from
    let meta = |u: &str| value(&format!(r#"{{"issuer":"{iss}","jwks_uri":"{u}"}}"#));
    assert_eq!(
        c.read_metadata(iss, dwk, &meta("https://r.example/k")).ok().unwrap(),
        "https://r.example/k"
    );
    assert!(c.read_metadata(iss, dwk, &meta("https://cdn.example/k")).is_ok());
    assert!(c.read_metadata(iss, dwk, &meta("https://evil.example/k")).is_err());
    let e = c
        .read_metadata(iss, dwk, &value(r#"{"issuer":"https://x.example","jwks_uri":"https://x.example/k"}"#))
        .err()
        .unwrap();
    assert_eq!(e.code.as_str(), "issuer_mismatch");
    let e = c.read_metadata(iss, dwk, &value(r#"{"jwks_uri":"https://r.example/k"}"#)).err().unwrap();
    assert_eq!(e.code.as_str(), "issuer_missing");
    assert!(c.read_metadata(iss, dwk, &value(&format!(r#"{{"issuer":"{iss}"}}"#))).is_err());
    assert_eq!(
        jwks_cache::fetch_failed("u", "timeout").detail,
        "cannot reach u: timeout. This is not a statement about your key."
    );
}

// ------------------------------------------------------------- other keys

/// One message, signed with RSA, with P-384, and (RFC 7515 A.3) with P-256.
#[test]
fn signatures_of_other_kinds() {
    let rsa = AnyJwk::from_json(&value(
        r#"{"kty":"RSA","e":"AQAB","n":"xJGpeo1vch0r_bsIjynhhx2P10g7czib2zyjmV5nncUw5FjBo86xe9mbzRpbQiVQIeSLk0qNNzg-aHKQYDKCG99TV2QUzIcuE1zXrrxQgO2tLweI_ffmWWBheO7KFmywDyRRCdogUP98MTy--5UIS7Z8EQRjCeMFbjpPZTtjbnknDnuS2pYEAhuv6nZR3z2hBUiPyBP21we1QbxfXLrIte5IrsWcZMGBOs0TRuP460vSnBK0jywq1SJjE3kBJyqJJX-FHS886dNj2Qy903ChA4vvxnjiK-BawPqCYhbuW7UL0Hu9_tdDcIvslgeJ7sdOfN3ainA8_dY_bNQirU4QMw"}"#,
    ))
    .unwrap();
    let s = b64::decode("SOghyxB3a6j35sz4_eDSYbB5JaRZUAVPlE_0zj1CVlW9og6IsV8WyRNll0BYwsazG0QzyWcXpxZPU_pNrNVsQgW9YvowiiRGuTgdSigacnzCWKgFxxaALDyzl-a5lLL_-L5j4qjmRo1JrdsAw_UWFsiJuneMAxrpcTxPsapVOVlKtfpLvRk4OR3k9mxTRm6CJCB1HTdDzIO2WvdGlceZCU3-XoHDU0V-WaWNrsDpdFIcwbvrHSMpZfEPipLca5B8O51OIuXUBvzJxRT9WO3a8WUH7u_imHHpEmIa-DPMNDzcjZRmlUvyvnKKbSFbLawpKfpVASzhM-5Fo9vv_Ii1jg").unwrap();
    assert!(rsa.verify("RS256", b"signed text", &s));
    assert!(!rsa.verify("RS384", b"signed text", &s));
    assert!(!rsa.verify("ES256", b"signed text", &s));
    assert!(!rsa.verify("RS256", b"other", &s));

    let p384 = AnyJwk::from_json(&value(
        r#"{"kty":"EC","crv":"P-384","x":"VGDcFtxNa5RXw3wZoiQ3wQ8XxgJnvl7JQwAyTXdhz0rUy7UvMSTSK5nOvG78cw19","y":"rpSdxaASRnW_3JMXQ92nYFr6qPPaLmZAHlrWhTNXIf-mn2pTaPEL_13HhAvtX5Al"}"#,
    ))
    .unwrap();
    let s = b64::decode("Vju1BElzEcdJM1UBIHjMPri1tT_8Vjmg9GxCPE-CCmYg1bKca0LeA2-2RpC1Jov_snRDM3DbgCEKcFwzVL0s5U_2LFUqXsYUTCI3Ee6DPaK_rAMz3RHdop6r8yleVzGE").unwrap();
    assert!(p384.verify("ES384", b"signed text", &s));
    assert!(!p384.verify("ES256", b"signed text", &s));
    assert!(!p384.verify("ES384", b"other", &s));

    let ec = AnyJwk::from_json(&value(
        r#"{"kty":"EC","crv":"P-256","kid":"e","x":"f83OJ3D2xF1Bg8vub9tLe1gHMzV76e8Tus9uPHvRVEU","y":"x_FEzRu9m36HLN_tue659LNpXW6pCyStikYjKIWI5a0"}"#,
    ))
    .unwrap();
    let message = "eyJhbGciOiJFUzI1NiJ9.eyJpc3MiOiJqb2UiLA0KICJleHAiOjEzMDA4MTkzODAsDQogImh0dHA6Ly9leGFtcGxlLmNvbS9pc19yb290Ijp0cnVlfQ";
    let s = b64::decode("DtEhU3ljbEg8L38VWAfUAqOyKAM6-Xx-F4GawxaepmXFCgfTjDxw5djxLa8ISlSApmWQxfKTUJqPP3-Kg6NU1Q").unwrap();
    assert!(ec.supports_alg("ES256"));
    assert!(!ec.supports_alg("ES384"));
    assert!(ec.verify("ES256", message.as_bytes(), &s));
    assert!(!ec.verify("ES256", b"other", &s));
    assert!(AnyJwk::from_json(&value(r#"{"kty":"oct","k":"AAAA"}"#)).is_none());
    assert!(!apd::anyjwk::supported_alg("HS256"));
}

// ------------------------------------------------------------ certificates

struct Authority {
    key: rcgen::KeyPair,
    cert: rcgen::Certificate,
}

fn authority() -> Authority {
    let key = rcgen::KeyPair::generate_for(&rcgen::PKCS_ECDSA_P256_SHA256).unwrap();
    let mut params = rcgen::CertificateParams::new(Vec::<String>::new()).unwrap();
    params.is_ca = rcgen::IsCa::Ca(rcgen::BasicConstraints::Unconstrained);
    params.key_usages = vec![rcgen::KeyUsagePurpose::KeyCertSign, rcgen::KeyUsagePurpose::CrlSign];
    let cert = params.self_signed(&key).unwrap();
    Authority { key, cert }
}

fn leaf(ca: &Authority, seed: u8, serial: u64) -> Vec<u8> {
    let mut der = vec![
        0x30, 0x2e, 0x02, 0x01, 0x00, 0x30, 0x05, 0x06, 0x03, 0x2b, 0x65, 0x70, 0x04, 0x22, 0x04,
        0x20,
    ];
    der.extend_from_slice(&[seed; 32]);
    let key = rcgen::KeyPair::try_from(der.as_slice()).unwrap();
    let mut params = rcgen::CertificateParams::new(vec!["agent.example".to_string()]).unwrap();
    params.serial_number = Some(rcgen::SerialNumber::from(serial));
    params.extended_key_usages.push(rcgen::ExtendedKeyUsagePurpose::ClientAuth);
    params.signed_by(&key, &ca.cert, &ca.key).unwrap().der().to_vec()
}

fn revoking(ca: &Authority, serial: u64) -> Vec<u8> {
    let day = |d| rcgen::date_time_ymd(2026, 1, d);
    rcgen::CertificateRevocationListParams {
        this_update: day(1),
        next_update: day(2),
        crl_number: rcgen::SerialNumber::from(1u64),
        issuing_distribution_point: None,
        revoked_certs: vec![rcgen::RevokedCertParams {
            serial_number: rcgen::SerialNumber::from(serial),
            revocation_time: day(1),
            reason_code: None,
            invalidity_date: None,
        }],
        key_identifier_method: rcgen::KeyIdMethod::Sha256,
    }
    .signed_by(&ca.cert, &ca.key)
    .unwrap()
    .der()
    .to_vec()
}

#[test]
fn chains_and_revocation() {
    let ca = authority();
    let cert = leaf(&ca, 8, 42);
    let root = ca.cert.der().to_vec();
    let s = jwk::generate_signing_key(&[8; 32]).sign(b"message");
    let now = 1_800_000_000;
    let ask = |chain: Vec<Vec<u8>>, roots: Vec<Vec<u8>>, crls: Vec<Vec<u8>>, m: &[u8]| {
        x509::verify_x5c_jws(&chain, &roots, &crls, now, "EdDSA", m, &s)
    };
    let names = ask(vec![cert.clone()], vec![root.clone()], vec![], b"message").unwrap();
    assert_eq!(names, vec!["agent.example".to_string()]);
    assert!(ask(vec![cert.clone()], vec![root.clone()], vec![], b"other").is_err());
    assert!(ask(vec![], vec![root.clone()], vec![], b"message").is_err());
    assert!(ask(vec![vec![1, 2, 3]], vec![root.clone()], vec![], b"message").is_err());
    assert!(ask(vec![cert.clone()], vec![vec![1, 2, 3]], vec![], b"message").is_err());
    let stranger = authority().cert.der().to_vec();
    assert!(ask(vec![cert.clone()], vec![stranger], vec![], b"message").is_err());
    // revoked, or not
    assert!(ask(vec![cert.clone()], vec![root.clone()], vec![revoking(&ca, 42)], b"message").is_err());
    assert!(ask(vec![cert.clone()], vec![root.clone()], vec![revoking(&ca, 7)], b"message").is_ok());
    assert!(ask(vec![cert], vec![root], vec![vec![9]], b"message").is_err());
}

// ------------------------------------------------------------------- texts

#[test]
fn texts_of_bytes() {
    assert_eq!(text::from_utf8(b"a\xc3\xa9").as_deref(), Some("a\u{e9}"));
    assert_eq!(text::from_utf8(b"\xff"), None);
    assert_eq!(text::from_utf8_lossy(b"a\xffb"), "a\u{fffd}b");
    assert_eq!(text::split("a,b,,c", ','), vec!["a", "b", "", "c"]);
    assert_eq!(text::trim("  x\t"), "x");
    assert_eq!(text::to_ascii_lowercase("AbC\u{c9}"), "abc\u{c9}");
    assert_eq!(text::strip_suffix("abc", "bc").as_deref(), Some("a"));
    assert_eq!(text::strip_prefix("abc", "x"), None);
}

#[test]
fn digests() {
    assert_eq!(
        b64::encode(&apd::crypto::sha256(b"abc")),
        "ungWv48Bz-pBQUDeXa4iI7ADYaOWF3qctBD_YfIAFa0"
    );
}

// ----------------------------------------------------------------- records

#[test]
fn records_as_json_and_back() {
    let text = r#"{"assurance":"high","created_at":5,"durable_jkt":"j","issuer":"i","label":"l","last_issued_at":9,"local":"k7","method":"federated","platform":"p","ps":"https://ps.example","status":"active","subject":"s","tokens_issued":2}"#;
    let r = AgentRecord::from_json(&value(text)).unwrap();
    assert_eq!(r.local, "k7");
    assert_eq!(r.tokens_issued, 2);
    assert_eq!(r.to_json().render(), text);
    // what older records leave out
    let old = AgentRecord::from_json(&value(
        r#"{"local":"k7","durable_jkt":"j","created_at":5,"status":"active"}"#,
    ))
    .unwrap();
    assert_eq!(old.method, "token");
    assert_eq!(old.tokens_issued, 0);
    assert!(AgentRecord::from_json(&value(r#"{"local":"k7"}"#)).is_none());
    assert!(SubscriptionRecord::from_json(&value("{}")).is_none());
}

// ------------------------------------------------------------ other checks

#[test]
fn person_tokens_are_graded() {
    let key = jwk::generate_signing_key(&[3; 32]);
    let payload = value(
        r#"{"iss":"https://ps.example","sub":"u","jti":"j","iat":100,"exp":400,
            "dwk":"aauth-person.json","aud":"https://r.example","cnf":{"jwk":{}}}"#,
    );
    let t = jwt::decode(&jwt::sign("aa-person+jwt", None, None, &payload, &key)).unwrap();
    let found = check::grade_person_token(&t, "https://r.example");
    assert!(found.iter().all(|c| c.ok));
    assert_eq!(found.len(), 11);
    assert_eq!(found[10].detail, "300s");
    let found = check::grade_person_token(&t, "https://x.example");
    assert_eq!(check::tally(&found), (10, 1));
    let agent = check::grade_agent_token(&t);
    assert_eq!(agent.iter().map(|c| c.ok).collect::<Vec<_>>(), vec![true, false]);
}

fn answer(code: u16, body: &str, headers: &[(&str, &str)]) -> Answer {
    Answer {
        code,
        body: body.to_string(),
        headers: headers.iter().map(|(n, v)| (n.to_string(), v.to_string())).collect(),
    }
}

fn labels(found: &[check::Check]) -> Vec<(bool, &str)> {
    found.iter().map(|c| (c.ok, c.label.as_str())).collect()
}

#[test]
fn person_tokens_are_waited_for() {
    let (target, resource) = ("https://ps.example/", "https://r.example");
    let step = |state: &PersonState, a: &Answer, poll: bool| {
        check::next_person_step(state, a, target, resource, poll)
    };
    let asked = PersonState::Asked;

    // refused
    let no = answer(401, "", &[("signature-error", "error=invalid_jwt")]);
    let (found, next) = step(&asked, &no, true);
    assert!(next.is_none());
    assert_eq!(labels(&found), vec![(false, "signed person-token request accepted")]);
    assert_eq!(found[0].detail, "HTTP 401  [error=invalid_jwt]");

    // deferred, and not followed
    let later = answer(202, "", &[("location", "/p/1"), ("aauth-requirement", "x")]);
    let (found, next) = step(&asked, &later, false);
    assert!(next.is_none());
    assert_eq!(
        labels(&found),
        vec![(true, "signed person-token request accepted"), (true, "202 carries AAuth-Requirement")]
    );

    // deferred to nowhere
    let (found, next) = step(&asked, &answer(202, "", &[]), true);
    assert!(next.is_none());
    assert_eq!(
        labels(&found)[1..],
        [(false, "202 carries Location"), (false, "202 carries AAuth-Requirement")]
    );

    // deferred, and asked after three times
    let (found, mut next) = step(&asked, &later, true);
    assert_eq!(labels(&found)[1..], [(true, "202 carries Location")]);
    let mut asked_after = 0;
    let mut last = Vec::new();
    while let Some(state) = next {
        assert!(matches!(
            &state,
            PersonState::Waiting { url, polls } if url == "https://ps.example/p/1" && *polls == asked_after
        ));
        let (found, then) = step(&state, &later, true);
        asked_after += 1;
        last = found;
        next = then;
    }
    assert_eq!(asked_after, 3);
    assert_eq!(
        labels(&last),
        vec![(false, "pending resolved to a terminal state"), (true, "202 carries AAuth-Requirement")]
    );
    assert_eq!(last[0].detail, "HTTP 202");

    // resolved
    let waiting = PersonState::Waiting { url: "https://ps.example/p/1".to_string(), polls: 1 };
    let (found, next) = step(&waiting, &answer(403, "", &[]), true);
    assert!(next.is_none());
    assert_eq!(labels(&found), vec![(true, "pending resolved to a terminal state")]);
    let (found, _) = step(&waiting, &answer(200, r#"{"person_token":"a.b"}"#, &[]), true);
    assert_eq!(labels(&found)[1..], [(false, "person token decodes")]);
    assert_eq!(found[1].detail, "malformed JWT");
    let (found, _) = step(&asked, &answer(200, "{}", &[]), true);
    assert_eq!(labels(&found)[1..], [(false, "response carries person_token")]);
    let key = jwk::generate_signing_key(&[3; 32]);
    let token = jwt::sign("odd \"type\"", None, None, &value(r#"{"aud":"https://r.example"}"#), &key);
    let (found, _) = step(&waiting, &answer(200, &format!(r#"{{"person_token":"{token}"}}"#), &[]), true);
    assert_eq!(found.len(), 12);
    assert_eq!(found[1].detail, r#"Some("odd \"type\"")"#);
}

#[test]
fn answers_are_graded() {
    let c = check::grade_enroll(&answer(201, r#"{"agent":"aauth:a@ap.example"}"#, &[]));
    assert_eq!(c.line(), "  [PASS] enroll — HTTP 201 aauth:a@ap.example");
    let c = check::grade_enroll(&answer(403, "no", &[]));
    assert_eq!(c.line(), "  [FAIL] enroll — HTTP 403 ");

    let (c, token) = check::grade_token_answer(&answer(200, r#"{"agent_token":"a.b.c"}"#, &[]));
    assert!(c.ok);
    assert_eq!(token.as_deref(), Some("a.b.c"));
    for body in [r#"{"agent_token":""}"#, "{}", "x"] {
        let (c, token) = check::grade_token_answer(&answer(200, body, &[]));
        assert_eq!(c.line(), "  [FAIL] agent-token — HTTP 200");
        assert!(token.is_none());
    }
    let (c, token) = check::grade_token_answer(&answer(500, r#"{"agent_token":"t"}"#, &[]));
    assert!(!c.ok && token.is_some());

    let found = check::grade_interop(&answer(403, "", &[("signature-error", "error=x")]));
    assert_eq!(found.len(), 1);
    assert_eq!(found[0].detail, "HTTP 403  [error=x]");
    let long = format!(r#"{{"agent":"aauth:a@ap.example","z":"{}"}}"#, "y".repeat(200));
    let found = check::grade_interop(&answer(200, &long, &[]));
    assert_eq!(labels(&found)[1], (true, "it echoed our agent identity"));
    assert_eq!(found[1].detail, long[..110]);
    let found = check::grade_interop(&answer(200, "not JSON", &[]));
    assert!(!found[1].ok);
    assert_eq!(found[1].detail, "null");

    assert!(check::grade_unsigned(401).ok);
    assert_eq!(
        check::grade_unsigned(200).line(),
        "  [FAIL] unsigned person-token request refused — HTTP 200"
    );
}

#[test]
fn texts_are_shown_with_escapes() {
    for t in ["", "plain", "a\"b\\c", "\n\r\t\0", "\u{1}\u{1b}\u{7f}\u{9f}", "'é", "e\u{301}\u{ad}\u{200b}\u{e000}日", "\u{301}"] {
        assert_eq!(text::show(t), format!("{t:?}"));
    }
}

#[test]
fn deep_payloads_are_read_back() {
    let nested = |levels: usize| {
        let inner = levels - 1;
        value(&format!(r#"{{"a":{}{}}}"#, "[".repeat(inner), "]".repeat(inner)))
    };
    let key = jwk::generate_signing_key(&[3; 32]);
    let deep = nested(127);
    let t = jwt::decode(&jwt::sign("t", None, None, &deep, &key)).unwrap();
    assert_eq!(t.payload.render(), deep.render());
    let deeper = JsonValue::object().with("a", deep);
    assert!(jwt::decode(&jwt::sign("t", None, None, &deeper, &key)).is_err());
}

fn plain_config(backend: &str) -> Config {
    Config {
        issuer: "https://ap.example".to_string(),
        listen: config::default_listen(),
        keys_file: config::default_keys_file(),
        storage: config::StorageConfig {
            backend: backend.to_string(),
            path: Some("s.json".to_string()),
            redis_addr: None,
            key_prefix: config::default_prefix(),
        },
        agent_token_ttl_secs: config::default_agent_token_ttl(),
        subscribe_token_ttl_secs: config::default_subscribe_token_ttl(),
        signature_window_secs: config::default_signature_window(),
        naming_jwt_max_lifetime_secs: config::default_naming_jwt_max(),
        enrollment: config::EnrollmentConfig {
            mode: None,
            methods: None,
            default_ps: None,
            trusted_issuers: Vec::new(),
            static_tokens: Vec::new(),
        },
        admin_token: None,
        admin_oidc: None,
        allow_ps_override: true,
        metadata: config::MetadataConfig {
            name: None,
            description: None,
            logo_uri: None,
            logo_dark_uri: None,
            documentation_uri: None,
            tos_uri: None,
            policy_uri: None,
        },
        events: config::EventsConfig {
            enabled: true,
            inbox_ttl_secs: config::default_inbox_ttl(),
            max_pending_per_agent: config::default_inbox_max(),
            max_payload_bytes: config::default_max_payload(),
        },
        insecure_dev_mode: false,
        max_body_bytes: config::default_max_body(),
        jwks_cross_origin_hosts: Vec::new(),
        audit_log_file: None,
        telemetry: config::TelemetryConfig {
            enabled: false,
            endpoint: None,
            service_name: None,
            metric_interval_secs: None,
        },
        revocation: config::RevocationConfig { notify_ps: true, max_tracked_tokens: 64 },
        expected_authority: None,
    }
}

#[test]
fn tokens_from_the_command_line() {
    let args = |s: &str| -> Vec<String> { s.split(' ').map(|x| x.to_string()).collect() };
    let file = plain_config("file");
    assert!(file.validate().is_ok());
    assert_eq!(
        apd::cli::enroll_token_order(&args("apd enroll-token --ps https://ps.example --ttl 60"), &file),
        Ok((Some("https://ps.example".to_string()), 60))
    );
    assert_eq!(apd::cli::enroll_token_order(&args("apd enroll-token"), &file), Ok((None, 3600)));
    for bad in ["apd enroll-token --ttl x", "apd enroll-token --ps nonsense"] {
        assert!(apd::cli::enroll_token_order(&args(bad), &file).is_err());
    }
    let memory = plain_config("memory");
    assert!(apd::cli::enroll_token_order(&args("apd enroll-token"), &memory)
        .err()
        .unwrap()
        .starts_with("enroll-token requires a persistent storage backend"));
}

#[test]
fn faulty_configurations() {
    let fault = |change: fn(&mut Config)| {
        let mut c = plain_config("file");
        change(&mut c);
        c.validate().err().unwrap_or_default()
    };
    let cases: Vec<fn(&mut Config)> = vec![
        |c| c.issuer = "http://ap.example".to_string(),
        |c| c.storage.backend = "tape".to_string(),
        |c| c.storage.path = None,
        |c| c.storage.backend = "redis".to_string(),
        |c| c.agent_token_ttl_secs = 0,
        |c| c.agent_token_ttl_secs = 86401,
        |c| c.enrollment.methods = Some(Vec::new()),
        |c| c.enrollment.default_ps = Some("nonsense".to_string()),
    ];
    for (i, c) in cases.iter().enumerate() {
        assert!(!fault(*c).is_empty(), "case {i}");
    }
}
