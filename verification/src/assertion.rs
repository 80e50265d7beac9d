//! Enrollment assertions of trusted issuers: one pipeline for all kinds.
//!
//! The assertion is read and routed to an issuer; its signature is verified
//! with the issuer's keys or its certificate chain; then come times, audience,
//! required claims, names of the certificate, and the binding to the enrolling
//! key. Nothing is stored before all of that holds.

use vstd::prelude::*;

use crate::anyjwk;
use crate::anyjwk::{AnyJwk, AnyJwkView};
use crate::b64;
use crate::config;
use crate::config::TrustedIssuer;
use crate::decimal;
use crate::issuer_keys;
use crate::issuer_keys::IssuerRuntime;
use crate::json;
use crate::json::{Json, JsonValue};
use crate::jwk;
use crate::jwk::{Jwk, JwkView};
use crate::jwt;
use crate::jwt::{ClaimExt, DecodedJwt, JwtView};
use crate::text;
use crate::x509;

verus! {

/// How far clocks may be apart, in seconds.
pub const SKEW_SECS: u64 = 60;

// ---------------------------------------------------------------- claims

/// The claim at a path. A dot parts the names of nested members, but may also
/// stand in a name: the longest name comes first.
pub open spec fn claim_at(j: Json, path: Seq<char>) -> Option<Json>
    decreases path.len(), path.len() + 1,
{
    match json::json_get(j, path) {
        Some(v) => Some(v),
        None => claim_split(j, path, path.len()),
    }
}

/// The claim at a path whose first name ends before `end`.
pub open spec fn claim_split(j: Json, path: Seq<char>, end: nat) -> Option<Json>
    decreases path.len(), end,
{
    if end > path.len() || end == 0 {
        None
    } else {
        let dot = (end - 1) as nat;
        if path[dot as int] != '.' {
            claim_split(j, path, dot)
        } else {
            match json::json_get(j, path.take(dot as int)) {
                Some(inner) => match claim_at(inner, path.skip((dot + 1) as int)) {
                    Some(v) => Some(v),
                    None => claim_split(j, path, dot),
                },
                None => claim_split(j, path, dot),
            }
        }
    }
}

/// The claim at a path.
pub fn lookup_claim<'a>(value: &'a JsonValue, path: &str) -> (r: Option<&'a JsonValue>)
    ensures
        match r {
            Some(v) => claim_at(value@, path@) == Some(v@),
            None => claim_at(value@, path@) is None,
        },
{
    let chars = text::to_chars(path);
    lookup_chars(value, chars.as_slice())
}

fn lookup_chars<'a>(value: &'a JsonValue, path: &[char]) -> (r: Option<&'a JsonValue>)
    ensures
        match r {
            Some(v) => claim_at(value@, path@) == Some(v@),
            None => claim_at(value@, path@) is None,
        },
    decreases path@.len(),
{
    let whole = text::from_chars(path);
    if let Some(v) = value.get(whole.as_str()) {
        return Some(v);
    }
    let mut end: usize = path.len();
    while end > 0
        invariant
            end <= path@.len(),
            claim_at(value@, path@) == claim_split(value@, path@, end as nat),
        decreases end,
    {
        let dot: usize = end - 1;
        if path[dot] == '.' {
            let head = text::from_chars(vstd::slice::slice_subrange(path, 0, dot));
            let tail = vstd::slice::slice_subrange(path, dot + 1, path.len());
            proof {
                assert(head@ =~= path@.take(dot as int));
                assert(tail@ =~= path@.skip(dot + 1));
            }
            if let Some(inner) = value.get(head.as_str()) {
                if let Some(v) = lookup_chars(inner, tail) {
                    return Some(v);
                }
            }
        }
        end = dot;
    }
    None
}

/// A plain value as a text.
pub open spec fn value_text(j: Json) -> Option<Seq<char>> {
    match j {
        Json::Str(s) => Some(s),
        Json::Bool(b) => Some(
            if b {
                "true"@
            } else {
                "false"@
            },
        ),
        Json::Int(n) => Some(decimal::signed_numeral(n)),
        Json::Float(s) => Some(s),
        _ => None,
    }
}

/// Whether a text meets one of the patterns of a matcher.
pub open spec fn text_meets(matcher: Json, t: Seq<char>) -> bool {
    match matcher {
        Json::Str(p) => x509::pattern_matches(p, t),
        Json::Arr(ps) => exists|i: int|
            0 <= i < ps.len() && (#[trigger] ps[i] matches Json::Str(p) && x509::pattern_matches(
                p,
                t,
            )),
        _ => false,
    }
}

/// Whether a plain value meets a matcher.
pub open spec fn value_meets(matcher: Json, v: Json) -> bool {
    match value_text(v) {
        Some(t) => text_meets(matcher, t),
        None => false,
    }
}

/// Whether a claim meets a matcher: its value does, or one of its values.
pub open spec fn claim_meets(matcher: Json, actual: Json) -> bool {
    match actual {
        Json::Arr(vs) => exists|i: int| 0 <= i < vs.len() && value_meets(matcher, #[trigger] vs[i]),
        _ => value_meets(matcher, actual),
    }
}

fn text_of(v: &JsonValue) -> (r: Option<String>)
    ensures
        text::opt_view(r) == value_text(v@),
{
    match v {
        JsonValue::Text(s) => Some(s.clone()),
        JsonValue::Bool(b) => if *b {
            Some("true".to_owned())
        } else {
            Some("false".to_owned())
        },
        JsonValue::UInt(n) => Some(decimal::unsigned(*n)),
        JsonValue::NegInt(n) => Some(decimal::signed(*n)),
        JsonValue::Float(f) => Some(f.text()),
        _ => None,
    }
}

fn text_matches(matcher: &JsonValue, t: &str) -> (r: bool)
    ensures
        r == text_meets(matcher@, t@),
{
    match matcher {
        JsonValue::Text(p) => x509::san_matches(p.as_str(), t),
        JsonValue::Array(ps) => {
            let ghost all = json::elements(ps@);
            let mut i: usize = 0;
            proof {
                json::lemma_elements(ps@);
            }
            while i < ps.len()
                invariant
                    i <= ps@.len(),
                    all == json::elements(ps@),
                    matcher@ == Json::Arr(all),
                    all.len() == ps@.len(),
                    forall|j: int| 0 <= j < ps@.len() ==> #[trigger] all[j] == ps@[j].view(),
                    forall|j: int|
                        0 <= j < i ==> !(#[trigger] all[j] matches Json::Str(p)
                            && x509::pattern_matches(p, t@)),
                decreases ps@.len() - i,
            {
                if let JsonValue::Text(p) = &ps[i] {
                    if x509::san_matches(p.as_str(), t) {
                        proof {
                            assert(all[i as int] == Json::Str(p@));
                        }
                        return true;
                    }
                }
                proof {
                    assert(all[i as int] == ps@[i as int].view());
                }
                i += 1;
            }
            false
        },
        _ => false,
    }
}

fn value_matches(matcher: &JsonValue, v: &JsonValue) -> (r: bool)
    ensures
        r == value_meets(matcher@, v@),
{
    match text_of(v) {
        Some(t) => text_matches(matcher, t.as_str()),
        None => false,
    }
}

/// Whether a claim meets a matcher: a text, a list of texts, each of which may
/// end with an asterisk. Of a claim with several values one has to.
pub fn claim_matches(matcher: &JsonValue, actual: &JsonValue) -> (r: bool)
    ensures
        r == claim_meets(matcher@, actual@),
{
    match actual {
        JsonValue::Array(vs) => {
            let ghost all = json::elements(vs@);
            let mut i: usize = 0;
            proof {
                json::lemma_elements(vs@);
            }
            while i < vs.len()
                invariant
                    i <= vs@.len(),
                    all == json::elements(vs@),
                    actual@ == Json::Arr(all),
                    all.len() == vs@.len(),
                    forall|j: int| 0 <= j < vs@.len() ==> #[trigger] all[j] == vs@[j].view(),
                    forall|j: int| 0 <= j < i ==> !value_meets(matcher@, #[trigger] all[j]),
                decreases vs@.len() - i,
            {
                let ok = value_matches(matcher, &vs[i]);
                proof {
                    assert(all[i as int] == vs@[i as int].view());
                }
                if ok {
                    proof {
                        assert(value_meets(matcher@, all[i as int]));
                        let k = i as int;
                        assert(0 <= k < all.len() && value_meets(matcher@, all[k]));
                        assert(actual@->Arr_0 == all);
                        assert(value_meets(matcher@, actual@->Arr_0[k]));
                        assert(claim_meets(matcher@, actual@));
                    }
                    return true;
                }
                i += 1;
            }
            false
        },
        other => value_matches(matcher, other),
    }
}

/// Whether an identifier is a trust domain or lies in it.
pub open spec fn in_domain(sub: Seq<char>, domain: Seq<char>) -> bool {
    sub == domain || (domain + "/"@).is_prefix_of(sub)
}

/// Whether an identifier is a trust domain or lies in it.
pub fn sub_in_domain(sub: &str, domain: &str) -> (r: bool)
    ensures
        r == in_domain(sub@, domain@),
{
    text::same(sub, domain) || text::starts_with(sub, text::join2(domain, "/").as_str())
}

/// Whether a token is meant for an audience.
pub open spec fn has_audience(payload: Json, expected: Seq<char>) -> bool {
    match json::json_get(payload, "aud"@) {
        Some(Json::Str(s)) => s == expected,
        Some(Json::Arr(items)) => items.contains(Json::Str(expected)),
        _ => false,
    }
}

/// Whether a token is meant for an audience.
pub fn aud_contains(payload: &JsonValue, expected: &str) -> (r: bool)
    ensures
        r == has_audience(payload@, expected@),
{
    match payload.get("aud") {
        Some(JsonValue::Text(s)) => text::same(s.as_str(), expected),
        Some(JsonValue::Array(items)) => {
            let ghost all = json::elements(items@);
            let mut i: usize = 0;
            proof {
                json::lemma_elements(items@);
            }
            while i < items.len()
                invariant
                    i <= items@.len(),
                    all == json::elements(items@),
                    json::json_get(payload@, "aud"@) == Some(Json::Arr(all)),
                    all.len() == items@.len(),
                    forall|j: int|
                        0 <= j < items@.len() ==> #[trigger] all[j] == items@[j].view(),
                    forall|j: int| 0 <= j < i ==> #[trigger] all[j] != Json::Str(expected@),
                decreases items@.len() - i,
            {
                proof {
                    assert(all[i as int] == items@[i as int].view());
                }
                if let JsonValue::Text(s) = &items[i] {
                    if text::same(s.as_str(), expected) {
                        proof {
                            assert(all[i as int] == Json::Str(expected@));
                        }
                        return true;
                    }
                }
                i += 1;
            }
            false
        },
        _ => false,
    }
}

/// The assurance that an issuer's enrollments have where it names none.
pub open spec fn usual_assurance(issuer_type: Seq<char>) -> Seq<char> {
    if issuer_type == "x5c"@ || issuer_type == "spiffe"@ {
        "high"@
    } else {
        "medium"@
    }
}

/// The assurance that an issuer's enrollments have where it names none:
/// certificates and attested workloads rank high, bearer assertions medium.
pub fn default_assurance(issuer_type: &str) -> (r: &'static str)
    ensures
        r@ == usual_assurance(issuer_type@),
{
    if text::same(issuer_type, "x5c") || text::same(issuer_type, "spiffe") {
        "high"
    } else {
        "medium"
    }
}

// --------------------------------------------------------------- routing

/// The first issuer of SPIFFE documents in whose domain an identifier lies.
pub open spec fn spiffe_issuer(issuers: Seq<IssuerRuntime>, sub: Seq<char>) -> Option<nat>
    decreases issuers.len(),
{
    if issuers.len() == 0 {
        None
    } else {
        match spiffe_issuer(issuers.drop_last(), sub) {
            Some(i) => Some(i),
            None => {
                let cfg = issuers.last().cfg;
                if cfg.issuer_type@ == "spiffe"@ && (issuer_keys::domain_of(cfg) matches Some(td)
                    && in_domain(sub, td)) {
                    Some((issuers.len() - 1) as nat)
                } else {
                    None
                }
            },
        }
    }
}

/// The first issuer of other assertions with an `iss`.
pub open spec fn issuer_named(issuers: Seq<IssuerRuntime>, iss: Seq<char>) -> Option<nat>
    decreases issuers.len(),
{
    if issuers.len() == 0 {
        None
    } else {
        match issuer_named(issuers.drop_last(), iss) {
            Some(i) => Some(i),
            None => {
                let cfg = issuers.last().cfg;
                if cfg.issuer_type@ != "spiffe"@ && cfg.issuer@ == iss {
                    Some((issuers.len() - 1) as nat)
                } else {
                    None
                }
            },
        }
    }
}

/// Whether a token carries a certificate chain.
pub open spec fn has_chain(t: JwtView) -> bool {
    t.header.x5c matches Some(c) && c.len() > 0
}

/// The issuer that an assertion is routed to, and by what. A SPIFFE token, that
/// is one with a SPIFFE identifier as subject and without a certificate chain,
/// is routed by trust domain; everything else by its `iss`.
pub open spec fn routed(issuers: Seq<IssuerRuntime>, t: JwtView) -> Result<
    (nat, Seq<char>),
    Seq<char>,
> {
    let sub = json::str_member(t.payload, "sub"@);
    if !anyjwk::is_supported_alg(t.header.alg) {
        Err("unsupported assertion algorithm '"@ + t.header.alg + "'"@)
    } else if sub is Some && !has_chain(t) && "spiffe://"@.is_prefix_of(sub->0) {
        match spiffe_issuer(issuers, sub->0) {
            Some(i) => Ok((i, sub->0)),
            None => Err(
                "SPIFFE assertion sub '"@ + sub->0 + "' is not under a trusted trust domain"@,
            ),
        }
    } else {
        match json::str_member(t.payload, "iss"@) {
            None => Err("assertion missing iss claim"@),
            Some(iss) => match issuer_named(issuers, iss) {
                Some(i) => Ok((i, iss)),
                None => Err("assertion issuer '"@ + iss + "' is not trusted"@),
            },
        }
    }
}

proof fn lemma_spiffe_issuer_prefix(s: Seq<IssuerRuntime>, n: int, sub: Seq<char>)
    requires
        0 <= n <= s.len(),
        spiffe_issuer(s.take(n), sub) is Some,
    ensures
        spiffe_issuer(s, sub) == spiffe_issuer(s.take(n), sub),
    decreases s.len() - n,
{
    if n < s.len() {
        assert(s.take(n + 1).drop_last() =~= s.take(n));
        lemma_spiffe_issuer_prefix(s, n + 1, sub);
    } else {
        assert(s.take(n) =~= s);
    }
}

proof fn lemma_issuer_named_prefix(s: Seq<IssuerRuntime>, n: int, iss: Seq<char>)
    requires
        0 <= n <= s.len(),
        issuer_named(s.take(n), iss) is Some,
    ensures
        issuer_named(s, iss) == issuer_named(s.take(n), iss),
    decreases s.len() - n,
{
    if n < s.len() {
        assert(s.take(n + 1).drop_last() =~= s.take(n));
        lemma_issuer_named_prefix(s, n + 1, iss);
    } else {
        assert(s.take(n) =~= s);
    }
}

fn find_spiffe(issuers: &Vec<IssuerRuntime>, sub: &str) -> (r: Option<usize>)
    ensures
        match r {
            Some(i) => spiffe_issuer(issuers@, sub@) == Some(i as nat) && i < issuers@.len(),
            None => spiffe_issuer(issuers@, sub@) is None,
        },
{
    let mut i: usize = 0;
    proof {
        assert(issuers@.take(0) =~= Seq::empty());
    }
    while i < issuers.len()
        invariant
            i <= issuers@.len(),
            spiffe_issuer(issuers@.take(i as int), sub@) is None,
        decreases issuers@.len() - i,
    {
        proof {
            assert(issuers@.take(i + 1).drop_last() =~= issuers@.take(i as int));
            assert(issuers@.take(i + 1).last() == issuers@[i as int]);
        }
        if issuers[i].is_spiffe() {
            if let Some(td) = issuers[i].spiffe_domain() {
                if sub_in_domain(sub, td.as_str()) {
                    proof {
                        lemma_spiffe_issuer_prefix(issuers@, i + 1, sub@);
                    }
                    return Some(i);
                }
            }
        }
        i += 1;
    }
    proof {
        assert(issuers@.take(issuers@.len() as int) =~= issuers@);
    }
    None
}

fn find_issuer(issuers: &Vec<IssuerRuntime>, iss: &str) -> (r: Option<usize>)
    ensures
        match r {
            Some(i) => issuer_named(issuers@, iss@) == Some(i as nat) && i < issuers@.len(),
            None => issuer_named(issuers@, iss@) is None,
        },
{
    let mut i: usize = 0;
    proof {
        assert(issuers@.take(0) =~= Seq::empty());
    }
    while i < issuers.len()
        invariant
            i <= issuers@.len(),
            issuer_named(issuers@.take(i as int), iss@) is None,
        decreases issuers@.len() - i,
    {
        proof {
            assert(issuers@.take(i + 1).drop_last() =~= issuers@.take(i as int));
            assert(issuers@.take(i + 1).last() == issuers@[i as int]);
        }
        if !issuers[i].is_spiffe() && text::same(issuers[i].cfg.issuer.as_str(), iss) {
            proof {
                lemma_issuer_named_prefix(issuers@, i + 1, iss@);
            }
            return Some(i);
        }
        i += 1;
    }
    proof {
        assert(issuers@.take(issuers@.len() as int) =~= issuers@);
    }
    None
}

/// Routes an assertion to an issuer.
pub fn route(issuers: &Vec<IssuerRuntime>, t: &DecodedJwt) -> (r: Result<(usize, String), String>)
    ensures
        match r {
            Ok(x) => routed(issuers@, t@) == Ok::<(nat, Seq<char>), Seq<char>>((x.0 as nat, x.1@))
                && x.0 < issuers@.len(),
            Err(e) => routed(issuers@, t@) == Err::<(nat, Seq<char>), Seq<char>>(e@),
        },
{
    if !anyjwk::supported_alg(t.header.alg.as_str()) {
        return Err(
            text::join3("unsupported assertion algorithm '", t.header.alg.as_str(), "'"),
        );
    }
    let chained = match &t.header.x5c {
        Some(c) => c.len() > 0,
        None => false,
    };
    proof {
        if let Some(c) = &t.header.x5c {
            assert(text::list_view(c@).len() == c@.len());
        }
        assert(chained == has_chain(t@));
    }
    if let Some(sub) = t.payload.str_claim("sub") {
        if !chained && text::starts_with(sub.as_str(), "spiffe://") {
            return match find_spiffe(issuers, sub.as_str()) {
                Some(i) => Ok((i, sub.clone())),
                None => Err(
                    text::join3(
                        "SPIFFE assertion sub '",
                        sub.as_str(),
                        "' is not under a trusted trust domain",
                    ),
                ),
            };
        }
    }
    match t.payload.str_claim("iss") {
        None => Err("assertion missing iss claim".to_owned()),
        Some(iss) => match find_issuer(issuers, iss.as_str()) {
            Some(i) => Ok((i, iss.clone())),
            None => Err(
                text::join3("assertion issuer '", iss.as_str(), "' is not trusted"),
            ),
        },
    }
}

// ------------------------------------------------------------- signature

/// A certificate chain from its texts; nothing where one does not decode.
pub open spec fn chain_bytes(s: Seq<Seq<char>>) -> Option<Seq<Seq<u8>>>
    decreases s.len(),
{
    if s.len() == 0 {
        Some(Seq::empty())
    } else {
        match (chain_bytes(s.drop_last()), b64::decoded_std(s.last())) {
            (Some(rest), Some(b)) => Some(rest.push(b)),
            _ => None,
        }
    }
}

proof fn lemma_chain_prefix(s: Seq<Seq<char>>, n: int)
    requires
        0 <= n <= s.len(),
        chain_bytes(s.take(n)) is None,
    ensures
        chain_bytes(s) is None,
    decreases s.len() - n,
{
    if n < s.len() {
        assert(s.take(n + 1).drop_last() =~= s.take(n));
        lemma_chain_prefix(s, n + 1);
    } else {
        assert(s.take(n) =~= s);
    }
}

fn decode_chain(c: &Vec<String>) -> (r: Option<Vec<Vec<u8>>>)
    ensures
        match r {
            Some(v) => chain_bytes(text::list_view(c@)) == Some(text::bytes_view(v@)),
            None => chain_bytes(text::list_view(c@)) is None,
        },
{
    let ghost all = text::list_view(c@);
    let mut out: Vec<Vec<u8>> = Vec::new();
    let mut i: usize = 0;
    proof {
        assert(all.take(0) =~= Seq::empty());
        assert(text::bytes_view(out@) =~= Seq::empty());
    }
    while i < c.len()
        invariant
            i <= c@.len(),
            all == text::list_view(c@),
            chain_bytes(all.take(i as int)) == Some(text::bytes_view(out@)),
        decreases c@.len() - i,
    {
        proof {
            assert(all.take(i + 1).drop_last() =~= all.take(i as int));
            assert(all.take(i + 1).last() == c@[i as int]@);
        }
        match b64::decode_std(c[i].as_str()) {
            Some(b) => {
                let ghost was = out@;
                out.push(b);
                proof {
                    assert(text::bytes_view(out@) =~= text::bytes_view(was).push(b@));
                }
            },
            None => {
                proof {
                    lemma_chain_prefix(all, i + 1);
                }
                return None;
            },
        }
        i += 1;
    }
    proof {
        assert(all.take(all.len() as int) =~= all);
    }
    Some(out)
}

/// Keys that were resolved, or why there are none.
pub open spec fn keys_outcome(r: Result<Vec<AnyJwk>, String>) -> Result<
    Seq<AnyJwkView>,
    Seq<char>,
> {
    match r {
        Ok(v) => Ok(anyjwk::keys_view(v@)),
        Err(e) => Err(e@),
    }
}

/// What verifying the signature of an assertion finds: the names of the
/// certificate, or what is wrong. The keys are those that were resolved for the
/// issuer; a certificate chain brings its own.
pub open spec fn signature_verdict(
    rt: IssuerRuntime,
    t: JwtView,
    keys: Result<Seq<AnyJwkView>, Seq<char>>,
    now: u64,
) -> Result<Seq<Seq<char>>, Seq<char>> {
    let message = vstd::utf8::encode_utf8(t.signing_input);
    if rt.cfg.issuer_type@ == "x5c"@ {
        if !has_chain(t) {
            Err("x5c issuer requires a certificate chain in the JWS header"@)
        } else {
            match chain_bytes(t.header.x5c->0) {
                None => Err("invalid x5c encoding"@),
                Some(chain) => x509::x5c_verdict(
                    chain,
                    text::bytes_view(rt.ca_roots@),
                    text::bytes_view(rt.crls@),
                    now,
                    t.header.alg,
                    message,
                    t.signature,
                ),
            }
        }
    } else {
        match keys {
            Err(e) => Err(e),
            Ok(ks) => if anyjwk::any_holds(ks, t.header.alg, message, t.signature) {
                Ok(Seq::empty())
            } else {
                Err("assertion signature verification failed for issuer '"@ + rt.cfg.name@ + "'"@)
            },
        }
    }
}

/// Verifies the signature of an assertion. The keys are those that were
/// resolved for the issuer; a certificate chain brings its own.
pub fn verify_assertion_signature(
    rt: &IssuerRuntime,
    t: &DecodedJwt,
    keys: &Result<Vec<AnyJwk>, String>,
    now: u64,
) -> (r: Result<Vec<String>, String>)
    ensures
        match r {
            Ok(v) => signature_verdict(*rt, t@, keys_outcome(*keys), now) == Ok::<
                Seq<Seq<char>>,
                Seq<char>,
            >(text::list_view(v@)),
            Err(e) => signature_verdict(*rt, t@, keys_outcome(*keys), now) == Err::<
                Seq<Seq<char>>,
                Seq<char>,
            >(e@),
        },
{
    if rt.is_x5c() {
        if let Some(c) = &t.header.x5c {
            proof {
                assert(text::list_view(c@).len() == c@.len());
            }
            if c.len() > 0 {
                return match decode_chain(c) {
                    None => Err("invalid x5c encoding".to_owned()),
                    Some(chain) => x509::verify_x5c_jws(
                        chain.as_slice(),
                        rt.ca_roots.as_slice(),
                        rt.crls.as_slice(),
                        now,
                        t.header.alg.as_str(),
                        t.signing_input.as_str().as_bytes(),
                        t.signature.as_slice(),
                    ),
                };
            }
        }
        return Err("x5c issuer requires a certificate chain in the JWS header".to_owned());
    }
    match keys {
        Err(e) => Err(e.clone()),
        Ok(ks) => if anyjwk::verify_any(
            ks,
            t.header.alg.as_str(),
            t.signing_input.as_str().as_bytes(),
            t.signature.as_slice(),
        ) {
            let none: Vec<String> = Vec::new();
            proof {
                assert(text::list_view(none@) =~= Seq::empty());
            }
            Ok(none)
        } else {
            Err(
                text::join3(
                    "assertion signature verification failed for issuer '",
                    rt.cfg.name.as_str(),
                    "'",
                ),
            )
        },
    }
}

// ---------------------------------------------------------------- policy

/// What is wrong with the times of an assertion.
pub open spec fn time_fault(payload: Json, now: u64) -> Option<Seq<char>> {
    match json::i64_member(payload, "exp"@) {
        None => Some("assertion missing exp claim"@),
        Some(exp) => if exp <= now {
            Some("assertion expired"@)
        } else if json::i64_member(payload, "iat"@) matches Some(iat) && iat > now + SKEW_SECS {
            Some("assertion iat is in the future"@)
        } else if json::i64_member(payload, "nbf"@) matches Some(nbf) && nbf > now + SKEW_SECS {
            Some("assertion not yet valid (nbf)"@)
        } else {
            None
        },
    }
}

/// The first required claim that an assertion does not meet.
pub open spec fn policy_fault(claims: Seq<(String, JsonValue)>, payload: Json) -> Option<Seq<char>>
    decreases claims.len(),
{
    if claims.len() == 0 {
        None
    } else {
        match policy_fault(claims.drop_last(), payload) {
            Some(e) => Some(e),
            None => {
                let path = claims.last().0@;
                match claim_at(payload, path) {
                    None => Some("assertion missing required claim '"@ + path + "'"@),
                    Some(v) => if claim_meets(claims.last().1@, v) {
                        None
                    } else {
                        Some("assertion claim '"@ + path + "' does not satisfy policy"@)
                    },
                }
            },
        }
    }
}

/// Whether a name of the certificate meets one of the patterns.
pub open spec fn names_meet(patterns: Seq<Seq<char>>, sans: Seq<Seq<char>>) -> bool {
    exists|i: int, j: int|
        0 <= i < patterns.len() && 0 <= j < sans.len() && x509::pattern_matches(
            #[trigger] patterns[i],
            #[trigger] sans[j],
        )
}

/// Whether an assertion is bound to the enrolling key; a binding to another key
/// is an error.
pub open spec fn binding(payload: Json, durable: JwkView) -> Result<bool, Seq<char>> {
    match json::json_get(payload, "cnf"@) {
        None => Ok(false),
        Some(cnf) => match jwk::thumbprint_of(durable) {
            Err(_) => Err("unsupported enrolling key"@),
            Ok(thumb) => match json::json_get(cnf, "jwk"@) {
                Some(v) => match jwk::jwk_from(v) {
                    None => Err("assertion cnf.jwk is not a supported key"@),
                    Some(bound) => match jwk::thumbprint_of(bound) {
                        Err(_) => Err("assertion cnf.jwk is not a supported key"@),
                        Ok(own) => if own == thumb {
                            Ok(true)
                        } else {
                            Err("assertion cnf.jwk does not match the enrolling key"@)
                        },
                    },
                },
                None => match json::str_member(cnf, "jkt"@) {
                    Some(jkt) => if jkt == thumb {
                        Ok(true)
                    } else {
                        Err("assertion cnf.jkt does not match the enrolling key"@)
                    },
                    None => Ok(false),
                },
            },
        },
    }
}

/// Whether a value is neither an array nor an object nor null.
pub open spec fn is_scalar(j: Json) -> bool {
    value_text(j) is Some
}

/// The claims that go into agent tokens: of those that the assertion has, each
/// under the name that the issuer gives it.
pub open spec fn embedded(claims: Seq<(String, JsonValue)>, payload: Json) -> Result<
    Map<Seq<char>, Json>,
    Seq<char>,
>
    decreases claims.len(),
{
    if claims.len() == 0 {
        Ok(Map::empty())
    } else {
        match embedded(claims.drop_last(), payload) {
            Err(e) => Err(e),
            Ok(m) => {
                let path = claims.last().0@;
                match claim_at(payload, path) {
                    None => Ok(m),
                    Some(v) => if is_scalar(v) {
                        Ok(m.insert(config::target_name(claims.last().1@), v))
                    } else {
                        Err(
                            "embed claim '"@ + path
                                + "' is not a scalar (string/bool/number)"@,
                        )
                    },
                }
            },
        }
    }
}

/// What a verified assertion gives.
pub struct FederatedVerdict {
    pub issuer_name: String,
    pub issuer: String,
    /// The subject of the assertion, for the audit log.
    pub subject: Option<String>,
    /// Claims that go into every agent token of this enrollment.
    pub embed: Vec<(String, JsonValue)>,
    /// The Person Server that the issuer fixes.
    pub ps_pin: Option<String>,
    pub label: Option<String>,
    /// An identifier that must not have been used before, and for how long it is
    /// remembered, in seconds.
    pub consume_jti: Option<(String, u64)>,
    pub assurance: String,
}

/// What a [`FederatedVerdict`] holds.
pub struct VerdictView {
    pub issuer_name: Seq<char>,
    pub issuer: Seq<char>,
    pub subject: Option<Seq<char>>,
    pub embed: Map<Seq<char>, Json>,
    pub ps_pin: Option<Seq<char>>,
    pub label: Option<Seq<char>>,
    pub consume_jti: Option<(Seq<char>, u64)>,
    pub assurance: Seq<char>,
}

impl FederatedVerdict {
    /// What the verdict holds.
    pub open spec fn view(&self) -> VerdictView {
        VerdictView {
            issuer_name: self.issuer_name@,
            issuer: self.issuer@,
            subject: text::opt_view(self.subject),
            embed: json::members(self.embed@),
            ps_pin: text::opt_view(self.ps_pin),
            label: text::opt_view(self.label),
            consume_jti: match self.consume_jti {
                Some((jti, left)) => Some((jti@, left)),
                None => None,
            },
            assurance: self.assurance@,
        }
    }
}

/// The audience that an issuer's assertions must name.
pub open spec fn wanted_audience(cfg: TrustedIssuer, usual: Seq<char>) -> Seq<char> {
    match cfg.audience {
        Some(a) => a@,
        None => usual,
    }
}

/// The identifier of an assertion that can be used once only. Unless the issuer
/// says otherwise, that is one which is not bound to a key.
pub open spec fn single_use(cfg: TrustedIssuer, payload: Json, bound: bool, now: u64) -> Option<
    (Seq<char>, u64),
> {
    let once = match cfg.single_use_jti {
        Some(b) => b,
        None => !bound,
    };
    match (json::str_member(payload, "jti"@), json::i64_member(payload, "exp"@)) {
        (Some(jti), Some(exp)) => if once {
            Some((jti, (exp - now) as u64))
        } else {
            None
        },
        _ => None,
    }
}

/// What an issuer's policy makes of an assertion with a good signature.
pub open spec fn judged(
    cfg: TrustedIssuer,
    payload: Json,
    sans: Seq<Seq<char>>,
    durable: JwkView,
    now: u64,
    usual_audience: Seq<char>,
    route: Seq<char>,
) -> Result<VerdictView, Seq<char>> {
    let audience = wanted_audience(cfg, usual_audience);
    if time_fault(payload, now) is Some {
        Err(time_fault(payload, now)->0)
    } else if !has_audience(payload, audience) {
        Err("assertion aud does not include '"@ + audience + "'"@)
    } else if policy_fault(cfg.required_claims@, payload) is Some {
        Err(policy_fault(cfg.required_claims@, payload)->0)
    } else if cfg.required_sans@.len() > 0 && !names_meet(
        text::list_view(cfg.required_sans@),
        sans,
    ) {
        Err("leaf certificate SANs do not satisfy required_sans"@)
    } else {
        match binding(payload, durable) {
            Err(e) => Err(e),
            Ok(bound) => if cfg.require_cnf_binding && !bound {
                Err("issuer policy requires a cnf binding (cnf.jwk or cnf.jkt)"@)
            } else {
                match embedded(cfg.embed_claims@, payload) {
                    Err(e) => Err(e),
                    Ok(embed) => Ok(
                        VerdictView {
                            issuer_name: cfg.name@,
                            issuer: route,
                            subject: json::str_member(payload, "sub"@),
                            embed,
                            ps_pin: text::opt_view(cfg.ps),
                            label: text::opt_view(cfg.label),
                            consume_jti: single_use(cfg, payload, bound, now),
                            assurance: match cfg.assurance {
                                Some(a) => a@,
                                None => usual_assurance(cfg.issuer_type@),
                            },
                        },
                    ),
                }
            },
        }
    }
}

proof fn lemma_policy_prefix(s: Seq<(String, JsonValue)>, n: int, payload: Json)
    requires
        0 <= n <= s.len(),
        policy_fault(s.take(n), payload) is Some,
    ensures
        policy_fault(s, payload) == policy_fault(s.take(n), payload),
    decreases s.len() - n,
{
    if n < s.len() {
        assert(s.take(n + 1).drop_last() =~= s.take(n));
        lemma_policy_prefix(s, n + 1, payload);
    } else {
        assert(s.take(n) =~= s);
    }
}

proof fn lemma_embedded_prefix(s: Seq<(String, JsonValue)>, n: int, payload: Json)
    requires
        0 <= n <= s.len(),
        embedded(s.take(n), payload) is Err,
    ensures
        embedded(s, payload) == embedded(s.take(n), payload),
    decreases s.len() - n,
{
    if n < s.len() {
        assert(s.take(n + 1).drop_last() =~= s.take(n));
        lemma_embedded_prefix(s, n + 1, payload);
    } else {
        assert(s.take(n) =~= s);
    }
}

fn check_times(payload: &JsonValue, now: u64) -> (r: Option<String>)
    ensures
        text::opt_view(r) == time_fault(payload@, now),
{
    let exp: i64 = match payload.int_claim("exp") {
        None => {
            return Some("assertion missing exp claim".to_owned());
        },
        Some(exp) => exp,
    };
    if exp as i128 <= now as i128 {
        return Some("assertion expired".to_owned());
    }
    if let Some(iat) = payload.int_claim("iat") {
        if iat as i128 > now as i128 + SKEW_SECS as i128 {
            return Some("assertion iat is in the future".to_owned());
        }
    }
    if let Some(nbf) = payload.int_claim("nbf") {
        if nbf as i128 > now as i128 + SKEW_SECS as i128 {
            return Some("assertion not yet valid (nbf)".to_owned());
        }
    }
    None
}

fn check_claims(claims: &Vec<(String, JsonValue)>, payload: &JsonValue) -> (r: Option<String>)
    ensures
        text::opt_view(r) == policy_fault(claims@, payload@),
{
    let mut i: usize = 0;
    proof {
        assert(claims@.take(0) =~= Seq::empty());
    }
    while i < claims.len()
        invariant
            i <= claims@.len(),
            policy_fault(claims@.take(i as int), payload@) is None,
        decreases claims@.len() - i,
    {
        let ghost upto = claims@.take(i + 1);
        proof {
            assert(upto.drop_last() =~= claims@.take(i as int));
            assert(upto.last() == claims@[i as int]);
        }
        let path = claims[i].0.as_str();
        let fault: Option<String> = match lookup_claim(payload, path) {
            None => Some(text::join3("assertion missing required claim '", path, "'")),
            Some(v) => if claim_matches(&claims[i].1, v) {
                None
            } else {
                Some(text::join3("assertion claim '", path, "' does not satisfy policy"))
            },
        };
        proof {
            assert(text::opt_view(fault) == policy_fault(upto, payload@));
        }
        if let Some(e) = fault {
            proof {
                lemma_policy_prefix(claims@, i + 1, payload@);
            }
            return Some(e);
        }
        i += 1;
    }
    proof {
        assert(claims@.take(claims@.len() as int) =~= claims@);
    }
    None
}

fn name_meets(patterns: &Vec<String>, san: &str) -> (r: bool)
    ensures
        r == exists|i: int|
            0 <= i < patterns@.len() && x509::pattern_matches(
                #[trigger] text::list_view(patterns@)[i],
                san@,
            ),
{
    let ghost all = text::list_view(patterns@);
    let mut i: usize = 0;
    while i < patterns.len()
        invariant
            i <= patterns@.len(),
            all == text::list_view(patterns@),
            forall|j: int| 0 <= j < i ==> !x509::pattern_matches(#[trigger] all[j], san@),
        decreases patterns@.len() - i,
    {
        if x509::san_matches(patterns[i].as_str(), san) {
            proof {
                assert(all[i as int] == patterns@[i as int]@);
            }
            return true;
        }
        i += 1;
    }
    false
}

fn check_names(patterns: &Vec<String>, sans: &Vec<String>) -> (r: bool)
    ensures
        r == names_meet(text::list_view(patterns@), text::list_view(sans@)),
{
    let ghost ps = text::list_view(patterns@);
    let ghost all = text::list_view(sans@);
    let mut j: usize = 0;
    while j < sans.len()
        invariant
            j <= sans@.len(),
            ps == text::list_view(patterns@),
            all == text::list_view(sans@),
            forall|i: int, k: int|
                0 <= i < ps.len() && 0 <= k < j ==> !x509::pattern_matches(
                    #[trigger] ps[i],
                    #[trigger] all[k],
                ),
        decreases sans@.len() - j,
    {
        let ok = name_meets(patterns, sans[j].as_str());
        proof {
            assert(all[j as int] == sans@[j as int]@);
        }
        if ok {
            proof {
                let i = choose|i: int|
                    0 <= i < patterns@.len() && x509::pattern_matches(
                        #[trigger] ps[i],
                        all[j as int],
                    );
                assert(x509::pattern_matches(ps[i], all[j as int]));
            }
            return true;
        }
        j += 1;
    }
    false
}

fn check_binding(payload: &JsonValue, durable: &Jwk) -> (r: Result<bool, String>)
    ensures
        match r {
            Ok(b) => binding(payload@, durable@) == Ok::<bool, Seq<char>>(b),
            Err(e) => binding(payload@, durable@) == Err::<bool, Seq<char>>(e@),
        },
{
    let cnf = match payload.get("cnf") {
        None => {
            return Ok(false);
        },
        Some(cnf) => cnf,
    };
    let thumb = match durable.thumbprint() {
        Err(_) => {
            return Err("unsupported enrolling key".to_owned());
        },
        Ok(t) => t,
    };
    if let Some(v) = cnf.get("jwk") {
        return match Jwk::from_json(v) {
            None => Err("assertion cnf.jwk is not a supported key".to_owned()),
            Some(bound) => match bound.thumbprint() {
                Err(_) => Err("assertion cnf.jwk is not a supported key".to_owned()),
                Ok(own) => if text::same(own.as_str(), thumb.as_str()) {
                    Ok(true)
                } else {
                    Err("assertion cnf.jwk does not match the enrolling key".to_owned())
                },
            },
        };
    }
    match cnf.str_of("jkt") {
        Some(jkt) => if text::same(jkt.as_str(), thumb.as_str()) {
            Ok(true)
        } else {
            Err("assertion cnf.jkt does not match the enrolling key".to_owned())
        },
        None => Ok(false),
    }
}

fn embed(claims: &Vec<(String, JsonValue)>, payload: &JsonValue) -> (r: Result<
    Vec<(String, JsonValue)>,
    String,
>)
    ensures
        match r {
            Ok(v) => embedded(claims@, payload@) == Ok::<Map<Seq<char>, Json>, Seq<char>>(
                json::members(v@),
            ),
            Err(e) => embedded(claims@, payload@) == Err::<Map<Seq<char>, Json>, Seq<char>>(e@),
        },
{
    let mut out: Vec<(String, JsonValue)> = Vec::new();
    let mut i: usize = 0;
    proof {
        assert(claims@.take(0) =~= Seq::empty());
    }
    while i < claims.len()
        invariant
            i <= claims@.len(),
            embedded(claims@.take(i as int), payload@) == Ok::<Map<Seq<char>, Json>, Seq<char>>(
                json::members(out@),
            ),
        decreases claims@.len() - i,
    {
        proof {
            assert(claims@.take(i + 1).drop_last() =~= claims@.take(i as int));
            assert(claims@.take(i + 1).last() == claims@[i as int]);
        }
        let path = claims[i].0.as_str();
        if let Some(v) = lookup_claim(payload, path) {
            if text_of(v).is_some() {
                let ghost was = out@;
                let target = config::embed_target(&claims[i].1);
                out.push((target, v.copy()));
                proof {
                    assert(out@.drop_last() =~= was);
                }
            } else {
                proof {
                    lemma_embedded_prefix(claims@, i + 1, payload@);
                }
                return Err(
                    text::join3(
                        "embed claim '",
                        path,
                        "' is not a scalar (string/bool/number)",
                    ),
                );
            }
        }
        i += 1;
    }
    proof {
        assert(claims@.take(claims@.len() as int) =~= claims@);
    }
    Ok(out)
}

/// What an issuer's policy makes of an assertion with a good signature.
pub fn judge(
    cfg: &TrustedIssuer,
    payload: &JsonValue,
    sans: &Vec<String>,
    durable: &Jwk,
    now: u64,
    usual_audience: &str,
    route: &str,
) -> (r: Result<FederatedVerdict, String>)
    ensures
        ({
            let verdict = judged(
                *cfg,
                payload@,
                text::list_view(sans@),
                durable@,
                now,
                usual_audience@,
                route@,
            );
            match r {
                Ok(v) => verdict == Ok::<VerdictView, Seq<char>>(v@),
                Err(e) => verdict == Err::<VerdictView, Seq<char>>(e@),
            }
        }),
{
    if let Some(e) = check_times(payload, now) {
        return Err(e);
    }
    let audience = match &cfg.audience {
        Some(a) => a.as_str(),
        None => usual_audience,
    };
    if !aud_contains(payload, audience) {
        return Err(text::join3("assertion aud does not include '", audience, "'"));
    }
    if let Some(e) = check_claims(&cfg.required_claims, payload) {
        return Err(e);
    }
    if cfg.required_sans.len() > 0 && !check_names(&cfg.required_sans, sans) {
        return Err("leaf certificate SANs do not satisfy required_sans".to_owned());
    }
    let bound = match check_binding(payload, durable) {
        Err(e) => {
            return Err(e);
        },
        Ok(b) => b,
    };
    if cfg.require_cnf_binding && !bound {
        return Err("issuer policy requires a cnf binding (cnf.jwk or cnf.jkt)".to_owned());
    }
    let claims = match embed(&cfg.embed_claims, payload) {
        Err(e) => {
            return Err(e);
        },
        Ok(c) => c,
    };
    let once = match cfg.single_use_jti {
        Some(b) => b,
        None => !bound,
    };
    let mut consume_jti: Option<(String, u64)> = None;
    if once {
        if let Some(jti) = payload.str_claim("jti") {
            if let Some(exp) = payload.int_claim("exp") {
                let left: u64 = (exp as i128 - now as i128) as u64;
                consume_jti = Some((jti.clone(), left));
            }
        }
    }
    let subject = match payload.str_claim("sub") {
        Some(s) => Some(s.clone()),
        None => None,
    };
    let assurance = match &cfg.assurance {
        Some(a) => a.clone(),
        None => default_assurance(cfg.issuer_type.as_str()).to_owned(),
    };
    Ok(
        FederatedVerdict {
            issuer_name: cfg.name.clone(),
            issuer: route.to_owned(),
            subject,
            embed: claims,
            ps_pin: cfg.ps.clone(),
            label: cfg.label.clone(),
            consume_jti,
            assurance,
        },
    )
}

/// What verifying an assertion finds, with the keys that were resolved for the
/// issuer that it is routed to.
pub open spec fn assertion_verdict(
    issuers: Seq<IssuerRuntime>,
    assertion: Seq<char>,
    keys: Result<Seq<AnyJwkView>, Seq<char>>,
    durable: JwkView,
    now: u64,
    usual_audience: Seq<char>,
) -> Result<VerdictView, Seq<char>> {
    match jwt::decoded_jwt(assertion) {
        None => Err("malformed enrollment assertion"@),
        Some(t) => match routed(issuers, t) {
            Err(e) => Err(e),
            Ok((i, via)) => {
                let rt = issuers[i as int];
                match signature_verdict(rt, t, keys, now) {
                    Err(e) => Err(e),
                    Ok(sans) => judged(
                        rt.cfg,
                        t.payload,
                        sans,
                        durable,
                        now,
                        usual_audience,
                        via,
                    ),
                }
            },
        },
    }
}

/// Which issuer an assertion is routed to, and the identifier and algorithm of
/// the key that it must have been signed with.
pub fn read_assertion(issuers: &Vec<IssuerRuntime>, assertion: &str) -> (r: Result<
    (DecodedJwt, usize, String),
    String,
>)
    ensures
        match r {
            Ok(x) => jwt::decoded_jwt(assertion@) == Some(x.0@) && routed(issuers@, x.0@) == Ok::<
                (nat, Seq<char>),
                Seq<char>,
            >((x.1 as nat, x.2@)) && x.1 < issuers@.len(),
            Err(e) => match jwt::decoded_jwt(assertion@) {
                None => e@ == "malformed enrollment assertion"@,
                Some(t) => routed(issuers@, t) == Err::<(nat, Seq<char>), Seq<char>>(e@),
            },
        },
{
    match jwt::decode(assertion) {
        Err(_) => Err("malformed enrollment assertion".to_owned()),
        Ok(t) => match route(issuers, &t) {
            Err(e) => Err(e),
            Ok((i, via)) => Ok((t, i, via)),
        },
    }
}

/// Verifies an enrollment assertion, with the keys that were resolved for the
/// issuer that it is routed to. `durable` is the key that signed the request.
pub fn verify_assertion(
    issuers: &Vec<IssuerRuntime>,
    assertion: &str,
    keys: &Result<Vec<AnyJwk>, String>,
    durable: &Jwk,
    now: u64,
    default_audience: &str,
) -> (r: Result<FederatedVerdict, String>)
    ensures
        ({
            let verdict = assertion_verdict(
                issuers@,
                assertion@,
                keys_outcome(*keys),
                durable@,
                now,
                default_audience@,
            );
            match r {
                Ok(v) => verdict == Ok::<VerdictView, Seq<char>>(v@),
                Err(e) => verdict == Err::<VerdictView, Seq<char>>(e@),
            }
        }),
{
    let (t, i, via) = match read_assertion(issuers, assertion) {
        Err(e) => {
            return Err(e);
        },
        Ok(x) => x,
    };
    let rt = &issuers[i];
    match verify_assertion_signature(rt, &t, keys, now) {
        Err(e) => Err(e),
        Ok(sans) => judge(
            &rt.cfg,
            &t.payload,
            &sans,
            durable,
            now,
            default_audience,
            via.as_str(),
        ),
    }
}

// ------------------------------------------------------------------ laws

/// An assertion that is accepted has not expired, names the audience, meets
/// every required claim, and is bound to no key but the enrolling one.
pub proof fn law_accepted_meets_policy(
    cfg: TrustedIssuer,
    payload: Json,
    sans: Seq<Seq<char>>,
    durable: JwkView,
    now: u64,
    usual_audience: Seq<char>,
    route: Seq<char>,
    i: int,
)
    requires
        judged(cfg, payload, sans, durable, now, usual_audience, route) is Ok,
        0 <= i < cfg.required_claims@.len(),
    ensures
        json::i64_member(payload, "exp"@) matches Some(exp) && exp > now,
        has_audience(payload, wanted_audience(cfg, usual_audience)),
        claim_at(payload, cfg.required_claims@[i].0@) matches Some(v) && claim_meets(
            cfg.required_claims@[i].1@,
            v,
        ),
        cfg.require_cnf_binding ==> binding(payload, durable) == Ok::<bool, Seq<char>>(true),
        binding(payload, durable) is Ok,
{
    lemma_policy_met(cfg.required_claims@, payload, i);
}

proof fn lemma_policy_met(claims: Seq<(String, JsonValue)>, payload: Json, i: int)
    requires
        policy_fault(claims, payload) is None,
        0 <= i < claims.len(),
    ensures
        claim_at(payload, claims[i].0@) matches Some(v) && claim_meets(claims[i].1@, v),
    decreases claims.len(),
{
    if i < claims.len() - 1 {
        lemma_policy_met(claims.drop_last(), payload, i);
        assert(claims.drop_last()[i] == claims[i]);
    }
}

/// An assertion that is bound to a thumbprint is accepted from the key with
/// that thumbprint only.
pub proof fn law_bound_to_enrolling_key(payload: Json, durable: JwkView, jkt: Seq<char>)
    requires
        json::json_get(payload, "cnf"@) matches Some(cnf) && json::json_get(cnf, "jwk"@) is None
            && json::str_member(cnf, "jkt"@) == Some(jkt),
        binding(payload, durable) is Ok,
    ensures
        jwk::thumbprint_of(durable) == Ok::<Seq<char>, jwk::JwkError>(jkt),
{
}

/// An assertion that is routed to an issuer names it: by its `iss`, or by a
/// subject in its trust domain. Nobody else's assertion is looked at.
pub proof fn law_routed_to_trusted(issuers: Seq<IssuerRuntime>, t: JwtView)
    requires
        routed(issuers, t) is Ok,
    ensures
        routed(issuers, t)->Ok_0.0 < issuers.len(),
        ({
            let cfg = issuers[routed(issuers, t)->Ok_0.0 as int].cfg;
            if cfg.issuer_type@ == "spiffe"@ {
                json::str_member(t.payload, "sub"@) matches Some(sub) && issuer_keys::domain_of(
                    cfg,
                ) matches Some(td) && in_domain(sub, td)
            } else {
                json::str_member(t.payload, "iss"@) == Some(cfg.issuer@)
            }
        }),
{
    if let Some(sub) = json::str_member(t.payload, "sub"@) {
        lemma_spiffe_issuer(issuers, sub);
    }
    if let Some(iss) = json::str_member(t.payload, "iss"@) {
        lemma_issuer_named(issuers, iss);
    }
}

proof fn lemma_spiffe_issuer(issuers: Seq<IssuerRuntime>, sub: Seq<char>)
    ensures
        spiffe_issuer(issuers, sub) matches Some(i) ==> i < issuers.len()
            && issuers[i as int].cfg.issuer_type@ == "spiffe"@ && (issuer_keys::domain_of(
            issuers[i as int].cfg,
        ) matches Some(td) && in_domain(sub, td)),
    decreases issuers.len(),
{
    if issuers.len() > 0 {
        lemma_spiffe_issuer(issuers.drop_last(), sub);
    }
}

proof fn lemma_issuer_named(issuers: Seq<IssuerRuntime>, iss: Seq<char>)
    ensures
        issuer_named(issuers, iss) matches Some(i) ==> i < issuers.len()
            && issuers[i as int].cfg.issuer_type@ != "spiffe"@ && issuers[i as int].cfg.issuer@
            == iss,
    decreases issuers.len(),
{
    if issuers.len() > 0 {
        lemma_issuer_named(issuers.drop_last(), iss);
    }
}

/// Claims go into agent tokens under the names that the issuer's configuration
/// gives them, and only plain values do.
pub proof fn law_embedded_names(claims: Seq<(String, JsonValue)>, payload: Json, name: Seq<char>)
    requires
        embedded(claims, payload) matches Ok(m) && m.dom().contains(name),
    ensures
        exists|i: int|
            0 <= i < claims.len() && config::target_name((#[trigger] claims[i]).1@) == name,
        is_scalar(embedded(claims, payload)->Ok_0[name]),
    decreases claims.len(),
{
    if claims.len() > 0 {
        let before = claims.drop_last();
        let m = embedded(before, payload)->Ok_0;
        if m.dom().contains(name) {
            law_embedded_names(before, payload, name);
            let i = choose|i: int|
                0 <= i < before.len() && config::target_name((#[trigger] before[i]).1@) == name;
            assert(claims[i] == before[i]);
        } else {
            assert(config::target_name(claims[claims.len() - 1].1@) == name);
        }
    }
}

/// An assertion that is not bound to a key and has an identifier can be used
/// once only, unless the issuer says otherwise.
pub proof fn law_unbound_is_single_use(
    cfg: TrustedIssuer,
    payload: Json,
    sans: Seq<Seq<char>>,
    durable: JwkView,
    now: u64,
    usual_audience: Seq<char>,
    route: Seq<char>,
)
    requires
        judged(cfg, payload, sans, durable, now, usual_audience, route) is Ok,
        cfg.single_use_jti is None,
        json::json_get(payload, "cnf"@) is None,
        json::str_member(payload, "jti"@) is Some,
    ensures
        judged(cfg, payload, sans, durable, now, usual_audience, route)->Ok_0.consume_jti matches
            Some((jti, left)) && Some(jti) == json::str_member(payload, "jti"@) && left > 0,
{
}

/// An assertion with a key in its confirmation is good for the holder of that key
/// and for nobody else: what counts is the thumbprint. One that names a thumbprint
/// is treated the same way, and one without a confirmation is bound to nobody.
pub proof fn law_binding_is_to_one_key(
    payload: Json,
    cnf: Json,
    bound: JwkView,
    thumb: Seq<char>,
    durable: JwkView,
    own: Seq<char>,
)
    requires
        json::json_get(payload, "cnf"@) == Some(cnf),
        jwk::thumbprint_of(durable) == Ok::<Seq<char>, jwk::JwkError>(own),
    ensures
        json::json_get(cnf, "jwk"@) matches Some(v) ==> (jwk::jwk_from(v) == Some(bound)
            && jwk::thumbprint_of(bound) == Ok::<Seq<char>, jwk::JwkError>(thumb) ==> (binding(
            payload,
            durable,
        ) is Ok) == (thumb == own) && (thumb == own ==> binding(payload, durable) == Ok::<
            bool,
            Seq<char>,
        >(true))),
        json::json_get(cnf, "jwk"@) matches Some(v) ==> (jwk::jwk_from(v) is None ==> binding(
            payload,
            durable,
        ) is Err),
        json::json_get(cnf, "jwk"@) is None && json::json_get(cnf, "jkt"@) == Some(
            Json::Str(thumb),
        ) ==> (binding(payload, durable) is Ok) == (thumb == own) && (thumb == own ==> binding(
            payload,
            durable,
        ) == Ok::<bool, Seq<char>>(true)),
{
}

/// The key itself in the confirmation binds an assertion to it, whatever else the
/// assertion holds.
pub proof fn law_own_key_is_bound(
    payload: Json,
    members: Map<Seq<char>, Json>,
    durable: JwkView,
)
    requires
        durable.kty == "OKP"@,
        members.dom().contains("jwk"@),
        members["jwk"@] == jwk::jwk_json(durable),
        json::json_get(payload, "cnf"@) == Some(Json::Obj(members)),
    ensures
        binding(payload, durable) == Ok::<bool, Seq<char>>(true),
{
    jwk::law_jwk_round_trip(durable);
}

/// An assertion without a confirmation is bound to nobody.
pub proof fn law_unconfirmed_is_unbound(payload: Json, durable: JwkView)
    requires
        json::json_get(payload, "cnf"@) is None,
    ensures
        binding(payload, durable) == Ok::<bool, Seq<char>>(false),
{
}

/// An assertion is good before it expires, and from a minute before the time it
/// says it was issued or begins.
pub proof fn law_assertion_times(payload: Json, now: u64, exp: i64)
    ensures
        json::i64_member(payload, "exp"@) is None ==> time_fault(payload, now) is Some,
        json::i64_member(payload, "exp"@) == Some(exp) ==> (time_fault(payload, now) is None) == (exp
            > now && (json::i64_member(payload, "iat"@) matches Some(iat) ==> iat <= now + 60) && (
        json::i64_member(payload, "nbf"@) matches Some(nbf) ==> nbf <= now + 60)),
{
}

/// A token names an audience by a text or by an element of a list.
pub proof fn law_audience_named(payload: Json, named: Seq<char>, all: Seq<Json>, wanted: Seq<char>)
    ensures
        json::json_get(payload, "aud"@) == Some(Json::Str(named)) ==> has_audience(payload, wanted)
            == (named == wanted),
        json::json_get(payload, "aud"@) == Some(Json::Arr(all)) ==> has_audience(payload, wanted)
            == (exists|i: int| 0 <= i < all.len() && #[trigger] all[i] == Json::Str(wanted)),
        json::json_get(payload, "aud"@) is None ==> !has_audience(payload, wanted),
{
}

/// A claim is found under its name; where no name holds a dot, a path leads from
/// one object into the next.
pub proof fn law_claim_paths(j: Json, name: Seq<char>, rest: Seq<char>)
    requires
        !name.contains('.'),
    ensures
        claim_at(j, name) == json::json_get(j, name),
        (forall|k: Seq<char>| k.contains('.') ==> json::json_get(j, k) is None) ==> claim_at(
            j,
            name + "."@ + rest,
        ) == (match json::json_get(j, name) {
            Some(inner) => claim_at(inner, rest),
            None => None,
        }),
{
    lemma_no_dot(j, name, name.len());
    if forall|k: Seq<char>| k.contains('.') ==> json::json_get(j, k) is None {
        let path = name + "."@ + rest;
        reveal_strlit(".");
        assert(path[name.len() as int] == '.');
        assert(path.contains('.'));
        lemma_one_dot(j, name, rest, path.len());
        lemma_no_dot_in(j, path, name.len());
    }
}

proof fn lemma_no_dot(j: Json, path: Seq<char>, end: nat)
    requires
        !path.contains('.'),
        end <= path.len(),
    ensures
        claim_split(j, path, end) is None,
    decreases end,
{
    if end > 0 {
        assert(path.contains(path[end - 1]));
        lemma_no_dot(j, path, (end - 1) as nat);
    }
}

proof fn lemma_no_dot_in(j: Json, path: Seq<char>, end: nat)
    requires
        end <= path.len(),
        forall|i: int| 0 <= i < end ==> path[i] != '.',
    ensures
        claim_split(j, path, end) is None,
    decreases end,
{
    if end > 0 {
        lemma_no_dot_in(j, path, (end - 1) as nat);
    }
}

proof fn lemma_one_dot(j: Json, name: Seq<char>, rest: Seq<char>, end: nat)
    requires
        !name.contains('.'),
        forall|k: Seq<char>| k.contains('.') ==> json::json_get(j, k) is None,
        name.len() < end <= name.len() + 1 + rest.len(),
    ensures
        claim_split(j, name + "."@ + rest, end) == (match json::json_get(j, name) {
            Some(inner) => claim_at(inner, rest),
            None => None,
        }),
    decreases end,
{
    reveal_strlit(".");
    let path = name + "."@ + rest;
    assert(path[name.len() as int] == '.');
    let dot = (end - 1) as nat;
    if end == name.len() + 1 {
        assert(path.take(dot as int) =~= name);
        assert(path.skip((dot + 1) as int) =~= rest);
        assert forall|i: int| 0 <= i < dot implies path[i] != '.' by {
            assert(name.contains(name[i]));
        }
        lemma_no_dot_in(j, path, dot);
    } else {
        if path[dot as int] == '.' {
            assert(path.take(dot as int)[name.len() as int] == '.');
            assert(path.take(dot as int).contains('.'));
        }
        lemma_one_dot(j, name, rest, dot);
    }
}

/// A text meets a text that equals it, and one with an asterisk at its end where it
/// begins with the rest; numbers and truth values are compared as they are written;
/// of a list of patterns, and of a list of values, one is enough.
pub proof fn law_claim_meets(pattern: Seq<char>, value: Seq<char>, ps: Seq<Json>, vs: Seq<Json>)
    ensures
        !pattern.contains('*') ==> claim_meets(Json::Str(pattern), Json::Str(value)) == (pattern
            == value),
        claim_meets(Json::Str(pattern.push('*')), Json::Str(value)) == pattern.is_prefix_of(value),
        !pattern.contains('*') ==> claim_meets(Json::Str(pattern), Json::Bool(true)) == (pattern
            == "true"@),
        !pattern.contains('*') ==> claim_meets(Json::Str(pattern), Json::Bool(false)) == (pattern
            == "false"@),
        !claim_meets(Json::Str(pattern), Json::Null),
        (exists|i: int|
            0 <= i < ps.len() && claim_meets(#[trigger] ps[i], Json::Str(value)) && ps[i] is Str)
            ==> claim_meets(Json::Arr(ps), Json::Str(value)),
        claim_meets(Json::Arr(ps), Json::Str(value)) ==> exists|i: int|
            0 <= i < ps.len() && claim_meets(#[trigger] ps[i], Json::Str(value)),
        (forall|i: int| 0 <= i < vs.len() ==> !(#[trigger] vs[i] is Arr)) ==> claim_meets(
            Json::Str(pattern),
            Json::Arr(vs),
        ) == (exists|i: int|
            0 <= i < vs.len() && claim_meets(Json::Str(pattern), #[trigger] vs[i])),
{
    x509::law_pattern(pattern, value);
    x509::law_pattern(pattern, "true"@);
    x509::law_pattern(pattern, "false"@);
    if forall|i: int| 0 <= i < vs.len() ==> !(#[trigger] vs[i] is Arr) {
        let p = Json::Str(pattern);
        if claim_meets(p, Json::Arr(vs)) {
            let i = choose|i: int| 0 <= i < vs.len() && value_meets(p, #[trigger] vs[i]);
            assert(!(vs[i] is Arr));
            assert(claim_meets(p, vs[i]));
        }
        if exists|i: int| 0 <= i < vs.len() && claim_meets(p, #[trigger] vs[i]) {
            let i = choose|i: int| 0 <= i < vs.len() && claim_meets(p, #[trigger] vs[i]);
            assert(!(vs[i] is Arr));
            assert(value_meets(p, vs[i]));
            let all = Json::Arr(vs);
            assert(all->Arr_0[i] == vs[i]);
            assert(value_meets(p, all->Arr_0[i]));
            assert(claim_meets(p, all));
        }
    }
    if claim_meets(Json::Arr(ps), Json::Str(value)) {
        let i = choose|i: int|
            0 <= i < ps.len() && (#[trigger] ps[i] matches Json::Str(p) && x509::pattern_matches(
                p,
                value,
            ));
        assert(claim_meets(ps[i], Json::Str(value)));
    }
}

/// A number meets the text that it is written as.
pub proof fn law_numbers_as_written(n: int, pattern: Seq<char>)
    requires
        !pattern.contains('*'),
    ensures
        claim_meets(Json::Str(pattern), Json::Int(n)) == (pattern == decimal::signed_numeral(n)),
{
    x509::law_pattern(pattern, decimal::signed_numeral(n));
}

/// A trust domain holds itself and what lies below it, and not what merely begins
/// with its name.
pub proof fn law_trust_domain(domain: Seq<char>, rest: Seq<char>, c: char)
    ensures
        in_domain(domain, domain),
        in_domain(domain + "/"@ + rest, domain),
        c != '/' ==> !in_domain(domain.push(c) + rest, domain),
{
    reveal_strlit("/");
    assert((domain + "/"@ + rest).take((domain + "/"@).len() as int) =~= domain + "/"@);
    if c != '/' {
        let s = domain.push(c) + rest;
        assert(s[domain.len() as int] == c);
        if (domain + "/"@).is_prefix_of(s) {
            assert((domain + "/"@)[domain.len() as int] == s[domain.len() as int]);
        }
    }
}

/// An assertion that meets what its issuer asks for is accepted, and one that does
/// not is refused. Each condition counts.
pub proof fn law_policy_decides(
    cfg: TrustedIssuer,
    payload: Json,
    sans: Seq<Seq<char>>,
    durable: JwkView,
    now: u64,
    usual_audience: Seq<char>,
    route: Seq<char>,
)
    ensures
        (judged(cfg, payload, sans, durable, now, usual_audience, route) is Ok) == ({
            &&& time_fault(payload, now) is None
            &&& has_audience(
                payload,
                if cfg.audience is Some {
                    cfg.audience->0@
                } else {
                    usual_audience
                },
            )
            &&& forall|i: int|
                0 <= i < cfg.required_claims@.len() ==> (claim_at(
                    payload,
                    (#[trigger] cfg.required_claims@[i]).0@,
                ) matches Some(v) && claim_meets(cfg.required_claims@[i].1@, v))
            &&& cfg.required_sans@.len() > 0 ==> exists|i: int, j: int|
                0 <= i < cfg.required_sans@.len() && 0 <= j < sans.len() && x509::pattern_matches(
                    (#[trigger] cfg.required_sans@[i])@,
                    #[trigger] sans[j],
                )
            &&& binding(payload, durable) is Ok
            &&& cfg.require_cnf_binding ==> binding(payload, durable) == Ok::<bool, Seq<char>>(
                true,
            )
            &&& forall|i: int|
                0 <= i < cfg.embed_claims@.len() ==> (claim_at(
                    payload,
                    (#[trigger] cfg.embed_claims@[i]).0@,
                ) matches Some(v) ==> !(v is Null) && !(v is Arr) && !(v is Obj))
        }),
{
    lemma_policy(cfg.required_claims@, payload);
    lemma_embeds(cfg.embed_claims@, payload);
    let patterns = text::list_view(cfg.required_sans@);
    if names_meet(patterns, sans) {
        let (i, j) = choose|i: int, j: int|
            0 <= i < patterns.len() && 0 <= j < sans.len() && x509::pattern_matches(
                #[trigger] patterns[i],
                #[trigger] sans[j],
            );
        assert(x509::pattern_matches(cfg.required_sans@[i]@, sans[j]));
    }
    if exists|i: int, j: int|
        0 <= i < cfg.required_sans@.len() && 0 <= j < sans.len() && x509::pattern_matches(
            (#[trigger] cfg.required_sans@[i])@,
            #[trigger] sans[j],
        ) {
        let (i, j) = choose|i: int, j: int|
            0 <= i < cfg.required_sans@.len() && 0 <= j < sans.len() && x509::pattern_matches(
                (#[trigger] cfg.required_sans@[i])@,
                #[trigger] sans[j],
            );
        assert(patterns[i] == cfg.required_sans@[i]@);
        assert(names_meet(patterns, sans));
    }
}

proof fn lemma_policy(claims: Seq<(String, JsonValue)>, payload: Json)
    ensures
        (policy_fault(claims, payload) is None) == (forall|i: int|
            0 <= i < claims.len() ==> (claim_at(payload, (#[trigger] claims[i]).0@) matches Some(v)
                && claim_meets(claims[i].1@, v))),
    decreases claims.len(),
{
    if claims.len() > 0 {
        let less = claims.drop_last();
        lemma_policy(less, payload);
        let met = |s: Seq<(String, JsonValue)>, i: int|
            claim_at(payload, s[i].0@) matches Some(v) && claim_meets(s[i].1@, v);
        if policy_fault(claims, payload) is None {
            assert forall|i: int| 0 <= i < claims.len() implies (claim_at(
                payload,
                (#[trigger] claims[i]).0@,
            ) matches Some(v) && claim_meets(claims[i].1@, v)) by {
                if i < claims.len() - 1 {
                    assert(less[i] == claims[i]);
                }
            }
        } else {
            if policy_fault(less, payload) is Some {
                let i = choose|i: int|
                    0 <= i < less.len() && !(claim_at(payload, (#[trigger] less[i]).0@) matches Some(
                        v,
                    ) && claim_meets(less[i].1@, v));
                assert(claims[i] == less[i]);
            } else {
                assert(claims[claims.len() - 1] == claims.last());
            }
        }
    }
}

proof fn lemma_embeds(claims: Seq<(String, JsonValue)>, payload: Json)
    ensures
        (embedded(claims, payload) is Ok) == (forall|i: int|
            0 <= i < claims.len() ==> (claim_at(payload, (#[trigger] claims[i]).0@) matches Some(v)
                ==> !(v is Null) && !(v is Arr) && !(v is Obj))),
    decreases claims.len(),
{
    if claims.len() > 0 {
        let less = claims.drop_last();
        lemma_embeds(less, payload);
        if embedded(claims, payload) is Ok {
            assert forall|i: int| 0 <= i < claims.len() implies (claim_at(
                payload,
                (#[trigger] claims[i]).0@,
            ) matches Some(v) ==> !(v is Null) && !(v is Arr) && !(v is Obj)) by {
                if i < claims.len() - 1 {
                    assert(less[i] == claims[i]);
                }
            }
        } else {
            if embedded(less, payload) is Err {
                let i = choose|i: int|
                    0 <= i < less.len() && !(claim_at(payload, (#[trigger] less[i]).0@) matches Some(
                        v,
                    ) ==> !(v is Null) && !(v is Arr) && !(v is Obj));
                assert(claims[i] == less[i]);
            } else {
                assert(claims[claims.len() - 1] == claims.last());
            }
        }
    }
}

/// What an accepted assertion gives is its issuer's: the name, the Person Server,
/// the label and the assurance, which is high for certificates and attested
/// workloads and medium for the rest where the issuer names none. The subject is
/// the assertion's.
pub proof fn law_verdict_is_the_issuers(
    cfg: TrustedIssuer,
    payload: Json,
    sans: Seq<Seq<char>>,
    durable: JwkView,
    now: u64,
    usual_audience: Seq<char>,
    route: Seq<char>,
)
    requires
        judged(cfg, payload, sans, durable, now, usual_audience, route) is Ok,
    ensures
        ({
            let v = judged(cfg, payload, sans, durable, now, usual_audience, route)->Ok_0;
            &&& v.issuer_name == cfg.name@
            &&& v.issuer == route
            &&& v.subject == json::str_member(payload, "sub"@)
            &&& (cfg.ps is Some) == (v.ps_pin is Some)
            &&& cfg.ps matches Some(p) ==> v.ps_pin == Some(p@)
            &&& (cfg.label is Some) == (v.label is Some)
            &&& cfg.label matches Some(l) ==> v.label == Some(l@)
            &&& cfg.assurance matches Some(a) ==> v.assurance == a@
            &&& cfg.assurance is None && (cfg.issuer_type@ == "x5c"@ || cfg.issuer_type@
                == "spiffe"@) ==> v.assurance == "high"@
            &&& cfg.assurance is None && cfg.issuer_type@ != "x5c"@ && cfg.issuer_type@
                != "spiffe"@ ==> v.assurance == "medium"@
        }),
{
}

/// An identifier that may be used once is remembered until the assertion expires.
/// What the issuer says goes; where it says nothing, a binding to a key makes the
/// memory needless.
pub proof fn law_identifier_is_remembered(
    cfg: TrustedIssuer,
    payload: Json,
    sans: Seq<Seq<char>>,
    durable: JwkView,
    now: u64,
    usual_audience: Seq<char>,
    route: Seq<char>,
)
    requires
        judged(cfg, payload, sans, durable, now, usual_audience, route) is Ok,
    ensures
        ({
            let v = judged(cfg, payload, sans, durable, now, usual_audience, route)->Ok_0;
            let bound = binding(payload, durable)->Ok_0;
            &&& v.consume_jti matches Some((jti, left)) ==> json::str_member(payload, "jti"@)
                == Some(jti) && json::i64_member(payload, "exp"@) == Some((now + left) as i64)
            &&& json::str_member(payload, "jti"@) is Some ==> (v.consume_jti is Some) == (
            cfg.single_use_jti == Some(true) || (cfg.single_use_jti is None && !bound))
            &&& json::str_member(payload, "jti"@) is None ==> v.consume_jti is None
        }),
{
}

/// A claim that is copied has the value that the assertion gives it.
pub proof fn law_embedded_values(claims: Seq<(String, JsonValue)>, payload: Json, i: int)
    requires
        embedded(claims, payload) is Ok,
        0 <= i < claims.len(),
        forall|j: int|
            0 <= j < claims.len() && j != i ==> config::target_name((#[trigger] claims[j]).1@)
                != config::target_name(claims[i].1@),
    ensures
        ({
            let m = embedded(claims, payload)->Ok_0;
            let target = config::target_name(claims[i].1@);
            match claim_at(payload, claims[i].0@) {
                Some(v) => m.dom().contains(target) && m[target] == v,
                None => !m.dom().contains(target),
            }
        }),
    decreases claims.len(),
{
    let less = claims.drop_last();
    let target = config::target_name(claims[i].1@);
    if i < claims.len() - 1 {
        assert(claims[claims.len() - 1] == claims.last());
        assert forall|j: int| 0 <= j < less.len() && j != i implies config::target_name(
            (#[trigger] less[j]).1@,
        ) != config::target_name(less[i].1@) by {
            assert(less[j] == claims[j]);
        }
        law_embedded_values(less, payload, i);
    } else {
        if embedded(less, payload)->Ok_0.dom().contains(target) {
            law_embedded_names(less, payload, target);
            let j = choose|j: int|
                0 <= j < less.len() && config::target_name((#[trigger] less[j]).1@) == target;
            assert(claims[j] == less[j]);
        }
    }
}

/// An assertion goes to the first issuer that it names: by the subject where that
/// is a SPIFFE identifier without a certificate chain, by its `iss` otherwise.
pub proof fn law_assertion_finds_its_issuer(
    issuers: Seq<IssuerRuntime>,
    t: JwtView,
    i: int,
    iss: Seq<char>,
    sub: Seq<char>,
)
    requires
        0 <= i < issuers.len(),
        anyjwk::is_supported_alg(t.header.alg),
    ensures
        !(json::str_member(t.payload, "sub"@) matches Some(s) && "spiffe://"@.is_prefix_of(s))
            && json::str_member(t.payload, "iss"@) == Some(iss) && issuers[i].cfg.issuer_type@
            != "spiffe"@ && issuers[i].cfg.issuer@ == iss ==> (routed(issuers, t) matches Ok((n, via))
            && n <= i && via == iss),
        json::str_member(t.payload, "sub"@) == Some(sub) && "spiffe://"@.is_prefix_of(sub)
            && t.header.x5c is None && issuers[i].cfg.issuer_type@ == "spiffe"@ && (
        issuers[i].cfg.trust_domain matches Some(td) && in_domain(
            sub,
            "spiffe://"@ + config::bare_domain(td@),
        )) ==> (routed(issuers, t) matches Ok((n, via)) && n <= i && via == sub),
{
    lemma_first_named(issuers, iss, i);
    lemma_first_spiffe(issuers, sub, i);
}

proof fn lemma_first_named(issuers: Seq<IssuerRuntime>, iss: Seq<char>, i: int)
    requires
        0 <= i < issuers.len(),
    ensures
        issuers[i].cfg.issuer_type@ != "spiffe"@ && issuers[i].cfg.issuer@ == iss ==> (
        issuer_named(issuers, iss) matches Some(n) && n <= i),
    decreases issuers.len(),
{
    lemma_issuer_named(issuers.drop_last(), iss);
    if i < issuers.len() - 1 {
        lemma_first_named(issuers.drop_last(), iss, i);
    }
}

proof fn lemma_first_spiffe(issuers: Seq<IssuerRuntime>, sub: Seq<char>, i: int)
    requires
        0 <= i < issuers.len(),
    ensures
        issuers[i].cfg.issuer_type@ == "spiffe"@ && (issuers[i].cfg.trust_domain matches Some(td)
            && in_domain(sub, "spiffe://"@ + config::bare_domain(td@))) ==> (spiffe_issuer(
            issuers,
            sub,
        ) matches Some(n) && n <= i),
    decreases issuers.len(),
{
    lemma_spiffe_issuer(issuers.drop_last(), sub);
    if i < issuers.len() - 1 {
        lemma_first_spiffe(issuers.drop_last(), sub, i);
    }
}

/// An assertion counts only where its signature holds: under one of the keys of the
/// issuer, or, for issuers of certificates, under that of the certificate which it
/// brings along.
pub proof fn law_assertion_is_signed(
    rt: IssuerRuntime,
    t: JwtView,
    keys: Result<Seq<AnyJwkView>, Seq<char>>,
    now: u64,
)
    ensures
        rt.cfg.issuer_type@ != "x5c"@ ==> (signature_verdict(rt, t, keys, now) is Ok) == (keys is Ok
            && exists|i: int|
            0 <= i < keys->Ok_0.len() && anyjwk::holds_under(
                #[trigger] keys->Ok_0[i],
                t.header.alg,
                vstd::utf8::encode_utf8(t.signing_input),
                t.signature,
            )),
        rt.cfg.issuer_type@ == "x5c"@ && (t.header.x5c is None || t.header.x5c->0.len() == 0)
            ==> signature_verdict(rt, t, keys, now) is Err,
{
}

/// Nothing but a good signature of a trusted issuer and its policy makes an
/// assertion good.
pub proof fn law_accepted_assertion(
    issuers: Seq<IssuerRuntime>,
    assertion: Seq<char>,
    keys: Result<Seq<AnyJwkView>, Seq<char>>,
    durable: JwkView,
    now: u64,
    usual_audience: Seq<char>,
)
    requires
        assertion_verdict(issuers, assertion, keys, durable, now, usual_audience) is Ok,
    ensures
        ({
            let v = assertion_verdict(
                issuers,
                assertion,
                keys,
                durable,
                now,
                usual_audience,
            )->Ok_0;
            jwt::decoded_jwt(assertion) matches Some(t) && routed(issuers, t) matches Ok((i, via))
                && signature_verdict(issuers[i as int], t, keys, now) matches Ok(sans) && judged(
                issuers[i as int].cfg,
                t.payload,
                sans,
                durable,
                now,
                usual_audience,
                via,
            ) == Ok::<VerdictView, Seq<char>>(v)
        }),
{
}

/// What is wrong with an assertion's times is told.
pub proof fn law_time_faults_told(payload: Json, now: u64)
    ensures
        json::i64_member(payload, "exp"@) is None ==> time_fault(payload, now) == Some(
            "assertion missing exp claim"@,
        ),
        json::i64_member(payload, "exp"@) matches Some(exp) ==> (exp <= now ==> time_fault(
            payload,
            now,
        ) == Some("assertion expired"@)),
        json::i64_member(payload, "exp"@) matches Some(exp) ==> (json::i64_member(
            payload,
            "iat"@,
        ) matches Some(iat) ==> (now < exp && iat > now + 60 ==> time_fault(payload, now) == Some(
            "assertion iat is in the future"@,
        ))),
        json::i64_member(payload, "exp"@) matches Some(exp) ==> (json::i64_member(
            payload,
            "nbf"@,
        ) matches Some(nbf) ==> (json::i64_member(payload, "iat"@) is None && now < exp && nbf > now
            + 60 ==> time_fault(payload, now) == Some("assertion not yet valid (nbf)"@))),
{
}

/// What stops an assertion is told, the first thing first: its times, its
/// audience, the claims that are required, the names, and the binding.
pub proof fn law_judgement_in_order(
    cfg: TrustedIssuer,
    payload: Json,
    sans: Seq<Seq<char>>,
    durable: JwkView,
    now: u64,
    usual: Seq<char>,
    route: Seq<char>,
)
    ensures
        time_fault(payload, now) matches Some(e) ==> judged(
            cfg,
            payload,
            sans,
            durable,
            now,
            usual,
            route,
        ) == Err::<VerdictView, Seq<char>>(e),
        time_fault(payload, now) is None && !has_audience(payload, wanted_audience(cfg, usual))
            ==> judged(cfg, payload, sans, durable, now, usual, route) == Err::<
            VerdictView,
            Seq<char>,
        >("assertion aud does not include '"@ + wanted_audience(cfg, usual) + "'"@),
        time_fault(payload, now) is None && has_audience(payload, wanted_audience(cfg, usual)) ==> (
        policy_fault(cfg.required_claims@, payload) matches Some(e) ==> judged(
            cfg,
            payload,
            sans,
            durable,
            now,
            usual,
            route,
        ) == Err::<VerdictView, Seq<char>>(e)),
        judged(cfg, payload, sans, durable, now, usual, route) is Ok && cfg.required_sans@.len() > 0
            ==> exists|i: int, j: int|
            0 <= i < cfg.required_sans@.len() && 0 <= j < sans.len() && x509::pattern_matches(
                #[trigger] text::list_view(cfg.required_sans@)[i],
                #[trigger] sans[j],
            ),
        judged(cfg, payload, sans, durable, now, usual, route) is Ok && cfg.require_cnf_binding
            ==> binding(payload, durable) == Ok::<bool, Seq<char>>(true),
{
}

/// A required claim that is missing and one of another value are told apart.
pub proof fn law_policy_faults_told(claims: Seq<(String, JsonValue)>, c: (String, JsonValue), payload: Json)
    requires
        policy_fault(claims, payload) is None,
    ensures
        claim_at(payload, c.0@) is None ==> policy_fault(claims.push(c), payload) == Some(
            "assertion missing required claim '"@ + c.0@ + "'"@,
        ),
        claim_at(payload, c.0@) matches Some(v) ==> (!claim_meets(c.1@, v) ==> policy_fault(
            claims.push(c),
            payload,
        ) == Some("assertion claim '"@ + c.0@ + "' does not satisfy policy"@)),
        claim_at(payload, c.0@) matches Some(v) ==> (claim_meets(c.1@, v) ==> policy_fault(
            claims.push(c),
            payload,
        ) is None),
{
    assert(claims.push(c).drop_last() =~= claims);
}

/// A binding to another key is told by how the assertion names it.
pub proof fn law_binding_faults_told(payload: Json, durable: JwkView, thumb: Seq<char>, cnf: Json)
    requires
        json::json_get(payload, "cnf"@) == Some(cnf),
        jwk::thumbprint_of(durable) == Ok::<Seq<char>, jwk::JwkError>(thumb),
    ensures
        json::json_get(cnf, "jwk"@) matches Some(v) ==> (jwk::jwk_from(v) is None ==> binding(
            payload,
            durable,
        ) == Err::<bool, Seq<char>>("assertion cnf.jwk is not a supported key"@)),
        json::json_get(cnf, "jwk"@) matches Some(v) ==> (jwk::jwk_from(v) matches Some(k) ==> (
        jwk::thumbprint_of(k) matches Ok(own) ==> (own != thumb ==> binding(payload, durable) == Err::<
            bool,
            Seq<char>,
        >("assertion cnf.jwk does not match the enrolling key"@)))),
        json::json_get(cnf, "jwk"@) is None ==> (json::str_member(cnf, "jkt"@) matches Some(jkt) ==> (
        jkt != thumb ==> binding(payload, durable) == Err::<bool, Seq<char>>(
            "assertion cnf.jkt does not match the enrolling key"@,
        ))),
{
}

/// The usual assurance of a kind of issuer.
pub proof fn law_usual_assurance(kind: Seq<char>)
    ensures
        usual_assurance(kind) == (if kind == "x5c"@ || kind == "spiffe"@ {
            "high"@
        } else {
            "medium"@
        }),
{
}

/// An assertion finds its issuer, or it is told why not.
pub proof fn law_routing_faults_told(issuers: Seq<IssuerRuntime>, t: JwtView)
    ensures
        !anyjwk::is_supported_alg(t.header.alg) ==> routed(issuers, t) == Err::<
            (nat, Seq<char>),
            Seq<char>,
        >("unsupported assertion algorithm '"@ + t.header.alg + "'"@),
        anyjwk::is_supported_alg(t.header.alg) && json::str_member(t.payload, "sub"@) is None
            && json::str_member(t.payload, "iss"@) is None ==> routed(issuers, t) == Err::<
            (nat, Seq<char>),
            Seq<char>,
        >("assertion missing iss claim"@),
        routed(issuers, t) matches Ok((i, via)) ==> json::str_member(t.payload, "iss"@) == Some(via)
            || json::str_member(t.payload, "sub"@) == Some(via),
{
}

/// A chain is read where every one of its texts is standard base64.
pub proof fn law_chain_read(s: Seq<Seq<char>>, t: Seq<char>, der: Seq<u8>)
    ensures
        chain_bytes(Seq::empty()) == Some(Seq::<Seq<u8>>::empty()),
        b64::decoded_std(t) == Some(der) ==> (chain_bytes(s) matches Some(c) ==> chain_bytes(s.push(t))
            == Some(c.push(der))),
        b64::decoded_std(t) is None ==> chain_bytes(s.push(t)) is None,
{
    assert(s.push(t).drop_last() =~= s);
}

/// A signature by certificates is judged by the chain of the header, against the
/// roots and the revocation lists of the issuer; one by keys finds no names.
pub proof fn law_signed_by_certificates(
    rt: IssuerRuntime,
    t: JwtView,
    keys: Result<Seq<AnyJwkView>, Seq<char>>,
    now: u64,
    texts: Seq<Seq<char>>,
    chain: Seq<Seq<u8>>,
)
    requires
        t.header.x5c == Some(texts),
        texts.len() > 0,
        chain_bytes(texts) == Some(chain),
    ensures
        rt.cfg.issuer_type@ == "x5c"@ ==> signature_verdict(rt, t, keys, now) == x509::x5c_verdict(
            chain,
            text::bytes_view(rt.ca_roots@),
            text::bytes_view(rt.crls@),
            now,
            t.header.alg,
            vstd::utf8::encode_utf8(t.signing_input),
            t.signature,
        ),
        rt.cfg.issuer_type@ != "x5c"@ ==> (signature_verdict(rt, t, keys, now) matches Ok(names)
            ==> names.len() == 0),
{
}

} // verus!
