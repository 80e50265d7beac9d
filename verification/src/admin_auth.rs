//! Who calls the admin API. A shared token proves only that the caller knows
//! it; a token of the identity provider names the operator. The shape of what
//! is presented says which of the two it is.

use vstd::prelude::*;

use crate::anyjwk;
use crate::anyjwk::{AnyJwk, AnyJwkView};
use crate::assertion;
use crate::config::{AdminOidcConfig, Config};
use crate::enrollment;
use crate::json;
use crate::json::{Json, JsonValue};
use crate::jwt;
use crate::jwt::{DecodedJwt, JwtView};
use crate::problem;
use crate::problem::{ApiError, ApiErrorView};
use crate::reqctx::{ReqCtx, ReqView};
use crate::sig;
use crate::text;

verus! {

/// The caller, as the audit log shows it.
pub struct AdminPrincipal {
    /// `oidc:` and a name, or `static-token`.
    pub actor: String,
}

/// A call that is not let in.
pub open spec fn refused_call(detail: Seq<char>) -> ApiErrorView {
    problem::api_error(problem::UNAUTHORIZED, "unauthorized"@, detail)
}

fn unauthorized(detail: &str) -> (r: ApiError)
    ensures
        r@ == refused_call(detail@),
{
    ApiError::new(problem::UNAUTHORIZED, "unauthorized", detail)
}

/// What a call presents.
pub enum AdminCredential {
    /// The shared token.
    Shared(AdminPrincipal),
    /// A token that the identity provider is to have issued.
    Issued(String),
}

/// The same, as mathematics has it.
pub enum CredentialView {
    Shared(Seq<char>),
    Issued(Seq<char>),
}

impl AdminCredential {
    /// What is presented.
    pub open spec fn view(&self) -> CredentialView {
        match self {
            AdminCredential::Shared(p) => CredentialView::Shared(p.actor@),
            AdminCredential::Issued(t) => CredentialView::Issued(t@),
        }
    }
}

/// What the `Authorization` header of a call bears.
pub open spec fn bearer(r: ReqView) -> Option<Seq<char>> {
    match sig::header_value(r.headers, "authorization"@) {
        Some(h) => text::without_prefix(h, "Bearer "@),
        None => None,
    }
}

/// What a call presents, or why it is not let in.
pub open spec fn presented(cfg: Config, r: ReqView) -> Result<CredentialView, ApiErrorView> {
    if cfg.admin_token is None && cfg.admin_oidc is None {
        Err(
            problem::not_found(
                "not_found"@,
                "admin API is disabled (configure admin_token or admin_oidc)"@,
            ),
        )
    } else {
        match bearer(r) {
            None => Err(refused_call("missing bearer credential"@)),
            Some(t) => if text::split_on(t, '.').len() == 3 && cfg.admin_oidc is Some {
                Ok(CredentialView::Issued(t))
            } else {
                match cfg.admin_token {
                    Some(own) => if own@ == t {
                        Ok(CredentialView::Shared("static-token"@))
                    } else {
                        Err(refused_call("invalid admin credential"@))
                    },
                    None => Err(
                        refused_call(
                            "this provider accepts only an identity-provider token on the admin API"@,
                        ),
                    ),
                }
            },
        }
    }
}

/// Reads what a call presents. A token of the identity provider is looked into
/// next; the shared token is compared in constant time.
pub fn authenticate(ctx: &ReqCtx, cfg: &Config) -> (r: Result<AdminCredential, ApiError>)
    ensures
        match r {
            Ok(c) => presented(*cfg, ctx@) == Ok::<CredentialView, ApiErrorView>(c@),
            Err(e) => presented(*cfg, ctx@) == Err::<CredentialView, ApiErrorView>(e@),
        },
{
    if cfg.admin_token.is_none() && cfg.admin_oidc.is_none() {
        return Err(
            ApiError::not_found(
                "not_found",
                "admin API is disabled (configure admin_token or admin_oidc)",
            ),
        );
    }
    let token = match ctx.header("authorization") {
        Some(h) => match text::strip_prefix(h.as_str(), "Bearer ") {
            Some(t) => t,
            None => {
                return Err(unauthorized("missing bearer credential"));
            },
        },
        None => {
            return Err(unauthorized("missing bearer credential"));
        },
    };
    let parts = text::split(token.as_str(), '.');
    if parts.len() == 3 && cfg.admin_oidc.is_some() {
        return Ok(AdminCredential::Issued(token));
    }
    match &cfg.admin_token {
        Some(own) => {
            proof {
                vstd::utf8::encode_utf8_decode_utf8(own@);
                vstd::utf8::encode_utf8_decode_utf8(token@);
            }
            if enrollment::constant_time_eq(token.as_str().as_bytes(), own.as_str().as_bytes()) {
                Ok(AdminCredential::Shared(AdminPrincipal { actor: "static-token".to_owned() }))
            } else {
                Err(unauthorized("invalid admin credential"))
            }
        },
        None => Err(
            unauthorized(
                "this provider accepts only an identity-provider token on the admin API",
            ),
        ),
    }
}

// ------------------------------------------- the identity provider's token

/// How far the clock of the identity provider may be ahead, in seconds.
pub const IDP_SKEW_SECS: u64 = 60;

/// Why a token is refused before any key is looked at: the issuer says whose
/// keys would be fetched, so it is checked first.
pub open spec fn claims_fault(cfg: AdminOidcConfig, t: JwtView, now: u64) -> Option<Seq<char>> {
    let exp = json::i64_member(t.payload, "exp"@);
    let iat = json::i64_member(t.payload, "iat"@);
    if !anyjwk::is_supported_alg(t.header.alg) {
        Some("unsupported admin token algorithm '"@ + t.header.alg + "'"@)
    } else if json::str_member(t.payload, "iss"@) is None {
        Some("admin token has no iss"@)
    } else if json::str_member(t.payload, "iss"@) != Some(cfg.issuer@) {
        Some("admin token was not issued by the trusted IdP"@)
    } else if !assertion::has_audience(t.payload, cfg.audience@) {
        Some("admin token audience does not name this provider"@)
    } else if exp is None {
        Some("admin token has no exp"@)
    } else if exp->0 <= now {
        Some("admin token expired"@)
    } else if iat is Some && iat->0 > now + IDP_SKEW_SECS {
        Some("admin token iat is in the future"@)
    } else if json::json_get(t.payload, "cnf"@) is Some {
        Some("this token is sender-constrained (cnf); apd validates bearer tokens only"@)
    } else {
        None
    }
}

fn check_claims(cfg: &AdminOidcConfig, t: &DecodedJwt, now: u64) -> (r: Result<(), String>)
    ensures
        text::fault_view(r) == claims_fault(*cfg, t@, now),
{
    let alg = t.header.alg.as_str();
    if !anyjwk::supported_alg(alg) {
        return Err(text::join3("unsupported admin token algorithm '", alg, "'"));
    }
    match t.payload.str_of("iss") {
        None => {
            return Err("admin token has no iss".to_owned());
        },
        Some(iss) => {
            if !text::same(iss.as_str(), cfg.issuer.as_str()) {
                return Err("admin token was not issued by the trusted IdP".to_owned());
            }
        },
    }
    if !assertion::aud_contains(&t.payload, cfg.audience.as_str()) {
        return Err("admin token audience does not name this provider".to_owned());
    }
    match t.payload.i64_of("exp") {
        None => {
            return Err("admin token has no exp".to_owned());
        },
        Some(exp) => {
            if exp as i128 <= now as i128 {
                return Err("admin token expired".to_owned());
            }
        },
    }
    if let Some(iat) = t.payload.i64_of("iat") {
        if iat as i128 > now as i128 + IDP_SKEW_SECS as i128 {
            return Err("admin token iat is in the future".to_owned());
        }
    }
    if t.payload.get("cnf").is_some() {
        return Err(
            "this token is sender-constrained (cnf); apd validates bearer tokens only".to_owned(),
        );
    }
    Ok(())
}

/// A token of the identity provider whose claims are in order, or why it is
/// none.
pub open spec fn idp_token(cfg: AdminOidcConfig, token: Seq<char>, now: u64) -> Result<
    JwtView,
    ApiErrorView,
> {
    match jwt::decoded_jwt(token) {
        None => Err(refused_call("malformed admin token"@)),
        Some(t) => match claims_fault(cfg, t, now) {
            Some(e) => Err(refused_call(e)),
            None => Ok(t),
        },
    }
}

/// Reads a token of the identity provider. The keys that fit its header are
/// looked up next.
pub fn read_idp_token(cfg: &AdminOidcConfig, token: &str, now: u64) -> (r: Result<
    DecodedJwt,
    ApiError,
>)
    ensures
        match r {
            Ok(t) => idp_token(*cfg, token@, now) == Ok::<JwtView, ApiErrorView>(t@),
            Err(e) => idp_token(*cfg, token@, now) == Err::<JwtView, ApiErrorView>(e@),
        },
{
    match jwt::decode(token) {
        Err(_) => Err(unauthorized("malformed admin token")),
        Ok(t) => match check_claims(cfg, &t, now) {
            Err(e) => Err(unauthorized(e.as_str())),
            Ok(_) => Ok(t),
        },
    }
}

/// The first required claim that a token does not meet. A claim that was not
/// sent and one of another value are told apart.
pub open spec fn gate_fault(claims: Seq<(String, JsonValue)>, payload: Json) -> Option<Seq<char>>
    decreases claims.len(),
{
    if claims.len() == 0 {
        None
    } else {
        match gate_fault(claims.drop_last(), payload) {
            Some(e) => Some(e),
            None => {
                let path = claims.last().0@;
                match assertion::claim_at(payload, path) {
                    None => Some(
                        "admin token has no '"@ + path
                            + "' claim; the identity provider is not sending it"@,
                    ),
                    Some(v) => if assertion::claim_meets(claims.last().1@, v) {
                        None
                    } else {
                        Some(
                            "admin token claim '"@ + path + "' does not have a permitted value"@,
                        )
                    },
                }
            },
        }
    }
}

proof fn lemma_gate_prefix(claims: Seq<(String, JsonValue)>, payload: Json, n: int)
    requires
        0 <= n <= claims.len(),
        gate_fault(claims.take(n), payload) is Some,
    ensures
        gate_fault(claims, payload) == gate_fault(claims.take(n), payload),
    decreases claims.len() - n,
{
    if n < claims.len() {
        assert(claims.take(n + 1).drop_last() =~= claims.take(n));
        lemma_gate_prefix(claims, payload, n + 1);
    } else {
        assert(claims.take(n) =~= claims);
    }
}

fn check_gate(claims: &Vec<(String, JsonValue)>, payload: &JsonValue) -> (r: Result<(), String>)
    ensures
        text::fault_view(r) == gate_fault(claims@, payload@),
{
    let mut i: usize = 0;
    proof {
        assert(claims@.take(0) =~= Seq::empty());
    }
    while i < claims.len()
        invariant
            i <= claims@.len(),
            gate_fault(claims@.take(i as int), payload@) is None,
        decreases claims@.len() - i,
    {
        proof {
            assert(claims@.take(i + 1).drop_last() =~= claims@.take(i as int));
            assert(claims@.take(i + 1).last() == claims@[i as int]);
        }
        let path = claims[i].0.as_str();
        match assertion::lookup_claim(payload, path) {
            None => {
                proof {
                    lemma_gate_prefix(claims@, payload@, i + 1);
                }
                return Err(
                    text::join3(
                        "admin token has no '",
                        path,
                        "' claim; the identity provider is not sending it",
                    ),
                );
            },
            Some(v) => {
                if !assertion::claim_matches(&claims[i].1, v) {
                    proof {
                        lemma_gate_prefix(claims@, payload@, i + 1);
                    }
                    return Err(
                        text::join3(
                            "admin token claim '",
                            path,
                            "' does not have a permitted value",
                        ),
                    );
                }
            },
        }
        i += 1;
    }
    proof {
        assert(claims@.take(claims@.len() as int) =~= claims@);
    }
    Ok(())
}

/// The name of the operator: the claim that the configuration picks, else `sub`.
pub open spec fn operator(cfg: AdminOidcConfig, payload: Json) -> Seq<char> {
    match json::str_member(payload, cfg.principal_claim@) {
        Some(s) => s,
        None => match json::str_member(payload, "sub"@) {
            Some(s) => s,
            None => "unknown"@,
        },
    }
}

/// The operator that a token lets in, or why it lets none in. Knowing who calls
/// is not enough: the required claims say who may.
pub open spec fn let_in(
    cfg: AdminOidcConfig,
    t: JwtView,
    keys: Result<Seq<AnyJwkView>, Seq<char>>,
) -> Result<Seq<char>, ApiErrorView> {
    match keys {
        Err(e) => Err(refused_call("cannot resolve admin IdP keys: "@ + e)),
        Ok(ks) => if !anyjwk::any_holds(
            ks,
            t.header.alg,
            vstd::utf8::encode_utf8(t.signing_input),
            t.signature,
        ) {
            Err(refused_call("admin token signature verification failed"@))
        } else {
            match gate_fault(cfg.required_claims@, t.payload) {
                Some(e) => Err(problem::forbidden("forbidden"@, e)),
                None => Ok("oidc:"@ + operator(cfg, t.payload)),
            }
        },
    }
}

/// The view of looked up keys.
pub open spec fn found_keys(r: Result<Vec<AnyJwk>, String>) -> Result<Seq<AnyJwkView>, Seq<char>> {
    match r {
        Ok(v) => Ok(anyjwk::keys_view(v@)),
        Err(e) => Err(e@),
    }
}

/// Verifies a token of the identity provider with the keys that were found, and
/// decides whether its subject may administer.
pub fn verify_oidc(cfg: &AdminOidcConfig, t: &DecodedJwt, keys: &Result<Vec<AnyJwk>, String>) -> (r:
    Result<AdminPrincipal, ApiError>)
    ensures
        match r {
            Ok(p) => let_in(*cfg, t@, found_keys(*keys)) == Ok::<Seq<char>, ApiErrorView>(p.actor@),
            Err(e) => let_in(*cfg, t@, found_keys(*keys)) == Err::<Seq<char>, ApiErrorView>(e@),
        },
{
    let ks = match keys {
        Ok(v) => v,
        Err(e) => {
            return Err(
                unauthorized(text::join2("cannot resolve admin IdP keys: ", e.as_str()).as_str()),
            );
        },
    };
    if !anyjwk::verify_any(
        ks,
        t.header.alg.as_str(),
        t.signing_input.as_str().as_bytes(),
        t.signature.as_slice(),
    ) {
        return Err(unauthorized("admin token signature verification failed"));
    }
    if let Err(e) = check_gate(&cfg.required_claims, &t.payload) {
        return Err(ApiError::forbidden("forbidden", e.as_str()));
    }
    let subject = match t.payload.str_of(cfg.principal_claim.as_str()) {
        Some(s) => s.clone(),
        None => match t.payload.str_of("sub") {
            Some(s) => s.clone(),
            None => "unknown".to_owned(),
        },
    };
    Ok(AdminPrincipal { actor: text::join2("oidc:", subject.as_str()) })
}

// ------------------------------------------------------------------ laws

/// Without a credential in the configuration nobody is let in.
pub proof fn law_disabled_without_credentials(cfg: Config, r: ReqView)
    requires
        cfg.admin_token is None,
        cfg.admin_oidc is None,
    ensures
        presented(cfg, r) is Err,
{
}

/// The shared token lets in only what equals it.
pub proof fn law_shared_token_is_equal(cfg: Config, r: ReqView)
    ensures
        presented(cfg, r) matches Ok(CredentialView::Shared(actor)) ==> actor == "static-token"@
            && (cfg.admin_token matches Some(own) && bearer(r) == Some(own@)),
{
}

/// Whoever an identity provider's token lets in is named by it, is meant for
/// this provider by the trusted issuer, and meets every required claim.
pub proof fn law_let_in_is_entitled(
    cfg: AdminOidcConfig,
    token: Seq<char>,
    now: u64,
    keys: Result<Seq<AnyJwkView>, Seq<char>>,
    i: int,
)
    requires
        idp_token(cfg, token, now) is Ok,
        let_in(cfg, idp_token(cfg, token, now)->Ok_0, keys) is Ok,
        0 <= i < cfg.required_claims@.len(),
    ensures
        ({
            let t = idp_token(cfg, token, now)->Ok_0;
            &&& json::str_member(t.payload, "iss"@) == Some(cfg.issuer@)
            &&& assertion::has_audience(t.payload, cfg.audience@)
            &&& (json::i64_member(t.payload, "exp"@) matches Some(exp) && exp > now)
            &&& (assertion::claim_at(t.payload, cfg.required_claims@[i].0@) matches Some(v)
                && assertion::claim_meets(cfg.required_claims@[i].1@, v))
        }),
{
    lemma_gate_met(cfg.required_claims@, idp_token(cfg, token, now)->Ok_0.payload, i);
}

proof fn lemma_gate_met(claims: Seq<(String, JsonValue)>, payload: Json, i: int)
    requires
        gate_fault(claims, payload) is None,
        0 <= i < claims.len(),
    ensures
        assertion::claim_at(payload, claims[i].0@) matches Some(v) && assertion::claim_meets(
            claims[i].1@,
            v,
        ),
    decreases claims.len(),
{
    if i < claims.len() - 1 {
        assert(claims.drop_last()[i] == claims[i]);
        lemma_gate_met(claims.drop_last(), payload, i);
    }
}

/// A call bears what follows `Bearer ` in its `Authorization` header, and
/// nothing where the header says anything else.
pub proof fn law_bearer(r: ReqView, t: Seq<char>)
    ensures
        (bearer(r) == Some(t)) == (sig::header_value(r.headers, "authorization"@) == Some(
            "Bearer "@ + t,
        )),
{
    reveal_strlit("Bearer ");
    assert(("Bearer "@ + t).skip(7) =~= t);
    assert("Bearer "@.is_prefix_of("Bearer "@ + t));
    if bearer(r) == Some(t) {
        let h = sig::header_value(r.headers, "authorization"@)->0;
        assert(h =~= "Bearer "@ + t);
    }
}

/// A call is let in by the shared token where it equals it, and is looked into
/// where it bears three parts and an identity provider is trusted; whatever else
/// it presents is answered with 401, and with 404 where the interface is off.
pub proof fn law_presented(cfg: Config, r: ReqView, t: Seq<char>)
    ensures
        cfg.admin_token is None && cfg.admin_oidc is None ==> (presented(cfg, r) matches Err(e)
            && e.status == 404),
        (cfg.admin_token is Some || cfg.admin_oidc is Some) && bearer(r) is None ==> (presented(
            cfg,
            r,
        ) matches Err(e) && e.status == 401 && e.error == "unauthorized"@),
        cfg.admin_oidc is Some && bearer(r) == Some(t) && text::split_on(t, '.').len() == 3
            ==> presented(cfg, r) == Ok::<CredentialView, ApiErrorView>(CredentialView::Issued(t)),
        cfg.admin_token matches Some(own) ==> (bearer(r) == Some(t) && (cfg.admin_oidc is None
            || text::split_on(t, '.').len() != 3) ==> (if own@ == t {
            presented(cfg, r) == Ok::<CredentialView, ApiErrorView>(
                CredentialView::Shared("static-token"@),
            )
        } else {
            presented(cfg, r) matches Err(e) && e.status == 401 && e.error == "unauthorized"@
        })),
        presented(cfg, r) matches Ok(CredentialView::Issued(x)) ==> bearer(r) == Some(x)
            && cfg.admin_oidc is Some,
{
}

/// The claims of a token are in order exactly where a supported algorithm made
/// it, the trusted issuer issued it for this provider, its time is not over and
/// did not begin more than a minute ahead, and it is no token of a key's holder.
pub proof fn law_claims_in_order(cfg: AdminOidcConfig, t: JwtView, now: u64)
    ensures
        claims_fault(cfg, t, now) is None == {
            &&& anyjwk::is_supported_alg(t.header.alg)
            &&& json::str_member(t.payload, "iss"@) == Some(cfg.issuer@)
            &&& assertion::has_audience(t.payload, cfg.audience@)
            &&& (json::i64_member(t.payload, "exp"@) matches Some(exp) && now < exp)
            &&& (json::i64_member(t.payload, "iat"@) matches Some(iat) ==> iat <= now + 60)
            &&& json::json_get(t.payload, "cnf"@) is None
        },
{
}

/// A token that is malformed or out of order is answered with 401.
pub proof fn law_bad_token_refused(cfg: AdminOidcConfig, token: Seq<char>, now: u64)
    ensures
        idp_token(cfg, token, now) matches Err(e) ==> e.status == 401 && e.error
            == "unauthorized"@ && e.headers.len() == 0,
        idp_token(cfg, token, now) matches Ok(t) ==> jwt::decoded_jwt(token) == Some(t),
        jwt::decoded_jwt(token) is None ==> idp_token(cfg, token, now) is Err,
{
}

/// Entry is granted exactly where every required claim is there with a
/// permitted value.
pub proof fn law_gate(claims: Seq<(String, JsonValue)>, payload: Json)
    ensures
        gate_fault(claims, payload) is None == (forall|i: int|
            0 <= i < claims.len() ==> (assertion::claim_at(
                payload,
                (#[trigger] claims[i]).0@,
            ) matches Some(v) && assertion::claim_meets(claims[i].1@, v))),
    decreases claims.len(),
{
    if claims.len() > 0 {
        let less = claims.drop_last();
        law_gate(less, payload);
        assert forall|i: int| 0 <= i < less.len() implies less[i] == claims[i] by {}
        assert(claims.last() == claims[claims.len() - 1]);
        if gate_fault(claims, payload) is None {
            assert forall|i: int| 0 <= i < claims.len() implies (assertion::claim_at(
                payload,
                (#[trigger] claims[i]).0@,
            ) matches Some(v) && assertion::claim_meets(claims[i].1@, v)) by {
                if i < less.len() {
                    assert(less[i] == claims[i]);
                }
            }
        }
        if forall|i: int|
            0 <= i < claims.len() ==> (assertion::claim_at(
                payload,
                (#[trigger] claims[i]).0@,
            ) matches Some(v) && assertion::claim_meets(claims[i].1@, v)) {
            assert forall|i: int| 0 <= i < less.len() implies (assertion::claim_at(
                payload,
                (#[trigger] less[i]).0@,
            ) matches Some(v) && assertion::claim_meets(less[i].1@, v)) by {
                assert(less[i] == claims[i]);
            }
        }
    }
}

/// An operator is named by the claim that the configuration picks, else by the
/// subject.
pub proof fn law_operator(cfg: AdminOidcConfig, payload: Json, s: Seq<char>)
    ensures
        json::str_member(payload, cfg.principal_claim@) == Some(s) ==> operator(cfg, payload) == s,
        json::str_member(payload, cfg.principal_claim@) is None && json::str_member(payload, "sub"@)
            == Some(s) ==> operator(cfg, payload) == s,
        json::str_member(payload, cfg.principal_claim@) is None && json::str_member(
            payload,
            "sub"@,
        ) is None ==> operator(cfg, payload) == "unknown"@,
{
}

/// Whoever is let in signed with one of the trusted keys and meets every claim, and
/// is named. One who is known but not entitled is answered with 403, one whose
/// signature does not hold with 401.
pub proof fn law_let_in(
    cfg: AdminOidcConfig,
    t: JwtView,
    ks: Seq<AnyJwkView>,
    why: Seq<char>,
)
    ensures
        ({
            let holds = anyjwk::any_holds(
                ks,
                t.header.alg,
                vstd::utf8::encode_utf8(t.signing_input),
                t.signature,
            );
            let keys = Ok::<Seq<AnyJwkView>, Seq<char>>(ks);
            &&& holds && gate_fault(cfg.required_claims@, t.payload) is None ==> let_in(
                cfg,
                t,
                keys,
            ) == Ok::<Seq<char>, ApiErrorView>("oidc:"@ + operator(cfg, t.payload))
            &&& holds && gate_fault(cfg.required_claims@, t.payload) is Some ==> (let_in(
                cfg,
                t,
                keys,
            ) matches Err(e) && e.status == 403 && e.error == "forbidden"@)
            &&& !holds ==> (let_in(cfg, t, keys) matches Err(e) && e.status == 401 && e.error
                == "unauthorized"@)
        }),
        let_in(cfg, t, Err::<Seq<AnyJwkView>, Seq<char>>(why)) matches Err(e) && e.status == 401,
{
}

/// What is wrong with a token is told, the first thing first.
pub proof fn law_admin_faults_told(cfg: AdminOidcConfig, t: JwtView, now: u64)
    requires
        anyjwk::is_supported_alg(t.header.alg),
    ensures
        json::str_member(t.payload, "iss"@) is None ==> claims_fault(cfg, t, now) == Some(
            "admin token has no iss"@,
        ),
        json::str_member(t.payload, "iss"@) matches Some(iss) ==> (iss != cfg.issuer@
            ==> claims_fault(cfg, t, now) == Some("admin token was not issued by the trusted IdP"@)),
        json::str_member(t.payload, "iss"@) == Some(cfg.issuer@) && !assertion::has_audience(
            t.payload,
            cfg.audience@,
        ) ==> claims_fault(cfg, t, now) == Some("admin token audience does not name this provider"@),
        json::str_member(t.payload, "iss"@) == Some(cfg.issuer@) && assertion::has_audience(
            t.payload,
            cfg.audience@,
        ) ==> (json::i64_member(t.payload, "exp"@) matches Some(exp) ==> (exp <= now
            ==> claims_fault(cfg, t, now) == Some("admin token expired"@))),
        json::str_member(t.payload, "iss"@) == Some(cfg.issuer@) && assertion::has_audience(
            t.payload,
            cfg.audience@,
        ) && json::i64_member(t.payload, "exp"@) is None ==> claims_fault(cfg, t, now) == Some(
            "admin token has no exp"@,
        ),
{
}

/// A required claim that was not sent and one of another value are told apart.
pub proof fn law_gate_faults_told(claims: Seq<(String, JsonValue)>, c: (String, JsonValue), payload: Json)
    requires
        gate_fault(claims, payload) is None,
    ensures
        assertion::claim_at(payload, c.0@) is None ==> gate_fault(claims.push(c), payload) == Some(
            "admin token has no '"@ + c.0@ + "' claim; the identity provider is not sending it"@,
        ),
        assertion::claim_at(payload, c.0@) matches Some(v) ==> (!assertion::claim_meets(c.1@, v)
            ==> gate_fault(claims.push(c), payload) == Some(
            "admin token claim '"@ + c.0@ + "' does not have a permitted value"@,
        )),
{
    assert(claims.push(c).drop_last() =~= claims);
}

} // verus!
