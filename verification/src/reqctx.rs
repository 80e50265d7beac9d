//! A request, and who signed it: the signature is verified, and the signer
//! resolved, for the schemes that the provider's endpoints accept.

use vstd::prelude::*;

use crate::config::Config;
use crate::json;
use crate::json::{Json, JsonValue};
use crate::jwk::{Jwk, JwkView};
use crate::jwt;
use crate::jwt::{DecodedJwt, JwtView};
use crate::keys;
use crate::keys::KeySet;
use crate::problem;
use crate::problem::{ApiError, ApiErrorView};
use crate::sig;
use crate::sig::{
    ParsedView, PartsView, PolicyView, RequestParts, SchemeView, SigError, SigErrorCode,
    SigKeyScheme, VerifyPolicy,
};
use crate::sigkey;
use crate::text;
use crate::tokens;
use crate::tokens::{AgentClaimsView, AgentTokenClaims};

verus! {

/// A request with its body.
pub struct ReqCtx {
    pub method: String,
    pub authority: String,
    pub path: String,
    /// With its question mark; empty where there is none.
    pub query: String,
    /// Names in lower case.
    pub headers: Vec<(String, String)>,
    pub body: Vec<u8>,
}

/// What a [`ReqCtx`] holds.
pub struct ReqView {
    pub method: Seq<char>,
    pub authority: Seq<char>,
    pub path: Seq<char>,
    pub query: Seq<char>,
    pub headers: Seq<(Seq<char>, Seq<char>)>,
    pub body: Seq<u8>,
}

/// An authority in the form that is signed: lower case, without the scheme's
/// own port.
pub open spec fn canonical_authority(a: Seq<char>, https: bool) -> Seq<char> {
    let named = text::lowered(a);
    let port = if https {
        ":443"@
    } else {
        ":80"@
    };
    match text::without_suffix(named, port) {
        Some(host) => host,
        None => named,
    }
}

/// The authority that a request names: its host header, else its target.
pub open spec fn named_authority(
    host: Option<Seq<char>>,
    target: Option<Seq<char>>,
    https: bool,
) -> Seq<char> {
    match (host, target) {
        (Some(h), _) => canonical_authority(h, https),
        (None, Some(t)) => canonical_authority(t, https),
        (None, None) => Seq::empty(),
    }
}

/// Header names in lower case.
pub open spec fn lowered_names(headers: Seq<(Seq<char>, Seq<char>)>) -> Seq<
    (Seq<char>, Seq<char>),
> {
    headers.map_values(|h: (Seq<char>, Seq<char>)| (text::lowered(h.0), h.1))
}

fn canonical(a: &str, https: bool) -> (r: String)
    ensures
        r@ == canonical_authority(a@, https),
{
    let named = text::to_ascii_lowercase(a);
    let port = if https {
        ":443"
    } else {
        ":80"
    };
    match text::strip_suffix(named.as_str(), port) {
        Some(host) => host,
        None => named,
    }
}

/// The error for a body that is too large or does not arrive.
pub fn body_unreadable() -> (r: ApiError)
    ensures
        r@ == problem::api_error(
            problem::PAYLOAD_TOO_LARGE,
            "invalid_request"@,
            "request body too large or unreadable"@,
        ),
{
    ApiError::new(
        problem::PAYLOAD_TOO_LARGE,
        "invalid_request",
        "request body too large or unreadable",
    )
}

impl ReqCtx {
    /// What the request holds.
    pub open spec fn view(&self) -> ReqView {
        ReqView {
            method: self.method@,
            authority: self.authority@,
            path: self.path@,
            query: self.query@,
            headers: problem::headers_view(self.headers@),
            body: self.body@,
        }
    }

    /// A request from what came over the wire. `headers` are those whose values
    /// are texts.
    pub fn read(
        method: &str,
        path: &str,
        query: Option<&str>,
        host: Option<&str>,
        target: Option<&str>,
        headers: &Vec<(String, String)>,
        body: Vec<u8>,
        https: bool,
    ) -> (r: ReqCtx)
        ensures
            r@ == (ReqView {
                method: method@,
                authority: named_authority(
                    jwt::opt_str_view(host),
                    jwt::opt_str_view(target),
                    https,
                ),
                path: path@,
                query: match query {
                    Some(q) => "?"@ + q@,
                    None => Seq::empty(),
                },
                headers: lowered_names(problem::headers_view(headers@)),
                body: body@,
            }),
    {
        let authority = match host {
            Some(h) => canonical(h, https),
            None => match target {
                Some(t) => canonical(t, https),
                None => String::new(),
            },
        };
        let query = match query {
            Some(q) => text::join2("?", q),
            None => String::new(),
        };
        let mut named: Vec<(String, String)> = Vec::new();
        let mut i: usize = 0;
        while i < headers.len()
            invariant
                i <= headers@.len(),
                named@.len() == i,
                forall|j: int|
                    0 <= j < i ==> (#[trigger] named@[j]).0@ == text::lowered(headers@[j].0@)
                        && named@[j].1@ == headers@[j].1@,
            decreases headers@.len() - i,
        {
            named.push((text::to_ascii_lowercase(headers[i].0.as_str()), headers[i].1.clone()));
            i += 1;
        }
        proof {
            assert(problem::headers_view(named@) =~= lowered_names(
                problem::headers_view(headers@),
            ));
            assert(authority@ =~= named_authority(
                jwt::opt_str_view(host),
                jwt::opt_str_view(target),
                https,
            ));
        }
        ReqCtx {
            method: method.to_owned(),
            authority,
            path: path.to_owned(),
            query,
            headers: named,
            body,
        }
    }

    /// The value of a header: several are joined by commas.
    pub fn header(&self, name: &str) -> (r: Option<String>)
        ensures
            text::opt_view(r) == sig::header_value(self@.headers, name@),
    {
        sig::lookup_header(&self.headers, name)
    }

    /// The body as JSON; an empty body is an empty object.
    pub fn parse_json(&self) -> (r: Result<JsonValue, ApiError>)
        ensures
            match r {
                Ok(v) => body_json(self@) == Ok::<Json, ApiErrorView>(v@),
                Err(e) => body_json(self@) == Err::<Json, ApiErrorView>(e@),
            },
    {
        if self.body.len() == 0 {
            return Ok(JsonValue::object());
        }
        match json::parse(self.body.as_slice()) {
            Ok(v) => Ok(v),
            Err(e) => Err(
                ApiError::bad_request(
                    "invalid_request",
                    text::join2("invalid JSON body: ", e.as_str()).as_str(),
                ),
            ),
        }
    }
}

/// The body of a request as JSON.
pub open spec fn body_json(r: ReqView) -> Result<Json, ApiErrorView> {
    if r.body.len() == 0 {
        Ok(Json::Obj(Map::empty()))
    } else {
        match json::json_parsed(r.body) {
            Some(v) => Ok(v),
            None => Err(
                problem::bad_request(
                    "invalid_request"@,
                    "invalid JSON body: "@ + json::json_error(r.body),
                ),
            ),
        }
    }
}

/// Who signed a request.
pub enum Signer {
    /// A key that was sent along: at enrollment, and to refresh with one key.
    Hwk { jwk: Jwk },
    /// An ephemeral key that a durable key names.
    JktJwt { durable_jkt: String, ephemeral_jwk: Jwk, jti: Option<String> },
    /// The holder of one of the provider's agent tokens.
    AgentToken { claims: AgentTokenClaims, signing_jwk: Jwk },
}

/// What a [`Signer`] holds.
pub enum SignerView {
    Hwk { jwk: JwkView },
    JktJwt { durable_jkt: Seq<char>, ephemeral_jwk: JwkView, jti: Option<Seq<char>> },
    AgentToken { claims: AgentClaimsView, signing_jwk: JwkView },
}

impl Signer {
    /// What the signer holds.
    pub open spec fn view(&self) -> SignerView {
        match self {
            Signer::Hwk { jwk } => SignerView::Hwk { jwk: jwk@ },
            Signer::JktJwt { durable_jkt, ephemeral_jwk, jti } => SignerView::JktJwt {
                durable_jkt: durable_jkt@,
                ephemeral_jwk: ephemeral_jwk@,
                jti: text::opt_view(*jti),
            },
            Signer::AgentToken { claims, signing_jwk } => SignerView::AgentToken {
                claims: claims@,
                signing_jwk: signing_jwk@,
            },
        }
    }
}

/// A refused token.
pub open spec fn bad_jwt(detail: Seq<char>) -> ApiErrorView {
    problem::refused(sig::sig_error(SigErrorCode::InvalidJwt, detail))
}

/// The claims of one of the provider's agent tokens, or why it is none. The
/// token is verified with the provider's own keys; nothing is fetched.
pub open spec fn local_claims(
    keyset: KeySet,
    t: JwtView,
    now: u64,
    insecure: bool,
) -> Result<AgentClaimsView, ApiErrorView> {
    match t.header.kid {
        None => Err(bad_jwt("agent token missing kid"@)),
        Some(kid) => match keys::key_named(keys::jwks_view(keyset.public_jwks@), kid) {
            None => Err(
                problem::refused(
                    sig::sig_error(
                        SigErrorCode::UnknownKey,
                        "agent token kid not issued by this provider"@,
                    ),
                ),
            ),
            Some(key) => match jwt::jwt_check(t, key) {
                Err(_) => Err(bad_jwt("agent token signature invalid"@)),
                Ok(_) => match tokens::agent_claims(t, now, insecure) {
                    Ok(c) => Ok(c),
                    Err(e) => Err(
                        problem::refused(
                            sig::sig_error(
                                if e.expired {
                                    SigErrorCode::ExpiredJwt
                                } else {
                                    SigErrorCode::InvalidJwt
                                },
                                e.detail,
                            ),
                        ),
                    ),
                },
            },
        },
    }
}

fn jwt_error(detail: &str) -> (r: ApiError)
    ensures
        r@ == bad_jwt(detail@),
{
    ApiError::from_sig_error(SigError::new(SigErrorCode::InvalidJwt, detail))
}

/// The error that a refused token is answered with.
pub fn token_refused(e: &tokens::TokenError) -> (r: ApiError)
    ensures
        r@ == problem::refused(
            sig::sig_error(
                if e.expired {
                    SigErrorCode::ExpiredJwt
                } else {
                    SigErrorCode::InvalidJwt
                },
                e.detail@,
            ),
        ),
{
    let code = if e.expired {
        SigErrorCode::ExpiredJwt
    } else {
        SigErrorCode::InvalidJwt
    };
    ApiError::from_sig_error(SigError::new(code, e.detail.as_str()))
}

/// Verifies that a token is one of the provider's agent tokens.
pub fn verify_local_agent_token(keyset: &KeySet, t: &DecodedJwt, now: u64, insecure: bool) -> (r:
    Result<AgentTokenClaims, ApiError>)
    ensures
        match r {
            Ok(c) => local_claims(*keyset, t@, now, insecure) == Ok::<
                AgentClaimsView,
                ApiErrorView,
            >(c@),
            Err(e) => local_claims(*keyset, t@, now, insecure) == Err::<
                AgentClaimsView,
                ApiErrorView,
            >(e@),
        },
{
    let kid = match &t.header.kid {
        Some(k) => k,
        None => {
            return Err(jwt_error("agent token missing kid"));
        },
    };
    let key = match keyset.find_public(kid.as_str()) {
        Some(k) => k,
        None => {
            return Err(
                ApiError::from_sig_error(
                    SigError::new(
                        SigErrorCode::UnknownKey,
                        "agent token kid not issued by this provider",
                    ),
                ),
            );
        },
    };
    if jwt::verify_with_jwk(t, key).is_err() {
        return Err(jwt_error("agent token signature invalid"));
    }
    match tokens::validate_agent_token(t, now, insecure) {
        Ok(c) => Ok(c),
        Err(e) => Err(token_refused(&e)),
    }
}

/// The signer, where the signature of the request holds under its key.
pub open spec fn confirmed(p: ParsedView, key: JwkView, signer: SignerView) -> Result<
    SignerView,
    ApiErrorView,
> {
    match sig::parsed_fault(p, key) {
        Some(e) => Err(problem::refused(e)),
        None => Ok(signer),
    }
}

/// A key of a server's key set, in a message.
pub open spec fn shown_scheme(id: Seq<char>, dwk: Seq<char>, kid: Seq<char>) -> Seq<char> {
    "JwksUri { id: "@ + text::shown(id) + ", dwk: "@ + text::shown(dwk) + ", kid: "@
        + text::shown(kid) + " }"@
}

fn show_scheme(id: &str, dwk: &str, kid: &str) -> (r: String)
    ensures
        r@ == shown_scheme(id@, dwk@, kid@),
{
    let mut out = text::join2("JwksUri { id: ", text::show(id).as_str());
    out.append(", dwk: ");
    out.append(text::show(dwk).as_str());
    out.append(", kid: ");
    out.append(text::show(kid).as_str());
    out.append(" }");
    out
}

/// Who made a signature, or why it is refused.
pub open spec fn resolved_signer(
    cfg: Config,
    keyset: KeySet,
    p: ParsedView,
    now: u64,
) -> Result<SignerView, ApiErrorView> {
    match p.scheme {
        SchemeView::Hwk(jwk) => confirmed(p, jwk, SignerView::Hwk { jwk }),
        SchemeView::JktJwt(token) => match sigkey::named_key(
            token,
            now,
            cfg.naming_jwt_max_lifetime_secs,
        ) {
            Err(e) => Err(problem::refused(e)),
            Ok(n) => confirmed(
                p,
                n.ephemeral_jwk,
                SignerView::JktJwt {
                    durable_jkt: n.durable_jkt,
                    ephemeral_jwk: n.ephemeral_jwk,
                    jti: n.jti,
                },
            ),
        },
        SchemeView::Jwt(token) => match jwt::decoded_jwt(token) {
            None => Err(bad_jwt("malformed agent token"@)),
            Some(t) => match local_claims(keyset, t, now, cfg.insecure_dev_mode) {
                Err(e) => Err(e),
                Ok(c) => confirmed(
                    p,
                    c.cnf_jwk,
                    SignerView::AgentToken { claims: c, signing_jwk: c.cnf_jwk },
                ),
            },
        },
        SchemeView::JwksUri { id, dwk, kid } => Err(
            problem::refused(
                sig::sig_error(
                    SigErrorCode::UnsupportedScheme,
                    "unsupported Signature-Key scheme for this endpoint: "@ + shown_scheme(
                        id,
                        dwk,
                        kid,
                    ),
                ),
            ),
        ),
    }
}

/// What of a request can be signed.
pub open spec fn parts_of(r: ReqView) -> PartsView {
    PartsView {
        method: r.method,
        authority: r.authority,
        path: r.path,
        query: r.query,
        headers: r.headers,
    }
}

/// What is asked of signatures.
pub open spec fn policy_of(cfg: Config, extra: Seq<Seq<char>>, now: u64) -> PolicyView {
    PolicyView { now, window_secs: cfg.signature_window_secs, extra_required: extra }
}

/// Why a request that names another authority is not looked at.
pub open spec fn wrong_authority() -> ApiErrorView {
    problem::bad_request(
        "invalid_request"@,
        "the request does not name this provider's authority"@,
    )
}

/// Who signed a request, or why it is refused. A request that names another
/// authority is refused before anything else of it is looked at.
pub open spec fn signer_of(
    cfg: Config,
    keyset: KeySet,
    r: ReqView,
    extra: Seq<Seq<char>>,
    now: u64,
) -> Result<SignerView, ApiErrorView> {
    if r.authority != cfg.authority_spec() {
        Err(wrong_authority())
    } else {
        match sig::request_signature(parts_of(r), policy_of(cfg, extra, now)) {
            Err(e) => Err(problem::refused(e)),
            Ok(p) => resolved_signer(cfg, keyset, p, now),
        }
    }
}

/// Whether a request names the provider's authority.
pub fn check_authority(ctx: &ReqCtx, cfg: &Config) -> (r: Result<(), ApiError>)
    ensures
        match r {
            Ok(_) => ctx@.authority == cfg.authority_spec(),
            Err(e) => ctx@.authority != cfg.authority_spec() && e@ == wrong_authority(),
        },
{
    let own = cfg.required_authority();
    if text::same(ctx.authority.as_str(), own.as_str()) {
        Ok(())
    } else {
        Err(
            ApiError::bad_request(
                "invalid_request",
                "the request does not name this provider's authority",
            ),
        )
    }
}

/// Reads the signature of a request.
pub fn parse_signature(ctx: &ReqCtx, cfg: &Config, extra: &Vec<String>, now: u64) -> (r: Result<
    sig::ParsedSignature,
    ApiError,
>)
    ensures
        match r {
            Ok(p) => sig::request_signature(
                parts_of(ctx@),
                policy_of(*cfg, text::list_view(extra@), now),
            ) == Ok::<ParsedView, sig::SigErrorView>(p@),
            Err(e) => sig::request_signature(
                parts_of(ctx@),
                policy_of(*cfg, text::list_view(extra@), now),
            ) matches Err(x) && e@ == problem::refused(x),
        },
{
    let parts = RequestParts {
        method: ctx.method.as_str(),
        authority: ctx.authority.as_str(),
        path: ctx.path.as_str(),
        query: ctx.query.as_str(),
        headers: &ctx.headers,
    };
    let policy = VerifyPolicy {
        now,
        window_secs: cfg.signature_window_secs,
        extra_required: crate::config::copy_texts(extra),
    };
    match sig::parse_request_signature(&parts, &policy) {
        Ok(p) => Ok(p),
        Err(e) => Err(ApiError::from_sig_error(e)),
    }
}

fn confirm(p: &sig::ParsedSignature, key: &Jwk) -> (r: Result<(), ApiError>)
    ensures
        match r {
            Ok(_) => sig::parsed_fault(p@, key@) is None,
            Err(e) => sig::parsed_fault(p@, key@) matches Some(x) && e@ == problem::refused(x),
        },
{
    match sig::verify_parsed(p, key) {
        Ok(_) => Ok(()),
        Err(e) => Err(ApiError::from_sig_error(e)),
    }
}

/// Verifies the signature of a request, and finds out who made it. `extra`
/// names components that must be covered besides the usual ones.
pub fn verify_signature(
    ctx: &ReqCtx,
    cfg: &Config,
    keyset: &KeySet,
    extra: &Vec<String>,
    now: u64,
) -> (r: Result<Signer, ApiError>)
    ensures
        match r {
            Ok(s) => signer_of(*cfg, *keyset, ctx@, text::list_view(extra@), now) == Ok::<
                SignerView,
                ApiErrorView,
            >(s@),
            Err(e) => signer_of(*cfg, *keyset, ctx@, text::list_view(extra@), now) == Err::<
                SignerView,
                ApiErrorView,
            >(e@),
        },
{
    if let Err(e) = check_authority(ctx, cfg) {
        return Err(e);
    }
    let parsed = match parse_signature(ctx, cfg, extra, now) {
        Ok(p) => p,
        Err(e) => {
            return Err(e);
        },
    };
    match &parsed.scheme {
        SigKeyScheme::Hwk(jwk) => match confirm(&parsed, jwk) {
            Ok(_) => Ok(Signer::Hwk { jwk: jwk.clone() }),
            Err(e) => Err(e),
        },
        SigKeyScheme::JktJwt(token) => match sigkey::verify_jkt_jwt(
            token.as_str(),
            now,
            cfg.naming_jwt_max_lifetime_secs,
        ) {
            Err(e) => Err(ApiError::from_sig_error(e)),
            Ok(n) => match confirm(&parsed, &n.ephemeral_jwk) {
                Ok(_) => Ok(
                    Signer::JktJwt {
                        durable_jkt: n.durable_jkt,
                        ephemeral_jwk: n.ephemeral_jwk,
                        jti: n.jti,
                    },
                ),
                Err(e) => Err(e),
            },
        },
        SigKeyScheme::Jwt(token) => match jwt::decode(token.as_str()) {
            Err(_) => Err(jwt_error("malformed agent token")),
            Ok(t) => match verify_local_agent_token(keyset, &t, now, cfg.insecure_dev_mode) {
                Err(e) => Err(e),
                Ok(claims) => {
                    let signing_jwk = claims.cnf_jwk.clone();
                    match confirm(&parsed, &signing_jwk) {
                        Ok(_) => Ok(Signer::AgentToken { claims, signing_jwk }),
                        Err(e) => Err(e),
                    }
                },
            },
        },
        SigKeyScheme::JwksUri { id, dwk, kid } => {
            let shown = show_scheme(id.as_str(), dwk.as_str(), kid.as_str());
            let detail = text::join2(
                "unsupported Signature-Key scheme for this endpoint: ",
                shown.as_str(),
            );
            Err(
                ApiError::from_sig_error(
                    SigError::new(SigErrorCode::UnsupportedScheme, detail.as_str()),
                ),
            )
        },
    }
}

// ------------------------------------------------------------------ laws

/// A request is accepted only where its signature holds under the key of the
/// signer that is reported.
pub proof fn law_signer_holds_key(
    cfg: Config,
    keyset: KeySet,
    r: ReqView,
    extra: Seq<Seq<char>>,
    now: u64,
)
    requires
        signer_of(cfg, keyset, r, extra, now) is Ok,
    ensures
        r.authority == cfg.authority_spec(),
        sig::request_signature(parts_of(r), policy_of(cfg, extra, now)) is Ok,
        ({
            let p = sig::request_signature(parts_of(r), policy_of(cfg, extra, now))->Ok_0;
            let key = match signer_of(cfg, keyset, r, extra, now)->Ok_0 {
                SignerView::Hwk { jwk } => jwk,
                SignerView::JktJwt { ephemeral_jwk, .. } => ephemeral_jwk,
                SignerView::AgentToken { signing_jwk, .. } => signing_jwk,
            };
            sig::parsed_fault(p, key) is None
        }),
{
}

/// A signature that was made for another authority is of no use here, whatever
/// else the request holds.
pub proof fn law_other_authority_refused(
    cfg: Config,
    keyset: KeySet,
    r: ReqView,
    extra: Seq<Seq<char>>,
    now: u64,
)
    requires
        r.authority != cfg.authority_spec(),
    ensures
        signer_of(cfg, keyset, r, extra, now) == Err::<SignerView, ApiErrorView>(
            wrong_authority(),
        ),
        wrong_authority().headers.len() == 0,
        wrong_authority().status == problem::BAD_REQUEST,
{
}

/// An agent token whose time is over is refused as expired, so that its holder
/// knows to refresh it.
pub proof fn law_expired_agent_token(keyset: KeySet, t: JwtView, now: u64, insecure: bool)
    requires
        local_claims(keyset, t, now, insecure) is Ok,
    ensures
        local_claims(keyset, t, now, insecure)->Ok_0.exp > now,
        forall|later: u64|
            later >= local_claims(keyset, t, now, insecure)->Ok_0.exp ==> #[trigger] local_claims(
                keyset,
                t,
                later,
                insecure,
            ) == Err::<AgentClaimsView, ApiErrorView>(
                problem::refused(
                    sig::sig_error(SigErrorCode::ExpiredJwt, "token expired"@),
                ),
            ),
{
}

/// An authority loses the port of its own scheme, and no other port.
pub proof fn law_default_port_dropped(a: Seq<char>)
    requires
        text::lowered(a) == a,
    ensures
        canonical_authority(a + ":443"@, true) == a,
        canonical_authority(a + ":80"@, false) == a,
        canonical_authority(a + ":80"@, true) == a + ":80"@,
        canonical_authority(a + ":443"@, false) == a + ":443"@,
        !":443"@.is_suffix_of(a) ==> canonical_authority(a, true) == a,
        !":80"@.is_suffix_of(a) ==> canonical_authority(a, false) == a,
{
    reveal_strlit(":443");
    reveal_strlit(":80");
    let s = a + ":443"@;
    let t = a + ":80"@;
    assert(text::lowered(s) =~= s) by {
        assert forall|i: int| 0 <= i < s.len() implies text::lowered(s)[i] == s[i] by {
            if i < a.len() {
                assert(text::lowered(a)[i] == a[i]);
                assert(text::lowered(a)[i] == text::lower_char(a[i]));
            }
        }
    }
    assert(text::lowered(t) =~= t) by {
        assert forall|i: int| 0 <= i < t.len() implies text::lowered(t)[i] == t[i] by {
            if i < a.len() {
                assert(text::lowered(a)[i] == a[i]);
                assert(text::lowered(a)[i] == text::lower_char(a[i]));
            }
        }
    }
    assert(s.subrange(s.len() - 4, s.len() as int) =~= ":443"@);
    assert(t.subrange(t.len() - 3, t.len() as int) =~= ":80"@);
    assert(s.take(s.len() - 4) =~= a);
    assert(t.take(t.len() - 3) =~= a);
    assert(s.last() == '3' && t.last() == '0');
    assert(":443"@.last() == '3' && ":80"@.last() == '0');
    if ":443"@.is_suffix_of(t) {
        assert(t.subrange(t.len() - 4, t.len() as int).last() == t.last());
    }
    if ":80"@.is_suffix_of(s) {
        assert(s.subrange(s.len() - 3, s.len() as int).last() == s.last());
    }
}

/// The authority of a request is that of its host header, whatever its target
/// says; the case of letters does not matter.
pub proof fn law_authority_of_request(h: Seq<char>, t: Option<Seq<char>>, https: bool)
    ensures
        named_authority(Some(h), t, https) == canonical_authority(h, https),
        named_authority(None, Some(h), https) == canonical_authority(h, https),
        named_authority(None, None, https).len() == 0,
        text::lowered(text::lowered(h)) == text::lowered(h) ==> canonical_authority(
            text::lowered(h),
            https,
        ) == canonical_authority(h, https),
{
}

/// Header names are compared in lower case; their values stay.
pub proof fn law_header_names_lowered(headers: Seq<(Seq<char>, Seq<char>)>, i: int)
    requires
        0 <= i < headers.len(),
    ensures
        lowered_names(headers).len() == headers.len(),
        lowered_names(headers)[i].0 == text::lowered(headers[i].0),
        lowered_names(headers)[i].1 == headers[i].1,
{
}

/// A request without a body is an empty object; else its body is read as JSON,
/// and what is no JSON is a bad request.
pub proof fn law_body_read(r: ReqView)
    ensures
        r.body.len() == 0 ==> body_json(r) == Ok::<Json, ApiErrorView>(Json::Obj(Map::empty())),
        r.body.len() > 0 ==> (json::json_parsed(r.body) matches Some(v) ==> body_json(r) == Ok::<
            Json,
            ApiErrorView,
        >(v)),
        r.body.len() > 0 && json::json_parsed(r.body) is None ==> (body_json(r) matches Err(e)
            && e.status == 400 && e.error == "invalid_request"@),
{
}

/// What is signed of a request are its own parts, and the signature must be
/// within the configured time.
pub proof fn law_request_is_what_is_signed(
    cfg: Config,
    r: ReqView,
    extra: Seq<Seq<char>>,
    now: u64,
)
    ensures
        parts_of(r).method == r.method,
        parts_of(r).authority == r.authority,
        parts_of(r).path == r.path,
        parts_of(r).query == r.query,
        parts_of(r).headers == r.headers,
        policy_of(cfg, extra, now).now == now,
        policy_of(cfg, extra, now).window_secs == cfg.signature_window_secs,
        policy_of(cfg, extra, now).extra_required == extra,
{
}

/// One of the provider's agent tokens is one whose signature holds under the
/// public key that it names among the provider's, and whose claims are accepted.
pub proof fn law_own_agent_token(keyset: KeySet, t: JwtView, now: u64, insecure: bool, c: AgentClaimsView)
    ensures
        (local_claims(keyset, t, now, insecure) == Ok::<AgentClaimsView, ApiErrorView>(c)) == (
        t.header.kid matches Some(kid) && (keys::key_named(
            keys::jwks_view(keyset.public_jwks@),
            kid,
        ) matches Some(key) && jwt::jwt_check(t, key) is Ok && tokens::agent_claims(
            t,
            now,
            insecure,
        ) == Ok::<AgentClaimsView, tokens::TokenErrorView>(c))),
        t.header.kid is None ==> (local_claims(keyset, t, now, insecure) matches Err(e) && e.status
            == 401 && e.error == "invalid_jwt"@),
        t.header.kid matches Some(kid) ==> (keys::key_named(
            keys::jwks_view(keyset.public_jwks@),
            kid,
        ) is None ==> (local_claims(keyset, t, now, insecure) matches Err(e) && e.status == 401
            && e.error == "unknown_key"@)),
{
}

/// Who signed is who the scheme of the signature names: the key that was sent,
/// the key that a durable key names, or the holder of an agent token. A key of a
/// server's key set signs no request to an agent's endpoint.
pub proof fn law_signer_by_scheme(cfg: Config, keyset: KeySet, p: ParsedView, now: u64)
    ensures
        p.scheme matches SchemeView::Hwk(k) ==> (sig::parsed_fault(p, k) is None
            ==> resolved_signer(cfg, keyset, p, now) == Ok::<SignerView, ApiErrorView>(
            SignerView::Hwk { jwk: k },
        )),
        p.scheme matches SchemeView::Hwk(k) ==> (sig::parsed_fault(p, k) matches Some(e)
            ==> resolved_signer(cfg, keyset, p, now) == Err::<SignerView, ApiErrorView>(
            problem::refused(e),
        )),
        p.scheme matches SchemeView::JktJwt(token) ==> (sigkey::named_key(
            token,
            now,
            cfg.naming_jwt_max_lifetime_secs,
        ) matches Ok(n) ==> (sig::parsed_fault(p, n.ephemeral_jwk) is None ==> resolved_signer(
            cfg,
            keyset,
            p,
            now,
        ) == Ok::<SignerView, ApiErrorView>(
            SignerView::JktJwt {
                durable_jkt: n.durable_jkt,
                ephemeral_jwk: n.ephemeral_jwk,
                jti: n.jti,
            },
        ))),
        p.scheme matches SchemeView::JktJwt(token) ==> (sigkey::named_key(
            token,
            now,
            cfg.naming_jwt_max_lifetime_secs,
        ) is Err ==> resolved_signer(cfg, keyset, p, now) is Err),
        p.scheme matches SchemeView::Jwt(token) ==> (jwt::decoded_jwt(token) matches Some(t) ==> (
        local_claims(keyset, t, now, cfg.insecure_dev_mode) matches Ok(c) ==> (sig::parsed_fault(
            p,
            c.cnf_jwk,
        ) is None ==> resolved_signer(cfg, keyset, p, now) == Ok::<SignerView, ApiErrorView>(
            SignerView::AgentToken { claims: c, signing_jwk: c.cnf_jwk },
        )))),
        p.scheme is JwksUri ==> (resolved_signer(cfg, keyset, p, now) matches Err(e) && e.status
            == 401 && e.error == "unsupported_scheme"@),
        resolved_signer(cfg, keyset, p, now) matches Ok(SignerView::Hwk { jwk: k }) ==> p.scheme
            == SchemeView::Hwk(k),
        resolved_signer(cfg, keyset, p, now) matches Ok(s) ==> (s is AgentToken) == (p.scheme is Jwt)
            && (s is JktJwt) == (p.scheme is JktJwt),
{
}

/// A request to the provider's authority is judged by its signature alone.
pub proof fn law_signer_of_request(
    cfg: Config,
    keyset: KeySet,
    r: ReqView,
    extra: Seq<Seq<char>>,
    now: u64,
)
    requires
        r.authority == cfg.authority_spec(),
    ensures
        sig::request_signature(parts_of(r), policy_of(cfg, extra, now)) matches Ok(p)
            ==> signer_of(cfg, keyset, r, extra, now) == resolved_signer(cfg, keyset, p, now),
        sig::request_signature(parts_of(r), policy_of(cfg, extra, now)) matches Err(e)
            ==> signer_of(cfg, keyset, r, extra, now) == Err::<SignerView, ApiErrorView>(
            problem::refused(e),
        ),
{
}

} // verus!
