//! The agents' endpoints: enrollment, agent tokens and sub-agent tokens. Each
//! is a row of steps. A step takes the request and what the store gave, and
//! says what the store is asked or what is answered.

use vstd::prelude::*;

use crate::config::Config;
use crate::enrollment;
use crate::enrollment::{Authorized, AuthorizedView};
use crate::ident;
use crate::ident::AgentId;
use crate::issue;
use crate::json;
use crate::json::{Json, JsonValue};
use crate::jwk;
use crate::jwk::{Jwk, JwkView};
use crate::jwt;
use crate::keys::KeySet;
use crate::problem;
use crate::problem::{ApiError, ApiErrorView, Resp, RespView};
use crate::records;
use crate::records::{AgentRecord, AgentView};
use crate::reqctx;
use crate::reqctx::{ReqCtx, ReqView, Signer, SignerView};
use crate::sig;
use crate::sig::{SigError, SigErrorCode};
use crate::storage;
use crate::storage::{Found, FoundView, Write, WriteView};
use crate::text;

verus! {

/// What is answered to a key scheme that an endpoint does not accept.
pub open spec fn wrong_scheme(detail: Seq<char>) -> ApiErrorView {
    problem::refused(sig::sig_error(SigErrorCode::UnsupportedScheme, detail))
}

/// What is answered to a key scheme that an endpoint does not accept.
pub fn scheme_refused(detail: &str) -> (r: ApiError)
    ensures
        r@ == wrong_scheme(detail@),
{
    ApiError::from_sig_error(SigError::new(SigErrorCode::UnsupportedScheme, detail))
}

/// Who signed a request to one of the provider's endpoints.
pub open spec fn caller(cfg: Config, keyset: KeySet, r: ReqView, now: u64) -> Result<
    SignerView,
    ApiErrorView,
> {
    reqctx::signer_of(cfg, keyset, r, Seq::empty(), now)
}

/// Finds out who signed a request to one of the provider's endpoints.
pub fn identify(ctx: &ReqCtx, cfg: &Config, keyset: &KeySet, now: u64) -> (r: Result<
    Signer,
    ApiError,
>)
    ensures
        match r {
            Ok(s) => caller(*cfg, *keyset, ctx@, now) == Ok::<SignerView, ApiErrorView>(s@),
            Err(e) => caller(*cfg, *keyset, ctx@, now) == Err::<SignerView, ApiErrorView>(e@),
        },
{
    let none: Vec<String> = Vec::new();
    proof {
        assert(text::list_view(none@) =~= Seq::empty());
    }
    reqctx::verify_signature(ctx, cfg, keyset, &none, now)
}

/// The text of a member, as a value of its own.
pub fn member_text(v: &JsonValue, name: &str) -> (r: Option<String>)
    ensures
        text::opt_view(r) == json::str_member(v@, name@),
{
    match v.str_of(name) {
        Some(s) => Some(s.clone()),
        None => None,
    }
}

// ------------------------------------------------------------ enrollment

/// A request to enroll a key.
pub struct EnrollRequest {
    /// The key that is enrolled, and its thumbprint.
    pub durable_jwk: Jwk,
    pub durable_jkt: String,
    pub ps: Option<String>,
    pub platform: Option<String>,
    pub label: Option<String>,
    pub token: Option<String>,
    pub assertion: Option<String>,
}

/// What an [`EnrollRequest`] holds.
pub struct EnrollView {
    pub durable_jwk: JwkView,
    pub durable_jkt: Seq<char>,
    pub ps: Option<Seq<char>>,
    pub platform: Option<Seq<char>>,
    pub label: Option<Seq<char>>,
    pub token: Option<Seq<char>>,
    pub assertion: Option<Seq<char>>,
}

impl EnrollRequest {
    /// What the request holds.
    pub open spec fn view(&self) -> EnrollView {
        EnrollView {
            durable_jwk: self.durable_jwk@,
            durable_jkt: self.durable_jkt@,
            ps: text::opt_view(self.ps),
            platform: text::opt_view(self.platform),
            label: text::opt_view(self.label),
            token: text::opt_view(self.token),
            assertion: text::opt_view(self.assertion),
        }
    }
}

/// The enrollment that a request asks for, or why it asks for none.
pub open spec fn enroll_asked(cfg: Config, keyset: KeySet, r: ReqView, now: u64) -> Result<
    EnrollView,
    ApiErrorView,
> {
    match caller(cfg, keyset, r, now) {
        Err(e) => Err(e),
        Ok(SignerView::Hwk { jwk: k }) => match jwk::thumbprint_of(k) {
            Err(_) => Err(problem::bad_request("invalid_key"@, "unsupported durable key"@)),
            Ok(jkt) => match reqctx::body_json(r) {
                Err(e) => Err(e),
                Ok(b) => Ok(
                    EnrollView {
                        durable_jwk: k,
                        durable_jkt: jkt,
                        ps: json::str_member(b, "ps"@),
                        platform: json::str_member(b, "platform"@),
                        label: json::str_member(b, "label"@),
                        token: json::str_member(b, "enrollment_token"@),
                        assertion: json::str_member(b, "enrollment_assertion"@),
                    },
                ),
            },
        },
        Ok(_) => Err(
            wrong_scheme("enrollment must be signed with the hwk scheme (durable key)"@),
        ),
    }
}

/// Reads a request to enroll a key. What the key's index holds is looked up
/// next.
pub fn enroll_request(ctx: &ReqCtx, cfg: &Config, keyset: &KeySet, now: u64) -> (r: Result<
    EnrollRequest,
    ApiError,
>)
    ensures
        match r {
            Ok(q) => enroll_asked(*cfg, *keyset, ctx@, now) == Ok::<EnrollView, ApiErrorView>(q@),
            Err(e) => enroll_asked(*cfg, *keyset, ctx@, now) == Err::<EnrollView, ApiErrorView>(
                e@,
            ),
        },
{
    let key = match identify(ctx, cfg, keyset, now) {
        Err(e) => {
            return Err(e);
        },
        Ok(Signer::Hwk { jwk }) => jwk,
        Ok(_) => {
            return Err(
                scheme_refused("enrollment must be signed with the hwk scheme (durable key)"),
            );
        },
    };
    let durable_jkt = match key.thumbprint() {
        Ok(t) => t,
        Err(_) => {
            return Err(ApiError::bad_request("invalid_key", "unsupported durable key"));
        },
    };
    let body = match ctx.parse_json() {
        Ok(b) => b,
        Err(e) => {
            return Err(e);
        },
    };
    Ok(
        EnrollRequest {
            durable_jwk: key,
            durable_jkt,
            ps: member_text(&body, "ps"),
            platform: member_text(&body, "platform"),
            label: member_text(&body, "label"),
            token: member_text(&body, "enrollment_token"),
            assertion: member_text(&body, "enrollment_assertion"),
        },
    )
}

/// The answer to an enrollment.
pub open spec fn enroll_answer(code: u16, agent: Seq<char>, status: Seq<char>) -> RespView {
    problem::json_answer(
        code,
        Json::Obj(
            Map::<Seq<char>, Json>::empty().insert("agent"@, Json::Str(agent)).insert(
                "status"@,
                Json::Str(status),
            ),
        ),
    )
}

fn enroll_reply(code: u16, agent: &str, status: &str) -> (r: Resp)
    ensures
        r@ == enroll_answer(code, agent@, status@),
{
    problem::json_response(
        code,
        &JsonValue::object().with("agent", JsonValue::string(agent)).with(
            "status",
            JsonValue::string(status),
        ),
    )
}

/// The local part that stored bytes hold.
pub open spec fn stored_local(b: Seq<u8>) -> Seq<char> {
    if vstd::utf8::valid_utf8(b) {
        vstd::utf8::decode_utf8(b)
    } else {
        text::lossy_text(b)
    }
}

fn read_local(b: &Vec<u8>) -> (r: String)
    ensures
        r@ == stored_local(b@),
{
    text::from_utf8_lossy(b.as_slice())
}

/// What is answered where a stored local part is none.
pub open spec fn bad_local() -> ApiErrorView {
    problem::server_error("stored local part is not valid"@)
}

/// The answer to a key that is enrolled already: nothing is consumed, and the
/// identity that it has is given.
pub open spec fn known_answer(cfg: Config, found: Seq<u8>) -> Result<RespView, ApiErrorView> {
    let local = stored_local(found);
    if ident::is_local(local) {
        Ok(enroll_answer(problem::OK, issue::agent_id(cfg, local), "existing"@))
    } else {
        Err(bad_local())
    }
}

fn agent_name(cfg: &Config, local: &str) -> (r: Option<String>)
    requires
        ident::is_server_identifier(cfg.issuer@, cfg.insecure_dev_mode),
    ensures
        match r {
            Some(id) => ident::is_local(local@) && id@ == issue::agent_id(*cfg, local@),
            None => !ident::is_local(local@),
        },
{
    let domain = cfg.agent_domain();
    match AgentId::new(local, domain.as_str()) {
        Ok(id) => Some(id.to_text()),
        Err(_) => None,
    }
}

/// The answer to a key that is enrolled already. `found` is what its index
/// holds.
pub fn already_enrolled(cfg: &Config, found: &Vec<u8>) -> (r: Result<Resp, ApiError>)
    requires
        ident::is_server_identifier(cfg.issuer@, cfg.insecure_dev_mode),
    ensures
        match r {
            Ok(a) => known_answer(*cfg, found@) == Ok::<RespView, ApiErrorView>(a@),
            Err(e) => known_answer(*cfg, found@) == Err::<RespView, ApiErrorView>(e@),
        },
{
    let local = read_local(found);
    match agent_name(cfg, local.as_str()) {
        Some(id) => Ok(enroll_reply(problem::OK, id.as_str(), "existing")),
        None => Err(ApiError::server_error("stored local part is not valid")),
    }
}

/// How often a fresh local part is tried to be reserved.
pub const RESERVE_ATTEMPTS: u32 = 5;

/// How long a local part stays reserved, in milliseconds.
pub const RESERVE_MILLIS: u64 = 30000;

/// Whether another local part is tried, after some that were taken.
pub fn reserve_again(taken: u32) -> (r: bool)
    ensures
        r == (taken < 5),
{
    taken < RESERVE_ATTEMPTS
}

/// What reserves a local part.
pub open spec fn reserving(local: Seq<char>) -> WriteView {
    WriteView {
        key: "agent:"@ + local,
        value: vstd::utf8::encode_utf8("reserved"@),
        ttl: Some(30000u64),
    }
}

/// What reserves a local part, where nothing stands there yet.
pub fn reservation(local: &str) -> (r: Write)
    ensures
        r@ == reserving(local@),
{
    Write {
        key: records::agent_key(local),
        value: storage::bytes_of("reserved"),
        ttl: Some(RESERVE_MILLIS),
    }
}

/// An enrollment that is granted: what is stored, and what is answered.
pub struct Enrolled {
    pub agent: String,
    pub record: AgentRecord,
    pub writes: Vec<Write>,
    pub answer: Resp,
}

/// The views of writes.
pub open spec fn writes_view(s: Seq<Write>) -> Seq<WriteView> {
    s.map_values(|w: Write| w@)
}

/// What is stored of a new agent: its record, and the index of its key.
pub open spec fn agent_writes(record: AgentView) -> Seq<WriteView> {
    seq![
        (WriteView {
            key: "agent:"@ + record.local,
            value: records::stored(records::agent_json(record)),
            ttl: None,
        }),
        (WriteView {
            key: "jkt:"@ + record.durable_jkt,
            value: vstd::utf8::encode_utf8(record.local),
            ttl: None,
        }),
    ]
}

/// What enrolling a key gives.
pub open spec fn enrollment_result(
    cfg: Config,
    q: EnrollView,
    a: AuthorizedView,
    ps: Option<Seq<char>>,
    local: Seq<char>,
    now: u64,
    r: Enrolled,
) -> bool {
    &&& r.agent@ == issue::agent_id(cfg, local)
    &&& r.record@ == enrollment::fresh_record(
        a,
        local,
        q.durable_jkt,
        ps,
        q.platform,
        q.label,
        now,
    )
    &&& writes_view(r.writes@) == agent_writes(r.record@)
    &&& r.answer@ == enroll_answer(problem::CREATED, r.agent@, "enrolled"@)
}

/// Enrolls a key under a fresh local part.
pub fn enroll(
    cfg: &Config,
    q: &EnrollRequest,
    a: &Authorized,
    ps: Option<String>,
    local: &str,
    now: u64,
) -> (r: Enrolled)
    requires
        ident::is_server_identifier(cfg.issuer@, cfg.insecure_dev_mode),
        ident::is_local(local@),
    ensures
        enrollment_result(*cfg, q@, a@, text::opt_view(ps), local@, now, r),
{
    let record = enrollment::new_record(
        a,
        local,
        q.durable_jkt.as_str(),
        ps,
        &q.platform,
        &q.label,
        now,
    );
    let agent = match agent_name(cfg, local) {
        Some(id) => id,
        None => String::new(),
    };
    let answer = enroll_reply(problem::CREATED, agent.as_str(), "enrolled");
    let first = Write {
        key: records::agent_key(local),
        value: records::write_agent(&record),
        ttl: None,
    };
    let second = Write {
        key: records::jkt_key(q.durable_jkt.as_str()),
        value: storage::bytes_of(local),
        ttl: None,
    };
    let ghost f = first@;
    let ghost s = second@;
    let mut writes: Vec<Write> = Vec::new();
    writes.push(first);
    writes.push(second);
    proof {
        assert(writes_view(writes@) =~= seq![f, s]);
        assert(writes_view(writes@) =~= agent_writes(record@));
    }
    Enrolled { agent, record, writes, answer }
}

// ---------------------------------------------------------- agent tokens

/// A request for an agent token.
pub struct TokenRequest {
    pub durable_jkt: String,
    /// The key that the token is bound to.
    pub signing_jwk: Jwk,
    /// The identifier of the naming token, where two keys are used.
    pub jti: Option<String>,
}

/// What a [`TokenRequest`] holds.
pub struct TokenAskView {
    pub durable_jkt: Seq<char>,
    pub signing_jwk: JwkView,
    pub jti: Option<Seq<char>>,
}

impl TokenRequest {
    /// What the request holds.
    pub open spec fn view(&self) -> TokenAskView {
        TokenAskView {
            durable_jkt: self.durable_jkt@,
            signing_jwk: self.signing_jwk@,
            jti: text::opt_view(self.jti),
        }
    }
}

/// The agent token that a request asks for, or why it asks for none.
pub open spec fn token_asked(cfg: Config, keyset: KeySet, r: ReqView, now: u64) -> Result<
    TokenAskView,
    ApiErrorView,
> {
    match caller(cfg, keyset, r, now) {
        Err(e) => Err(e),
        Ok(SignerView::JktJwt { durable_jkt, ephemeral_jwk, jti }) => Ok(
            TokenAskView { durable_jkt, signing_jwk: ephemeral_jwk, jti },
        ),
        Ok(SignerView::Hwk { jwk: k }) => match jwk::thumbprint_of(k) {
            Err(_) => Err(problem::bad_request("invalid_key"@, "unsupported key"@)),
            Ok(jkt) => Ok(TokenAskView { durable_jkt: jkt, signing_jwk: k, jti: None }),
        },
        Ok(SignerView::AgentToken { claims, signing_jwk }) => Err(
            wrong_scheme(
                "agent-token requests must be signed with jkt-jwt or hwk, not an existing agent token"@,
            ),
        ),
    }
}

/// Reads a request for an agent token. Where it brings a naming token, that
/// token's identifier is put down next; then the key's index is looked up.
pub fn token_request(ctx: &ReqCtx, cfg: &Config, keyset: &KeySet, now: u64) -> (r: Result<
    TokenRequest,
    ApiError,
>)
    ensures
        match r {
            Ok(q) => token_asked(*cfg, *keyset, ctx@, now) == Ok::<TokenAskView, ApiErrorView>(
                q@,
            ),
            Err(e) => token_asked(*cfg, *keyset, ctx@, now) == Err::<TokenAskView, ApiErrorView>(
                e@,
            ),
        },
{
    match identify(ctx, cfg, keyset, now) {
        Err(e) => Err(e),
        Ok(Signer::JktJwt { durable_jkt, ephemeral_jwk, jti }) => Ok(
            TokenRequest { durable_jkt, signing_jwk: ephemeral_jwk, jti },
        ),
        Ok(Signer::Hwk { jwk }) => match jwk.thumbprint() {
            Err(_) => Err(ApiError::bad_request("invalid_key", "unsupported key")),
            Ok(jkt) => Ok(TokenRequest { durable_jkt: jkt, signing_jwk: jwk, jti: None }),
        },
        Ok(Signer::AgentToken { .. }) => Err(
            scheme_refused(
                "agent-token requests must be signed with jkt-jwt or hwk, not an existing agent token",
            ),
        ),
    }
}

/// What puts the identifier of a naming token down: for as long as such a token
/// can live, and a minute at least.
pub open spec fn replay_guard(cfg: Config, jti: Seq<char>) -> WriteView {
    let secs = if cfg.naming_jwt_max_lifetime_secs >= 60 {
        cfg.naming_jwt_max_lifetime_secs
    } else {
        60
    };
    WriteView {
        key: "jti:"@ + jti,
        value: vstd::utf8::encode_utf8("1"@),
        ttl: Some(storage::millis_of(secs)),
    }
}

/// What puts the identifier of a naming token down, where it does not stand
/// there yet.
pub fn guard_naming(cfg: &Config, jti: &str) -> (r: Write)
    ensures
        r@ == replay_guard(*cfg, jti@),
{
    let secs: u64 = if cfg.naming_jwt_max_lifetime_secs >= 60 {
        cfg.naming_jwt_max_lifetime_secs
    } else {
        60
    };
    Write {
        key: records::jti_key(jti),
        value: storage::bytes_of("1"),
        ttl: Some(storage::millis(secs)),
    }
}

/// What is answered to a naming token that was used before.
pub open spec fn replayed() -> ApiErrorView {
    reqctx::bad_jwt("naming JWT jti already used (replay)"@)
}

/// Goes on only with a naming token whose identifier was put down just now.
pub fn naming_fresh(fresh: bool) -> (r: Result<(), ApiError>)
    ensures
        match r {
            Ok(_) => fresh,
            Err(e) => !fresh && e@ == replayed(),
        },
{
    if fresh {
        Ok(())
    } else {
        Err(
            ApiError::from_sig_error(
                SigError::new(SigErrorCode::InvalidJwt, "naming JWT jti already used (replay)"),
            ),
        )
    }
}

/// The local part that the index of a key holds; a key without one is not
/// enrolled.
pub open spec fn index_entry(found: Option<Seq<u8>>) -> Result<Seq<char>, ApiErrorView> {
    match found {
        Some(b) => Ok(stored_local(b)),
        None => Err(
            problem::forbidden("not_enrolled"@, "no enrollment for this key; enroll first"@),
        ),
    }
}

/// The local part of an enrolled key. Its record is looked up next.
pub fn enrolled_local(found: &Option<Vec<u8>>) -> (r: Result<String, ApiError>)
    ensures
        match r {
            Ok(l) => index_entry(storage::opt_bytes(*found)) == Ok::<Seq<char>, ApiErrorView>(
                l@,
            ),
            Err(e) => index_entry(storage::opt_bytes(*found)) == Err::<Seq<char>, ApiErrorView>(
                e@,
            ),
        },
{
    match found {
        Some(b) => Ok(read_local(b)),
        None => Err(
            ApiError::forbidden("not_enrolled", "no enrollment for this key; enroll first"),
        ),
    }
}

/// What is answered to an agent whose enrollment was revoked.
pub open spec fn revoked() -> ApiErrorView {
    problem::forbidden(
        "enrollment_revoked"@,
        "this enrollment has been revoked by the operator"@,
    )
}

/// The record of an agent that may be served.
pub open spec fn serving_record(found: Option<FoundView>) -> Result<AgentView, ApiErrorView> {
    match found {
        None => Err(problem::server_error("enrollment index points to missing agent record"@)),
        Some(f) => match records::stored_agent(f.bytes) {
            None => Err(problem::server_error("corrupt agent record: "@ + f.fault)),
            Some(rec) => if rec.status == "active"@ {
                Ok(rec)
            } else {
                Err(revoked())
            },
        },
    }
}

/// The record of an agent that may be served.
pub fn active_record(found: &Option<Found>) -> (r: Result<AgentRecord, ApiError>)
    ensures
        match r {
            Ok(rec) => serving_record(storage::opt_found(*found)) == Ok::<AgentView, ApiErrorView>(
                rec@,
            ),
            Err(e) => serving_record(storage::opt_found(*found)) == Err::<AgentView, ApiErrorView>(
                e@,
            ),
        },
{
    match found {
        None => Err(ApiError::server_error("enrollment index points to missing agent record")),
        Some(f) => match records::read_agent(f.bytes.as_slice()) {
            None => Err(
                ApiError::server_error(
                    text::join2("corrupt agent record: ", f.fault.as_str()).as_str(),
                ),
            ),
            Some(rec) => if text::same(rec.status.as_str(), records::STATUS_ACTIVE) {
                Ok(rec)
            } else {
                Err(
                    ApiError::forbidden(
                        "enrollment_revoked",
                        "this enrollment has been revoked by the operator",
                    ),
                )
            },
        },
    }
}

/// A token that is issued: what is stored of it, and what is answered.
pub struct IssuedToken {
    pub token: String,
    pub exp: u64,
    /// The agent's name.
    pub agent: String,
    /// The agent's record with the issuance counted.
    pub record: AgentRecord,
    /// What stores that record.
    pub write: Write,
    pub answer: Resp,
}

/// The record of an agent that was just issued a token.
pub open spec fn counted_record(rec: AgentView, ps: Option<Seq<char>>, now: u64) -> AgentView {
    AgentView {
        ps: match ps {
            Some(p) => Some(p),
            None => rec.ps,
        },
        last_issued_at: now,
        tokens_issued: if rec.tokens_issued < u64::MAX {
            (rec.tokens_issued + 1) as u64
        } else {
            u64::MAX
        },
        ..rec
    }
}

/// The answer to a request for an agent token.
pub open spec fn token_answer(token: Seq<char>, left: u64, agent: Seq<char>) -> RespView {
    problem::json_answer(
        problem::OK,
        Json::Obj(
            Map::<Seq<char>, Json>::empty().insert("agent_token"@, Json::Str(token)).insert(
                "token_type"@,
                Json::Str("aa-agent+jwt"@),
            ).insert("expires_in"@, Json::Int(left as int)).insert("agent"@, Json::Str(agent)),
        ),
    )
}

/// The Person Server that the token of a request names, or why there is no
/// token.
pub open spec fn token_ps(cfg: Config, r: ReqView, rec: AgentView) -> Result<
    Option<Seq<char>>,
    ApiErrorView,
> {
    match reqctx::body_json(r) {
        Err(e) => Err(e),
        Ok(b) => if !ident::is_local(rec.local) {
            Err(bad_local())
        } else {
            enrollment::chosen_ps(cfg, rec.ps, json::str_member(b, "ps"@))
        },
    }
}

/// The claims of an agent's token.
pub open spec fn token_claims(
    cfg: Config,
    rec: AgentView,
    key: JwkView,
    ps: Option<Seq<char>>,
    jti: Seq<char>,
    now: u64,
) -> Json {
    issue::agent_payload(
        cfg.issuer@,
        issue::agent_id(cfg, rec.local),
        jti,
        key,
        now,
        (now + cfg.agent_token_ttl_secs) as u64,
        None,
        ps,
        rec.assurance,
        rec.embed_claims,
    )
}

/// What issuing an agent token gives: the token, its times, the record with the
/// issuance counted, and the answer.
pub open spec fn token_result(
    r: ReqView,
    cfg: Config,
    keyset: KeySet,
    q: TokenAskView,
    rec: AgentView,
    jti: Seq<char>,
    now: u64,
    result: Result<IssuedToken, ApiError>,
) -> bool {
    match result {
        Err(e) => token_ps(cfg, r, rec) == Err::<Option<Seq<char>>, ApiErrorView>(e@),
        Ok(x) => token_ps(cfg, r, rec) matches Ok(ps) && ({
            let claims = token_claims(cfg, rec, q.signing_jwk, ps, jti, now);
            &&& x.exp == now + cfg.agent_token_ttl_secs
            &&& x.token@ == issue::issued(keyset, "aa-agent+jwt"@, claims)
            &&& issue::good_token(keyset, "aa-agent+jwt"@, claims, x.token@)
            &&& x.agent@ == issue::agent_id(cfg, rec.local)
            &&& x.record@ == counted_record(rec, ps, now)
            &&& x.write@ == (WriteView {
                key: "agent:"@ + rec.local,
                value: records::stored(records::agent_json(x.record@)),
                ttl: None,
            })
            &&& x.answer@ == token_answer(x.token@, cfg.agent_token_ttl_secs, x.agent@)
        }),
    }
}

/// Issues an agent token. `jti` is drawn at random.
pub fn agent_token(
    ctx: &ReqCtx,
    cfg: &Config,
    keyset: &KeySet,
    q: &TokenRequest,
    rec: AgentRecord,
    jti: &str,
    now: u64,
) -> (r: Result<IssuedToken, ApiError>)
    requires
        ident::is_server_identifier(cfg.issuer@, cfg.insecure_dev_mode),
        now + cfg.agent_token_ttl_secs <= u64::MAX,
    ensures
        token_result(ctx@, *cfg, *keyset, q@, rec@, jti@, now, r),
{
    let body = match ctx.parse_json() {
        Ok(b) => b,
        Err(e) => {
            return Err(e);
        },
    };
    let agent = match agent_name(cfg, rec.local.as_str()) {
        Some(id) => id,
        None => {
            return Err(ApiError::server_error("stored local part is not valid"));
        },
    };
    let asked = member_text(&body, "ps");
    let ps = match enrollment::resolve_ps(cfg, &rec.ps, &asked) {
        Ok(p) => p,
        Err(e) => {
            return Err(e);
        },
    };
    let ps_text: Option<&str> = match &ps {
        Some(p) => Some(p.as_str()),
        None => None,
    };
    let assurance: Option<&str> = match &rec.assurance {
        Some(a) => Some(a.as_str()),
        None => None,
    };
    let (token, exp) = issue::agent_token(
        cfg,
        keyset,
        rec.local.as_str(),
        &q.signing_jwk,
        ps_text,
        cfg.agent_token_ttl_secs,
        &rec.embed_claims,
        assurance,
        jti,
        now,
    );
    let answer = problem::json_ok(
        &JsonValue::object().with("agent_token", JsonValue::string(token.as_str())).with(
            "token_type",
            JsonValue::string("aa-agent+jwt"),
        ).with("expires_in", JsonValue::number(exp - now)).with(
            "agent",
            JsonValue::string(agent.as_str()),
        ),
    );
    let mut record = rec;
    record.last_issued_at = now;
    record.tokens_issued = record.tokens_issued.saturating_add(1);
    if let Some(p) = ps {
        record.ps = Some(p);
    }
    let write = Write {
        key: records::agent_key(record.local.as_str()),
        value: records::write_agent(&record),
        ttl: None,
    };
    Ok(IssuedToken { token, exp, agent, record, write, answer })
}

// ------------------------------------------------------ sub-agent tokens

/// A request for a sub-agent's token.
pub struct SubagentRequest {
    pub parent: AgentId,
    pub discriminator: String,
    /// The sub-agent's key.
    pub cnf_jwk: Jwk,
    pub ps: Option<String>,
    pub parent_exp: u64,
}

/// What a [`SubagentRequest`] holds.
pub struct SubagentView {
    pub parent_local: Seq<char>,
    pub parent_domain: Seq<char>,
    pub discriminator: Seq<char>,
    pub cnf_jwk: JwkView,
    pub ps: Option<Seq<char>>,
    pub parent_exp: u64,
}

impl SubagentRequest {
    /// What the request holds.
    pub open spec fn view(&self) -> SubagentView {
        SubagentView {
            parent_local: self.parent.local(),
            parent_domain: self.parent.domain(),
            discriminator: self.discriminator@,
            cnf_jwk: self.cnf_jwk@,
            ps: text::opt_view(self.ps),
            parent_exp: self.parent_exp,
        }
    }
}

/// What is answered to a sub-agent that asks for a sub-agent.
pub open spec fn nested(detail: Seq<char>) -> ApiErrorView {
    problem::forbidden("nested_subagent"@, detail)
}

/// What is wrong with a request.
pub open spec fn invalid(detail: Seq<char>) -> ApiErrorView {
    problem::bad_request("invalid_request"@, detail)
}

fn invalid_request(detail: &str) -> (r: ApiError)
    ensures
        r@ == invalid(detail@),
{
    ApiError::bad_request("invalid_request", detail)
}

/// The discriminator and the key of a request for a sub-agent.
pub open spec fn subagent_body(b: Json) -> Result<(Seq<char>, JwkView), ApiErrorView> {
    match json::str_member(b, "discriminator"@) {
        None => Err(invalid("discriminator is required"@)),
        Some(d) => if !ident::is_discriminator(d) {
            Err(
                invalid("discriminator must be non-empty, lowercase LDH/._, and contain no '+'"@),
            )
        } else {
            match json::json_get(b, "cnf_jwk"@) {
                None => Err(invalid("cnf_jwk (sub-agent public key) is required"@)),
                Some(v) => match jwk::jwk_from(v) {
                    None => Err(invalid("cnf_jwk is not a valid JWK"@)),
                    Some(k) => match jwk::key_bytes(k) {
                        Err(_) => Err(
                            problem::bad_request(
                                "invalid_key"@,
                                "cnf_jwk is not a usable Ed25519 key"@,
                            ),
                        ),
                        Ok(_) => Ok((d, k)),
                    },
                },
            }
        },
    }
}

/// The sub-agent that a request asks for, or why it asks for none: only an
/// agent at the top may ask, with its own token.
pub open spec fn subagent_asked(cfg: Config, keyset: KeySet, r: ReqView, now: u64) -> Result<
    SubagentView,
    ApiErrorView,
> {
    match caller(cfg, keyset, r, now) {
        Err(e) => Err(e),
        Ok(SignerView::AgentToken { claims, signing_jwk }) => if claims.parent_agent is Some {
            Err(nested("a sub-agent may not create sub-agents (single-level delegation)"@))
        } else {
            match ident::agent_parts(claims.sub) {
                None => Err(problem::server_error("parent agent id invalid"@)),
                Some((local, domain)) => if local.contains('+') {
                    Err(nested("parent agent id is itself a sub-agent"@))
                } else {
                    match reqctx::body_json(r) {
                        Err(e) => Err(e),
                        Ok(b) => match subagent_body(b) {
                            Err(e) => Err(e),
                            Ok((discriminator, cnf_jwk)) => Ok(
                                SubagentView {
                                    parent_local: local,
                                    parent_domain: domain,
                                    discriminator,
                                    cnf_jwk,
                                    ps: claims.ps,
                                    parent_exp: claims.exp,
                                },
                            ),
                        },
                    }
                },
            }
        },
        Ok(_) => Err(
            wrong_scheme(
                "sub-agent requests must be signed with the parent's agent token (jwt scheme)"@,
            ),
        ),
    }
}

fn read_subagent_body(b: &JsonValue) -> (r: Result<(String, Jwk), ApiError>)
    ensures
        match r {
            Ok(x) => subagent_body(b@) == Ok::<(Seq<char>, JwkView), ApiErrorView>((x.0@, x.1@)),
            Err(e) => subagent_body(b@) == Err::<(Seq<char>, JwkView), ApiErrorView>(e@),
        },
{
    let d = match b.str_of("discriminator") {
        Some(d) => d.clone(),
        None => {
            return Err(invalid_request("discriminator is required"));
        },
    };
    if !ident::valid_discriminator(d.as_str()) {
        return Err(
            invalid_request(
                "discriminator must be non-empty, lowercase LDH/._, and contain no '+'",
            ),
        );
    }
    match b.get("cnf_jwk") {
        None => Err(invalid_request("cnf_jwk (sub-agent public key) is required")),
        Some(v) => match Jwk::from_json(v) {
            None => Err(invalid_request("cnf_jwk is not a valid JWK")),
            Some(k) => match k.verifying_key() {
                Err(_) => Err(
                    ApiError::bad_request("invalid_key", "cnf_jwk is not a usable Ed25519 key"),
                ),
                Ok(_) => Ok((d, k)),
            },
        },
    }
}

/// Reads a request for a sub-agent's token. The parent's record is looked up
/// next.
pub fn subagent_request(ctx: &ReqCtx, cfg: &Config, keyset: &KeySet, now: u64) -> (r: Result<
    SubagentRequest,
    ApiError,
>)
    ensures
        match r {
            Ok(q) => subagent_asked(*cfg, *keyset, ctx@, now) == Ok::<SubagentView, ApiErrorView>(
                q@,
            ),
            Err(e) => subagent_asked(*cfg, *keyset, ctx@, now) == Err::<
                SubagentView,
                ApiErrorView,
            >(e@),
        },
{
    let claims = match identify(ctx, cfg, keyset, now) {
        Err(e) => {
            return Err(e);
        },
        Ok(Signer::AgentToken { claims, .. }) => claims,
        Ok(_) => {
            return Err(
                scheme_refused(
                    "sub-agent requests must be signed with the parent's agent token (jwt scheme)",
                ),
            );
        },
    };
    if claims.parent_agent.is_some() {
        return Err(
            ApiError::forbidden(
                "nested_subagent",
                "a sub-agent may not create sub-agents (single-level delegation)",
            ),
        );
    }
    let parent = match AgentId::parse(claims.sub.as_str()) {
        Ok(p) => p,
        Err(_) => {
            return Err(ApiError::server_error("parent agent id invalid"));
        },
    };
    if parent.is_subagent_named() {
        return Err(
            ApiError::forbidden("nested_subagent", "parent agent id is itself a sub-agent"),
        );
    }
    let body = match ctx.parse_json() {
        Ok(b) => b,
        Err(e) => {
            return Err(e);
        },
    };
    let (discriminator, cnf_jwk) = match read_subagent_body(&body) {
        Ok(x) => x,
        Err(e) => {
            return Err(e);
        },
    };
    Ok(SubagentRequest { parent, discriminator, cnf_jwk, ps: claims.ps, parent_exp: claims.exp })
}

/// What a sub-agent has from its parent's record: the embedded claims and the
/// assurance. A parent that was revoked gets no sub-agents.
pub open spec fn inherited_claims(found: Option<Seq<u8>>) -> Result<
    (Option<Map<Seq<char>, Json>>, Option<Seq<char>>),
    ApiErrorView,
> {
    match found {
        None => Ok((None, None)),
        Some(b) => match records::stored_agent(b) {
            None => Ok((None, None)),
            Some(rec) => if rec.status == "active"@ {
                Ok((rec.embed_claims, rec.assurance))
            } else {
                Err(revoked())
            },
        },
    }
}

/// What a sub-agent has from its parent's record.
pub struct Inherited {
    pub embed_claims: Option<Vec<(String, JsonValue)>>,
    pub assurance: Option<String>,
}

/// Reads what a sub-agent has from its parent's record.
pub fn inherit(found: &Option<Vec<u8>>) -> (r: Result<Inherited, ApiError>)
    ensures
        match r {
            Ok(x) => inherited_claims(storage::opt_bytes(*found)) == Ok::<
                (Option<Map<Seq<char>, Json>>, Option<Seq<char>>),
                ApiErrorView,
            >((records::claims_view(x.embed_claims), text::opt_view(x.assurance))),
            Err(e) => inherited_claims(storage::opt_bytes(*found)) == Err::<
                (Option<Map<Seq<char>, Json>>, Option<Seq<char>>),
                ApiErrorView,
            >(e@),
        },
{
    let nothing = Inherited { embed_claims: None, assurance: None };
    match found {
        None => Ok(nothing),
        Some(b) => match records::read_agent(b.as_slice()) {
            None => Ok(nothing),
            Some(rec) => if text::same(rec.status.as_str(), records::STATUS_ACTIVE) {
                Ok(Inherited { embed_claims: rec.embed_claims, assurance: rec.assurance })
            } else {
                Err(
                    ApiError::forbidden(
                        "enrollment_revoked",
                        "this enrollment has been revoked by the operator",
                    ),
                )
            },
        },
    }
}

/// A sub-agent's token that is issued.
pub struct IssuedSubagent {
    pub token: String,
    pub exp: u64,
    /// The sub-agent's name.
    pub agent: String,
    /// The parent's name.
    pub parent: String,
    /// The parent's local part.
    pub parent_local: String,
    pub answer: Resp,
}

/// The local part of the sub-agent that is asked for.
pub open spec fn subagent_local(q: SubagentView) -> Seq<char> {
    q.parent_local + "+"@ + q.discriminator
}

/// When a sub-agent's token expires: as any token of the provider, and no later
/// than the parent's.
pub open spec fn subagent_exp(cfg: Config, q: SubagentView, now: u64) -> int {
    issue::least(now + cfg.agent_token_ttl_secs, q.parent_exp as int)
}

/// Why no sub-agent's token is issued.
pub open spec fn subagent_fault(cfg: Config, q: SubagentView, now: u64) -> Option<ApiErrorView> {
    if !ident::is_discriminator(q.discriminator) || subagent_local(q).len() > 255 {
        Some(invalid("invalid discriminator"@))
    } else if subagent_exp(cfg, q, now) <= now {
        Some(invalid("parent token too close to expiry to mint a sub-agent token"@))
    } else {
        None
    }
}

/// The answer to a request for a sub-agent's token.
pub open spec fn subagent_answer(
    token: Seq<char>,
    left: int,
    agent: Seq<char>,
    parent: Seq<char>,
) -> RespView {
    problem::json_answer(
        problem::OK,
        Json::Obj(
            Map::<Seq<char>, Json>::empty().insert("agent_token"@, Json::Str(token)).insert(
                "token_type"@,
                Json::Str("aa-agent+jwt"@),
            ).insert("expires_in"@, Json::Int(left)).insert("agent"@, Json::Str(agent)).insert(
                "parent_agent"@,
                Json::Str(parent),
            ),
        ),
    )
}

/// What issuing a sub-agent's token gives.
pub open spec fn subagent_result(
    cfg: Config,
    keyset: KeySet,
    q: SubagentView,
    embed_claims: Option<Map<Seq<char>, Json>>,
    assurance: Option<Seq<char>>,
    jti: Seq<char>,
    now: u64,
    result: Result<IssuedSubagent, ApiError>,
) -> bool {
    match result {
        Err(e) => subagent_fault(cfg, q, now) == Some(e@),
        Ok(x) => subagent_fault(cfg, q, now) is None && ({
            let parent = ident::agent_text(q.parent_local, q.parent_domain);
            let claims = issue::agent_payload(
                cfg.issuer@,
                x.agent@,
                jti,
                q.cnf_jwk,
                now,
                x.exp,
                Some(parent),
                q.ps,
                assurance,
                embed_claims,
            );
            &&& x.agent@ == ident::agent_text(subagent_local(q), q.parent_domain)
            &&& x.parent@ == parent
            &&& x.parent_local@ == q.parent_local
            &&& x.exp == subagent_exp(cfg, q, now)
            &&& x.token@ == issue::issued(keyset, "aa-agent+jwt"@, claims)
            &&& issue::good_token(keyset, "aa-agent+jwt"@, claims, x.token@)
            &&& x.answer@ == subagent_answer(x.token@, x.exp - now, x.agent@, parent)
        }),
    }
}

/// Issues a sub-agent's token. `jti` is drawn at random.
pub fn subagent_token(
    cfg: &Config,
    keyset: &KeySet,
    q: &SubagentRequest,
    from: &Inherited,
    jti: &str,
    now: u64,
) -> (r: Result<IssuedSubagent, ApiError>)
    requires
        now + cfg.agent_token_ttl_secs <= u64::MAX,
    ensures
        subagent_result(
            *cfg,
            *keyset,
            q@,
            records::claims_view(from.embed_claims),
            text::opt_view(from.assurance),
            jti@,
            now,
            r,
        ),
{
    proof {
        reveal_strlit("+");
    }
    let ps: Option<&str> = match &q.ps {
        Some(p) => Some(p.as_str()),
        None => None,
    };
    let assurance: Option<&str> = match &from.assurance {
        Some(a) => Some(a.as_str()),
        None => None,
    };
    let (token, exp) = match issue::subagent_token(
        cfg,
        keyset,
        &q.parent,
        q.discriminator.as_str(),
        &q.cnf_jwk,
        ps,
        q.parent_exp,
        &from.embed_claims,
        assurance,
        jti,
        now,
    ) {
        Ok(x) => x,
        Err(e) => {
            return Err(invalid_request(e.as_str()));
        },
    };
    let parent = q.parent.to_text();
    let agent = match q.parent.subagent(q.discriminator.as_str()) {
        Ok(id) => id.to_text(),
        Err(_) => String::new(),
    };
    let answer = problem::json_ok(
        &JsonValue::object().with("agent_token", JsonValue::string(token.as_str())).with(
            "token_type",
            JsonValue::string("aa-agent+jwt"),
        ).with("expires_in", JsonValue::number(exp - now)).with(
            "agent",
            JsonValue::string(agent.as_str()),
        ).with("parent_agent", JsonValue::string(parent.as_str())),
    );
    proof {
        ident::law_agent_round_trip(q.parent.local(), q.parent.domain());
    }
    let parent_local = ident::local_part(parent.as_str());
    Ok(IssuedSubagent { token, exp, agent, parent, parent_local, answer })
}

// ------------------------------------------------------------------ laws

/// A key that was enrolled is known from then on: its index gives the identity
/// that the enrollment gave.
pub proof fn law_enrolled_key_is_known(cfg: Config, record: AgentView)
    requires
        ident::is_local(record.local),
    ensures
        known_answer(cfg, agent_writes(record)[1].value) == Ok::<RespView, ApiErrorView>(
            enroll_answer(problem::OK, issue::agent_id(cfg, record.local), "existing"@),
        ),
        index_entry(Some(agent_writes(record)[1].value)) == Ok::<Seq<char>, ApiErrorView>(
            record.local,
        ),
{
    vstd::utf8::encode_utf8_valid_utf8(record.local);
    vstd::utf8::encode_utf8_decode_utf8(record.local);
}

/// An agent whose record is not active gets no token, and no token for a
/// sub-agent.
pub proof fn law_revoked_gets_nothing(found: FoundView)
    requires
        records::stored_agent(found.bytes) matches Some(rec) && rec.status != "active"@,
    ensures
        serving_record(Some(found)) == Err::<AgentView, ApiErrorView>(revoked()),
        inherited_claims(Some(found.bytes)) == Err::<
            (Option<Map<Seq<char>, Json>>, Option<Seq<char>>),
            ApiErrorView,
        >(revoked()),
{
}

/// A naming token works once: as long as what its first use put down stands,
/// its identifier is not free.
pub proof fn law_naming_token_used_once(
    cfg: Config,
    jti: Seq<char>,
    store: storage::StoreView,
    now: u64,
    later: u64,
)
    requires
        now <= later,
        later < now + replay_guard(cfg, jti).ttl->0,
        now + replay_guard(cfg, jti).ttl->0 <= u64::MAX,
    ensures
        ({
            let w = replay_guard(cfg, jti);
            store.written(
                w.key,
                storage::SlotView {
                    value: w.value,
                    deadline: storage::deadline_of(now, w.ttl),
                },
            ).alive(w.key, later)
        }),
{
}

/// No sub-agent has sub-agents: whoever asks for one is at the top.
pub proof fn law_single_level(cfg: Config, keyset: KeySet, r: ReqView, now: u64)
    ensures
        subagent_asked(cfg, keyset, r, now) matches Ok(q) ==> !q.parent_local.contains('+') && (
        caller(cfg, keyset, r, now) matches Ok(SignerView::AgentToken { claims, .. })
            && claims.parent_agent is None),
{
}

/// A sub-agent's name is that of a sub-agent, so that it cannot ask in turn.
pub proof fn law_subagent_is_named_so(q: SubagentView)
    ensures
        subagent_local(q).contains('+'),
{
    reveal_strlit("+");
    assert(subagent_local(q)[q.parent_local.len() as int] == '+');
}

/// Who enrolls a key signs with that key; the request names the Person Server,
/// the platform and the label, and brings a token or an assertion.
pub proof fn law_enrollment_as_asked(
    cfg: Config,
    keyset: KeySet,
    r: ReqView,
    now: u64,
    k: JwkView,
    b: Json,
)
    requires
        caller(cfg, keyset, r, now) == Ok::<SignerView, ApiErrorView>(SignerView::Hwk { jwk: k }),
        jwk::thumbprint_of(k) is Ok,
        reqctx::body_json(r) == Ok::<Json, ApiErrorView>(b),
    ensures
        enroll_asked(cfg, keyset, r, now) matches Ok(q) && {
            &&& q.durable_jwk == k
            &&& jwk::thumbprint_of(k) == Ok::<Seq<char>, jwk::JwkError>(q.durable_jkt)
            &&& q.ps == json::str_member(b, "ps"@)
            &&& q.platform == json::str_member(b, "platform"@)
            &&& q.label == json::str_member(b, "label"@)
            &&& q.token == json::str_member(b, "enrollment_token"@)
            &&& q.assertion == json::str_member(b, "enrollment_assertion"@)
        },
{
}

/// A key enrolls only by its own signature: whoever signs in another way is told
/// that the scheme does not do, and nothing of the request is used.
pub proof fn law_enrollment_by_own_key(cfg: Config, keyset: KeySet, r: ReqView, now: u64)
    ensures
        enroll_asked(cfg, keyset, r, now) matches Ok(q) ==> caller(cfg, keyset, r, now) == Ok::<
            SignerView,
            ApiErrorView,
        >(SignerView::Hwk { jwk: q.durable_jwk }),
        caller(cfg, keyset, r, now) matches Err(e) ==> enroll_asked(cfg, keyset, r, now) == Err::<
            EnrollView,
            ApiErrorView,
        >(e),
        caller(cfg, keyset, r, now) matches Ok(s) ==> (!(s is Hwk) ==> (enroll_asked(
            cfg,
            keyset,
            r,
            now,
        ) matches Err(e) && e.status == 401 && e.error == "unsupported_scheme"@)),
        caller(cfg, keyset, r, now) matches Ok(SignerView::Hwk { jwk: k }) ==> (
        jwk::thumbprint_of(k) is Err ==> (enroll_asked(cfg, keyset, r, now) matches Err(e)
            && e.status == 400 && e.error == "invalid_key"@)),
{
}

/// The answer to an enrollment names the agent and says whether it is new.
pub proof fn law_enrollment_answer(code: u16, agent: Seq<char>, status: Seq<char>)
    ensures
        enroll_answer(code, agent, status).status == code,
        enroll_answer(code, agent, status).body == json::json_text(
            Json::Obj(map!["agent"@ => Json::Str(agent), "status"@ => Json::Str(status)]),
        ),
{
    assert(Map::<Seq<char>, Json>::empty().insert("agent"@, Json::Str(agent)).insert(
        "status"@,
        Json::Str(status),
    ) =~= map!["agent"@ => Json::Str(agent), "status"@ => Json::Str(status)]);
}

/// A key that is enrolled already gets its own name back, with 200; an index
/// that holds no local part is a failure of the server.
pub proof fn law_known_key_answer(cfg: Config, local: Seq<char>)
    ensures
        ident::is_local(local) ==> (known_answer(
            cfg,
            vstd::utf8::encode_utf8(local),
        ) matches Ok(a) && a.status == 200 && a.body == json::json_text(
            Json::Obj(
                map![
                    "agent"@ => Json::Str("aauth:"@ + local + "@"@ + ident::url_host(
                        cfg.issuer@,
                    )->0),
                    "status"@ => Json::Str("existing"@),
                ],
            ),
        )),
        !ident::is_local(local) ==> (known_answer(
            cfg,
            vstd::utf8::encode_utf8(local),
        ) matches Err(e) && e.status == 500),
{
    vstd::utf8::encode_utf8_valid_utf8(local);
    vstd::utf8::encode_utf8_decode_utf8(local);
    law_enrollment_answer(200, issue::agent_id(cfg, local), "existing"@);
}

/// A local part is reserved under the key that its agent's record will have, for
/// half a minute.
pub proof fn law_reservation(record: AgentView)
    ensures
        reserving(record.local).key == agent_writes(record)[0].key,
        reserving(record.local).key == "agent:"@ + record.local,
        reserving(record.local).ttl == Some(30000u64),
{
}

/// A new agent is stored for good: its record under its local part, and its local
/// part under the thumbprint of its key.
pub proof fn law_agent_is_stored(record: AgentView)
    ensures
        agent_writes(record).len() == 2,
        agent_writes(record)[0].key == "agent:"@ + record.local,
        agent_writes(record)[0].value == records::stored(records::agent_json(record)),
        agent_writes(record)[0].ttl is None,
        agent_writes(record)[1].key == "jkt:"@ + record.durable_jkt,
        agent_writes(record)[1].value == vstd::utf8::encode_utf8(record.local),
        agent_writes(record)[1].ttl is None,
{
}

/// Enrolling gives an active agent of the requested key, with nothing issued
/// yet, and answers 201 with its name.
pub proof fn law_enrolled_as_asked(
    cfg: Config,
    q: EnrollView,
    a: AuthorizedView,
    ps: Option<Seq<char>>,
    local: Seq<char>,
    now: u64,
    r: Enrolled,
)
    requires
        enrollment_result(cfg, q, a, ps, local, now, r),
    ensures
        r.agent@ == "aauth:"@ + local + "@"@ + ident::url_host(cfg.issuer@)->0,
        r.record@.local == local,
        r.record@.durable_jkt == q.durable_jkt,
        r.record@.ps == ps,
        r.record@.platform == q.platform,
        r.record@.status == "active"@,
        r.record@.created_at == now,
        r.record@.tokens_issued == 0,
        r.writes@.len() == 2,
        r.writes@[0]@.key == "agent:"@ + local,
        r.writes@[1]@.key == "jkt:"@ + q.durable_jkt,
        r.answer@.status == 201,
        r.answer@.body == json::json_text(
            Json::Obj(
                map!["agent"@ => Json::Str(r.agent@), "status"@ => Json::Str("enrolled"@)],
            ),
        ),
{
    law_enrollment_answer(201, r.agent@, "enrolled"@);
    assert(writes_view(r.writes@).len() == r.writes@.len());
    assert(writes_view(r.writes@)[0] == r.writes@[0]@);
    assert(writes_view(r.writes@)[1] == r.writes@[1]@);
}

/// A token is asked for by the durable key: by itself, and the token is bound to
/// it, or by a naming token, and the token is bound to the named key. An agent
/// token asks for no other.
pub proof fn law_token_as_asked(cfg: Config, keyset: KeySet, r: ReqView, now: u64)
    ensures
        caller(cfg, keyset, r, now) matches Ok(
            SignerView::JktJwt { durable_jkt, ephemeral_jwk, jti },
        ) ==> (token_asked(cfg, keyset, r, now) matches Ok(q) && q.durable_jkt == durable_jkt
            && q.signing_jwk == ephemeral_jwk && q.jti == jti),
        caller(cfg, keyset, r, now) matches Ok(SignerView::Hwk { jwk: k }) ==> (
        jwk::thumbprint_of(k) matches Ok(jkt) ==> (token_asked(cfg, keyset, r, now) matches Ok(q)
            && q.durable_jkt == jkt && q.signing_jwk == k && q.jti is None)),
        caller(cfg, keyset, r, now) matches Ok(SignerView::Hwk { jwk: k }) ==> (
        jwk::thumbprint_of(k) is Err ==> (token_asked(cfg, keyset, r, now) matches Err(e)
            && e.status == 400 && e.error == "invalid_key"@)),
        caller(cfg, keyset, r, now) matches Ok(s) ==> (s is AgentToken ==> (token_asked(
            cfg,
            keyset,
            r,
            now,
        ) matches Err(e) && e.status == 401 && e.error == "unsupported_scheme"@)),
        caller(cfg, keyset, r, now) matches Err(e) ==> token_asked(cfg, keyset, r, now) == Err::<
            TokenAskView,
            ApiErrorView,
        >(e),
{
}

/// The identifier of a naming token is kept under its own key for as long as the
/// token can live, in milliseconds, and for a minute at least.
pub proof fn law_naming_token_remembered(cfg: Config, jti: Seq<char>)
    ensures
        replay_guard(cfg, jti).key == "jti:"@ + jti,
        cfg.naming_jwt_max_lifetime_secs <= 60 ==> replay_guard(cfg, jti).ttl == Some(60000u64),
        60 <= cfg.naming_jwt_max_lifetime_secs <= u64::MAX / 1000 ==> (replay_guard(
            cfg,
            jti,
        ).ttl matches Some(ms) && ms == 1000 * cfg.naming_jwt_max_lifetime_secs),
        replayed().status == 401 && replayed().error == "invalid_jwt"@,
{
}

/// A key without an index entry is not enrolled, and is told so with 403.
pub proof fn law_not_enrolled(found: Option<Seq<u8>>)
    ensures
        found is None ==> (index_entry(found) matches Err(e) && e.status == 403 && e.error
            == "not_enrolled"@),
        found is Some ==> index_entry(found) is Ok,
{
}

/// An agent is served exactly where its record reads and is active, and by that
/// record; one that was revoked is told so with 403.
pub proof fn law_served_while_active(found: FoundView)
    ensures
        (serving_record(Some(found)) is Ok) == (records::stored_agent(found.bytes) matches Some(rec)
            && rec.status == "active"@),
        serving_record(Some(found)) matches Ok(rec) ==> records::stored_agent(found.bytes) == Some(
            rec,
        ),
        records::stored_agent(found.bytes) matches Some(rec) ==> (rec.status != "active"@ ==> (
        serving_record(Some(found)) matches Err(e) && e.status == 403 && e.error
            == "enrollment_revoked"@)),
        records::stored_agent(found.bytes) is None ==> (serving_record(Some(found)) matches Err(e)
            && e.status == 500),
        serving_record(None) matches Err(e) && e.status == 500,
{
}

/// Issuing a token counts it and notes the time and the Person Server, and
/// changes nothing else of the record.
pub proof fn law_issuance_is_counted(rec: AgentView, ps: Option<Seq<char>>, now: u64)
    ensures
        rec.tokens_issued < u64::MAX ==> counted_record(rec, ps, now).tokens_issued
            == rec.tokens_issued + 1,
        rec.tokens_issued == u64::MAX ==> counted_record(rec, ps, now).tokens_issued == u64::MAX,
        counted_record(rec, ps, now).last_issued_at == now,
        ps is Some ==> counted_record(rec, ps, now).ps == ps,
        ps is None ==> counted_record(rec, ps, now).ps == rec.ps,
        counted_record(rec, ps, now).local == rec.local,
        counted_record(rec, ps, now).durable_jkt == rec.durable_jkt,
        counted_record(rec, ps, now).platform == rec.platform,
        counted_record(rec, ps, now).label == rec.label,
        counted_record(rec, ps, now).created_at == rec.created_at,
        counted_record(rec, ps, now).status == rec.status,
        counted_record(rec, ps, now).method == rec.method,
        counted_record(rec, ps, now).issuer == rec.issuer,
        counted_record(rec, ps, now).subject == rec.subject,
        counted_record(rec, ps, now).embed_claims == rec.embed_claims,
        counted_record(rec, ps, now).assurance == rec.assurance,
{
}

/// The answer with an agent token: the token, its type, how long it lasts, and
/// the agent's name.
pub proof fn law_token_answer(token: Seq<char>, left: u64, agent: Seq<char>)
    ensures
        token_answer(token, left, agent).status == 200,
        token_answer(token, left, agent).body == json::json_text(
            Json::Obj(
                map![
                    "agent_token"@ => Json::Str(token),
                    "token_type"@ => Json::Str("aa-agent+jwt"@),
                    "expires_in"@ => Json::Int(left as int),
                    "agent"@ => Json::Str(agent),
                ],
            ),
        ),
{
    assert(Map::<Seq<char>, Json>::empty().insert("agent_token"@, Json::Str(token)).insert(
        "token_type"@,
        Json::Str("aa-agent+jwt"@),
    ).insert("expires_in"@, Json::Int(left as int)).insert("agent"@, Json::Str(agent)) =~= map![
        "agent_token"@ => Json::Str(token),
        "token_type"@ => Json::Str("aa-agent+jwt"@),
        "expires_in"@ => Json::Int(left as int),
        "agent"@ => Json::Str(agent),
    ]);
}

/// The Person Server of a token: the one that is asked for where overriding is
/// allowed or none is bound, else the bound one; a request for another is refused.
pub proof fn law_token_person_server(cfg: Config, r: ReqView, rec: AgentView, b: Json)
    requires
        reqctx::body_json(r) == Ok::<Json, ApiErrorView>(b),
        ident::is_local(rec.local),
    ensures
        json::str_member(b, "ps"@) is None && rec.ps is Some ==> token_ps(cfg, r, rec) == Ok::<
            Option<Seq<char>>,
            ApiErrorView,
        >(rec.ps),
        json::str_member(b, "ps"@) matches Some(p) ==> (ident::is_server_identifier(
            p,
            cfg.insecure_dev_mode,
        ) && (cfg.allow_ps_override || rec.ps is None || rec.ps == Some(p)) ==> token_ps(
            cfg,
            r,
            rec,
        ) == Ok::<Option<Seq<char>>, ApiErrorView>(Some(p))),
        json::str_member(b, "ps"@) matches Some(p) ==> (rec.ps matches Some(own) ==> (own != p
            && !cfg.allow_ps_override ==> token_ps(cfg, r, rec) is Err)),
        json::str_member(b, "ps"@) matches Some(p) ==> (!ident::is_server_identifier(
            p,
            cfg.insecure_dev_mode,
        ) ==> token_ps(cfg, r, rec) is Err),
{
}

/// What a token says of an agent: the provider, the agent's name, its times and
/// identifier, the key, the Person Server, the assurance of its enrollment, and no
/// parent.
pub proof fn law_token_says(
    cfg: Config,
    rec: AgentView,
    key: JwkView,
    ps: Option<Seq<char>>,
    jti: Seq<char>,
    now: u64,
)
    requires
        now + cfg.agent_token_ttl_secs <= u64::MAX,
    ensures
        ({
            let p = token_claims(cfg, rec, key, ps, jti, now);
            &&& json::str_member(p, "iss"@) == Some(cfg.issuer@)
            &&& json::str_member(p, "sub"@) == Some(
                "aauth:"@ + rec.local + "@"@ + ident::url_host(cfg.issuer@)->0,
            )
            &&& json::str_member(p, "jti"@) == Some(jti)
            &&& json::u64_member(p, "iat"@) == Some(now)
            &&& json::json_get(p, "exp"@) == Some(Json::Int(now + cfg.agent_token_ttl_secs))
            &&& json::str_member(p, "ps"@) == ps
            &&& json::str_member(p, "assurance"@) == rec.assurance
            &&& json::str_member(p, "parent_agent"@) is None
            &&& json::json_get(p, "cnf"@) == Some(
                Json::Obj(map!["jwk"@ => jwk::jwk_json(jwk::bare(key))]),
            )
        }),
{
    issue::law_agent_token_says(
        cfg.issuer@,
        issue::agent_id(cfg, rec.local),
        jti,
        key,
        now,
        (now + cfg.agent_token_ttl_secs) as u64,
        None,
        ps,
        rec.assurance,
        rec.embed_claims,
    );
}

/// What is issued lasts for the configured time from now on, is counted in the
/// record that is stored under the agent's local part, and is what is answered.
pub proof fn law_token_is_answered(
    r: ReqView,
    cfg: Config,
    keyset: KeySet,
    q: TokenAskView,
    rec: AgentView,
    jti: Seq<char>,
    now: u64,
    x: IssuedToken,
)
    requires
        token_result(
            r,
            cfg,
            keyset,
            q,
            rec,
            jti,
            now,
            Ok::<IssuedToken, ApiError>(x),
        ),
    ensures
        x.exp == now + cfg.agent_token_ttl_secs,
        x.agent@ == "aauth:"@ + rec.local + "@"@ + ident::url_host(cfg.issuer@)->0,
        x.record@.last_issued_at == now,
        x.record@.local == rec.local && x.record@.status == rec.status,
        x.write@.key == "agent:"@ + rec.local,
        x.write@.value == records::stored(records::agent_json(x.record@)),
        x.write@.ttl is None,
        x.answer@.status == 200,
        token_ps(cfg, r, rec) matches Ok(ps) && x.token@ == issue::issued(
            keyset,
            "aa-agent+jwt"@,
            token_claims(cfg, rec, q.signing_jwk, ps, jti, now),
        ),
        x.answer@ == token_answer(x.token@, cfg.agent_token_ttl_secs, x.agent@),
{
}

/// A sub-agent is asked for with a discriminator and a usable key; each thing
/// that is missing or wrong is a bad request.
pub proof fn law_subagent_request_body(b: Json, d: Seq<char>, v: Json, k: JwkView)
    ensures
        json::str_member(b, "discriminator"@) == Some(d) && ident::is_discriminator(d)
            && json::json_get(b, "cnf_jwk"@) == Some(v) && jwk::jwk_from(v) == Some(k)
            && jwk::key_bytes(k) is Ok ==> subagent_body(b) == Ok::<
            (Seq<char>, JwkView),
            ApiErrorView,
        >((d, k)),
        subagent_body(b) matches Ok((d2, k2)) ==> json::str_member(b, "discriminator"@) == Some(d2)
            && ident::is_discriminator(d2) && jwk::key_bytes(k2) is Ok && (json::json_get(
            b,
            "cnf_jwk"@,
        ) matches Some(v2) && jwk::jwk_from(v2) == Some(k2)),
        subagent_body(b) matches Err(e) ==> e.status == 400 && e.headers.len() == 0,
{
}

/// A sub-agent is asked for with the parent's own token, and gets from it the
/// parent's name, the Person Server and the latest time at which its token ends.
pub proof fn law_subagent_as_asked(cfg: Config, keyset: KeySet, r: ReqView, now: u64)
    ensures
        subagent_asked(cfg, keyset, r, now) matches Ok(q) ==> (caller(
            cfg,
            keyset,
            r,
            now,
        ) matches Ok(SignerView::AgentToken { claims, .. }) && ident::agent_parts(claims.sub)
            == Some((q.parent_local, q.parent_domain)) && q.ps == claims.ps && q.parent_exp
            == claims.exp && (reqctx::body_json(r) matches Ok(b) && subagent_body(b) == Ok::<
            (Seq<char>, JwkView),
            ApiErrorView,
        >((q.discriminator, q.cnf_jwk)))),
        caller(cfg, keyset, r, now) matches Ok(s) ==> (!(s is AgentToken) ==> (subagent_asked(
            cfg,
            keyset,
            r,
            now,
        ) matches Err(e) && e.status == 401 && e.error == "unsupported_scheme"@)),
        caller(cfg, keyset, r, now) matches Ok(SignerView::AgentToken { claims, .. }) ==> (
        claims.parent_agent is Some ==> (subagent_asked(cfg, keyset, r, now) matches Err(e)
            && e.status == 403 && e.error == "nested_subagent"@)),
        caller(cfg, keyset, r, now) matches Ok(SignerView::AgentToken { claims, .. }) ==> (
        claims.parent_agent is None && (ident::agent_parts(claims.sub) matches Some((l, _))
            && !l.contains('+')) && (reqctx::body_json(r) matches Ok(b) && subagent_body(b) is Ok)
            ==> subagent_asked(cfg, keyset, r, now) is Ok),
{
}

/// A sub-agent inherits what its parent's record embeds and assures, where that
/// reads; a parent that was revoked gets no sub-agents.
pub proof fn law_inherited(b: Seq<u8>)
    ensures
        inherited_claims(None) == Ok::<
            (Option<Map<Seq<char>, Json>>, Option<Seq<char>>),
            ApiErrorView,
        >((None, None)),
        records::stored_agent(b) is None ==> inherited_claims(Some(b)) == Ok::<
            (Option<Map<Seq<char>, Json>>, Option<Seq<char>>),
            ApiErrorView,
        >((None, None)),
        records::stored_agent(b) matches Some(rec) ==> (rec.status == "active"@
            ==> inherited_claims(Some(b)) == Ok::<
            (Option<Map<Seq<char>, Json>>, Option<Seq<char>>),
            ApiErrorView,
        >((rec.embed_claims, rec.assurance))),
        records::stored_agent(b) matches Some(rec) ==> (rec.status != "active"@ ==> (
        inherited_claims(Some(b)) matches Err(e) && e.status == 403 && e.error
            == "enrollment_revoked"@)),
{
}

/// A sub-agent's token is refused exactly where its name does not fit or nothing
/// of the parent's time is left.
pub proof fn law_subagent_refused(cfg: Config, q: SubagentView, now: u64)
    ensures
        subagent_fault(cfg, q, now) is None == (ident::is_discriminator(q.discriminator)
            && q.parent_local.len() + 1 + q.discriminator.len() <= 255 && now < q.parent_exp
            && cfg.agent_token_ttl_secs > 0),
        subagent_fault(cfg, q, now) matches Some(e) ==> e.status == 400 && e.error
            == "invalid_request"@,
        subagent_exp(cfg, q, now) <= q.parent_exp,
        subagent_exp(cfg, q, now) <= now + cfg.agent_token_ttl_secs,
        subagent_exp(cfg, q, now) == q.parent_exp || subagent_exp(cfg, q, now) == now
            + cfg.agent_token_ttl_secs,
{
    reveal_strlit("+");
}

/// A sub-agent's token names it after its parent and discriminator, in the
/// parent's domain, says who the parent is, and ends with the parent's at the
/// latest.
pub proof fn law_subagent_issued(
    cfg: Config,
    keyset: KeySet,
    q: SubagentView,
    embed_claims: Option<Map<Seq<char>, Json>>,
    assurance: Option<Seq<char>>,
    jti: Seq<char>,
    now: u64,
    x: IssuedSubagent,
)
    requires
        subagent_result(
            cfg,
            keyset,
            q,
            embed_claims,
            assurance,
            jti,
            now,
            Ok::<IssuedSubagent, ApiError>(x),
        ),
    ensures
        x.agent@ == "aauth:"@ + (q.parent_local + "+"@ + q.discriminator) + "@"@ + q.parent_domain,
        x.parent@ == "aauth:"@ + q.parent_local + "@"@ + q.parent_domain,
        x.parent_local@ == q.parent_local,
        now < x.exp <= q.parent_exp,
        x.exp <= now + cfg.agent_token_ttl_secs,
        x.answer@.status == 200,
        x.answer@ == subagent_answer(x.token@, x.exp - now, x.agent@, x.parent@),
        exists|p: Json|
            x.token@ == #[trigger] issue::issued(keyset, "aa-agent+jwt"@, p) && json::str_member(
                p,
                "sub"@,
            ) == Some(x.agent@) && json::str_member(p, "parent_agent"@) == Some(x.parent@)
                && json::str_member(p, "iss"@) == Some(cfg.issuer@) && json::str_member(p, "jti"@)
                == Some(jti) && json::u64_member(p, "iat"@) == Some(now) && json::u64_member(
                p,
                "exp"@,
            ) == Some(x.exp) && json::str_member(p, "ps"@) == q.ps && json::str_member(
                p,
                "assurance"@,
            ) == assurance && json::json_get(p, "cnf"@) == Some(
                Json::Obj(map!["jwk"@ => jwk::jwk_json(jwk::bare(q.cnf_jwk))]),
            ),
{
    issue::law_agent_token_says(
        cfg.issuer@,
        x.agent@,
        jti,
        q.cnf_jwk,
        now,
        x.exp,
        Some(x.parent@),
        q.ps,
        assurance,
        embed_claims,
    );
    let p = issue::agent_payload(
        cfg.issuer@,
        x.agent@,
        jti,
        q.cnf_jwk,
        now,
        x.exp,
        Some(x.parent@),
        q.ps,
        assurance,
        embed_claims,
    );
    assert(x.token@ == issue::issued(keyset, "aa-agent+jwt"@, p));
}

/// The answer with a sub-agent's token, as with any agent token, names the parent
/// too.
pub proof fn law_subagent_answer(token: Seq<char>, left: int, agent: Seq<char>, parent: Seq<char>)
    ensures
        subagent_answer(token, left, agent, parent).status == 200,
        subagent_answer(token, left, agent, parent).body == json::json_text(
            Json::Obj(
                map![
                    "agent_token"@ => Json::Str(token),
                    "token_type"@ => Json::Str("aa-agent+jwt"@),
                    "expires_in"@ => Json::Int(left),
                    "agent"@ => Json::Str(agent),
                    "parent_agent"@ => Json::Str(parent),
                ],
            ),
        ),
{
    assert(Map::<Seq<char>, Json>::empty().insert("agent_token"@, Json::Str(token)).insert(
        "token_type"@,
        Json::Str("aa-agent+jwt"@),
    ).insert("expires_in"@, Json::Int(left)).insert("agent"@, Json::Str(agent)).insert(
        "parent_agent"@,
        Json::Str(parent),
    ) =~= map![
        "agent_token"@ => Json::Str(token),
        "token_type"@ => Json::Str("aa-agent+jwt"@),
        "expires_in"@ => Json::Int(left),
        "agent"@ => Json::Str(agent),
        "parent_agent"@ => Json::Str(parent),
    ]);
}

} // verus!
