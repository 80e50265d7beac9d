//! Events: the provider keeps an inbox for each agent. An agent subscribes to a
//! resource, the resource delivers, and the agent collects. Each endpoint is a
//! row of steps around what the store and the network give.

use vstd::prelude::*;

use crate::agent;
use crate::config::Config;
use crate::decimal;
use crate::ident;
use crate::issue;
use crate::json;
use crate::json::{Json, JsonValue};
use crate::jwk::{Jwk, JwkView};
use crate::jwt;
use crate::jwt::{DecodedJwt, JwtView};
use crate::keys::KeySet;
use crate::problem;
use crate::problem::{ApiError, ApiErrorView, Resp, RespView};
use crate::records;
use crate::records::{InboxItem, InboxView, SubscriptionRecord, SubscriptionView};
use crate::reqctx;
use crate::reqctx::{ReqCtx, ReqView, Signer, SignerView};
use crate::sig;
use crate::sig::{ParsedSignature, ParsedView, SchemeView, SigError, SigErrorCode, SigKeyScheme};
use crate::storage;
use crate::storage::{Found, FoundView, Write, WriteView};
use crate::text;
use crate::tokens;
use crate::tokens::{AgentClaimsView, AgentTokenClaims, EventClaimsView, EventTokenClaims};

verus! {

/// What is answered where events are not enabled.
pub open spec fn events_off() -> ApiErrorView {
    problem::not_found("not_found"@, "AAuth Events is not enabled on this provider"@)
}

/// Goes on only where events are enabled.
pub fn require_events(cfg: &Config) -> (r: Result<(), ApiError>)
    ensures
        match r {
            Ok(_) => cfg.events.enabled,
            Err(e) => !cfg.events.enabled && e@ == events_off(),
        },
{
    if cfg.events.enabled {
        Ok(())
    } else {
        Err(ApiError::not_found("not_found", "AAuth Events is not enabled on this provider"))
    }
}

/// The agent that signed a request with its token, and the key that it signed
/// with.
pub open spec fn calling_agent(
    cfg: Config,
    keyset: KeySet,
    r: ReqView,
    now: u64,
    otherwise: Seq<char>,
) -> Result<(AgentClaimsView, JwkView), ApiErrorView> {
    if !cfg.events.enabled {
        Err(events_off())
    } else {
        match agent::caller(cfg, keyset, r, now) {
            Err(e) => Err(e),
            Ok(SignerView::AgentToken { claims, signing_jwk }) => Ok((claims, signing_jwk)),
            Ok(_) => Err(agent::wrong_scheme(otherwise)),
        }
    }
}

fn identify_agent(
    ctx: &ReqCtx,
    cfg: &Config,
    keyset: &KeySet,
    now: u64,
    otherwise: &str,
) -> (r: Result<(AgentTokenClaims, Jwk), ApiError>)
    ensures
        match r {
            Ok(x) => calling_agent(*cfg, *keyset, ctx@, now, otherwise@) == Ok::<
                (AgentClaimsView, JwkView),
                ApiErrorView,
            >((x.0@, x.1@)),
            Err(e) => calling_agent(*cfg, *keyset, ctx@, now, otherwise@) == Err::<
                (AgentClaimsView, JwkView),
                ApiErrorView,
            >(e@),
        },
{
    if let Err(e) = require_events(cfg) {
        return Err(e);
    }
    match agent::identify(ctx, cfg, keyset, now) {
        Err(e) => Err(e),
        Ok(Signer::AgentToken { claims, signing_jwk }) => Ok((claims, signing_jwk)),
        Ok(_) => Err(agent::scheme_refused(otherwise)),
    }
}

// --------------------------------------------------------- subscriptions

/// What a request to subscribe asks for: the resource, how often it may
/// deliver, and for how many seconds the token is good.
pub open spec fn subscription_asked(cfg: Config, b: Json) -> Result<
    (Seq<char>, Option<u64>, u64),
    ApiErrorView,
> {
    match json::str_member(b, "resource"@) {
        None => Err(agent::invalid("resource is required"@)),
        Some(resource) => if !ident::is_server_identifier(resource, cfg.insecure_dev_mode) {
            Err(agent::invalid("resource is not a valid server identifier"@))
        } else {
            let most = cfg.subscribe_token_ttl_secs;
            let ttl = match json::u64_member(b, "ttl"@) {
                Some(n) => if n <= most {
                    n
                } else {
                    most
                },
                None => most,
            };
            Ok((resource, json::u64_member(b, "max_uses"@), ttl))
        },
    }
}

fn read_subscription_ask(cfg: &Config, b: &JsonValue) -> (r: Result<
    (String, Option<u64>, u64),
    ApiError,
>)
    ensures
        match r {
            Ok(x) => subscription_asked(*cfg, b@) == Ok::<
                (Seq<char>, Option<u64>, u64),
                ApiErrorView,
            >((x.0@, x.1, x.2)) && x.2 <= cfg.subscribe_token_ttl_secs,
            Err(e) => subscription_asked(*cfg, b@) == Err::<
                (Seq<char>, Option<u64>, u64),
                ApiErrorView,
            >(e@),
        },
{
    let resource = match b.str_of("resource") {
        Some(s) => s.clone(),
        None => {
            return Err(ApiError::bad_request("invalid_request", "resource is required"));
        },
    };
    if ident::validate_server_identifier(resource.as_str(), cfg.insecure_dev_mode).is_err() {
        return Err(
            ApiError::bad_request(
                "invalid_request",
                "resource is not a valid server identifier",
            ),
        );
    }
    let most: u64 = cfg.subscribe_token_ttl_secs;
    let ttl: u64 = match b.u64_of("ttl") {
        Some(n) => if n <= most {
            n
        } else {
            most
        },
        None => most,
    };
    Ok((resource, b.u64_of("max_uses"), ttl))
}

/// How long a subscription is kept, in seconds: beyond the life of its token,
/// so that late deliveries still arrive.
pub open spec fn kept_secs(cfg: Config) -> u64 {
    if cfg.subscribe_token_ttl_secs + cfg.events.inbox_ttl_secs <= u64::MAX {
        (cfg.subscribe_token_ttl_secs + cfg.events.inbox_ttl_secs) as u64
    } else {
        u64::MAX
    }
}

/// The record of a new subscription.
pub open spec fn new_subscription(
    agent: Seq<char>,
    resource: Seq<char>,
    max_uses: Option<u64>,
    eid: Seq<char>,
    now: u64,
) -> SubscriptionView {
    SubscriptionView {
        eid,
        agent_local: ident::local_of(agent),
        agent_id: agent,
        resource,
        max_uses,
        created_at: now,
    }
}

/// What stores a subscription.
pub open spec fn subscription_write(cfg: Config, rec: SubscriptionView) -> WriteView {
    WriteView {
        key: "sub:"@ + rec.eid,
        value: records::stored(records::subscription_json(rec)),
        ttl: Some(storage::millis_of(kept_secs(cfg))),
    }
}

/// The answer to a request to subscribe.
pub open spec fn subscribe_answer(token: Seq<char>, eid: Seq<char>, left: u64) -> RespView {
    problem::json_answer(
        problem::OK,
        Json::Obj(
            Map::<Seq<char>, Json>::empty().insert("subscribe_token"@, Json::Str(token)).insert(
                "token_type"@,
                Json::Str("aa-subscribe+jwt"@),
            ).insert("eid"@, Json::Str(eid)).insert("expires_in"@, Json::Int(left as int)),
        ),
    )
}

/// A subscription that is granted: what is stored, and what is answered.
pub struct Subscribed {
    pub record: SubscriptionRecord,
    pub write: Write,
    pub token: String,
    pub answer: Resp,
}

/// What a signed request to subscribe asks for, and who asks with which key.
pub open spec fn subscribe_asked(cfg: Config, keyset: KeySet, r: ReqView, now: u64) -> Result<
    (AgentClaimsView, JwkView, Seq<char>, Option<u64>, u64),
    ApiErrorView,
> {
    match calling_agent(
        cfg,
        keyset,
        r,
        now,
        "subscribe must be signed with an agent token (jwt scheme)"@,
    ) {
        Err(e) => Err(e),
        Ok((claims, key)) => match reqctx::body_json(r) {
            Err(e) => Err(e),
            Ok(b) => match subscription_asked(cfg, b) {
                Err(e) => Err(e),
                Ok((resource, max_uses, ttl)) => Ok((claims, key, resource, max_uses, ttl)),
            },
        },
    }
}

/// Subscribes an agent to a resource. `id` is drawn at random.
pub fn subscribe(ctx: &ReqCtx, cfg: &Config, keyset: &KeySet, id: &str, now: u64) -> (r: Result<
    Subscribed,
    ApiError,
>)
    requires
        now + cfg.subscribe_token_ttl_secs <= u64::MAX,
    ensures
        match r {
            Err(e) => subscribe_asked(*cfg, *keyset, ctx@, now) == Err::<
                (AgentClaimsView, JwkView, Seq<char>, Option<u64>, u64),
                ApiErrorView,
            >(e@),
            Ok(x) => subscribe_asked(*cfg, *keyset, ctx@, now) matches Ok((
                claims,
                key,
                resource,
                max_uses,
                ttl,
            )) && ({
                let eid = "evt_"@ + id@;
                let payload = issue::subscribe_payload(
                    cfg.issuer@,
                    claims.sub,
                    resource,
                    eid,
                    key,
                    now,
                    (now + ttl) as u64,
                    max_uses,
                );
                &&& x.record@ == new_subscription(claims.sub, resource, max_uses, eid, now)
                &&& x.write@ == subscription_write(*cfg, x.record@)
                &&& x.token@ == issue::issued(*keyset, "aa-subscribe+jwt"@, payload)
                &&& issue::good_token(*keyset, "aa-subscribe+jwt"@, payload, x.token@)
                &&& x.answer@ == subscribe_answer(x.token@, eid, ttl)
            }),
        },
{
    let (claims, key) = match identify_agent(
        ctx,
        cfg,
        keyset,
        now,
        "subscribe must be signed with an agent token (jwt scheme)",
    ) {
        Ok(x) => x,
        Err(e) => {
            return Err(e);
        },
    };
    let body = match ctx.parse_json() {
        Ok(b) => b,
        Err(e) => {
            return Err(e);
        },
    };
    let (resource, max_uses, ttl) = match read_subscription_ask(cfg, &body) {
        Ok(x) => x,
        Err(e) => {
            return Err(e);
        },
    };
    let eid = text::join2("evt_", id);
    let (token, exp) = issue::subscribe_token(
        cfg,
        keyset,
        claims.sub.as_str(),
        &key,
        resource.as_str(),
        eid.as_str(),
        max_uses,
        ttl,
        now,
    );
    let answer = problem::json_ok(
        &JsonValue::object().with("subscribe_token", JsonValue::string(token.as_str())).with(
            "token_type",
            JsonValue::string("aa-subscribe+jwt"),
        ).with("eid", JsonValue::string(eid.as_str())).with(
            "expires_in",
            JsonValue::number(exp - now),
        ),
    );
    let record = SubscriptionRecord {
        eid,
        agent_local: ident::local_part(claims.sub.as_str()),
        agent_id: claims.sub,
        resource,
        max_uses,
        created_at: now,
    };
    let kept: u64 = cfg.subscribe_token_ttl_secs.saturating_add(cfg.events.inbox_ttl_secs);
    let write = Write {
        key: records::subscription_key(record.eid.as_str()),
        value: records::write_subscription(&record),
        ttl: Some(storage::millis(kept)),
    };
    Ok(Subscribed { record, write, token, answer })
}

/// The agent that asks to cancel a subscription.
pub open spec fn cancel_asked(cfg: Config, keyset: KeySet, r: ReqView, now: u64) -> Result<
    Seq<char>,
    ApiErrorView,
> {
    match calling_agent(cfg, keyset, r, now, "must be signed with an agent token"@) {
        Err(e) => Err(e),
        Ok((claims, key)) => Ok(claims.sub),
    }
}

/// Reads a request to cancel a subscription. The subscription is looked up
/// next.
pub fn cancel_request(ctx: &ReqCtx, cfg: &Config, keyset: &KeySet, now: u64) -> (r: Result<
    String,
    ApiError,
>)
    ensures
        match r {
            Ok(a) => cancel_asked(*cfg, *keyset, ctx@, now) == Ok::<Seq<char>, ApiErrorView>(a@),
            Err(e) => cancel_asked(*cfg, *keyset, ctx@, now) == Err::<Seq<char>, ApiErrorView>(
                e@,
            ),
        },
{
    match identify_agent(ctx, cfg, keyset, now, "must be signed with an agent token") {
        Ok(x) => Ok(x.0.sub),
        Err(e) => Err(e),
    }
}

/// The keys under which a subscription and the count of its uses stand.
pub open spec fn subscription_keys(eid: Seq<char>) -> Seq<Seq<char>> {
    seq!["sub:"@ + eid, "subuses:"@ + eid]
}

/// The keys under which a subscription and the count of its uses stand.
pub fn keys_of_subscription(eid: &str) -> (r: Vec<String>)
    ensures
        text::list_view(r@) == subscription_keys(eid@),
{
    let first = records::subscription_key(eid);
    let second = records::sub_uses_key(eid);
    let ghost f = first@;
    let ghost s = second@;
    let mut out: Vec<String> = Vec::new();
    out.push(first);
    out.push(second);
    proof {
        assert(text::list_view(out@) =~= seq![f, s]);
    }
    out
}

/// Why a subscription is not cancelled for an agent.
pub open spec fn cancel_fault(agent: Seq<char>, found: Option<FoundView>) -> Option<ApiErrorView> {
    match found {
        None => Some(problem::not_found("not_found"@, "no such subscription"@)),
        Some(f) => match records::stored_subscription(f.bytes) {
            None => Some(problem::server_error("corrupt subscription: "@ + f.fault)),
            Some(rec) => if rec.agent_id != agent {
                Some(problem::forbidden("forbidden"@, "subscription belongs to another agent"@))
            } else {
                None
            },
        },
    }
}

/// Cancels a subscription: the keys to delete, before an answer without
/// content.
pub fn cancel_subscription(agent: &str, eid: &str, found: &Option<Found>) -> (r: Result<
    Vec<String>,
    ApiError,
>)
    ensures
        match r {
            Ok(keys) => cancel_fault(agent@, storage::opt_found(*found)) is None
                && text::list_view(keys@) == subscription_keys(eid@),
            Err(e) => cancel_fault(agent@, storage::opt_found(*found)) == Some(e@),
        },
{
    match found {
        None => Err(ApiError::not_found("not_found", "no such subscription")),
        Some(f) => match records::read_subscription(f.bytes.as_slice()) {
            None => Err(
                ApiError::server_error(
                    text::join2("corrupt subscription: ", f.fault.as_str()).as_str(),
                ),
            ),
            Some(rec) => if text::same(rec.agent_id.as_str(), agent) {
                Ok(keys_of_subscription(eid))
            } else {
                Err(ApiError::forbidden("forbidden", "subscription belongs to another agent"))
            },
        },
    }
}

// -------------------------------------------------------------- delivery

/// A request that delivers an event.
pub struct EventRequest {
    pub token: String,
    pub decoded: DecodedJwt,
    pub parsed: ParsedSignature,
    pub claims: EventTokenClaims,
    pub kid: String,
}

/// What an [`EventRequest`] holds.
pub struct EventView {
    pub token: Seq<char>,
    pub decoded: JwtView,
    pub parsed: ParsedView,
    pub claims: EventClaimsView,
    pub kid: Seq<char>,
}

impl EventRequest {
    /// What the request holds.
    pub open spec fn view(&self) -> EventView {
        EventView {
            token: self.token@,
            decoded: self.decoded@,
            parsed: self.parsed@,
            claims: self.claims@,
            kid: self.kid@,
        }
    }
}

/// What is answered to an event token that is refused.
pub open spec fn event_token_refused(e: tokens::TokenErrorView) -> ApiErrorView {
    problem::refused(
        sig::sig_error(
            if e.expired {
                SigErrorCode::ExpiredJwt
            } else {
                SigErrorCode::InvalidJwt
            },
            e.detail,
        ),
    )
}

/// The event token that a signature brings, or why it brings none.
pub open spec fn event_presented(p: ParsedView, now: u64, insecure: bool) -> Result<
    EventView,
    ApiErrorView,
> {
    match p.scheme {
        SchemeView::Jwt(token) => match jwt::decoded_jwt(token) {
            None => Err(reqctx::bad_jwt("malformed event token"@)),
            Some(t) => match tokens::event_claims(t, now, insecure) {
                Err(e) => Err(event_token_refused(e)),
                Ok(claims) => match t.header.kid {
                    None => Err(reqctx::bad_jwt("event token missing kid"@)),
                    Some(kid) => Ok(EventView { token, decoded: t, parsed: p, claims, kid }),
                },
            },
        },
        _ => Err(
            agent::wrong_scheme("event delivery must present the event token via the jwt scheme"@),
        ),
    }
}

/// The event that a request delivers, or why it delivers none. Nothing of it is
/// verified yet but its claims.
pub open spec fn event_asked(cfg: Config, r: ReqView, now: u64) -> Result<EventView, ApiErrorView> {
    if !cfg.events.enabled {
        Err(events_off())
    } else if r.body.len() > cfg.events.max_payload_bytes {
        Err(
            problem::api_error(
                problem::PAYLOAD_TOO_LARGE,
                "invalid_request"@,
                "event payload too large"@,
            ),
        )
    } else if r.authority != cfg.authority_spec() {
        Err(reqctx::wrong_authority())
    } else {
        match sig::request_signature(
            reqctx::parts_of(r),
            reqctx::policy_of(cfg, Seq::empty(), now),
        ) {
            Err(e) => Err(problem::refused(e)),
            Ok(p) => event_presented(p, now, cfg.insecure_dev_mode),
        }
    }
}

fn present_event(parsed: ParsedSignature, now: u64, insecure: bool) -> (r: Result<
    EventRequest,
    ApiError,
>)
    ensures
        match r {
            Ok(q) => event_presented(parsed@, now, insecure) == Ok::<EventView, ApiErrorView>(q@),
            Err(e) => event_presented(parsed@, now, insecure) == Err::<EventView, ApiErrorView>(
                e@,
            ),
        },
{
    let token = match &parsed.scheme {
        SigKeyScheme::Jwt(t) => t.clone(),
        _ => {
            return Err(
                agent::scheme_refused(
                    "event delivery must present the event token via the jwt scheme",
                ),
            );
        },
    };
    let decoded = match jwt::decode(token.as_str()) {
        Ok(t) => t,
        Err(_) => {
            return Err(invalid_jwt("malformed event token"));
        },
    };
    let claims = match tokens::validate_event_token(&decoded, now, insecure) {
        Ok(c) => c,
        Err(e) => {
            return Err(reqctx::token_refused(&e));
        },
    };
    let kid = match &decoded.header.kid {
        Some(k) => k.clone(),
        None => {
            return Err(invalid_jwt("event token missing kid"));
        },
    };
    Ok(EventRequest { token, decoded, parsed, claims, kid })
}

fn invalid_jwt(detail: &str) -> (r: ApiError)
    ensures
        r@ == reqctx::bad_jwt(detail@),
{
    ApiError::from_sig_error(SigError::new(SigErrorCode::InvalidJwt, detail))
}

/// Reads a request that delivers an event. The resource's key is looked up
/// next.
pub fn event_request(ctx: &ReqCtx, cfg: &Config, now: u64) -> (r: Result<EventRequest, ApiError>)
    ensures
        match r {
            Ok(q) => event_asked(*cfg, ctx@, now) == Ok::<EventView, ApiErrorView>(q@),
            Err(e) => event_asked(*cfg, ctx@, now) == Err::<EventView, ApiErrorView>(e@),
        },
{
    if let Err(e) = require_events(cfg) {
        return Err(e);
    }
    if ctx.body.len() > cfg.events.max_payload_bytes {
        return Err(
            ApiError::new(
                problem::PAYLOAD_TOO_LARGE,
                "invalid_request",
                "event payload too large",
            ),
        );
    }
    if let Err(e) = reqctx::check_authority(ctx, cfg) {
        return Err(e);
    }
    let none: Vec<String> = Vec::new();
    proof {
        assert(text::list_view(none@) =~= Seq::empty());
    }
    match reqctx::parse_signature(ctx, cfg, &none, now) {
        Err(e) => Err(e),
        Ok(p) => present_event(p, now, cfg.insecure_dev_mode),
    }
}

/// Why an event does not hold under a key: both the token and the request must
/// be signed with it.
pub open spec fn event_fault(q: EventView, key: JwkView) -> Option<ApiErrorView> {
    if jwt::jwt_check(q.decoded, key) is Err {
        Some(reqctx::bad_jwt("event token signature invalid"@))
    } else {
        match sig::parsed_fault(q.parsed, key) {
            Some(e) => Some(problem::refused(e)),
            None => None,
        }
    }
}

/// Verifies an event with the resource's key.
pub fn verify_event(q: &EventRequest, key: &Jwk) -> (r: Result<(), ApiError>)
    ensures
        match r {
            Ok(_) => event_fault(q@, key@) is None,
            Err(e) => event_fault(q@, key@) == Some(e@),
        },
{
    if jwt::verify_with_jwk(&q.decoded, key).is_err() {
        return Err(invalid_jwt("event token signature invalid"));
    }
    match sig::verify_parsed(&q.parsed, key) {
        Ok(_) => Ok(()),
        Err(e) => Err(ApiError::from_sig_error(e)),
    }
}

/// The subscription that an event belongs to, or why it belongs to none. The
/// issuer must be the subscribed resource, and the audience the subscriber.
pub open spec fn subscription_of(claims: EventClaimsView, found: Option<FoundView>) -> Result<
    SubscriptionView,
    ApiErrorView,
> {
    match found {
        None => Err(
            problem::not_found("unknown_subscription"@, "no active subscription for this eid"@),
        ),
        Some(f) => match records::stored_subscription(f.bytes) {
            None => Err(problem::server_error("corrupt subscription: "@ + f.fault)),
            Some(rec) => if rec.resource != claims.iss {
                Err(
                    problem::forbidden(
                        "resource_mismatch"@,
                        "event issuer is not the resource authorized for this subscription"@,
                    ),
                )
            } else if rec.agent_id != claims.aud {
                Err(
                    problem::forbidden(
                        "agent_mismatch"@,
                        "event aud does not match the subscription's agent"@,
                    ),
                )
            } else {
                Ok(rec)
            },
        },
    }
}

/// Finds the subscription that an event belongs to. Where its uses are counted,
/// the count is raised next.
pub fn event_subscription(claims: &EventTokenClaims, found: &Option<Found>) -> (r: Result<
    SubscriptionRecord,
    ApiError,
>)
    ensures
        match r {
            Ok(rec) => subscription_of(claims@, storage::opt_found(*found)) == Ok::<
                SubscriptionView,
                ApiErrorView,
            >(rec@),
            Err(e) => subscription_of(claims@, storage::opt_found(*found)) == Err::<
                SubscriptionView,
                ApiErrorView,
            >(e@),
        },
{
    match found {
        None => Err(
            ApiError::not_found("unknown_subscription", "no active subscription for this eid"),
        ),
        Some(f) => match records::read_subscription(f.bytes.as_slice()) {
            None => Err(
                ApiError::server_error(
                    text::join2("corrupt subscription: ", f.fault.as_str()).as_str(),
                ),
            ),
            Some(rec) => if !text::same(rec.resource.as_str(), claims.iss.as_str()) {
                Err(
                    ApiError::forbidden(
                        "resource_mismatch",
                        "event issuer is not the resource authorized for this subscription",
                    ),
                )
            } else if !text::same(rec.agent_id.as_str(), claims.aud.as_str()) {
                Err(
                    ApiError::forbidden(
                        "agent_mismatch",
                        "event aud does not match the subscription's agent",
                    ),
                )
            } else {
                Ok(rec)
            },
        },
    }
}

/// What is answered where a subscription is used up.
pub open spec fn used_up() -> ApiErrorView {
    problem::api_error(
        problem::TOO_MANY_REQUESTS,
        "max_uses_exceeded"@,
        "subscription use limit reached"@,
    )
}

/// How many uses a subscription has left, where they are limited. `used` counts
/// the present one.
pub open spec fn uses_left(max_uses: Option<u64>, used: i64) -> Result<Option<u64>, ApiErrorView> {
    match max_uses {
        None => Ok(None),
        Some(max) => if 0 <= used <= max {
            Ok(Some((max - used) as u64))
        } else {
            Err(used_up())
        },
    }
}

/// Counts a use of a subscription. `used` is the count that the store gave,
/// where there is a limit.
pub fn count_use(max_uses: Option<u64>, used: i64) -> (r: Result<Option<u64>, ApiError>)
    ensures
        match r {
            Ok(left) => uses_left(max_uses, used) == Ok::<Option<u64>, ApiErrorView>(left),
            Err(e) => uses_left(max_uses, used) == Err::<Option<u64>, ApiErrorView>(e@),
        },
{
    match max_uses {
        None => Ok(None),
        Some(max) => if 0 <= used && (used as u64) <= max {
            Ok(Some(max - (used as u64)))
        } else {
            Err(
                ApiError::new(
                    problem::TOO_MANY_REQUESTS,
                    "max_uses_exceeded",
                    "subscription use limit reached",
                ),
            )
        },
    }
}

/// The payload of an event: what the body holds, where it is JSON and not null.
pub open spec fn event_payload(r: ReqView) -> Option<Json> {
    match reqctx::body_json(r) {
        Ok(v) => if v is Null {
            None
        } else {
            Some(v)
        },
        Err(_) => None,
    }
}

/// What is put into the inbox for an event.
pub open spec fn inbox_entry(r: ReqView, q: EventView, now: u64) -> InboxView {
    InboxView {
        event_token: q.token,
        payload: event_payload(r),
        received_at: now,
        iss: q.claims.iss,
        eid: q.claims.eid,
    }
}

fn is_null(v: &JsonValue) -> (r: bool)
    ensures
        r == (v@ is Null),
{
    matches!(v, JsonValue::Null)
}

/// The answer to a delivered event.
pub open spec fn event_answer(left: Option<u64>) -> RespView {
    problem::json_answer(
        problem::ACCEPTED,
        Json::Obj(
            match left {
                Some(n) => Map::<Seq<char>, Json>::empty().insert(
                    "remaining_uses"@,
                    Json::Int(n as int),
                ),
                None => Map::empty(),
            },
        ),
    )
}

/// An event that is accepted. It is put into the inbox first; then what is no
/// longer needed is deleted, and the delivery is answered.
pub struct Delivered {
    pub inbox: String,
    pub item: Vec<u8>,
    pub gone: Vec<String>,
    pub answer: Resp,
}

/// What accepting an event gives: what is put into which inbox, what is deleted
/// where the subscription is used up, and the answer.
pub open spec fn delivery(
    r: ReqView,
    q: EventView,
    sub: SubscriptionView,
    left: Option<u64>,
    now: u64,
    d: Delivered,
) -> bool {
    &&& d.inbox@ == "inbox:"@ + sub.agent_local
    &&& d.item@ == records::stored(records::inbox_json(inbox_entry(r, q, now)))
    &&& text::list_view(d.gone@) == if left == Some(0u64) {
        subscription_keys(q.claims.eid)
    } else {
        Seq::empty()
    }
    &&& d.answer@ == event_answer(left)
}

/// Accepts an event for a subscription, which has `left` uses left where they
/// are limited.
pub fn deliver_event(
    ctx: &ReqCtx,
    q: &EventRequest,
    sub: &SubscriptionRecord,
    left: Option<u64>,
    now: u64,
) -> (r: Delivered)
    ensures
        delivery(ctx@, q@, sub@, left, now, r),
{
    let payload = match ctx.parse_json() {
        Ok(v) => if is_null(&v) {
            None
        } else {
            Some(v)
        },
        Err(_) => None,
    };
    let entry = InboxItem {
        event_token: q.token.clone(),
        payload,
        received_at: now,
        iss: q.claims.iss.clone(),
        eid: q.claims.eid.clone(),
    };
    let mut body = JsonValue::object();
    let mut gone: Vec<String> = Vec::new();
    proof {
        assert(text::list_view(gone@) =~= Seq::empty());
    }
    if let Some(n) = left {
        body = body.with("remaining_uses", JsonValue::number(n));
        if n == 0 {
            gone = keys_of_subscription(q.claims.eid.as_str());
        }
    }
    Delivered {
        inbox: records::inbox_key(sub.agent_local.as_str()),
        item: records::write_item(&entry),
        gone,
        answer: problem::json_response(problem::ACCEPTED, &body),
    }
}

// ----------------------------------------------------------------- inbox

/// The number behind `wait=` in the first of some texts that has one.
pub open spec fn first_wait(parts: Seq<Seq<char>>) -> Option<u64>
    decreases parts.len(),
{
    if parts.len() == 0 {
        None
    } else {
        match text::without_prefix(text::trimmed(parts[0]), "wait="@) {
            Some(n) => match decimal::unsigned_value(n) {
                Some(secs) => Some(secs),
                None => first_wait(parts.drop_first()),
            },
            None => first_wait(parts.drop_first()),
        }
    }
}

fn find_wait(parts: &Vec<String>) -> (r: Option<u64>)
    ensures
        r == first_wait(text::list_view(parts@)),
{
    let ghost all = text::list_view(parts@);
    let mut i: usize = 0;
    proof {
        assert(all.skip(0) =~= all);
    }
    while i < parts.len()
        invariant
            i <= parts@.len(),
            all == text::list_view(parts@),
            first_wait(all) == first_wait(all.skip(i as int)),
        decreases parts@.len() - i,
    {
        proof {
            assert(all.skip(i as int)[0] == parts@[i as int]@);
            assert(all.skip(i as int).drop_first() =~= all.skip(i + 1));
        }
        let part = text::trim(parts[i].as_str());
        if let Some(n) = text::strip_prefix(part.as_str(), "wait=") {
            if let Some(secs) = decimal::parse_unsigned(n.as_str()) {
                return Some(secs);
            }
        }
        i += 1;
    }
    None
}

/// A query without the question mark that it begins with.
pub open spec fn bare_query(q: Seq<char>) -> Seq<char> {
    match text::without_prefix(q, "?"@) {
        Some(rest) => rest,
        None => q,
    }
}

/// For how many seconds a request to collect events may wait: what its query
/// says, else what it prefers, and fifty at most.
pub open spec fn wait_asked(r: ReqView) -> u64 {
    let preferred = match first_wait(text::split_on(bare_query(r.query), '&')) {
        Some(n) => n,
        None => match sig::header_value(r.headers, "prefer"@) {
            Some(p) => match first_wait(text::split_on(p, ',')) {
                Some(n) => n,
                None => 0,
            },
            None => 0,
        },
    };
    if preferred <= 50 {
        preferred
    } else {
        50
    }
}

/// For how many seconds a request to collect events may wait.
pub fn parse_prefer_wait(ctx: &ReqCtx) -> (r: u64)
    ensures
        r == wait_asked(ctx@),
        r <= 50,
{
    let query = match text::strip_prefix(ctx.query.as_str(), "?") {
        Some(rest) => rest,
        None => ctx.query.clone(),
    };
    let preferred: u64 = match find_wait(&text::split(query.as_str(), '&')) {
        Some(n) => n,
        None => match ctx.header("prefer") {
            Some(p) => match find_wait(&text::split(p.as_str(), ',')) {
                Some(n) => n,
                None => 0,
            },
            None => 0,
        },
    };
    if preferred <= 50 {
        preferred
    } else {
        50
    }
}

/// The agent that asks for its events: its local part.
pub open spec fn inbox_asked(cfg: Config, keyset: KeySet, r: ReqView, now: u64) -> Result<
    Seq<char>,
    ApiErrorView,
> {
    match calling_agent(cfg, keyset, r, now, "inbox must be signed with an agent token"@) {
        Err(e) => Err(e),
        Ok((claims, key)) => Ok(ident::local_of(claims.sub)),
    }
}

/// Reads a request to collect events: the key of the inbox, and for how many
/// seconds it may wait. The inbox is drained next.
pub fn inbox_request(ctx: &ReqCtx, cfg: &Config, keyset: &KeySet, now: u64) -> (r: Result<
    (String, u64),
    ApiError,
>)
    ensures
        match r {
            Ok(x) => inbox_asked(*cfg, *keyset, ctx@, now) matches Ok(local) && x.0@ == "inbox:"@
                + local && x.1 == wait_asked(ctx@),
            Err(e) => inbox_asked(*cfg, *keyset, ctx@, now) == Err::<Seq<char>, ApiErrorView>(e@),
        },
{
    match identify_agent(ctx, cfg, keyset, now, "inbox must be signed with an agent token") {
        Ok(x) => {
            let local = ident::local_part(x.0.sub.as_str());
            Ok((records::inbox_key(local.as_str()), parse_prefer_wait(ctx)))
        },
        Err(e) => Err(e),
    }
}

/// What an agent is given of an inbox item.
pub open spec fn event_json(item: InboxView) -> Json {
    Json::Obj(
        Map::<Seq<char>, Json>::empty().insert("event_token"@, Json::Str(item.event_token)).insert(
            "payload"@,
            match item.payload {
                Some(v) => v,
                None => Json::Null,
            },
        ).insert("eid"@, Json::Str(item.eid)).insert("iss"@, Json::Str(item.iss)),
    )
}

/// Whether an event can still be answered: its token can be read, and has not
/// expired.
pub open spec fn still_open(item: InboxView, now: u64) -> bool {
    match jwt::decoded_jwt(item.event_token) {
        Some(t) => match json::i64_member(t.payload, "exp"@) {
            Some(exp) => exp > now,
            None => false,
        },
        None => false,
    }
}

/// What an agent is given of stored bytes, if anything.
pub open spec fn given_event(b: Seq<u8>, now: u64) -> Option<Json> {
    match records::stored_item(b) {
        Some(item) => if still_open(item, now) {
            Some(event_json(item))
        } else {
            None
        },
        None => None,
    }
}

/// What an agent is given of its inbox, in order.
pub open spec fn given_events(items: Seq<Seq<u8>>, now: u64) -> Seq<Json>
    decreases items.len(),
{
    if items.len() == 0 {
        Seq::empty()
    } else {
        let less = given_events(items.drop_last(), now);
        match given_event(items.last(), now) {
            Some(v) => less.push(v),
            None => less,
        }
    }
}

fn read_event(b: &[u8], now: u64) -> (r: Option<JsonValue>)
    ensures
        match r {
            Some(v) => given_event(b@, now) == Some(v@),
            None => given_event(b@, now) is None,
        },
{
    let item = match records::read_item(b) {
        Some(i) => i,
        None => {
            return None;
        },
    };
    let exp: i64 = match jwt::decode(item.event_token.as_str()) {
        Ok(t) => match t.payload.i64_of("exp") {
            Some(n) => n,
            None => {
                return None;
            },
        },
        Err(_) => {
            return None;
        },
    };
    if exp as i128 <= now as i128 {
        return None;
    }
    let payload = match item.payload {
        Some(v) => v,
        None => JsonValue::Null,
    };
    Some(
        JsonValue::object().with("event_token", JsonValue::string(item.event_token.as_str())).with(
            "payload",
            payload,
        ).with("eid", JsonValue::string(item.eid.as_str())).with(
            "iss",
            JsonValue::string(item.iss.as_str()),
        ),
    )
}

fn read_events(items: &Vec<Vec<u8>>, now: u64) -> (r: Vec<JsonValue>)
    ensures
        json::elements(r@) == given_events(text::bytes_view(items@), now),
{
    let ghost all = text::bytes_view(items@);
    let mut out: Vec<JsonValue> = Vec::new();
    let mut i: usize = 0;
    proof {
        assert(all.take(0) =~= Seq::empty());
    }
    while i < items.len()
        invariant
            i <= items@.len(),
            all == text::bytes_view(items@),
            json::elements(out@) == given_events(all.take(i as int), now),
        decreases items@.len() - i,
    {
        proof {
            assert(all.take(i + 1).drop_last() =~= all.take(i as int));
            assert(all.take(i + 1).last() == items@[i as int]@);
        }
        if let Some(v) = read_event(items[i].as_slice(), now) {
            let ghost before = out@;
            out.push(v);
            proof {
                assert(out@.drop_last() =~= before);
            }
        }
        i += 1;
    }
    proof {
        assert(all.take(all.len() as int) =~= all);
    }
    out
}

/// The answer to a request to collect events.
pub open spec fn inbox_answer(events: Seq<Json>) -> RespView {
    problem::json_answer(
        problem::OK,
        Json::Obj(Map::<Seq<char>, Json>::empty().insert("events"@, Json::Arr(events))),
    )
}

/// Looks at what an inbox held: the answer, or nothing where it is drained once
/// more after a while. `over` says that no more time is left to wait.
pub fn inbox(items: &Vec<Vec<u8>>, over: bool, now: u64) -> (r: Option<Resp>)
    ensures
        ({
            let events = given_events(text::bytes_view(items@), now);
            match r {
                Some(a) => (events.len() > 0 || over) && a@ == inbox_answer(events),
                None => events.len() == 0 && !over,
            }
        }),
{
    let events = read_events(items, now);
    proof {
        json::lemma_elements(events@);
    }
    if events.len() == 0 && !over {
        return None;
    }
    Some(problem::json_ok(&JsonValue::object().with("events", JsonValue::Array(events))))
}

/// How long a request to collect events waits before it looks again, in
/// milliseconds.
pub const POLL_MILLIS: u64 = 500;

// ------------------------------------------------------------------ laws

/// How many of the first `n` deliveries to a subscription are accepted. Their
/// counts are the numbers from one on.
pub open spec fn accepted_uses(max: u64, n: nat) -> nat
    decreases n,
{
    if n == 0 {
        0
    } else {
        accepted_uses(max, (n - 1) as nat) + if uses_left(Some(max), n as i64) is Ok {
            1nat
        } else {
            0
        }
    }
}

/// However many deliveries are tried, no more than `max` of them are accepted.
pub proof fn law_max_uses_never_exceeded(max: u64, n: nat)
    requires
        n <= i64::MAX,
    ensures
        accepted_uses(max, n) <= max,
        accepted_uses(max, n) == if n <= max {
            n
        } else {
            max as nat
        },
    decreases n,
{
    if n > 0 {
        law_max_uses_never_exceeded(max, (n - 1) as nat);
    }
}

/// An accepted event comes from the subscribed resource and goes to the
/// subscriber.
pub proof fn law_event_stays_with_subscription(claims: EventClaimsView, found: Option<FoundView>)
    ensures
        subscription_of(claims, found) matches Ok(rec) ==> rec.resource == claims.iss
            && rec.agent_id == claims.aud,
{
}

/// A stored subscription is found again by what it was stored as, and belongs to
/// the agent that made it.
pub proof fn law_subscription_is_found(rec: SubscriptionView, claims: EventClaimsView, agent: Seq<
    char,
>, found: FoundView)
    requires
        json::json_parsed(found.bytes) == Some(records::subscription_json(rec)),
        claims.iss == rec.resource,
        claims.aud == rec.agent_id,
    ensures
        subscription_of(claims, Some(found)) == Ok::<SubscriptionView, ApiErrorView>(rec),
        (cancel_fault(agent, Some(found)) is None) == (agent == rec.agent_id),
{
    records::law_subscription_round_trip(rec);
}

/// No event is given to an agent after it expired.
pub proof fn law_expired_events_dropped(b: Seq<u8>, now: u64)
    ensures
        given_event(b, now) is Some ==> (records::stored_item(b) matches Some(item) && (
        jwt::decoded_jwt(item.event_token) matches Some(t) && (json::i64_member(
            t.payload,
            "exp"@,
        ) matches Some(exp) && exp > now))),
{
}

/// The events that an agent collects are the ones that were delivered to it: each
/// with the token that the resource signed, its payload, its identifier and its
/// issuer, as they were stored, for as long as the token is good.
pub proof fn law_collected_as_delivered(
    r: ReqView,
    q: EventView,
    received: u64,
    b: Seq<u8>,
    now: u64,
    exp: i64,
)
    requires
        json::json_parsed(b) == Some(records::inbox_json(inbox_entry(r, q, received))),
        jwt::decoded_jwt(q.token) == Some(q.decoded),
        json::i64_member(q.decoded.payload, "exp"@) == Some(exp),
    ensures
        (given_event(b, now) is Some) == (exp > now),
        given_event(b, now) matches Some(v) ==> ({
            &&& json::json_get(v, "event_token"@) == Some(Json::Str(q.token))
            &&& json::str_member(v, "event_token"@) matches Some(t) && jwt::decoded_jwt(t) == Some(
                q.decoded,
            )
            &&& json::json_get(v, "eid"@) == Some(Json::Str(q.claims.eid))
            &&& json::json_get(v, "iss"@) == Some(Json::Str(q.claims.iss))
            &&& r.body.len() > 0 && json::json_parsed(r.body) is Some ==> json::json_get(
                v,
                "payload"@,
            ) == json::json_parsed(r.body)
            &&& r.body.len() > 0 && json::json_parsed(r.body) is None ==> json::json_get(
                v,
                "payload"@,
            ) == Some(Json::Null)
        }),
{
    reveal_strlit("event_token");
    reveal_strlit("payload");
    reveal_strlit("eid");
    reveal_strlit("iss");
    assert("event_token"@.len() == 11 && "payload"@.len() == 7 && "eid"@.len() == 3 && "iss"@.len() == 3);
    assert("eid"@[0] == 'e');
    assert("iss"@[0] == 'i');
    records::law_inbox_item_round_trip(inbox_entry(r, q, received));
}

/// What an agent is given of an item is what the item holds.
pub proof fn law_event_members(item: InboxView)
    ensures
        json::json_get(event_json(item), "event_token"@) == Some(Json::Str(item.event_token)),
        json::json_get(event_json(item), "eid"@) == Some(Json::Str(item.eid)),
        json::json_get(event_json(item), "iss"@) == Some(Json::Str(item.iss)),
        json::json_get(event_json(item), "payload"@) == Some(
            match item.payload {
                Some(v) => v,
                None => Json::Null,
            },
        ),
{
    reveal_strlit("event_token");
    reveal_strlit("payload");
    reveal_strlit("eid");
    reveal_strlit("iss");
    assert("event_token"@.len() == 11 && "payload"@.len() == 7 && "eid"@.len() == 3 && "iss"@.len() == 3);
    assert("eid"@[0] == 'e');
    assert("iss"@[0] == 'i');
}

/// Events are given in the order in which they came, each of them that can still be
/// answered, once.
pub proof fn law_events_in_order(items: Seq<Seq<u8>>, b: Seq<u8>, now: u64)
    ensures
        given_events(Seq::empty(), now).len() == 0,
        given_event(b, now) matches Some(v) ==> given_events(items.push(b), now) == given_events(
            items,
            now,
        ).push(v),
        given_event(b, now) is None ==> given_events(items.push(b), now) == given_events(
            items,
            now,
        ),
{
    assert(items.push(b).drop_last() =~= items);
}

/// The answer holds the events, under their name.
pub proof fn law_inbox_answer(events: Seq<Json>)
    ensures
        inbox_answer(events).status == 200,
        inbox_answer(events).body == json::json_text(
            Json::Obj(map!["events"@ => Json::Arr(events)]),
        ),
{
    assert(Map::<Seq<char>, Json>::empty().insert("events"@, Json::Arr(events))
        =~= map!["events"@ => Json::Arr(events)]);
}

/// An accepted event goes into the inbox of the agent that subscribed, as it was
/// delivered. It uses up the subscription where nothing is left, and then its record
/// and its count go.
pub proof fn law_delivered_to_subscriber(
    r: ReqView,
    q: EventView,
    sub: SubscriptionView,
    left: Option<u64>,
    now: u64,
    d: Delivered,
)
    requires
        delivery(r, q, sub, left, now, d),
    ensures
        d.inbox@ == "inbox:"@ + sub.agent_local,
        d.item@ == records::stored(records::inbox_json(inbox_entry(r, q, now))),
        left == Some(0u64) ==> d.gone@.len() == 2 && d.gone@[0]@ == "sub:"@ + q.claims.eid
            && d.gone@[1]@ == "subuses:"@ + q.claims.eid,
        left != Some(0u64) ==> d.gone@.len() == 0,
        d.answer@.status == 202,
        left matches Some(n) ==> d.answer@.body == json::json_text(
            Json::Obj(map!["remaining_uses"@ => Json::Int(n as int)]),
        ),
        left is None ==> d.answer@.body == json::json_text(Json::Obj(Map::empty())),
{
    let gone = text::list_view(d.gone@);
    assert(gone.len() == d.gone@.len());
    if left == Some(0u64) {
        assert(gone[0] == d.gone@[0]@ && gone[1] == d.gone@[1]@);
    }
    if let Some(n) = left {
        assert(Map::<Seq<char>, Json>::empty().insert("remaining_uses"@, Json::Int(n as int))
            =~= map!["remaining_uses"@ => Json::Int(n as int)]);
    }
}

/// What is recorded of an event is the event: the token that was presented, its
/// issuer, its identifier, and what came with it.
pub proof fn law_recorded_event(r: ReqView, q: EventView, now: u64)
    ensures
        ({
            let item = inbox_entry(r, q, now);
            &&& item.event_token == q.token
            &&& item.received_at == now
            &&& item.iss == q.claims.iss
            &&& item.eid == q.claims.eid
            &&& r.body.len() > 0 && json::json_parsed(r.body) is Some
                && json::json_parsed(r.body) != Some(Json::Null) ==> item.payload
                == json::json_parsed(r.body)
            &&& r.body.len() > 0 && json::json_parsed(r.body) is None ==> item.payload is None
            &&& r.body.len() == 0 ==> item.payload == Some(Json::Obj(Map::empty()))
        }),
{
}

/// A use counts down what is left, and there is no use beyond the last.
pub proof fn law_uses_count_down(max: u64, used: i64)
    ensures
        0 <= used <= max ==> (uses_left(Some(max), used) matches Ok(Some(n)) && n + used == max),
        used > max ==> (uses_left(Some(max), used) matches Err(e) && e.status == 429 && e.error
            == "max_uses_exceeded"@),
        uses_left(None, used) == Ok::<Option<u64>, ApiErrorView>(None),
{
}

/// An event counts only where the key of the resource signed both its token and the
/// request that delivers it.
pub proof fn law_event_signed_twice(q: EventView, key: JwkView)
    ensures
        (event_fault(q, key) is None) == (jwt::jwt_check(q.decoded, key) is Ok && sig::parsed_fault(
            q.parsed,
            key,
        ) is None),
        event_fault(q, key) matches Some(e) ==> e.status == 401 || e.status == 400,
{
}

/// An event is read from the request that delivers it: the token is the one that the
/// signature names, and its claims are the token's.
pub proof fn law_event_of_request(cfg: Config, r: ReqView, now: u64)
    ensures
        event_asked(cfg, r, now) matches Ok(q) ==> ({
            &&& cfg.events.enabled
            &&& r.body.len() <= cfg.events.max_payload_bytes
            &&& r.authority == cfg.authority_spec()
            &&& q.parsed.scheme == SchemeView::Jwt(q.token)
            &&& jwt::decoded_jwt(q.token) == Some(q.decoded)
            &&& tokens::event_claims(q.decoded, now, cfg.insecure_dev_mode) == Ok::<
                EventClaimsView,
                tokens::TokenErrorView,
            >(q.claims)
            &&& q.decoded.header.kid == Some(q.kid)
            &&& sig::request_signature(
                reqctx::parts_of(r),
                reqctx::policy_of(cfg, Seq::empty(), now),
            ) == Ok::<ParsedView, sig::SigErrorView>(q.parsed)
        }),
        !cfg.events.enabled ==> (event_asked(cfg, r, now) matches Err(e) && e.status == 404),
        cfg.events.enabled && r.body.len() > cfg.events.max_payload_bytes ==> (event_asked(
            cfg,
            r,
            now,
        ) matches Err(e) && e.status == 413 && e.error == "invalid_request"@),
{
}

/// An event for a subscription that is not there, or that belongs to another resource
/// or agent, is refused; one that fits is not.
pub proof fn law_event_refusals(claims: EventClaimsView, found: FoundView, rec: SubscriptionView)
    requires
        records::stored_subscription(found.bytes) == Some(rec),
    ensures
        subscription_of(claims, None) matches Err(e) && e.status == 404 && e.error
            == "unknown_subscription"@,
        (subscription_of(claims, Some(found)) is Ok) == (rec.resource == claims.iss && rec.agent_id
            == claims.aud),
        rec.resource != claims.iss ==> (subscription_of(claims, Some(found)) matches Err(e)
            && e.status == 403 && e.error == "resource_mismatch"@),
        rec.resource == claims.iss && rec.agent_id != claims.aud ==> (subscription_of(
            claims,
            Some(found),
        ) matches Err(e) && e.status == 403 && e.error == "agent_mismatch"@),
{
}

/// A subscription is cancelled for the agent that made it and for nobody else, and
/// then its record and its count go.
pub proof fn law_cancelled_by_owner(
    agent: Seq<char>,
    found: FoundView,
    rec: SubscriptionView,
    eid: Seq<char>,
)
    requires
        records::stored_subscription(found.bytes) == Some(rec),
    ensures
        (cancel_fault(agent, Some(found)) is None) == (agent == rec.agent_id),
        agent != rec.agent_id ==> (cancel_fault(agent, Some(found)) matches Some(e) && e.status
            == 403),
        cancel_fault(agent, None) matches Some(e) && e.status == 404,
        subscription_keys(eid) == seq!["sub:"@ + eid, "subuses:"@ + eid],
{
}

/// A subscription is for the resource and the uses that were asked for, and its token
/// is good for the time that was asked for, up to the provider's limit.
pub proof fn law_subscription_as_asked(cfg: Config, b: Json, resource: Seq<char>, ttl: u64)
    requires
        json::json_get(b, "resource"@) == Some(Json::Str(resource)),
    ensures
        (subscription_asked(cfg, b) is Ok) == ident::is_server_identifier(
            resource,
            cfg.insecure_dev_mode,
        ),
        subscription_asked(cfg, b) matches Ok((res, uses, secs)) ==> ({
            &&& res == resource
            &&& uses == json::u64_member(b, "max_uses"@)
            &&& secs <= cfg.subscribe_token_ttl_secs
            &&& json::json_get(b, "ttl"@) is None ==> secs == cfg.subscribe_token_ttl_secs
            &&& json::json_get(b, "ttl"@) == Some(Json::Int(ttl as int)) && ttl
                <= cfg.subscribe_token_ttl_secs ==> secs == ttl
        }),
        subscription_asked(cfg, b) matches Err(e) ==> e.status == 400 && e.error
            == "invalid_request"@,
{
}

/// A subscription is stored under its identifier with what it is for, for the life of
/// its token and that of an event beyond it.
pub proof fn law_subscription_stored(
    cfg: Config,
    agent: Seq<char>,
    resource: Seq<char>,
    max_uses: Option<u64>,
    eid: Seq<char>,
    now: u64,
)
    ensures
        ({
            let rec = new_subscription(agent, resource, max_uses, eid, now);
            let w = subscription_write(cfg, rec);
            &&& rec.agent_id == agent && rec.resource == resource && rec.max_uses == max_uses
                && rec.eid == eid && rec.created_at == now
            &&& rec.agent_local == ident::local_of(agent)
            &&& w.key == "sub:"@ + eid
            &&& w.value == records::stored(records::subscription_json(rec))
            &&& cfg.subscribe_token_ttl_secs + cfg.events.inbox_ttl_secs <= u64::MAX / 1000
                ==> w.ttl == Some(
                (1000 * (cfg.subscribe_token_ttl_secs + cfg.events.inbox_ttl_secs)) as u64,
            )
        }),
{
}

/// The answer to a request to subscribe gives the token, its kind, the identifier of
/// the subscription and how long the token is good.
pub proof fn law_subscribe_answer(token: Seq<char>, eid: Seq<char>, left: u64)
    ensures
        subscribe_answer(token, eid, left).status == 200,
        subscribe_answer(token, eid, left).body == json::json_text(
            Json::Obj(
                map![
                    "subscribe_token"@ => Json::Str(token),
                    "token_type"@ => Json::Str("aa-subscribe+jwt"@),
                    "eid"@ => Json::Str(eid),
                    "expires_in"@ => Json::Int(left as int),
                ],
            ),
        ),
{
    reveal_strlit("subscribe_token");
    reveal_strlit("token_type");
    reveal_strlit("eid");
    reveal_strlit("expires_in");
    assert("subscribe_token"@.len() == 15 && "token_type"@.len() == 10 && "eid"@.len() == 3 && "expires_in"@.len() == 10);
    assert("token_type"@[0] == 't');
    assert("expires_in"@[0] == 'e');
    assert(Map::<Seq<char>, Json>::empty().insert("subscribe_token"@, Json::Str(token)).insert(
        "token_type"@,
        Json::Str("aa-subscribe+jwt"@),
    ).insert("eid"@, Json::Str(eid)).insert("expires_in"@, Json::Int(left as int)) =~= map![
        "subscribe_token"@ => Json::Str(token),
        "token_type"@ => Json::Str("aa-subscribe+jwt"@),
        "eid"@ => Json::Str(eid),
        "expires_in"@ => Json::Int(left as int),
    ]);
}

/// Only the holder of an agent token is an agent here, and is the one that the token
/// names; and only where events are enabled.
pub proof fn law_calling_agent(
    cfg: Config,
    keyset: KeySet,
    r: ReqView,
    now: u64,
    otherwise: Seq<char>,
    claims: AgentClaimsView,
    key: JwkView,
)
    ensures
        !cfg.events.enabled ==> (calling_agent(cfg, keyset, r, now, otherwise) matches Err(e)
            && e.status == 404),
        cfg.events.enabled && reqctx::signer_of(cfg, keyset, r, Seq::empty(), now) == Ok::<
            SignerView,
            ApiErrorView,
        >(SignerView::AgentToken { claims, signing_jwk: key }) ==> calling_agent(
            cfg,
            keyset,
            r,
            now,
            otherwise,
        ) == Ok::<(AgentClaimsView, JwkView), ApiErrorView>((claims, key)) && cancel_asked(
            cfg,
            keyset,
            r,
            now,
        ) == Ok::<Seq<char>, ApiErrorView>(claims.sub) && inbox_asked(cfg, keyset, r, now)
            == Ok::<Seq<char>, ApiErrorView>(ident::local_of(claims.sub)),
        calling_agent(cfg, keyset, r, now, otherwise) is Ok ==> (reqctx::signer_of(
            cfg,
            keyset,
            r,
            Seq::empty(),
            now,
        ) matches Ok(s) && s is AgentToken),
{
}

/// A request may wait as long as its query asks, or else as long as it prefers, and
/// never longer than fifty seconds.
pub proof fn law_waiting(r: ReqView, n: u64)
    ensures
        wait_asked(r) <= 50,
        r.query.len() == 0 && sig::header_value(r.headers, "prefer"@) is None ==> wait_asked(r)
            == 0,
        r.query == "?wait="@ + decimal::numeral(n as nat) && n <= 50 ==> wait_asked(r) == n,
        r.query == "?wait="@ + decimal::numeral(n as nat) && n > 50 ==> wait_asked(r) == 50,
        r.query.len() == 0 && sig::header_value(r.headers, "prefer"@) == Some(
            "wait="@ + decimal::numeral(n as nat),
        ) && n <= 50 ==> wait_asked(r) == n,
{
    reveal_strlit("?wait=");
    reveal_strlit("wait=");
    reveal_strlit("?");
    let t = "wait="@ + decimal::numeral(n as nat);
    assert("wait="@.len() == 5 && "?"@.len() == 1 && "?wait="@.len() == 6);
    lemma_wait_text(n, '&');
    lemma_wait_text(n, ',');
    let q = "?wait="@ + decimal::numeral(n as nat);
    assert(q =~= "?"@ + t) by {
        assert("?wait="@ =~= "?"@ + "wait="@);
    }
    assert(q.take(1) =~= "?"@);
    assert(q.skip(1) =~= t);
    lemma_no_wait('&');
    lemma_no_wait(',');
    if r.query.len() == 0 {
        assert(r.query =~= Seq::<char>::empty());
        assert(!"?"@.is_prefix_of(r.query));
    }
}

proof fn lemma_no_wait(c: char)
    ensures
        first_wait(text::split_on(Seq::empty(), c)) is None,
{
    reveal_strlit("wait=");
    let none = Seq::<char>::empty();
    assert(text::split_on(none, c) == seq![none]);
    assert(text::trimmed(none) =~= none);
    assert(!"wait="@.is_prefix_of(none));
    assert(seq![none].drop_first() =~= Seq::<Seq<char>>::empty());
    reveal_with_fuel(first_wait, 2);
}

proof fn lemma_wait_text(n: u64, c: char)
    requires
        c == '&' || c == ',',
    ensures
        first_wait(text::split_on("wait="@ + decimal::numeral(n as nat), c)) == Some(n),
{
    reveal_strlit("wait=");
    decimal::lemma_numeral(n as nat);
    decimal::law_unsigned_round_trip(n);
    let d = decimal::numeral(n as nat);
    let t = "wait="@ + d;
    assert("wait="@[0] == 'w' && "wait="@[1] == 'a' && "wait="@[2] == 'i' && "wait="@[3] == 't'
        && "wait="@[4] == '=');
    assert forall|i: int| 0 <= i < t.len() implies t[i] != c && !text::is_white(t[i]) by {
        if i >= 5 {
            assert(t[i] == d[i - 5]);
            assert(decimal::is_digit(d[i - 5]));
        }
    }
    text::lemma_position(t, c);
    assert(text::split_on(t, c) == seq![t]);
    assert(text::trimmed(t) == t) by {
        assert(!text::is_white(t[0]));
        assert(!text::is_white(t[t.len() - 1]));
    }
    assert(t.take(5) =~= "wait="@);
    assert(t.skip(5) =~= d);
    assert(seq![t][0] == t);
}

/// Where events are off, every endpoint of theirs is not found.
pub proof fn law_events_off(cfg: Config, keyset: KeySet, r: ReqView, now: u64, otherwise: Seq<char>)
    requires
        !cfg.events.enabled,
    ensures
        calling_agent(cfg, keyset, r, now, otherwise) matches Err(e) && e.status == 404 && e.error
            == "not_found"@,
        event_asked(cfg, r, now) matches Err(e) && e.status == 404 && e.error == "not_found"@,
{
}

/// Cancelling is refused by what stands in the way: no such subscription, one of
/// another agent, or one that does not read.
pub proof fn law_cancel_refusals(agent: Seq<char>, found: FoundView, rec: SubscriptionView)
    ensures
        cancel_fault(agent, None) matches Some(e) && e.status == 404 && e.error == "not_found"@,
        records::stored_subscription(found.bytes) is None ==> (cancel_fault(
            agent,
            Some(found),
        ) matches Some(e) && e.status == 500),
        records::stored_subscription(found.bytes) == Some(rec) && rec.agent_id != agent ==> (
        cancel_fault(agent, Some(found)) matches Some(e) && e.status == 403 && e.error
            == "forbidden"@),
        records::stored_subscription(found.bytes) == Some(rec) && rec.agent_id == agent
            ==> cancel_fault(agent, Some(found)) is None,
{
}

/// An event is presented by its token in the signature's key, and is refused by
/// the code of what is wrong with it.
pub proof fn law_event_presented(p: ParsedView, now: u64, insecure: bool)
    ensures
        event_presented(p, now, insecure) matches Ok(q) ==> p.scheme == SchemeView::Jwt(q.token)
            && jwt::decoded_jwt(q.token) == Some(q.decoded) && q.parsed == p
            && q.decoded.header.kid == Some(q.kid) && tokens::event_claims(q.decoded, now, insecure)
            == Ok::<EventClaimsView, tokens::TokenErrorView>(q.claims),
        !(p.scheme is Jwt) ==> (event_presented(p, now, insecure) matches Err(e) && e.status == 401
            && e.error == "unsupported_scheme"@),
        p.scheme matches SchemeView::Jwt(token) ==> (jwt::decoded_jwt(token) matches Some(t) ==> (
        tokens::event_claims(t, now, insecure) matches Err(f) ==> (event_presented(
            p,
            now,
            insecure,
        ) matches Err(e) && e.status == 401 && e.detail == f.detail && e.error == (if f.expired {
            "expired_jwt"@
        } else {
            "invalid_jwt"@
        })))),
        p.scheme matches SchemeView::Jwt(token) ==> (jwt::decoded_jwt(token) matches Some(t) ==> (
        tokens::event_claims(t, now, insecure) is Ok && t.header.kid is Some ==> event_presented(
            p,
            now,
            insecure,
        ) is Ok)),
{
}

/// The answer to an event is 202, with the uses that are left where they are
/// limited.
pub proof fn law_event_answer(left: Option<u64>)
    ensures
        event_answer(left).status == 202,
        left matches Some(n) ==> event_answer(left).body == json::json_text(
            Json::Obj(map!["remaining_uses"@ => Json::Int(n as int)]),
        ),
        left is None ==> event_answer(left).body == json::json_text(Json::Obj(Map::empty())),
        used_up().status == 429 && used_up().error == "max_uses_exceeded"@,
{
}

/// A subscription is kept for the life of its token and of the inbox behind it.
pub proof fn law_kept_for(cfg: Config)
    ensures
        cfg.subscribe_token_ttl_secs + cfg.events.inbox_ttl_secs <= u64::MAX ==> kept_secs(cfg)
            == cfg.subscribe_token_ttl_secs + cfg.events.inbox_ttl_secs,
        cfg.subscribe_token_ttl_secs + cfg.events.inbox_ttl_secs > u64::MAX ==> kept_secs(cfg)
            == u64::MAX,
{
}

/// An event waits in the inbox exactly while its token has not expired.
pub proof fn law_waits_until_expiry(item: InboxView, t: JwtView, exp: i64, now: u64)
    requires
        jwt::decoded_jwt(item.event_token) == Some(t),
        json::i64_member(t.payload, "exp"@) == Some(exp),
    ensures
        still_open(item, now) == (now < exp),
{
}

/// The payload of an event is its body; null and what is no JSON are none.
pub proof fn law_event_payload(r: ReqView, v: Json)
    ensures
        reqctx::body_json(r) == Ok::<Json, ApiErrorView>(v) && !(v is Null) ==> event_payload(r)
            == Some(v),
        reqctx::body_json(r) == Ok::<Json, ApiErrorView>(Json::Null) ==> event_payload(r) is None,
        reqctx::body_json(r) is Err ==> event_payload(r) is None,
{
}

/// A subscription is asked for by the calling agent, with what its body says; an
/// inbox is the caller's own, and so is what is cancelled.
pub proof fn law_asked_by_caller(
    cfg: Config,
    keyset: KeySet,
    r: ReqView,
    now: u64,
    claims: AgentClaimsView,
    key: JwkView,
    b: Json,
)
    requires
        cfg.events.enabled,
        agent::caller(cfg, keyset, r, now) == Ok::<SignerView, ApiErrorView>(
            SignerView::AgentToken { claims, signing_jwk: key },
        ),
        reqctx::body_json(r) == Ok::<Json, ApiErrorView>(b),
    ensures
        inbox_asked(cfg, keyset, r, now) == Ok::<Seq<char>, ApiErrorView>(
            ident::local_of(claims.sub),
        ),
        cancel_asked(cfg, keyset, r, now) == Ok::<Seq<char>, ApiErrorView>(claims.sub),
        subscription_asked(cfg, b) matches Ok((resource, max_uses, ttl)) ==> subscribe_asked(
            cfg,
            keyset,
            r,
            now,
        ) == Ok::<(AgentClaimsView, JwkView, Seq<char>, Option<u64>, u64), ApiErrorView>(
            (claims, key, resource, max_uses, ttl),
        ),
        subscription_asked(cfg, b) matches Err(e) ==> subscribe_asked(cfg, keyset, r, now) == Err::<
            (AgentClaimsView, JwkView, Seq<char>, Option<u64>, u64),
            ApiErrorView,
        >(e),
{
}

} // verus!
