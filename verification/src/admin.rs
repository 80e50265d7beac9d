//! The admin API: enrollment tokens, allowed keys, and the agents. Each endpoint
//! is a row of steps behind the check of who calls.

use vstd::prelude::*;

use crate::agent;
use crate::b64;
use crate::config::Config;
use crate::ident;
use crate::json;
use crate::json::{Json, JsonValue};
use crate::problem;
use crate::problem::{ApiError, ApiErrorView, Resp, RespView};
use crate::records;
use crate::records::{
    AgentRecord, AgentView, AllowedKeyRecord, AllowedKeyView, EnrollTokenRecord, EnrollTokenView,
};
use crate::reqctx;
use crate::reqctx::{ReqCtx, ReqView};
use crate::revocation::NotifyOutcome;
use crate::storage;
use crate::storage::{Found, FoundView, Write, WriteView};
use crate::text;

verus! {

/// A change that an operator makes: what is stored, and what is answered.
pub struct Change {
    pub write: Write,
    pub answer: Resp,
}

/// Why the Person Server that a body names cannot be used.
pub open spec fn ps_fault(cfg: Config, b: Json) -> Option<ApiErrorView> {
    match json::str_member(b, "ps"@) {
        Some(p) => if ident::is_server_identifier(p, cfg.insecure_dev_mode) {
            None
        } else {
            Some(agent::invalid("ps is not a valid server identifier"@))
        },
        None => None,
    }
}

fn check_ps(cfg: &Config, b: &JsonValue) -> (r: Result<(), ApiError>)
    ensures
        match r {
            Ok(_) => ps_fault(*cfg, b@) is None,
            Err(e) => ps_fault(*cfg, b@) == Some(e@),
        },
{
    if let Some(p) = b.str_of("ps") {
        if ident::validate_server_identifier(p.as_str(), cfg.insecure_dev_mode).is_err() {
            return Err(
                ApiError::bad_request("invalid_request", "ps is not a valid server identifier"),
            );
        }
    }
    Ok(())
}

// ------------------------------------------------------ enrollment tokens

/// The record of the enrollment token that a body asks for.
pub open spec fn token_record(b: Json, now: u64) -> EnrollTokenView {
    EnrollTokenView {
        ps: json::str_member(b, "ps"@),
        label: json::str_member(b, "label"@),
        created_at: now,
    }
}

/// For how many seconds the enrollment token that a body asks for is good.
pub open spec fn token_secs(b: Json) -> u64 {
    match json::u64_member(b, "ttl"@) {
        Some(n) => n,
        None => 3600,
    }
}

/// What is stored of an enrollment token.
pub open spec fn token_write(token: Seq<char>, rec: EnrollTokenView, secs: u64) -> WriteView {
    WriteView {
        key: "enrolltok:"@ + token,
        value: records::stored(records::enroll_token_json(rec)),
        ttl: Some(storage::millis_of(secs)),
    }
}

/// The answer with a new enrollment token.
pub open spec fn token_answer(token: Seq<char>, secs: u64) -> RespView {
    problem::json_answer(
        problem::CREATED,
        Json::Obj(
            Map::<Seq<char>, Json>::empty().insert("enrollment_token"@, Json::Str(token)).insert(
                "expires_in"@,
                Json::Int(secs as int),
            ),
        ),
    )
}

/// Why no enrollment token is made for a request.
pub open spec fn mint_fault(cfg: Config, r: ReqView) -> Option<ApiErrorView> {
    match reqctx::body_json(r) {
        Err(e) => Some(e),
        Ok(b) => ps_fault(cfg, b),
    }
}

/// Makes an enrollment token that can be used once. `token` is drawn at random.
pub fn mint_enrollment_token(ctx: &ReqCtx, cfg: &Config, token: &str, now: u64) -> (r: Result<
    Change,
    ApiError,
>)
    ensures
        match r {
            Err(e) => mint_fault(*cfg, ctx@) == Some(e@),
            Ok(c) => mint_fault(*cfg, ctx@) is None && (reqctx::body_json(ctx@) matches Ok(b) && c
                .write@ == token_write(token@, token_record(b, now), token_secs(b)) && c.answer@
                == token_answer(token@, token_secs(b))),
        },
{
    let body = match ctx.parse_json() {
        Ok(b) => b,
        Err(e) => {
            return Err(e);
        },
    };
    if let Err(e) = check_ps(cfg, &body) {
        return Err(e);
    }
    let secs: u64 = match body.u64_of("ttl") {
        Some(n) => n,
        None => 3600,
    };
    let write = store_enrollment_token(
        token,
        agent::member_text(&body, "ps"),
        agent::member_text(&body, "label"),
        secs,
        now,
    );
    let answer = problem::json_response(
        problem::CREATED,
        &JsonValue::object().with("enrollment_token", JsonValue::string(token)).with(
            "expires_in",
            JsonValue::number(secs),
        ),
    );
    Ok(Change { write, answer })
}

/// What is stored of an enrollment token.
pub fn store_enrollment_token(
    token: &str,
    ps: Option<String>,
    label: Option<String>,
    secs: u64,
    now: u64,
) -> (r: Write)
    ensures
        r@ == token_write(
            token@,
            EnrollTokenView {
                ps: text::opt_view(ps),
                label: text::opt_view(label),
                created_at: now,
            },
            secs,
        ),
{
    let record = EnrollTokenRecord { ps, label, created_at: now };
    Write {
        key: records::enroll_token_key(token),
        value: records::write_enroll_token(&record),
        ttl: Some(storage::millis(secs)),
    }
}

// ------------------------------------------------------------ allowed keys

/// Whether a text is the thumbprint of a key: 32 bytes.
pub open spec fn is_thumbprint(s: Seq<char>) -> bool {
    b64::decoded(s) matches Some(raw) && raw.len() == 32
}

/// The key that a request allows, or why it allows none.
pub open spec fn key_asked(cfg: Config, r: ReqView, now: u64) -> Result<
    (AllowedKeyView, Option<u64>),
    ApiErrorView,
> {
    if !cfg.enrollment.method_names().contains("allowlist"@) {
        Err(
            problem::bad_request(
                "method_disabled"@,
                "the allowlist enrollment method is not enabled"@,
            ),
        )
    } else {
        match reqctx::body_json(r) {
            Err(e) => Err(e),
            Ok(b) => match json::str_member(b, "jkt"@) {
                None => Err(agent::invalid("jkt is required"@)),
                Some(jkt) => if !is_thumbprint(jkt) {
                    Err(
                        agent::invalid(
                            "jkt must be a base64url SHA-256 JWK thumbprint (43 chars)"@,
                        ),
                    )
                } else {
                    match ps_fault(cfg, b) {
                        Some(e) => Err(e),
                        None => Ok(
                            (
                                AllowedKeyView {
                                    jkt,
                                    ps: json::str_member(b, "ps"@),
                                    label: json::str_member(b, "label"@),
                                    created_at: now,
                                },
                                json::u64_member(b, "ttl"@),
                            ),
                        ),
                    }
                },
            },
        }
    }
}

/// What is stored of an allowed key.
pub open spec fn key_write(rec: AllowedKeyView, secs: Option<u64>) -> WriteView {
    WriteView {
        key: "allowkey:"@ + rec.jkt,
        value: records::stored(records::allowed_key_json(rec)),
        ttl: match secs {
            Some(n) => Some(storage::millis_of(n)),
            None => None,
        },
    }
}

/// The answer to a key that is allowed.
pub open spec fn key_answer(jkt: Seq<char>) -> RespView {
    problem::json_answer(
        problem::CREATED,
        Json::Obj(
            Map::<Seq<char>, Json>::empty().insert("jkt"@, Json::Str(jkt)).insert(
                "status"@,
                Json::Str("allowed"@),
            ),
        ),
    )
}

fn thumbprint(s: &str) -> (r: bool)
    ensures
        r == is_thumbprint(s@),
{
    match b64::decode(s) {
        Some(raw) => raw.len() == 32,
        None => false,
    }
}

/// Allows a key to enroll, once, for a time or for good.
pub fn add_allowed_key(ctx: &ReqCtx, cfg: &Config, now: u64) -> (r: Result<
    (AllowedKeyRecord, Change),
    ApiError,
>)
    ensures
        match r {
            Err(e) => key_asked(*cfg, ctx@, now) == Err::<
                (AllowedKeyView, Option<u64>),
                ApiErrorView,
            >(e@),
            Ok(x) => key_asked(*cfg, ctx@, now) matches Ok((rec, secs)) && x.0@ == rec && x.1.write@
                == key_write(rec, secs) && x.1.answer@ == key_answer(rec.jkt),
        },
{
    if !cfg.enrollment.method_enabled("allowlist") {
        return Err(
            ApiError::bad_request(
                "method_disabled",
                "the allowlist enrollment method is not enabled",
            ),
        );
    }
    let body = match ctx.parse_json() {
        Ok(b) => b,
        Err(e) => {
            return Err(e);
        },
    };
    let jkt = match body.str_of("jkt") {
        Some(s) => s.clone(),
        None => {
            return Err(ApiError::bad_request("invalid_request", "jkt is required"));
        },
    };
    if !thumbprint(jkt.as_str()) {
        return Err(
            ApiError::bad_request(
                "invalid_request",
                "jkt must be a base64url SHA-256 JWK thumbprint (43 chars)",
            ),
        );
    }
    if let Err(e) = check_ps(cfg, &body) {
        return Err(e);
    }
    let ttl = match body.u64_of("ttl") {
        Some(n) => Some(storage::millis(n)),
        None => None,
    };
    let answer = problem::json_response(
        problem::CREATED,
        &JsonValue::object().with("jkt", JsonValue::string(jkt.as_str())).with(
            "status",
            JsonValue::string("allowed"),
        ),
    );
    let record = AllowedKeyRecord {
        jkt,
        ps: agent::member_text(&body, "ps"),
        label: agent::member_text(&body, "label"),
        created_at: now,
    };
    let write = Write {
        key: records::allowed_key_key(record.jkt.as_str()),
        value: records::write_allowed_key(&record),
        ttl,
    };
    Ok((record, Change { write, answer }))
}

/// The readable ones of stored allowed keys, in order.
pub open spec fn allowed_keys(values: Seq<Seq<u8>>) -> Seq<Json>
    decreases values.len(),
{
    if values.len() == 0 {
        Seq::empty()
    } else {
        let less = allowed_keys(values.drop_last());
        match records::stored_allowed_key(values.last()) {
            Some(rec) => less.push(records::allowed_key_json(rec)),
            None => less,
        }
    }
}

/// A listing under a name, with how many entries it has.
pub open spec fn listing(name: Seq<char>, entries: Seq<Json>) -> RespView {
    problem::json_answer(
        problem::OK,
        Json::Obj(
            Map::<Seq<char>, Json>::empty().insert(name, Json::Arr(entries)).insert(
                "count"@,
                Json::Int(entries.len() as int),
            ),
        ),
    )
}

fn list_reply(name: &str, entries: Vec<JsonValue>) -> (r: Resp)
    ensures
        r@ == listing(name@, json::elements(entries@)),
{
    let count: u64 = entries.len() as u64;
    proof {
        json::lemma_elements(entries@);
    }
    problem::json_ok(
        &JsonValue::object().with(name, JsonValue::Array(entries)).with(
            "count",
            JsonValue::number(count),
        ),
    )
}

/// Lists the keys that are allowed to enroll. `values` is what the store holds
/// under their prefix.
pub fn list_allowed_keys(values: &Vec<Vec<u8>>) -> (r: Resp)
    ensures
        r@ == listing("allowed_keys"@, allowed_keys(text::bytes_view(values@))),
{
    let ghost all = text::bytes_view(values@);
    let mut out: Vec<JsonValue> = Vec::new();
    let mut i: usize = 0;
    proof {
        assert(all.take(0) =~= Seq::empty());
    }
    while i < values.len()
        invariant
            i <= values@.len(),
            all == text::bytes_view(values@),
            json::elements(out@) == allowed_keys(all.take(i as int)),
        decreases values@.len() - i,
    {
        proof {
            assert(all.take(i + 1).drop_last() =~= all.take(i as int));
            assert(all.take(i + 1).last() == values@[i as int]@);
        }
        if let Some(rec) = records::read_allowed_key(values[i].as_slice()) {
            let ghost before = out@;
            out.push(rec.to_json());
            proof {
                assert(out@.drop_last() =~= before);
            }
        }
        i += 1;
    }
    proof {
        assert(all.take(all.len() as int) =~= all);
    }
    list_reply("allowed_keys", out)
}

/// The answer to a request to withdraw an allowed key. `removed` says whether
/// there was one.
pub fn remove_allowed_key(removed: bool) -> (r: Result<Resp, ApiError>)
    ensures
        match r {
            Ok(a) => removed && a@ == (RespView {
                status: problem::NO_CONTENT,
                headers: Seq::empty(),
                body: Seq::empty(),
            }),
            Err(e) => !removed && e@ == problem::not_found("not_found"@, "no such allowed key"@),
        },
{
    if removed {
        Ok(problem::empty_status(problem::NO_CONTENT))
    } else {
        Err(ApiError::not_found("not_found", "no such allowed key"))
    }
}

// ----------------------------------------------------------------- agents

/// What a listing shows of an optional text.
pub open spec fn shown_text(o: Option<Seq<char>>) -> Json {
    match o {
        Some(s) => Json::Str(s),
        None => Json::Null,
    }
}

/// What a listing shows of an agent.
pub open spec fn agent_summary(domain: Seq<char>, rec: AgentView) -> Json {
    Json::Obj(
        Map::<Seq<char>, Json>::empty().insert(
            "agent"@,
            Json::Str(ident::agent_text(rec.local, domain)),
        ).insert("local"@, Json::Str(rec.local)).insert(
            "durable_jkt"@,
            Json::Str(rec.durable_jkt),
        ).insert("ps"@, shown_text(rec.ps)).insert("platform"@, shown_text(rec.platform)).insert(
            "label"@,
            shown_text(rec.label),
        ).insert("status"@, Json::Str(rec.status)).insert(
            "created_at"@,
            Json::Int(rec.created_at as int),
        ).insert("last_issued_at"@, Json::Int(rec.last_issued_at as int)).insert(
            "tokens_issued"@,
            Json::Int(rec.tokens_issued as int),
        ),
    )
}

/// What a listing shows of stored agents: the readable ones, in order.
pub open spec fn agent_summaries(domain: Seq<char>, values: Seq<Seq<u8>>) -> Seq<Json>
    decreases values.len(),
{
    if values.len() == 0 {
        Seq::empty()
    } else {
        let less = agent_summaries(domain, values.drop_last());
        match records::stored_agent(values.last()) {
            Some(rec) => less.push(agent_summary(domain, rec)),
            None => less,
        }
    }
}

/// What a listing shows of an optional text.
pub fn show_text(o: &Option<String>) -> (r: JsonValue)
    ensures
        r@ == shown_text(text::opt_view(*o)),
{
    match o {
        Some(s) => JsonValue::string(s.as_str()),
        None => JsonValue::Null,
    }
}

fn summarize(domain: &str, rec: &AgentRecord) -> (r: JsonValue)
    ensures
        r@ == agent_summary(domain@, rec@),
{
    let mut name = text::join3("aauth:", rec.local.as_str(), "@");
    name.append(domain);
    JsonValue::object().with("agent", JsonValue::string(name.as_str())).with(
        "local",
        JsonValue::string(rec.local.as_str()),
    ).with("durable_jkt", JsonValue::string(rec.durable_jkt.as_str())).with(
        "ps",
        show_text(&rec.ps),
    ).with("platform", show_text(&rec.platform)).with("label", show_text(&rec.label)).with(
        "status",
        JsonValue::string(rec.status.as_str()),
    ).with("created_at", JsonValue::number(rec.created_at)).with(
        "last_issued_at",
        JsonValue::number(rec.last_issued_at),
    ).with("tokens_issued", JsonValue::number(rec.tokens_issued))
}

/// Lists the agents. `values` is what the store holds under their prefix.
pub fn list_agents(cfg: &Config, values: &Vec<Vec<u8>>) -> (r: Resp)
    requires
        ident::is_server_identifier(cfg.issuer@, cfg.insecure_dev_mode),
    ensures
        r@ == listing(
            "agents"@,
            agent_summaries(ident::url_host(cfg.issuer@)->0, text::bytes_view(values@)),
        ),
{
    let domain = cfg.agent_domain();
    let ghost all = text::bytes_view(values@);
    let mut out: Vec<JsonValue> = Vec::new();
    let mut i: usize = 0;
    proof {
        assert(all.take(0) =~= Seq::empty());
    }
    while i < values.len()
        invariant
            i <= values@.len(),
            all == text::bytes_view(values@),
            json::elements(out@) == agent_summaries(domain@, all.take(i as int)),
        decreases values@.len() - i,
    {
        proof {
            assert(all.take(i + 1).drop_last() =~= all.take(i as int));
            assert(all.take(i + 1).last() == values@[i as int]@);
        }
        if let Some(rec) = records::read_agent(values[i].as_slice()) {
            let ghost before = out@;
            out.push(summarize(domain.as_str(), &rec));
            proof {
                assert(out@.drop_last() =~= before);
            }
        }
        i += 1;
    }
    proof {
        assert(all.take(all.len() as int) =~= all);
    }
    list_reply("agents", out)
}

/// The agent that is stored under a local part.
pub open spec fn agent_found(found: Option<FoundView>) -> Result<AgentView, ApiErrorView> {
    match found {
        None => Err(problem::not_found("not_found"@, "no such agent"@)),
        Some(f) => match records::stored_agent(f.bytes) {
            None => Err(problem::server_error("corrupt record: "@ + f.fault)),
            Some(rec) => Ok(rec),
        },
    }
}

/// Reads the agent that is stored under a local part.
pub fn load_agent(found: &Option<Found>) -> (r: Result<AgentRecord, ApiError>)
    ensures
        match r {
            Ok(rec) => agent_found(storage::opt_found(*found)) == Ok::<AgentView, ApiErrorView>(
                rec@,
            ),
            Err(e) => agent_found(storage::opt_found(*found)) == Err::<AgentView, ApiErrorView>(
                e@,
            ),
        },
{
    match found {
        None => Err(ApiError::not_found("not_found", "no such agent")),
        Some(f) => match records::read_agent(f.bytes.as_slice()) {
            None => Err(
                ApiError::server_error(
                    text::join2("corrupt record: ", f.fault.as_str()).as_str(),
                ),
            ),
            Some(rec) => Ok(rec),
        },
    }
}

/// Shows one agent.
pub fn get_agent(found: &Option<Found>) -> (r: Result<Resp, ApiError>)
    ensures
        match r {
            Ok(a) => agent_found(storage::opt_found(*found)) matches Ok(rec) && a@
                == problem::json_answer(problem::OK, records::agent_json(rec)),
            Err(e) => agent_found(storage::opt_found(*found)) == Err::<AgentView, ApiErrorView>(
                e@,
            ),
        },
{
    match load_agent(found) {
        Ok(rec) => Ok(problem::json_ok(&rec.to_json())),
        Err(e) => Err(e),
    }
}

/// An agent's record with another status.
pub open spec fn with_status(rec: AgentView, status: Seq<char>) -> AgentView {
    AgentView { status, ..rec }
}

/// An agent whose status is changed: the record, and what stores it.
pub struct StatusChange {
    pub record: AgentRecord,
    pub write: Write,
}

/// Changes the status of the agent that is stored under a local part.
fn set_status(local: &str, found: &Option<Found>, status: &str) -> (r: Result<
    StatusChange,
    ApiError,
>)
    ensures
        status_changed(local@, storage::opt_found(*found), status@, r),
{
    match load_agent(found) {
        Err(e) => Err(e),
        Ok(rec) => {
            let mut record = rec;
            record.status = status.to_owned();
            let write = Write {
                key: records::agent_key(local),
                value: records::write_agent(&record),
                ttl: None,
            };
            Ok(StatusChange { record, write })
        },
    }
}

/// What a change of an agent's status gives.
pub open spec fn status_changed(
    local: Seq<char>,
    found: Option<FoundView>,
    status: Seq<char>,
    r: Result<StatusChange, ApiError>,
) -> bool {
    match r {
        Ok(c) => agent_found(found) matches Ok(rec) && c.record@ == with_status(rec, status)
            && c.write@ == (WriteView {
            key: "agent:"@ + local,
            value: records::stored(records::agent_json(c.record@)),
            ttl: None,
        }) && (json::plain(records::agent_json(c.record@), 127) ==> records::stored_agent(
            c.write@.value,
        ) == Some(c.record@)),
        Err(e) => agent_found(found) == Err::<AgentView, ApiErrorView>(e@),
    }
}

/// Revokes the agent that is stored under a local part: no token is issued to it
/// any more. That is stored before its Person Server is told.
pub fn revoke_agent(local: &str, found: &Option<Found>) -> (r: Result<StatusChange, ApiError>)
    ensures
        status_changed(local@, storage::opt_found(*found), "revoked"@, r),
{
    set_status(local, found, records::STATUS_REVOKED)
}

/// Reinstates the agent that is stored under a local part.
pub fn reinstate_agent(local: &str, found: &Option<Found>) -> (r: Result<
    StatusChange,
    ApiError,
>)
    ensures
        status_changed(local@, storage::opt_found(*found), "active"@, r),
{
    set_status(local, found, records::STATUS_ACTIVE)
}

/// The body that tells the status of an agent.
pub open spec fn status_body(local: Seq<char>, status: Seq<char>) -> Map<Seq<char>, Json> {
    Map::<Seq<char>, Json>::empty().insert("local"@, Json::Str(local)).insert(
        "status"@,
        Json::Str(status),
    )
}

/// The answer to a revocation: the agent is revoked, however telling its Person
/// Server went.
pub fn revoked_answer(local: &str, outcome: &NotifyOutcome) -> (r: Resp)
    ensures
        r@ == problem::json_answer(
            problem::OK,
            Json::Obj(
                status_body(local@, "revoked"@).insert(
                    "ps_notification"@,
                    crate::revocation::outcome_json(outcome@),
                ),
            ),
        ),
{
    problem::json_ok(
        &JsonValue::object().with("local", JsonValue::string(local)).with(
            "status",
            JsonValue::string("revoked"),
        ).with("ps_notification", outcome.to_json()),
    )
}

/// The answer to a reinstatement.
pub fn reinstated_answer(local: &str) -> (r: Resp)
    ensures
        r@ == problem::json_answer(problem::OK, Json::Obj(status_body(local@, "active"@))),
{
    problem::json_ok(
        &JsonValue::object().with("local", JsonValue::string(local)).with(
            "status",
            JsonValue::string("active"),
        ),
    )
}

// ------------------------------------------------------------------ laws

/// Revoking an agent stops it: whatever telling its Person Server gives, the
/// record that is stored lets no token be issued.
pub proof fn law_revoking_stops_issuance(rec: AgentView, found: FoundView)
    requires
        records::stored_agent(found.bytes) == Some(with_status(rec, "revoked"@)),
    ensures
        agent::serving_record(Some(found)) == Err::<AgentView, ApiErrorView>(agent::revoked()),
{
    reveal_strlit("revoked");
    reveal_strlit("active");
    assert("revoked"@.len() != "active"@.len());
}

/// Reinstating an agent undoes its revocation, and changes nothing else.
pub proof fn law_reinstating_undoes_revoking(rec: AgentView, found: FoundView)
    requires
        rec.status == "active"@,
        records::stored_agent(found.bytes) == Some(
            with_status(with_status(rec, "revoked"@), "active"@),
        ),
    ensures
        agent::serving_record(Some(found)) == Ok::<AgentView, ApiErrorView>(rec),
{
}

/// A minted token admits one enrollment with what it was minted for.
pub proof fn law_minted_token_authorizes(b: Json, now: u64, stored: Seq<u8>)
    requires
        records::stored_enroll_token(stored) == Some(token_record(b, now)),
    ensures
        crate::enrollment::minted_outcome(Some(stored)) == Ok::<
            crate::enrollment::AuthorizedView,
            ApiErrorView,
        >(
            crate::enrollment::AuthorizedView::Token {
                ps: json::str_member(b, "ps"@),
                label: json::str_member(b, "label"@),
                static_token: false,
            },
        ),
{
}

/// A body may name a Person Server only by a valid identifier.
pub proof fn law_named_person_server(cfg: Config, b: Json)
    ensures
        ps_fault(cfg, b) is None == (json::str_member(b, "ps"@) matches Some(p)
            ==> ident::is_server_identifier(p, cfg.insecure_dev_mode)),
        ps_fault(cfg, b) matches Some(e) ==> e.status == 400 && e.error == "invalid_request"@,
{
}

/// A minted token is stored under its own key with what the body asks for, for
/// the seconds that it asks for, or an hour; the answer, 201, tells the token and
/// that time.
pub proof fn law_minted_token(b: Json, token: Seq<char>, rec: EnrollTokenView, secs: u64, now: u64)
    ensures
        token_record(b, now).ps == json::str_member(b, "ps"@),
        token_record(b, now).label == json::str_member(b, "label"@),
        token_record(b, now).created_at == now,
        json::u64_member(b, "ttl"@) matches Some(n) ==> token_secs(b) == n,
        json::u64_member(b, "ttl"@) is None ==> token_secs(b) == 3600,
        token_write(token, rec, secs).key == "enrolltok:"@ + token,
        token_write(token, rec, secs).value == records::stored(records::enroll_token_json(rec)),
        secs <= u64::MAX / 1000 ==> (token_write(token, rec, secs).ttl matches Some(ms) && ms == 1000
            * secs),
        token_answer(token, secs).status == 201,
        token_answer(token, secs).body == json::json_text(
            Json::Obj(
                map![
                    "enrollment_token"@ => Json::Str(token),
                    "expires_in"@ => Json::Int(secs as int),
                ],
            ),
        ),
{
    assert(Map::<Seq<char>, Json>::empty().insert("enrollment_token"@, Json::Str(token)).insert(
        "expires_in"@,
        Json::Int(secs as int),
    ) =~= map!["enrollment_token"@ => Json::Str(token), "expires_in"@ => Json::Int(secs as int)]);
}

/// A token is minted exactly where the body reads and names no invalid Person
/// Server.
pub proof fn law_minting_refused(cfg: Config, r: ReqView)
    ensures
        mint_fault(cfg, r) is None == (reqctx::body_json(r) matches Ok(b) && (json::str_member(
            b,
            "ps"@,
        ) matches Some(p) ==> ident::is_server_identifier(p, cfg.insecure_dev_mode))),
        mint_fault(cfg, r) matches Some(e) ==> e.status == 400,
{
}

/// A key is allowed exactly where the method is enabled and the body names the
/// thumbprint of a key and no invalid Person Server; what is stored is what the
/// body says.
pub proof fn law_allowed_key(cfg: Config, r: ReqView, b: Json, jkt: Seq<char>, now: u64)
    requires
        reqctx::body_json(r) == Ok::<Json, ApiErrorView>(b),
    ensures
        cfg.enrollment.method_names().contains("allowlist"@) && json::str_member(b, "jkt"@) == Some(
            jkt,
        ) && (b64::decoded(jkt) matches Some(raw) && raw.len() == 32) && (json::str_member(
            b,
            "ps"@,
        ) matches Some(p) ==> ident::is_server_identifier(p, cfg.insecure_dev_mode)) ==> (
        key_asked(cfg, r, now) matches Ok((rec, secs)) && rec.jkt == jkt && rec.ps
            == json::str_member(b, "ps"@) && rec.label == json::str_member(b, "label"@)
            && rec.created_at == now && secs == json::u64_member(b, "ttl"@)),
        key_asked(cfg, r, now) matches Ok((rec, secs)) ==> cfg.enrollment.method_names().contains(
            "allowlist"@,
        ) && json::str_member(b, "jkt"@) == Some(rec.jkt) && (b64::decoded(rec.jkt) matches Some(raw)
            && raw.len() == 32),
        !cfg.enrollment.method_names().contains("allowlist"@) ==> (key_asked(
            cfg,
            r,
            now,
        ) matches Err(e) && e.status == 400 && e.error == "method_disabled"@),
        key_asked(cfg, r, now) matches Err(e) ==> e.status == 400,
{
}

/// An allowed key is stored under its thumbprint, for the time that is given or
/// for good, and is answered with 201.
pub proof fn law_allowed_key_stored(rec: AllowedKeyView, secs: Option<u64>)
    ensures
        key_write(rec, secs).key == "allowkey:"@ + rec.jkt,
        key_write(rec, secs).value == records::stored(records::allowed_key_json(rec)),
        secs is None ==> key_write(rec, secs).ttl is None,
        secs matches Some(n) ==> (n <= u64::MAX / 1000 ==> (key_write(rec, secs).ttl matches Some(ms)
            && ms == 1000 * n)),
        key_answer(rec.jkt).status == 201,
        key_answer(rec.jkt).body == json::json_text(
            Json::Obj(map!["jkt"@ => Json::Str(rec.jkt), "status"@ => Json::Str("allowed"@)]),
        ),
{
    assert(Map::<Seq<char>, Json>::empty().insert("jkt"@, Json::Str(rec.jkt)).insert(
        "status"@,
        Json::Str("allowed"@),
    ) =~= map!["jkt"@ => Json::Str(rec.jkt), "status"@ => Json::Str("allowed"@)]);
}

/// A listing shows every stored record that reads, in order, and nothing else.
pub proof fn law_listed_in_order(domain: Seq<char>, values: Seq<Seq<u8>>, b: Seq<u8>)
    ensures
        records::stored_allowed_key(b) matches Some(rec) ==> allowed_keys(values.push(b))
            == allowed_keys(values).push(records::allowed_key_json(rec)),
        records::stored_allowed_key(b) is None ==> allowed_keys(values.push(b)) == allowed_keys(
            values,
        ),
        records::stored_agent(b) matches Some(rec) ==> agent_summaries(domain, values.push(b))
            == agent_summaries(domain, values).push(agent_summary(domain, rec)),
        records::stored_agent(b) is None ==> agent_summaries(domain, values.push(b))
            == agent_summaries(domain, values),
        allowed_keys(Seq::empty()).len() == 0,
        agent_summaries(domain, Seq::empty()).len() == 0,
{
    assert(values.push(b).drop_last() =~= values);
}

/// A listing is answered with 200, its entries under its name, and how many they
/// are.
pub proof fn law_listing(name: Seq<char>, entries: Seq<Json>)
    ensures
        listing(name, entries).status == 200,
        listing(name, entries).body == json::json_text(
            Json::Obj(
                map![name => Json::Arr(entries), "count"@ => Json::Int(entries.len() as int)],
            ),
        ),
{
    assert(Map::<Seq<char>, Json>::empty().insert(name, Json::Arr(entries)).insert(
        "count"@,
        Json::Int(entries.len() as int),
    ) =~= map![name => Json::Arr(entries), "count"@ => Json::Int(entries.len() as int)]);
}

/// What a listing tells of an agent, under which names.
pub proof fn law_agent_summary(domain: Seq<char>, rec: AgentView)
    ensures
        agent_summary(domain, rec) == Json::Obj(
            map![
                "agent"@ => Json::Str("aauth:"@ + rec.local + "@"@ + domain),
                "local"@ => Json::Str(rec.local),
                "durable_jkt"@ => Json::Str(rec.durable_jkt),
                "ps"@ => shown_text(rec.ps),
                "platform"@ => shown_text(rec.platform),
                "label"@ => shown_text(rec.label),
                "status"@ => Json::Str(rec.status),
                "created_at"@ => Json::Int(rec.created_at as int),
                "last_issued_at"@ => Json::Int(rec.last_issued_at as int),
                "tokens_issued"@ => Json::Int(rec.tokens_issued as int),
            ],
        ),
        shown_text(None) == Json::Null,
        shown_text(Some(domain)) == Json::Str(domain),
{
    assert(agent_summary(domain, rec)->Obj_0 =~= map![
        "agent"@ => Json::Str("aauth:"@ + rec.local + "@"@ + domain),
        "local"@ => Json::Str(rec.local),
        "durable_jkt"@ => Json::Str(rec.durable_jkt),
        "ps"@ => shown_text(rec.ps),
        "platform"@ => shown_text(rec.platform),
        "label"@ => shown_text(rec.label),
        "status"@ => Json::Str(rec.status),
        "created_at"@ => Json::Int(rec.created_at as int),
        "last_issued_at"@ => Json::Int(rec.last_issued_at as int),
        "tokens_issued"@ => Json::Int(rec.tokens_issued as int),
    ]);
}

/// An agent is found by what is stored of it; one that is not there is told with
/// 404, and one that does not read is a failure of the server.
pub proof fn law_agent_found(found: FoundView)
    ensures
        agent_found(None) matches Err(e) && e.status == 404 && e.error == "not_found"@,
        records::stored_agent(found.bytes) matches Some(rec) ==> agent_found(Some(found)) == Ok::<
            AgentView,
            ApiErrorView,
        >(rec),
        records::stored_agent(found.bytes) is None ==> (agent_found(Some(found)) matches Err(e)
            && e.status == 500),
{
}

/// Changing the status of an agent changes its status only, and is stored for
/// good under its local part.
pub proof fn law_only_status_changes(
    local: Seq<char>,
    found: FoundView,
    status: Seq<char>,
    c: StatusChange,
    rec: AgentView,
)
    requires
        status_changed(local, Some(found), status, Ok::<StatusChange, ApiError>(c)),
        records::stored_agent(found.bytes) == Some(rec),
    ensures
        c.record@.status == status,
        c.record@.local == rec.local,
        c.record@.durable_jkt == rec.durable_jkt,
        c.record@.ps == rec.ps,
        c.record@.platform == rec.platform,
        c.record@.label == rec.label,
        c.record@.created_at == rec.created_at,
        c.record@.last_issued_at == rec.last_issued_at,
        c.record@.tokens_issued == rec.tokens_issued,
        c.record@.method == rec.method,
        c.record@.issuer == rec.issuer,
        c.record@.subject == rec.subject,
        c.record@.embed_claims == rec.embed_claims,
        c.record@.assurance == rec.assurance,
        c.write@.key == "agent:"@ + local,
        c.write@.value == records::stored(records::agent_json(c.record@)),
        c.write@.ttl is None,
{
}

/// The body that tells an agent's status names the agent and the status.
pub proof fn law_status_body(local: Seq<char>, status: Seq<char>)
    ensures
        status_body(local, status) == map![
            "local"@ => Json::Str(local),
            "status"@ => Json::Str(status),
        ],
{
    assert(status_body(local, status) =~= map![
        "local"@ => Json::Str(local),
        "status"@ => Json::Str(status),
    ]);
}

} // verus!
