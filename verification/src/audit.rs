//! The audit log: one JSON object per line. Nobody stands between a federated
//! enrollment and the tokens that follow, so this is what a review goes by.

use vstd::prelude::*;

use crate::admin;
use crate::enrollment;
use crate::enrollment::{Authorized, AuthorizedView};
use crate::json;
use crate::json::{Json, JsonValue};
use crate::jwk;
use crate::problem::ApiError;
use crate::records;
use crate::records::{AgentRecord, AgentView};
use crate::revocation;
use crate::revocation::NotifyOutcome;
use crate::text;

verus! {

/// An entry: what is told of an event, its name and when it was.
pub open spec fn entry(event: Seq<char>, fields: Map<Seq<char>, Json>, now: u64) -> Json {
    Json::Obj(fields.insert("ts"@, Json::Int(now as int)).insert("event"@, Json::Str(event)))
}

/// The line of an event.
pub fn emit(event: &str, fields: JsonValue, now: u64) -> (r: String)
    requires
        fields is Object,
    ensures
        r@ == json::json_text(entry(event@, fields@->Obj_0, now)),
{
    fields.with("ts", JsonValue::number(now)).with("event", JsonValue::string(event)).render()
}

/// What kind of token authorized an enrollment, where one did.
pub open spec fn token_kind(a: AuthorizedView) -> Option<Seq<char>> {
    match a {
        AuthorizedView::Token { static_token, .. } => Some(
            if static_token {
                "static"@
            } else {
                "minted"@
            },
        ),
        _ => None,
    }
}

/// What is told of an enrollment.
pub open spec fn enrolled_fields(agent: Seq<char>, rec: AgentView, a: AuthorizedView) -> Map<
    Seq<char>,
    Json,
> {
    let m = Map::<Seq<char>, Json>::empty().insert("agent"@, Json::Str(agent)).insert(
        "durable_jkt"@,
        Json::Str(rec.durable_jkt),
    ).insert("method"@, Json::Str(rec.method)).insert(
        "assurance"@,
        Json::Str(enrollment::assurance_of(a)),
    ).insert("ps"@, admin::shown_text(rec.ps)).insert("label"@, admin::shown_text(rec.label));
    let m = jwk::with_text(m, "issuer"@, rec.issuer);
    let m = jwk::with_text(m, "subject"@, rec.subject);
    jwk::with_text(m, "token_kind"@, token_kind(a))
}

/// What is told of an enrollment.
pub fn enrolled(agent: &str, rec: &AgentRecord, a: &Authorized) -> (r: JsonValue)
    ensures
        r is Object,
        r@ == Json::Obj(enrolled_fields(agent@, rec@, a@)),
{
    let kind = match a {
        Authorized::Token { static_token, .. } => if *static_token {
            Some("static".to_owned())
        } else {
            Some("minted".to_owned())
        },
        _ => None,
    };
    let m = JsonValue::object().with("agent", JsonValue::string(agent)).with(
        "durable_jkt",
        JsonValue::string(rec.durable_jkt.as_str()),
    ).with("method", JsonValue::string(rec.method.as_str())).with(
        "assurance",
        JsonValue::string(a.assurance().as_str()),
    ).with("ps", admin::show_text(&rec.ps)).with("label", admin::show_text(&rec.label));
    let m = records::with_optional(m, "issuer", &rec.issuer);
    let m = records::with_optional(m, "subject", &rec.subject);
    records::with_optional(m, "token_kind", &kind)
}

/// What is told of an enrollment that was denied.
pub fn denied(jkt: &str, e: &ApiError) -> (r: JsonValue)
    ensures
        r is Object,
        r@ == Json::Obj(
            Map::<Seq<char>, Json>::empty().insert("durable_jkt"@, Json::Str(jkt@)).insert(
                "error"@,
                Json::Str(e@.error),
            ).insert("detail"@, Json::Str(e@.detail)),
        ),
{
    JsonValue::object().with("durable_jkt", JsonValue::string(jkt)).with(
        "error",
        JsonValue::string(e.error.as_str()),
    ).with("detail", JsonValue::string(e.detail.as_str()))
}

/// What is told of a token that was issued; of a sub-agent's, also the parent.
pub fn token_issued(agent: &str, parent: &Option<String>, exp: u64) -> (r: JsonValue)
    ensures
        r is Object,
        r@ == Json::Obj(
            jwk::with_text(
                Map::<Seq<char>, Json>::empty().insert("agent"@, Json::Str(agent@)).insert(
                    "exp"@,
                    Json::Int(exp as int),
                ),
                "parent_agent"@,
                text::opt_view(*parent),
            ),
        ),
{
    let m = JsonValue::object().with("agent", JsonValue::string(agent)).with(
        "exp",
        JsonValue::number(exp),
    );
    records::with_optional(m, "parent_agent", parent)
}

/// What is told of an agent that an operator revoked or reinstated; of a
/// revocation, also how telling the Person Server went.
pub fn status_changed(actor: &str, local: &str, outcome: &Option<NotifyOutcome>) -> (r: JsonValue)
    ensures
        r is Object,
        ({
            let m = Map::<Seq<char>, Json>::empty().insert("actor"@, Json::Str(actor@)).insert(
                "local"@,
                Json::Str(local@),
            );
            r@ == Json::Obj(
                match *outcome {
                    Some(o) => m.insert("ps_notification"@, revocation::outcome_json(o@)),
                    None => m,
                },
            )
        }),
{
    let m = JsonValue::object().with("actor", JsonValue::string(actor)).with(
        "local",
        JsonValue::string(local),
    );
    match outcome {
        Some(o) => m.with("ps_notification", o.to_json()),
        None => m,
    }
}

/// What is told of an enrollment token or of an allowed key, `jkt`, that an
/// operator made.
pub fn admission_made(
    actor: &str,
    jkt: &Option<String>,
    ps: &Option<String>,
    label: &Option<String>,
    ttl: Option<u64>,
) -> (r: JsonValue)
    ensures
        r is Object,
        r@ == Json::Obj(
            jwk::with_text(
                Map::<Seq<char>, Json>::empty().insert("actor"@, Json::Str(actor@)).insert(
                    "ps"@,
                    admin::shown_text(text::opt_view(*ps)),
                ).insert("label"@, admin::shown_text(text::opt_view(*label))).insert(
                    "ttl"@,
                    match ttl {
                        Some(n) => Json::Int(n as int),
                        None => Json::Null,
                    },
                ),
                "jkt"@,
                text::opt_view(*jkt),
            ),
        ),
{
    let secs = match ttl {
        Some(n) => JsonValue::number(n),
        None => JsonValue::Null,
    };
    let m = JsonValue::object().with("actor", JsonValue::string(actor)).with(
        "ps",
        admin::show_text(ps),
    ).with("label", admin::show_text(label)).with("ttl", secs);
    records::with_optional(m, "jkt", jkt)
}

/// What is told of an allowed key that an operator withdrew.
pub fn key_removed(actor: &str, jkt: &str) -> (r: JsonValue)
    ensures
        r is Object,
        r@ == Json::Obj(
            Map::<Seq<char>, Json>::empty().insert("actor"@, Json::Str(actor@)).insert(
                "jkt"@,
                Json::Str(jkt@),
            ),
        ),
{
    JsonValue::object().with("actor", JsonValue::string(actor)).with("jkt", JsonValue::string(jkt))
}

/// What is told of an event that was delivered.
pub fn event_delivered(agent: &str, iss: &str, eid: &str) -> (r: JsonValue)
    ensures
        r is Object,
        r@ == Json::Obj(
            Map::<Seq<char>, Json>::empty().insert("agent"@, Json::Str(agent@)).insert(
                "iss"@,
                Json::Str(iss@),
            ).insert("eid"@, Json::Str(eid@)),
        ),
{
    JsonValue::object().with("agent", JsonValue::string(agent)).with(
        "iss",
        JsonValue::string(iss),
    ).with("eid", JsonValue::string(eid))
}

/// Every entry tells its event and when it was, whatever else it tells.
pub proof fn law_entry_names_event(event: Seq<char>, fields: Map<Seq<char>, Json>, now: u64)
    ensures
        json::str_member(entry(event, fields, now), "event"@) == Some(event),
        json::json_u64(json::json_get(entry(event, fields, now), "ts"@)->0) == Some(now),
{
    reveal_strlit("ts");
    reveal_strlit("event");
    assert("ts"@.len() != "event"@.len());
}

/// What the log tells of an enrollment: the agent, its key, how it was admitted
/// and with what assurance, its Person Server and label, and, where there are
/// such, the issuer, the subject and the kind of token.
pub proof fn law_enrollment_told(agent: Seq<char>, rec: AgentView, a: AuthorizedView)
    ensures
        ({
            let j = Json::Obj(enrolled_fields(agent, rec, a));
            &&& json::str_member(j, "agent"@) == Some(agent)
            &&& json::str_member(j, "durable_jkt"@) == Some(rec.durable_jkt)
            &&& json::str_member(j, "method"@) == Some(rec.method)
            &&& json::str_member(j, "assurance"@) == Some(enrollment::assurance_of(a))
            &&& json::str_member(j, "ps"@) == rec.ps
            &&& json::str_member(j, "label"@) == rec.label
            &&& json::str_member(j, "issuer"@) == rec.issuer
            &&& json::str_member(j, "subject"@) == rec.subject
            &&& json::str_member(j, "token_kind"@) == token_kind(a)
        }),
{
    reveal_strlit("agent");
    reveal_strlit("durable_jkt");
    reveal_strlit("method");
    reveal_strlit("assurance");
    reveal_strlit("ps");
    reveal_strlit("label");
    reveal_strlit("issuer");
    reveal_strlit("subject");
    reveal_strlit("token_kind");
    assert("agent"@.len() == 5 && "durable_jkt"@.len() == 11 && "method"@.len() == 6 && "assurance"@.len() == 9 && "ps"@.len() == 2 && "label"@.len() == 5 && "issuer"@.len() == 6 && "subject"@.len() == 7 && "token_kind"@.len() == 10);
    assert("agent"@[0] == 'a');
    assert("method"@[0] == 'm');
    assert("label"@[0] == 'l');
    assert("issuer"@[0] == 'i');
}

/// The kind of token is told of enrollments by token only.
pub proof fn law_token_kind(a: AuthorizedView)
    ensures
        a matches AuthorizedView::Token { static_token, .. } ==> token_kind(a) == Some(
            if static_token {
                "static"@
            } else {
                "minted"@
            },
        ),
        !(a is Token) ==> token_kind(a) is None,
{
}

/// An entry keeps what it is told besides its event and time.
pub proof fn law_entry_keeps_fields(
    event: Seq<char>,
    fields: Map<Seq<char>, Json>,
    now: u64,
    name: Seq<char>,
)
    requires
        name != "event"@,
        name != "ts"@,
    ensures
        json::json_get(entry(event, fields, now), name) == json::json_get(Json::Obj(fields), name),
{
}

} // verus!
