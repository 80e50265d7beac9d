//! The documents that anybody may read: the provider's metadata, its keys, and
//! whether it is up.

use vstd::prelude::*;

use crate::config::Config;
use crate::decimal;
use crate::json;
use crate::json::{Json, JsonValue};
use crate::jwk;
use crate::keys;
use crate::keys::KeySet;
use crate::problem;
use crate::problem::{Resp, RespView};
use crate::records;
use crate::text;

verus! {

/// The provider's metadata. What is not configured is left out.
pub open spec fn metadata_json(cfg: Config) -> Json {
    let m = Map::<Seq<char>, Json>::empty().insert("issuer"@, Json::Str(cfg.issuer@)).insert(
        "jwks_uri"@,
        Json::Str(cfg.issuer@ + "/.well-known/jwks.json"@),
    ).insert("accept_signature_algs"@, Json::Arr(seq![Json::Str("Ed25519"@)]));
    let m = jwk::with_text(m, "name"@, text::opt_view(cfg.metadata.name));
    let m = jwk::with_text(m, "description"@, text::opt_view(cfg.metadata.description));
    let m = jwk::with_text(m, "logo_uri"@, text::opt_view(cfg.metadata.logo_uri));
    let m = jwk::with_text(m, "logo_dark_uri"@, text::opt_view(cfg.metadata.logo_dark_uri));
    let m = jwk::with_text(
        m,
        "documentation_uri"@,
        text::opt_view(cfg.metadata.documentation_uri),
    );
    let m = jwk::with_text(m, "tos_uri"@, text::opt_view(cfg.metadata.tos_uri));
    let m = jwk::with_text(m, "policy_uri"@, text::opt_view(cfg.metadata.policy_uri));
    Json::Obj(
        if cfg.events.enabled {
            m.insert("event_endpoint"@, Json::Str(cfg.issuer@ + "/events"@))
        } else {
            m
        },
    )
}

/// The provider's metadata.
pub fn build_agent_metadata(cfg: &Config) -> (r: JsonValue)
    ensures
        r@ == metadata_json(*cfg),
{
    let issuer = cfg.issuer.as_str();
    let mut algs: Vec<JsonValue> = Vec::new();
    algs.push(JsonValue::string("Ed25519"));
    proof {
        json::lemma_elements(algs@);
        assert(json::elements(algs@) =~= seq![Json::Str("Ed25519"@)]);
    }
    let m = JsonValue::object().with("issuer", JsonValue::string(issuer)).with(
        "jwks_uri",
        JsonValue::string(text::join2(issuer, "/.well-known/jwks.json").as_str()),
    ).with("accept_signature_algs", JsonValue::Array(algs));
    let m = records::with_optional(m, "name", &cfg.metadata.name);
    let m = records::with_optional(m, "description", &cfg.metadata.description);
    let m = records::with_optional(m, "logo_uri", &cfg.metadata.logo_uri);
    let m = records::with_optional(m, "logo_dark_uri", &cfg.metadata.logo_dark_uri);
    let m = records::with_optional(m, "documentation_uri", &cfg.metadata.documentation_uri);
    let m = records::with_optional(m, "tos_uri", &cfg.metadata.tos_uri);
    let m = records::with_optional(m, "policy_uri", &cfg.metadata.policy_uri);
    if cfg.events.enabled {
        m.with("event_endpoint", JsonValue::string(text::join2(issuer, "/events").as_str()))
    } else {
        m
    }
}

/// A document that may be kept for five minutes.
pub open spec fn document(v: Json) -> RespView {
    RespView {
        status: problem::OK,
        headers: seq![
            ("content-type"@, "application/json"@),
            ("cache-control"@, "public, max-age="@ + decimal::numeral(300)),
        ],
        body: json::json_text(v),
    }
}

/// Answers with the provider's metadata.
pub fn agent_metadata(cfg: &Config) -> (r: Resp)
    ensures
        r@ == document(metadata_json(*cfg)),
{
    let body = build_agent_metadata(cfg).render();
    problem::json_cacheable(body.as_str(), 300)
}

/// Answers with the provider's keys.
pub fn jwks(keyset: &KeySet) -> (r: Resp)
    ensures
        r@ == document(keys::jwks_document(keys::jwks_view(keyset.public_jwks@))),
{
    let body = keyset.jwks_json().render();
    problem::json_cacheable(body.as_str(), 300)
}

/// What is told of the provider's health.
pub open spec fn health_json(cfg: Config, uptime: u64) -> Json {
    Json::Obj(
        Map::<Seq<char>, Json>::empty().insert("status"@, Json::Str("ok"@)).insert(
            "mode"@,
            Json::Str("demo"@),
        ).insert("issuer"@, Json::Str(cfg.issuer@)).insert(
            "uptime_secs"@,
            Json::Int(uptime as int),
        ),
    )
}

/// Answers that the provider is up.
pub fn healthz(cfg: &Config, started_at: u64, now: u64) -> (r: Resp)
    ensures
        r@ == problem::json_answer(
            problem::OK,
            health_json(
                *cfg,
                if now >= started_at {
                    (now - started_at) as u64
                } else {
                    0
                },
            ),
        ),
{
    let uptime: u64 = if now >= started_at {
        now - started_at
    } else {
        0
    };
    problem::json_ok(
        &JsonValue::object().with("status", JsonValue::string("ok")).with(
            "mode",
            JsonValue::string("demo"),
        ).with("issuer", JsonValue::string(cfg.issuer.as_str())).with(
            "uptime_secs",
            JsonValue::number(uptime),
        ),
    )
}

/// The metadata names the issuer, where its keys are and the algorithm that it
/// accepts, what is configured to be shown of it, and the event endpoint only
/// where events are enabled.
pub proof fn law_metadata(cfg: Config)
    ensures
        ({
            let m = metadata_json(cfg);
            &&& json::str_member(m, "issuer"@) == Some(cfg.issuer@)
            &&& json::str_member(m, "jwks_uri"@) == Some(cfg.issuer@ + "/.well-known/jwks.json"@)
            &&& json::json_get(m, "accept_signature_algs"@) == Some(
                Json::Arr(seq![Json::Str("Ed25519"@)]),
            )
            &&& json::str_member(m, "name"@) == text::opt_view(cfg.metadata.name)
            &&& json::str_member(m, "description"@) == text::opt_view(cfg.metadata.description)
            &&& json::str_member(m, "logo_uri"@) == text::opt_view(cfg.metadata.logo_uri)
            &&& json::str_member(m, "logo_dark_uri"@) == text::opt_view(cfg.metadata.logo_dark_uri)
            &&& json::str_member(m, "documentation_uri"@) == text::opt_view(
                cfg.metadata.documentation_uri,
            )
            &&& json::str_member(m, "tos_uri"@) == text::opt_view(cfg.metadata.tos_uri)
            &&& json::str_member(m, "policy_uri"@) == text::opt_view(cfg.metadata.policy_uri)
            &&& json::str_member(m, "event_endpoint"@) == (if cfg.events.enabled {
                Some(cfg.issuer@ + "/events"@)
            } else {
                None
            })
        }),
{
    reveal_strlit("issuer");
    reveal_strlit("jwks_uri");
    reveal_strlit("accept_signature_algs");
    reveal_strlit("name");
    reveal_strlit("description");
    reveal_strlit("logo_uri");
    reveal_strlit("logo_dark_uri");
    reveal_strlit("documentation_uri");
    reveal_strlit("tos_uri");
    reveal_strlit("policy_uri");
    reveal_strlit("event_endpoint");
    assert("issuer"@.len() == 6 && "jwks_uri"@.len() == 8 && "accept_signature_algs"@.len() == 21 && "name"@.len() == 4 && "description"@.len() == 11 && "logo_uri"@.len() == 8 && "logo_dark_uri"@.len() == 13 && "documentation_uri"@.len() == 17 && "tos_uri"@.len() == 7 && "policy_uri"@.len() == 10 && "event_endpoint"@.len() == 14);
    assert("jwks_uri"@[0] == 'j');
    assert("logo_uri"@[0] == 'l');
}

/// A public document is answered with 200 and may be kept for five minutes.
pub proof fn law_public_document(v: Json)
    ensures
        document(v).status == 200,
        document(v).body == json::json_text(v),
        document(v).headers == seq![
            ("content-type"@, "application/json"@),
            ("cache-control"@, "public, max-age="@ + decimal::numeral(300)),
        ],
{
}

/// Of its health a provider tells that it is up, and for how long.
pub proof fn law_health(cfg: Config, uptime: u64)
    ensures
        health_json(cfg, uptime) == Json::Obj(
            map![
                "status"@ => Json::Str("ok"@),
                "mode"@ => Json::Str("demo"@),
                "issuer"@ => Json::Str(cfg.issuer@),
                "uptime_secs"@ => Json::Int(uptime as int),
            ],
        ),
{
    assert(health_json(cfg, uptime)->Obj_0 =~= map![
        "status"@ => Json::Str("ok"@),
        "mode"@ => Json::Str("demo"@),
        "issuer"@ => Json::Str(cfg.issuer@),
        "uptime_secs"@ => Json::Int(uptime as int),
    ]);
}

} // verus!
