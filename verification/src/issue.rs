//! Issuing tokens: agent tokens, sub-agent tokens and subscribe tokens, all
//! signed with the provider's active key.

use vstd::prelude::*;

use crate::config;
use crate::config::Config;
use crate::ident;
use crate::ident::AgentId;
use crate::json;
use crate::json::{Json, JsonValue};
use crate::jwk;
use crate::jwk::{Jwk, JwkView};
use crate::jwt;
use crate::jwt::JwtView;
use crate::keys::KeySet;
use crate::records;
use crate::text;
use crate::tokens;
use crate::tokens::{AgentClaimsView, TokenErrorView};

verus! {

/// Claims that an issuer's `embed_claims` never set in an issued token.
pub const PROTECTED: [&'static str; 12] = [
    "iss",
    "sub",
    "aud",
    "exp",
    "iat",
    "nbf",
    "jti",
    "cnf",
    "dwk",
    "ps",
    "parent_agent",
    "assurance",
];

/// Whether a claim is one of those.
pub open spec fn is_protected(name: Seq<char>) -> bool {
    ||| name == "iss"@
    ||| name == "sub"@
    ||| name == "aud"@
    ||| name == "exp"@
    ||| name == "iat"@
    ||| name == "nbf"@
    ||| name == "jti"@
    ||| name == "cnf"@
    ||| name == "dwk"@
    ||| name == "ps"@
    ||| name == "parent_agent"@
    ||| name == "assurance"@
}

fn protected(name: &str) -> (r: bool)
    ensures
        r == is_protected(name@),
{
    let mut i: usize = 0;
    while i < PROTECTED.len()
        invariant
            i <= PROTECTED@.len(),
            forall|j: int| 0 <= j < i ==> #[trigger] PROTECTED@[j]@ != name@,
        decreases PROTECTED@.len() - i,
    {
        if text::same(PROTECTED[i], name) {
            return true;
        }
        i += 1;
    }
    false
}

/// The claims among `embed` that may go into a token.
pub open spec fn unprotected(embed: Map<Seq<char>, Json>) -> Map<Seq<char>, Json> {
    embed.restrict(Set::new(|k: Seq<char>| embed.dom().contains(k) && !is_protected(k)))
}

/// The claims of a token with an issuer's claims added.
pub open spec fn stamped(
    claims: Map<Seq<char>, Json>,
    embed: Option<Map<Seq<char>, Json>>,
) -> Map<Seq<char>, Json> {
    match embed {
        Some(e) => claims.union_prefer_right(unprotected(e)),
        None => claims,
    }
}

/// The claim that binds a token to a key.
pub open spec fn confirmation(k: JwkView) -> Json {
    Json::Obj(Map::<Seq<char>, Json>::empty().insert("jwk"@, jwk::jwk_json(jwk::bare(k))))
}

/// The claims that every issued token has.
pub open spec fn base_claims(
    iss: Seq<char>,
    sub: Seq<char>,
    key: JwkView,
    iat: u64,
    exp: u64,
) -> Map<Seq<char>, Json> {
    Map::<Seq<char>, Json>::empty().insert("iss"@, Json::Str(iss)).insert(
        "dwk"@,
        Json::Str("aauth-agent.json"@),
    ).insert("sub"@, Json::Str(sub)).insert("cnf"@, confirmation(key)).insert(
        "iat"@,
        Json::Int(iat as int),
    ).insert("exp"@, Json::Int(exp as int))
}

/// The claims of an agent token.
pub open spec fn agent_payload(
    iss: Seq<char>,
    sub: Seq<char>,
    jti: Seq<char>,
    key: JwkView,
    iat: u64,
    exp: u64,
    parent: Option<Seq<char>>,
    ps: Option<Seq<char>>,
    assurance: Option<Seq<char>>,
    embed: Option<Map<Seq<char>, Json>>,
) -> Json {
    let m = base_claims(iss, sub, key, iat, exp).insert("jti"@, Json::Str(jti));
    let m = jwk::with_text(m, "parent_agent"@, parent);
    let m = jwk::with_text(m, "ps"@, ps);
    let m = jwk::with_text(m, "assurance"@, assurance);
    Json::Obj(stamped(m, embed))
}

/// The claims of a subscribe token.
pub open spec fn subscribe_payload(
    iss: Seq<char>,
    sub: Seq<char>,
    resource: Seq<char>,
    eid: Seq<char>,
    key: JwkView,
    iat: u64,
    exp: u64,
    max_uses: Option<u64>,
) -> Json {
    let m = base_claims(iss, sub, key, iat, exp).insert("aud"@, Json::Str(resource)).insert(
        "eid"@,
        Json::Str(eid),
    );
    Json::Obj(records::with_value(m, "max_uses"@, records::number_value(max_uses)))
}

/// The identifier of an agent of the provider.
pub open spec fn agent_id(cfg: Config, local: Seq<char>) -> Seq<char> {
    ident::agent_text(local, ident::url_host(cfg.issuer@)->0)
}

/// A token of the provider.
pub open spec fn issued(keys: KeySet, typ: Seq<char>, payload: Json) -> Seq<char> {
    jwt::own_token(typ, Some(keys.active_kid@), None, payload, keys.active_key@)
}

fn base(iss: &str, sub: &str, key: &Jwk, iat: u64, exp: u64) -> (r: JsonValue)
    ensures
        r is Object,
        r@ == Json::Obj(base_claims(iss@, sub@, key@, iat, exp)),
{
    let own = key.public_only();
    let cnf = JsonValue::object().with("jwk", own.to_json());
    JsonValue::object().with("iss", JsonValue::string(iss)).with(
        "dwk",
        JsonValue::string("aauth-agent.json"),
    ).with("sub", JsonValue::string(sub)).with("cnf", cnf).with(
        "iat",
        JsonValue::number(iat),
    ).with("exp", JsonValue::number(exp))
}

fn with_claim(j: JsonValue, name: &str, v: Option<&str>) -> (r: JsonValue)
    requires
        j is Object,
    ensures
        r is Object,
        r@ == Json::Obj(jwk::with_text(j@->Obj_0, name@, jwt::opt_str_view(v))),
{
    match v {
        Some(s) => j.with(name, JsonValue::string(s)),
        None => j,
    }
}

fn stamp(j: JsonValue, embed: &Option<Vec<(String, JsonValue)>>) -> (r: JsonValue)
    requires
        j is Object,
    ensures
        r is Object,
        r@ == Json::Obj(stamped(j@->Obj_0, records::claims_view(*embed))),
{
    match embed {
        None => j,
        Some(claims) => {
            let ghost m = j@->Obj_0;
            let ghost all = claims@;
            let mut out = j;
            let mut i: usize = 0;
            proof {
                assert(all.take(0) =~= Seq::empty());
                assert(m.union_prefer_right(unprotected(json::members(all.take(0)))) =~= m);
            }
            while i < claims.len()
                invariant
                    i <= claims@.len(),
                    all == claims@,
                    out is Object,
                    out@ == Json::Obj(
                        m.union_prefer_right(unprotected(json::members(all.take(i as int)))),
                    ),
                decreases claims@.len() - i,
            {
                let ghost before = json::members(all.take(i as int));
                proof {
                    assert(all.take(i + 1).drop_last() =~= all.take(i as int));
                    assert(all.take(i + 1).last() == all[i as int]);
                }
                let name = claims[i].0.as_str();
                if !protected(name) {
                    out = out.with(name, claims[i].1.copy());
                    proof {
                        assert(unprotected(before.insert(name@, all[i as int].1@))
                            =~= unprotected(before).insert(name@, all[i as int].1@));
                        assert(m.union_prefer_right(
                            unprotected(before).insert(name@, all[i as int].1@),
                        ) =~= m.union_prefer_right(unprotected(before)).insert(
                            name@,
                            all[i as int].1@,
                        ));
                    }
                } else {
                    proof {
                        assert(unprotected(before.insert(name@, all[i as int].1@))
                            =~= unprotected(before));
                    }
                }
                i += 1;
            }
            proof {
                assert(all.take(all.len() as int) =~= all);
            }
            out
        },
    }
}

fn sign_token(keys: &KeySet, typ: &str, payload: &JsonValue) -> (r: String)
    ensures
        r@ == issued(*keys, typ@, payload@),
        payload@ is Obj && json::plain(payload@, 127) ==> ({
            let t = issued_view(*keys, typ@, payload@);
            &&& jwt::decoded_jwt(r@) == Some(t)
            &&& !crate::crypto::neutral_commitment(t.signature) ==> jwt::jwt_check(
                t,
                jwk::jwk_of_key(crate::crypto::ed_public(keys.active_key@)),
            ) is Ok
        }),
{
    jwt::sign(typ, Some(keys.active_kid.as_str()), None, payload, &keys.active_key)
}

/// What a token of the provider decodes to.
pub open spec fn issued_view(keys: KeySet, typ: Seq<char>, payload: Json) -> JwtView {
    let input = jwt::own_input(typ, Some(keys.active_kid@), None, payload);
    JwtView {
        header: jwt::own_header(typ, Some(keys.active_kid@), None),
        payload,
        signing_input: input,
        signature: crate::crypto::ed_signature(
            keys.active_key@,
            vstd::utf8::encode_utf8(input),
        ),
    }
}

/// A token of the provider decodes to its claims, and verifies under the
/// public half of the active key: for claims of at most 127 levels without
/// fractions, unless the first half of the signature encodes the neutral
/// element of the group.
pub open spec fn good_token(keys: KeySet, typ: Seq<char>, payload: Json, token: Seq<char>) -> bool {
    let t = issued_view(keys, typ, payload);
    json::plain(payload, 127) ==> jwt::decoded_jwt(token) == Some(t) && (
    !crate::crypto::neutral_commitment(t.signature) ==> jwt::jwt_check(
        t,
        jwk::jwk_of_key(crate::crypto::ed_public(keys.active_key@)),
    ) is Ok)
}

/// Issues an agent token for an agent, bound to a key. `jti` is drawn at random.
pub fn agent_token(
    cfg: &Config,
    keys: &KeySet,
    local: &str,
    signing_jwk: &Jwk,
    ps: Option<&str>,
    ttl_secs: u64,
    embed_claims: &Option<Vec<(String, JsonValue)>>,
    assurance: Option<&str>,
    jti: &str,
    now: u64,
) -> (r: (String, u64))
    requires
        ident::is_server_identifier(cfg.issuer@, cfg.insecure_dev_mode),
        ident::is_local(local@),
        now + ttl_secs <= u64::MAX,
    ensures
        r.1 == now + ttl_secs,
        ({
            let payload = agent_payload(
                cfg.issuer@,
                agent_id(*cfg, local@),
                jti@,
                signing_jwk@,
                now,
                r.1,
                None,
                jwt::opt_str_view(ps),
                jwt::opt_str_view(assurance),
                records::claims_view(*embed_claims),
            );
            r.0@ == issued(*keys, "aa-agent+jwt"@, payload) && good_token(
                *keys,
                "aa-agent+jwt"@,
                payload,
                r.0@,
            )
        }),
{
    let exp: u64 = now + ttl_secs;
    let domain = cfg.agent_domain();
    let sub = match AgentId::new(local, domain.as_str()) {
        Ok(id) => id.to_text(),
        Err(_) => String::new(),
    };
    let payload = base(cfg.issuer.as_str(), sub.as_str(), signing_jwk, now, exp).with(
        "jti",
        JsonValue::string(jti),
    );
    let payload = with_claim(payload, "ps", ps);
    let payload = with_claim(payload, "assurance", assurance);
    let payload = stamp(payload, embed_claims);
    let token = sign_token(keys, tokens::TYP_AGENT, &payload);
    (token, exp)
}

/// The smaller of two numbers.
pub open spec fn least(a: int, b: int) -> int {
    if a <= b {
        a
    } else {
        b
    }
}

/// Issues a token for a sub-agent of `parent`. It expires with the parent's
/// token at the latest.
pub fn subagent_token(
    cfg: &Config,
    keys: &KeySet,
    parent: &AgentId,
    discriminator: &str,
    signing_jwk: &Jwk,
    ps: Option<&str>,
    parent_exp: u64,
    embed_claims: &Option<Vec<(String, JsonValue)>>,
    assurance: Option<&str>,
    jti: &str,
    now: u64,
) -> (r: Result<(String, u64), String>)
    requires
        now + cfg.agent_token_ttl_secs <= u64::MAX,
    ensures
        ({
            let local = parent.local() + "+"@ + discriminator@;
            let fits = ident::is_discriminator(discriminator@) && local.len() <= 255;
            let exp = least(now + cfg.agent_token_ttl_secs, parent_exp as int);
            match r {
                Ok(x) => fits && exp > now && x.1 == exp && ({
                    let payload = agent_payload(
                        cfg.issuer@,
                        ident::agent_text(local, parent.domain()),
                        jti@,
                        signing_jwk@,
                        now,
                        x.1,
                        Some(parent@),
                        jwt::opt_str_view(ps),
                        jwt::opt_str_view(assurance),
                        records::claims_view(*embed_claims),
                    );
                    x.0@ == issued(*keys, "aa-agent+jwt"@, payload) && good_token(
                        *keys,
                        "aa-agent+jwt"@,
                        payload,
                        x.0@,
                    )
                }),
                Err(e) => if !fits {
                    e@ == "invalid discriminator"@
                } else {
                    exp <= now && e@
                        == "parent token too close to expiry to mint a sub-agent token"@
                },
            }
        }),
{
    proof {
        reveal_strlit("+");
    }
    let sub_id = match parent.subagent(discriminator) {
        Ok(id) => id,
        Err(_) => {
            return Err("invalid discriminator".to_owned());
        },
    };
    let policy: u64 = now + cfg.agent_token_ttl_secs;
    let exp: u64 = if policy <= parent_exp {
        policy
    } else {
        parent_exp
    };
    if exp <= now {
        return Err("parent token too close to expiry to mint a sub-agent token".to_owned());
    }
    let sub = sub_id.to_text();
    let above = parent.to_text();
    let payload = base(cfg.issuer.as_str(), sub.as_str(), signing_jwk, now, exp).with(
        "jti",
        JsonValue::string(jti),
    ).with("parent_agent", JsonValue::string(above.as_str()));
    let payload = with_claim(payload, "ps", ps);
    let payload = with_claim(payload, "assurance", assurance);
    let payload = stamp(payload, embed_claims);
    let token = sign_token(keys, tokens::TYP_AGENT, &payload);
    Ok((token, exp))
}

/// Issues a subscribe token.
pub fn subscribe_token(
    cfg: &Config,
    keys: &KeySet,
    agent: &str,
    signing_jwk: &Jwk,
    resource: &str,
    eid: &str,
    max_uses: Option<u64>,
    ttl_secs: u64,
    now: u64,
) -> (r: (String, u64))
    requires
        now + ttl_secs <= u64::MAX,
    ensures
        r.1 == now + ttl_secs,
        ({
            let payload = subscribe_payload(
                cfg.issuer@,
                agent@,
                resource@,
                eid@,
                signing_jwk@,
                now,
                r.1,
                max_uses,
            );
            r.0@ == issued(*keys, "aa-subscribe+jwt"@, payload) && good_token(
                *keys,
                "aa-subscribe+jwt"@,
                payload,
                r.0@,
            )
        }),
{
    let exp: u64 = now + ttl_secs;
    let payload = base(cfg.issuer.as_str(), agent, signing_jwk, now, exp).with(
        "aud",
        JsonValue::string(resource),
    ).with("eid", JsonValue::string(eid));
    let payload = match max_uses {
        Some(n) => payload.with("max_uses", JsonValue::number(n)),
        None => payload,
    };
    let token = sign_token(keys, tokens::TYP_SUBSCRIBE, &payload);
    (token, exp)
}

// ------------------------------------------------------------------ laws

/// Whatever an issuer embeds, the claims that the provider itself vouches for
/// stay as they are.
pub proof fn law_embedding_keeps_protected(
    claims: Map<Seq<char>, Json>,
    embed: Option<Map<Seq<char>, Json>>,
    name: Seq<char>,
)
    requires
        is_protected(name),
    ensures
        stamped(claims, embed).dom().contains(name) == claims.dom().contains(name),
        claims.dom().contains(name) ==> stamped(claims, embed)[name] == claims[name],
{
}

/// What a configuration lets an issuer copy a claim to is never one of the claims
/// that the provider itself vouches for: such a claim is stamped as it is.
pub proof fn law_embed_targets_are_free(name: Seq<char>)
    requires
        config::is_embed_target(name),
    ensures
        !is_protected(name),
{
}

proof fn lemma_claim_names()
    ensures
        "iss"@ != "sub"@,
        "iss"@ != "exp"@,
        "iss"@ != "iat"@,
        "iss"@ != "jti"@,
        "iss"@ != "cnf"@,
        "iss"@ != "dwk"@,
        "sub"@ != "exp"@,
        "sub"@ != "iat"@,
        "sub"@ != "jti"@,
        "sub"@ != "cnf"@,
        "sub"@ != "dwk"@,
        "exp"@ != "iat"@,
        "exp"@ != "jti"@,
        "exp"@ != "cnf"@,
        "exp"@ != "dwk"@,
        "iat"@ != "jti"@,
        "iat"@ != "cnf"@,
        "iat"@ != "dwk"@,
        "jti"@ != "cnf"@,
        "jti"@ != "dwk"@,
        "cnf"@ != "dwk"@,
        "iss"@.len() == 3,
        "sub"@.len() == 3,
        "exp"@.len() == 3,
        "iat"@.len() == 3,
        "jti"@.len() == 3,
        "cnf"@.len() == 3,
        "dwk"@.len() == 3,
        "ps"@.len() == 2,
        "parent_agent"@.len() == 12,
        "assurance"@.len() == 9,
{
    reveal_strlit("iss");
    reveal_strlit("sub");
    reveal_strlit("exp");
    reveal_strlit("iat");
    reveal_strlit("jti");
    reveal_strlit("cnf");
    reveal_strlit("dwk");
    reveal_strlit("ps");
    reveal_strlit("parent_agent");
    reveal_strlit("assurance");
    assert("iss"@[1] == 's' && "iss"@[0] == 'i');
    assert("sub"@[1] == 'u' && "sub"@[0] == 's');
    assert("exp"@[1] == 'x' && "exp"@[0] == 'e');
    assert("iat"@[1] == 'a' && "iat"@[0] == 'i');
    assert("jti"@[1] == 't' && "jti"@[0] == 'j');
    assert("cnf"@[1] == 'n' && "cnf"@[0] == 'c');
    assert("dwk"@[1] == 'w' && "dwk"@[0] == 'd');
}

/// An agent token that the provider issued is accepted by its own rules until
/// it expires, and says what it was issued for: the agent, the key, the parent
/// and the Person Server.
pub proof fn law_issued_token_is_accepted(
    keys: KeySet,
    iss: Seq<char>,
    sub: Seq<char>,
    jti: Seq<char>,
    key: JwkView,
    iat: u64,
    exp: u64,
    parent: Option<Seq<char>>,
    ps: Option<Seq<char>>,
    assurance: Option<Seq<char>>,
    embed: Option<Map<Seq<char>, Json>>,
    later: u64,
    insecure: bool,
)
    requires
        ident::is_server_identifier(iss, insecure),
        ident::agent_parts(sub) is Some,
        parent matches Some(p) ==> ident::agent_parts(p) is Some,
        ps matches Some(p) ==> ident::is_server_identifier(p, insecure),
        iat <= later < exp,
    ensures
        tokens::agent_claims(
            issued_view(
                keys,
                "aa-agent+jwt"@,
                agent_payload(iss, sub, jti, key, iat, exp, parent, ps, assurance, embed),
            ),
            later,
            insecure,
        ) == Ok::<AgentClaimsView, TokenErrorView>(
            AgentClaimsView {
                iss,
                sub,
                cnf_jwk: jwk::bare(key),
                iat,
                exp,
                ps,
                parent_agent: parent,
            },
        ),
{
    lemma_claim_names();
    jwk::law_jwk_round_trip(jwk::bare(key));
    let m = base_claims(iss, sub, key, iat, exp).insert("jti"@, Json::Str(jti));
    let m1 = jwk::with_text(m, "parent_agent"@, parent);
    let m2 = jwk::with_text(m1, "ps"@, ps);
    let m3 = jwk::with_text(m2, "assurance"@, assurance);
    let p = agent_payload(iss, sub, jti, key, iat, exp, parent, ps, assurance, embed);
    assert(p == Json::Obj(stamped(m3, embed)));
    law_embedding_keeps_protected(m3, embed, "iss"@);
    law_embedding_keeps_protected(m3, embed, "sub"@);
    law_embedding_keeps_protected(m3, embed, "dwk"@);
    law_embedding_keeps_protected(m3, embed, "cnf"@);
    law_embedding_keeps_protected(m3, embed, "iat"@);
    law_embedding_keeps_protected(m3, embed, "exp"@);
    law_embedding_keeps_protected(m3, embed, "ps"@);
    law_embedding_keeps_protected(m3, embed, "parent_agent"@);
    assert(json::str_member(p, "iss"@) == Some(iss));
    assert(json::str_member(p, "sub"@) == Some(sub));
    assert(json::u64_member(p, "iat"@) == Some(iat));
    assert(json::u64_member(p, "exp"@) == Some(exp));
    assert(jwk::optional_text(p, "ps"@) == Some(ps));
    assert(jwk::optional_text(p, "parent_agent"@) == Some(parent));
    assert(json::json_get(p, "cnf"@) == Some(confirmation(key)));
    assert(tokens::confirmed_key(p) == Some(jwk::bare(key)));
}

/// A sub-agent's token never outlives the parent's.
pub proof fn law_subagent_expires_with_parent(now: u64, ttl: u64, parent_exp: u64)
    ensures
        least(now + ttl, parent_exp as int) <= parent_exp,
        least(now + ttl, parent_exp as int) <= now + ttl,
{
}

/// What an agent token says, whatever an issuer embeds: who issued it and where
/// its keys are found, whom it is for, its key, its times and identifier, and the
/// parent, the Person Server and the assurance where there are such.
pub proof fn law_agent_token_says(
    iss: Seq<char>,
    sub: Seq<char>,
    jti: Seq<char>,
    key: JwkView,
    iat: u64,
    exp: u64,
    parent: Option<Seq<char>>,
    ps: Option<Seq<char>>,
    assurance: Option<Seq<char>>,
    embed: Option<Map<Seq<char>, Json>>,
)
    ensures
        ({
            let p = agent_payload(iss, sub, jti, key, iat, exp, parent, ps, assurance, embed);
            &&& json::json_get(p, "iss"@) == Some(Json::Str(iss))
            &&& json::json_get(p, "dwk"@) == Some(Json::Str("aauth-agent.json"@))
            &&& json::json_get(p, "sub"@) == Some(Json::Str(sub))
            &&& json::json_get(p, "iat"@) == Some(Json::Int(iat as int))
            &&& json::json_get(p, "exp"@) == Some(Json::Int(exp as int))
            &&& json::json_get(p, "jti"@) == Some(Json::Str(jti))
            &&& json::json_get(p, "cnf"@) == Some(
                Json::Obj(map!["jwk"@ => jwk::jwk_json(jwk::bare(key))]),
            )
            &&& json::str_member(p, "parent_agent"@) == parent
            &&& json::str_member(p, "ps"@) == ps
            &&& json::str_member(p, "assurance"@) == assurance
            &&& json::json_get(p, "aud"@) is None
            &&& json::json_get(p, "nbf"@) is None
        }),
{
    reveal_strlit("iss");
    reveal_strlit("sub");
    reveal_strlit("aud");
    reveal_strlit("exp");
    reveal_strlit("iat");
    reveal_strlit("nbf");
    reveal_strlit("jti");
    reveal_strlit("cnf");
    reveal_strlit("dwk");
    reveal_strlit("ps");
    reveal_strlit("parent_agent");
    reveal_strlit("assurance");
    assert("iss"@.len() == 3 && "sub"@.len() == 3 && "aud"@.len() == 3 && "exp"@.len() == 3 && "iat"@.len() == 3 && "nbf"@.len() == 3 && "jti"@.len() == 3 && "cnf"@.len() == 3 && "dwk"@.len() == 3 && "ps"@.len() == 2 && "parent_agent"@.len() == 12 && "assurance"@.len() == 9);
    assert("iss"@[0] == 'i' && "iss"@[1] == 's');
    assert("sub"@[0] == 's');
    assert("aud"@[0] == 'a');
    assert("exp"@[0] == 'e');
    assert("iat"@[0] == 'i' && "iat"@[1] == 'a');
    assert("nbf"@[0] == 'n');
    assert("jti"@[0] == 'j');
    assert("cnf"@[0] == 'c');
    assert("dwk"@[0] == 'd');
    let m = base_claims(iss, sub, key, iat, exp).insert("jti"@, Json::Str(jti));
    let m = jwk::with_text(m, "parent_agent"@, parent);
    let m = jwk::with_text(m, "ps"@, ps);
    let m = jwk::with_text(m, "assurance"@, assurance);
    law_embedding_keeps_protected(m, embed, "iss"@);
    law_embedding_keeps_protected(m, embed, "dwk"@);
    law_embedding_keeps_protected(m, embed, "sub"@);
    law_embedding_keeps_protected(m, embed, "iat"@);
    law_embedding_keeps_protected(m, embed, "exp"@);
    law_embedding_keeps_protected(m, embed, "jti"@);
    law_embedding_keeps_protected(m, embed, "cnf"@);
    law_embedding_keeps_protected(m, embed, "parent_agent"@);
    law_embedding_keeps_protected(m, embed, "ps"@);
    law_embedding_keeps_protected(m, embed, "assurance"@);
    law_embedding_keeps_protected(m, embed, "aud"@);
    law_embedding_keeps_protected(m, embed, "nbf"@);
}

/// What an issuer embeds under a name of its own stands in the token as it is.
pub proof fn law_embedded_claim_stands(
    claims: Map<Seq<char>, Json>,
    embed: Map<Seq<char>, Json>,
    name: Seq<char>,
)
    requires
        embed.dom().contains(name),
        name != "iss"@ && name != "sub"@ && name != "aud"@ && name != "exp"@ && name != "iat"@,
        name != "nbf"@ && name != "jti"@ && name != "cnf"@ && name != "dwk"@ && name != "ps"@,
        name != "parent_agent"@ && name != "assurance"@,
    ensures
        json::json_get(Json::Obj(stamped(claims, Some(embed))), name) == Some(embed[name]),
        stamped(claims, None) == claims,
{
}

/// A claim that neither the provider nor an issuer made stands in no token.
pub proof fn law_no_other_claims(
    claims: Map<Seq<char>, Json>,
    embed: Map<Seq<char>, Json>,
    name: Seq<char>,
)
    requires
        !embed.dom().contains(name),
        !claims.dom().contains(name),
    ensures
        json::json_get(Json::Obj(stamped(claims, Some(embed))), name) is None,
{
}

/// What a subscribe token says: the issuer, the agent, its key, the resource it
/// is for, the subscription, its times, and how many uses are allowed.
pub proof fn law_subscribe_token_says(
    iss: Seq<char>,
    sub: Seq<char>,
    resource: Seq<char>,
    eid: Seq<char>,
    key: JwkView,
    iat: u64,
    exp: u64,
    max_uses: Option<u64>,
)
    ensures
        ({
            let p = subscribe_payload(iss, sub, resource, eid, key, iat, exp, max_uses);
            &&& json::json_get(p, "iss"@) == Some(Json::Str(iss))
            &&& json::json_get(p, "dwk"@) == Some(Json::Str("aauth-agent.json"@))
            &&& json::json_get(p, "sub"@) == Some(Json::Str(sub))
            &&& json::json_get(p, "aud"@) == Some(Json::Str(resource))
            &&& json::json_get(p, "eid"@) == Some(Json::Str(eid))
            &&& json::json_get(p, "iat"@) == Some(Json::Int(iat as int))
            &&& json::json_get(p, "exp"@) == Some(Json::Int(exp as int))
            &&& json::json_get(p, "cnf"@) == Some(
                Json::Obj(map!["jwk"@ => jwk::jwk_json(jwk::bare(key))]),
            )
            &&& json::u64_member(p, "max_uses"@) == max_uses
            &&& max_uses is None ==> json::json_get(p, "max_uses"@) is None
        }),
{
    reveal_strlit("iss");
    reveal_strlit("sub");
    reveal_strlit("aud");
    reveal_strlit("exp");
    reveal_strlit("iat");
    reveal_strlit("eid");
    reveal_strlit("cnf");
    reveal_strlit("dwk");
    reveal_strlit("max_uses");
    assert("iss"@.len() == 3 && "sub"@.len() == 3 && "aud"@.len() == 3 && "exp"@.len() == 3 && "iat"@.len() == 3 && "eid"@.len() == 3 && "cnf"@.len() == 3 && "dwk"@.len() == 3 && "max_uses"@.len() == 8);
    assert("iss"@[0] == 'i' && "iss"@[1] == 's');
    assert("sub"@[0] == 's');
    assert("aud"@[0] == 'a');
    assert("exp"@[0] == 'e' && "exp"@[1] == 'x');
    assert("iat"@[0] == 'i' && "iat"@[1] == 'a');
    assert("eid"@[0] == 'e' && "eid"@[1] == 'i');
    assert("cnf"@[0] == 'c');
    assert("dwk"@[0] == 'd');
}

/// The name of an agent: its local part at the host of the provider.
pub proof fn law_agent_of_provider(cfg: Config, host: Seq<char>, local: Seq<char>)
    requires
        cfg.issuer@ == "https://"@ + host,
        ident::is_host(host),
    ensures
        agent_id(cfg, local) == "aauth:"@ + local + "@"@ + host,
{
    ident::law_server_is_https(cfg.issuer@, host);
    ident::law_server_identifier_has_host(cfg.issuer@);
    reveal_strlit("https://");
    assert(("https://"@ + host).skip(8) =~= host);
}

/// A token of the provider is signed with its active key, and its header names
/// that key and the token's type.
pub proof fn law_token_of_provider(keys: KeySet, typ: Seq<char>, payload: Json)
    ensures
        issued_view(keys, typ, payload).payload == payload,
        issued_view(keys, typ, payload).header.typ == Some(typ),
        issued_view(keys, typ, payload).header.kid == Some(keys.active_kid@),
        issued_view(keys, typ, payload).header.alg == "Ed25519"@,
        issued_view(keys, typ, payload).signature == crate::crypto::ed_signature(
            keys.active_key@,
            vstd::utf8::encode_utf8(issued_view(keys, typ, payload).signing_input),
        ),
{
}

} // verus!
