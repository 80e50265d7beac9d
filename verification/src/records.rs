//! Persistent records and the keys they are stored under.
//!
//! - `agent:{local}`: an [`AgentRecord`]
//! - `jkt:{thumbprint}`: the local part of the agent with that durable key
//! - `enrolltok:{token}`: an [`EnrollTokenRecord`], consumed by its use
//! - `allowkey:{thumbprint}`: an [`AllowedKeyRecord`], consumed by its use
//! - `ajti:{jti}` and `jti:{jti}`: used assertions and naming JWTs
//! - `sub:{eid}`: a [`SubscriptionRecord`]; `subuses:{eid}`: its use count
//! - `inbox:{local}`: a list of [`InboxItem`]
//! - `agent_jti:{local}:{jti}`: an outstanding agent token

use vstd::prelude::*;

use crate::json;
use crate::json::{Json, JsonValue};
use crate::jwk;
use crate::text;

verus! {

pub const STATUS_ACTIVE: &'static str = "active";

pub const STATUS_REVOKED: &'static str = "revoked";

/// An enrolled agent.
pub struct AgentRecord {
    pub local: String,
    pub durable_jkt: String,
    pub ps: Option<String>,
    pub platform: Option<String>,
    pub label: Option<String>,
    pub created_at: u64,
    pub status: String,
    /// When the latest agent token was issued.
    pub last_issued_at: u64,
    /// How many agent tokens were issued.
    pub tokens_issued: u64,
    /// How the enrollment was authorized.
    pub method: String,
    /// The name of the trusted issuer, for federated enrollments.
    pub issuer: Option<String>,
    /// The subject of the assertion, for federated enrollments.
    pub subject: Option<String>,
    /// Claims that go into every agent token.
    pub embed_claims: Option<Vec<(String, JsonValue)>>,
    /// The assurance tier that goes into every agent token.
    pub assurance: Option<String>,
}

/// How records without a method were authorized.
pub fn default_method() -> (r: String)
    ensures
        r@ == "token"@,
{
    "token".to_owned()
}

/// A minted enrollment token.
pub struct EnrollTokenRecord {
    pub ps: Option<String>,
    pub label: Option<String>,
    pub created_at: u64,
}

/// A durable key that may enroll.
pub struct AllowedKeyRecord {
    pub jkt: String,
    pub ps: Option<String>,
    pub label: Option<String>,
    pub created_at: u64,
}

/// A resource's permission to deliver events to an agent.
pub struct SubscriptionRecord {
    pub eid: String,
    pub agent_local: String,
    /// The whole agent identifier.
    pub agent_id: String,
    /// The resource.
    pub resource: String,
    pub max_uses: Option<u64>,
    pub created_at: u64,
}

/// A delivered event.
pub struct InboxItem {
    pub event_token: String,
    pub payload: Option<JsonValue>,
    pub received_at: u64,
    pub iss: String,
    pub eid: String,
}

pub fn agent_key(local: &str) -> (r: String)
    ensures
        r@ == "agent:"@ + local@,
{
    text::join2("agent:", local)
}

pub fn jkt_key(jkt: &str) -> (r: String)
    ensures
        r@ == "jkt:"@ + jkt@,
{
    text::join2("jkt:", jkt)
}

pub fn enroll_token_key(token: &str) -> (r: String)
    ensures
        r@ == "enrolltok:"@ + token@,
{
    text::join2("enrolltok:", token)
}

pub fn allowed_key_key(jkt: &str) -> (r: String)
    ensures
        r@ == "allowkey:"@ + jkt@,
{
    text::join2("allowkey:", jkt)
}

pub fn assertion_jti_key(jti: &str) -> (r: String)
    ensures
        r@ == "ajti:"@ + jti@,
{
    text::join2("ajti:", jti)
}

pub fn jti_key(jti: &str) -> (r: String)
    ensures
        r@ == "jti:"@ + jti@,
{
    text::join2("jti:", jti)
}

pub fn subscription_key(eid: &str) -> (r: String)
    ensures
        r@ == "sub:"@ + eid@,
{
    text::join2("sub:", eid)
}

pub fn sub_uses_key(eid: &str) -> (r: String)
    ensures
        r@ == "subuses:"@ + eid@,
{
    text::join2("subuses:", eid)
}

pub fn inbox_key(local: &str) -> (r: String)
    ensures
        r@ == "inbox:"@ + local@,
{
    text::join2("inbox:", local)
}

/// The families of keys.
pub enum Family {
    Agent,
    Jkt,
    EnrollToken,
    AllowedKey,
    AssertionJti,
    Jti,
    Subscription,
    SubUses,
    Inbox,
    IssuedJti,
}

/// What the keys of a family begin with.
pub open spec fn family_prefix(f: Family) -> Seq<char> {
    match f {
        Family::Agent => "agent:"@,
        Family::Jkt => "jkt:"@,
        Family::EnrollToken => "enrolltok:"@,
        Family::AllowedKey => "allowkey:"@,
        Family::AssertionJti => "ajti:"@,
        Family::Jti => "jti:"@,
        Family::Subscription => "sub:"@,
        Family::SubUses => "subuses:"@,
        Family::Inbox => "inbox:"@,
        Family::IssuedJti => "agent_jti:"@,
    }
}

proof fn lemma_prefix_shape(f: Family)
    ensures
        text::position(family_prefix(f), ':') == Some((family_prefix(f).len() - 1) as nat),
        family_prefix(f).len() > 0,
{
    reveal_strlit("agent:");
    reveal_strlit("jkt:");
    reveal_strlit("enrolltok:");
    reveal_strlit("allowkey:");
    reveal_strlit("ajti:");
    reveal_strlit("jti:");
    reveal_strlit("sub:");
    reveal_strlit("subuses:");
    reveal_strlit("inbox:");
    reveal_strlit("agent_jti:");
    let p = family_prefix(f);
    text::lemma_position_is(p, ':', p.len() - 1);
}

proof fn lemma_prefixes_differ(f: Family, g: Family)
    requires
        f != g,
    ensures
        family_prefix(f) != family_prefix(g),
{
    reveal_strlit("agent:");
    reveal_strlit("jkt:");
    reveal_strlit("enrolltok:");
    reveal_strlit("allowkey:");
    reveal_strlit("ajti:");
    reveal_strlit("jti:");
    reveal_strlit("sub:");
    reveal_strlit("subuses:");
    reveal_strlit("inbox:");
    reveal_strlit("agent_jti:");
    assert("jkt:"@[1] == 'k' && "jti:"@[1] == 't' && "sub:"@[1] == 'u');
    assert("agent:"@[0] == 'a' && "inbox:"@[0] == 'i');
    assert("enrolltok:"@[0] == 'e' && "agent_jti:"@[0] == 'a');
    let p = family_prefix(f);
    let q = family_prefix(g);
    assert(p.len() != q.len() || p[0] != q[0] || p[1] != q[1]);
}

/// A key tells its family and what it was made from: no two records of any
/// kind share one.
pub proof fn law_keys_do_not_collide(f: Family, a: Seq<char>, g: Family, b: Seq<char>)
    requires
        family_prefix(f) + a == family_prefix(g) + b,
    ensures
        f == g,
        a == b,
{
    let p = family_prefix(f);
    let q = family_prefix(g);
    lemma_prefix_shape(f);
    lemma_prefix_shape(g);
    text::lemma_position(p, ':');
    text::lemma_position(q, ':');
    let s = p + a;
    let t = q + b;
    assert(s[p.len() - 1] == ':');
    assert(t[q.len() - 1] == ':');
    if p.len() < q.len() {
        assert(t[p.len() - 1] == q[p.len() - 1]);
    } else if q.len() < p.len() {
        assert(s[q.len() - 1] == p[q.len() - 1]);
    }
    assert(p =~= s.take(p.len() as int));
    assert(q =~= t.take(q.len() as int));
    if f != g {
        lemma_prefixes_differ(f, g);
    }
    assert(a =~= s.skip(p.len() as int));
    assert(b =~= t.skip(q.len() as int));
}

/// Listing one family by its prefix shows no key of another.
pub proof fn law_listing_one_family(f: Family, g: Family, b: Seq<char>)
    requires
        family_prefix(f).is_prefix_of(family_prefix(g) + b),
    ensures
        f == g,
{
    let p = family_prefix(f);
    let q = family_prefix(g);
    let t = q + b;
    lemma_prefix_shape(f);
    lemma_prefix_shape(g);
    text::lemma_position(p, ':');
    text::lemma_position(q, ':');
    assert(t.subrange(0, p.len() as int) == p);
    assert(t[p.len() - 1] == t.subrange(0, p.len() as int)[p.len() - 1]);
    if p.len() < q.len() {
        assert(t[p.len() - 1] == q[p.len() - 1]);
    } else if q.len() < p.len() {
        assert(t.subrange(0, p.len() as int)[q.len() - 1] == q[q.len() - 1]);
    }
    assert(p =~= q) by {
        assert forall|i: int| 0 <= i < p.len() implies p[i] == q[i] by {
            assert(t.subrange(0, p.len() as int)[i] == q[i]);
        }
    }
    if f != g {
        lemma_prefixes_differ(f, g);
    }
}

// ------------------------------------------------------- stored records

/// An unsigned number that may be absent: the outer option says whether it
/// reads at all.
pub open spec fn number_or(j: Json, name: Seq<char>, default: u64) -> Option<u64> {
    match json::json_get(j, name) {
        None => Some(default),
        Some(v) => json::json_u64(v),
    }
}

/// An unsigned number that may be absent or null.
pub open spec fn optional_number(j: Json, name: Seq<char>) -> Option<Option<u64>> {
    match json::json_get(j, name) {
        None => Some(None),
        Some(Json::Null) => Some(None),
        Some(v) => match json::json_u64(v) {
            Some(n) => Some(Some(n)),
            None => None,
        },
    }
}

/// A text that may be absent.
pub open spec fn text_or(j: Json, name: Seq<char>, default: Seq<char>) -> Option<Seq<char>> {
    match json::json_get(j, name) {
        None => Some(default),
        Some(v) => json::json_str(v),
    }
}

/// An object that may be absent or null.
pub open spec fn optional_object(j: Json, name: Seq<char>) -> Option<
    Option<Map<Seq<char>, Json>>,
> {
    match json::json_get(j, name) {
        None => Some(None),
        Some(Json::Null) => Some(None),
        Some(Json::Obj(m)) => Some(Some(m)),
        Some(_) => None,
    }
}

/// A value that may be absent or null.
pub open spec fn optional_value(j: Json, name: Seq<char>) -> Option<Json> {
    match json::json_get(j, name) {
        None => None,
        Some(Json::Null) => None,
        Some(v) => Some(v),
    }
}

/// `m` with one member more, where there is one.
pub open spec fn with_value(
    m: Map<Seq<char>, Json>,
    name: Seq<char>,
    v: Option<Json>,
) -> Map<Seq<char>, Json> {
    match v {
        Some(x) => m.insert(name, x),
        None => m,
    }
}

/// A number as a JSON value, where there is one.
pub open spec fn number_value(n: Option<u64>) -> Option<Json> {
    match n {
        Some(x) => Some(Json::Int(x as int)),
        None => None,
    }
}

/// What claims hold, where there are some.
pub open spec fn claims_view(c: Option<Vec<(String, JsonValue)>>) -> Option<Map<Seq<char>, Json>> {
    match c {
        Some(v) => Some(json::members(v@)),
        None => None,
    }
}

/// What a value holds, where there is one.
pub open spec fn value_view(v: Option<JsonValue>) -> Option<Json> {
    match v {
        Some(x) => Some(x@),
        None => None,
    }
}

/// What an [`AgentRecord`] holds.
pub struct AgentView {
    pub local: Seq<char>,
    pub durable_jkt: Seq<char>,
    pub ps: Option<Seq<char>>,
    pub platform: Option<Seq<char>>,
    pub label: Option<Seq<char>>,
    pub created_at: u64,
    pub status: Seq<char>,
    pub last_issued_at: u64,
    pub tokens_issued: u64,
    pub method: Seq<char>,
    pub issuer: Option<Seq<char>>,
    pub subject: Option<Seq<char>>,
    pub embed_claims: Option<Map<Seq<char>, Json>>,
    pub assurance: Option<Seq<char>>,
}

impl AgentRecord {
    /// What the record holds.
    pub open spec fn view(&self) -> AgentView {
        AgentView {
            local: self.local@,
            durable_jkt: self.durable_jkt@,
            ps: text::opt_view(self.ps),
            platform: text::opt_view(self.platform),
            label: text::opt_view(self.label),
            created_at: self.created_at,
            status: self.status@,
            last_issued_at: self.last_issued_at,
            tokens_issued: self.tokens_issued,
            method: self.method@,
            issuer: text::opt_view(self.issuer),
            subject: text::opt_view(self.subject),
            embed_claims: claims_view(self.embed_claims),
            assurance: text::opt_view(self.assurance),
        }
    }
}

/// The JSON object that stands for an agent.
pub open spec fn agent_json(r: AgentView) -> Json {
    let m = Map::<Seq<char>, Json>::empty().insert("local"@, Json::Str(r.local)).insert(
        "durable_jkt"@,
        Json::Str(r.durable_jkt),
    );
    let m = jwk::with_text(m, "ps"@, r.ps);
    let m = jwk::with_text(m, "platform"@, r.platform);
    let m = jwk::with_text(m, "label"@, r.label);
    let m = m.insert("created_at"@, Json::Int(r.created_at as int)).insert(
        "status"@,
        Json::Str(r.status),
    ).insert("last_issued_at"@, Json::Int(r.last_issued_at as int)).insert(
        "tokens_issued"@,
        Json::Int(r.tokens_issued as int),
    ).insert("method"@, Json::Str(r.method));
    let m = jwk::with_text(m, "issuer"@, r.issuer);
    let m = jwk::with_text(m, "subject"@, r.subject);
    let m = with_value(
        m,
        "embed_claims"@,
        match r.embed_claims {
            Some(c) => Some(Json::Obj(c)),
            None => None,
        },
    );
    Json::Obj(jwk::with_text(m, "assurance"@, r.assurance))
}

/// The agent that a JSON object stands for.
pub open spec fn agent_from(j: Json) -> Option<AgentView> {
    match (
        (
            json::str_member(j, "local"@),
            json::str_member(j, "durable_jkt"@),
            jwk::optional_text(j, "ps"@),
            jwk::optional_text(j, "platform"@),
            jwk::optional_text(j, "label"@),
            json::u64_member(j, "created_at"@),
            json::str_member(j, "status"@),
        ),
        (
            number_or(j, "last_issued_at"@, 0),
            number_or(j, "tokens_issued"@, 0),
            text_or(j, "method"@, "token"@),
            jwk::optional_text(j, "issuer"@),
            jwk::optional_text(j, "subject"@),
            optional_object(j, "embed_claims"@),
            jwk::optional_text(j, "assurance"@),
        ),
    ) {
        (
            (
                Some(local),
                Some(durable_jkt),
                Some(ps),
                Some(platform),
                Some(label),
                Some(created_at),
                Some(status),
            ),
            (
                Some(last_issued_at),
                Some(tokens_issued),
                Some(method),
                Some(issuer),
                Some(subject),
                Some(embed_claims),
                Some(assurance),
            ),
        ) => Some(
            AgentView {
                local,
                durable_jkt,
                ps,
                platform,
                label,
                created_at,
                status,
                last_issued_at,
                tokens_issued,
                method,
                issuer,
                subject,
                embed_claims,
                assurance,
            },
        ),
        _ => None,
    }
}

/// Reading the JSON object that stands for an agent gives the agent back.
pub proof fn law_agent_record_round_trip(r: AgentView)
    ensures
        agent_from(agent_json(r)) == Some(r),
{
    reveal_strlit("local");
    reveal_strlit("durable_jkt");
    reveal_strlit("ps");
    reveal_strlit("platform");
    reveal_strlit("label");
    reveal_strlit("created_at");
    reveal_strlit("status");
    reveal_strlit("last_issued_at");
    reveal_strlit("tokens_issued");
    reveal_strlit("method");
    reveal_strlit("issuer");
    reveal_strlit("subject");
    reveal_strlit("embed_claims");
    reveal_strlit("assurance");
    assert("local"@.len() == 5 && "local"@[1] == 'o');
    assert("label"@.len() == 5 && "label"@[1] == 'a');
    assert("durable_jkt"@.len() == 11);
    assert("ps"@.len() == 2);
    assert("platform"@.len() == 8);
    assert("created_at"@.len() == 10);
    assert("status"@.len() == 6 && "status"@[0] == 's');
    assert("method"@.len() == 6 && "method"@[0] == 'm');
    assert("issuer"@.len() == 6 && "issuer"@[0] == 'i');
    assert("last_issued_at"@.len() == 14);
    assert("tokens_issued"@.len() == 13);
    assert("subject"@.len() == 7);
    assert("embed_claims"@.len() == 12);
    assert("assurance"@.len() == 9);
}

/// `j` with a text more, where there is one.
pub fn with_optional(j: JsonValue, name: &str, v: &Option<String>) -> (r: JsonValue)
    requires
        j is Object,
    ensures
        r is Object,
        r@ == Json::Obj(jwk::with_text(j@->Obj_0, name@, text::opt_view(*v))),
{
    match v {
        Some(s) => j.with(name, JsonValue::string(s.as_str())),
        None => j,
    }
}

/// Claims of the same names and values.
pub fn copy_members(c: &Vec<(String, JsonValue)>) -> (r: Vec<(String, JsonValue)>)
    ensures
        json::members(r@) == json::members(c@),
{
    let mut out: Vec<(String, JsonValue)> = Vec::new();
    let mut i: usize = 0;
    proof {
        assert(c@.take(0) =~= Seq::empty());
    }
    while i < c.len()
        invariant
            i <= c@.len(),
            json::members(out@) == json::members(c@.take(i as int)),
        decreases c@.len() - i,
    {
        let ghost was = out@;
        out.push((c[i].0.clone(), c[i].1.copy()));
        proof {
            assert(out@.drop_last() =~= was);
            assert(c@.take(i + 1).drop_last() =~= c@.take(i as int));
            assert(c@.take(i + 1).last() == c@[i as int]);
        }
        i += 1;
    }
    proof {
        assert(c@.take(c@.len() as int) =~= c@);
    }
    out
}

fn read_number_or(v: &JsonValue, name: &str, default: u64) -> (r: Option<u64>)
    ensures
        r == number_or(v@, name@, default),
{
    match v.get(name) {
        None => Some(default),
        Some(x) => x.as_u64(),
    }
}

fn read_optional_number(v: &JsonValue, name: &str) -> (r: Option<Option<u64>>)
    ensures
        r == optional_number(v@, name@),
{
    match v.get(name) {
        None => Some(None),
        Some(JsonValue::Null) => Some(None),
        Some(x) => match x.as_u64() {
            Some(n) => Some(Some(n)),
            None => None,
        },
    }
}

fn read_text_or(v: &JsonValue, name: &str, default: &str) -> (r: Option<String>)
    ensures
        text::opt_view(r) == text_or(v@, name@, default@),
{
    match v.get(name) {
        None => Some(default.to_owned()),
        Some(x) => match x.as_str() {
            Some(s) => Some(s.clone()),
            None => None,
        },
    }
}

fn read_optional_object(v: &JsonValue, name: &str) -> (r: Option<
    Option<Vec<(String, JsonValue)>>,
>)
    ensures
        match r {
            Some(o) => optional_object(v@, name@) == Some(claims_view(o)),
            None => optional_object(v@, name@) is None,
        },
{
    match v.get(name) {
        None => Some(None),
        Some(JsonValue::Null) => Some(None),
        Some(JsonValue::Object(m)) => Some(Some(copy_members(m))),
        Some(_) => None,
    }
}

impl AgentRecord {
    /// The JSON object that stands for the agent.
    pub fn to_json(&self) -> (r: JsonValue)
        ensures
            r is Object,
            r@ == agent_json(self@),
    {
        let out = JsonValue::object().with("local", JsonValue::string(self.local.as_str())).with(
            "durable_jkt",
            JsonValue::string(self.durable_jkt.as_str()),
        );
        let out = with_optional(out, "ps", &self.ps);
        let out = with_optional(out, "platform", &self.platform);
        let out = with_optional(out, "label", &self.label);
        let out = out.with("created_at", JsonValue::number(self.created_at)).with(
            "status",
            JsonValue::string(self.status.as_str()),
        ).with("last_issued_at", JsonValue::number(self.last_issued_at)).with(
            "tokens_issued",
            JsonValue::number(self.tokens_issued),
        ).with("method", JsonValue::string(self.method.as_str()));
        let out = with_optional(out, "issuer", &self.issuer);
        let out = with_optional(out, "subject", &self.subject);
        let out = match &self.embed_claims {
            Some(c) => out.with("embed_claims", JsonValue::Object(copy_members(c))),
            None => out,
        };
        with_optional(out, "assurance", &self.assurance)
    }

    /// Reads an agent.
    pub fn from_json(v: &JsonValue) -> (r: Option<AgentRecord>)
        ensures
            match r {
                Some(x) => agent_from(v@) == Some(x@),
                None => agent_from(v@) is None,
            },
    {
        let local = match v.str_of("local") {
            Some(s) => s.clone(),
            None => {
                return None;
            },
        };
        let durable_jkt = match v.str_of("durable_jkt") {
            Some(s) => s.clone(),
            None => {
                return None;
            },
        };
        let ps = match jwk::read_optional_text(v, "ps") {
            Some(s) => s,
            None => {
                return None;
            },
        };
        let platform = match jwk::read_optional_text(v, "platform") {
            Some(s) => s,
            None => {
                return None;
            },
        };
        let label = match jwk::read_optional_text(v, "label") {
            Some(s) => s,
            None => {
                return None;
            },
        };
        let created_at: u64 = match v.u64_of("created_at") {
            Some(n) => n,
            None => {
                return None;
            },
        };
        let status = match v.str_of("status") {
            Some(s) => s.clone(),
            None => {
                return None;
            },
        };
        let last_issued_at: u64 = match read_number_or(v, "last_issued_at", 0) {
            Some(n) => n,
            None => {
                return None;
            },
        };
        let tokens_issued: u64 = match read_number_or(v, "tokens_issued", 0) {
            Some(n) => n,
            None => {
                return None;
            },
        };
        let method = match read_text_or(v, "method", default_method().as_str()) {
            Some(s) => s,
            None => {
                return None;
            },
        };
        let issuer = match jwk::read_optional_text(v, "issuer") {
            Some(s) => s,
            None => {
                return None;
            },
        };
        let subject = match jwk::read_optional_text(v, "subject") {
            Some(s) => s,
            None => {
                return None;
            },
        };
        let embed_claims = match read_optional_object(v, "embed_claims") {
            Some(c) => c,
            None => {
                return None;
            },
        };
        let assurance = match jwk::read_optional_text(v, "assurance") {
            Some(s) => s,
            None => {
                return None;
            },
        };
        Some(
            AgentRecord {
                local,
                durable_jkt,
                ps,
                platform,
                label,
                created_at,
                status,
                last_issued_at,
                tokens_issued,
                method,
                issuer,
                subject,
                embed_claims,
                assurance,
            },
        )
    }
}

/// What an [`EnrollTokenRecord`] holds.
pub struct EnrollTokenView {
    pub ps: Option<Seq<char>>,
    pub label: Option<Seq<char>>,
    pub created_at: u64,
}

/// The JSON object that stands for an enrollment token.
pub open spec fn enroll_token_json(r: EnrollTokenView) -> Json {
    let m = jwk::with_text(Map::empty(), "ps"@, r.ps);
    let m = jwk::with_text(m, "label"@, r.label);
    Json::Obj(m.insert("created_at"@, Json::Int(r.created_at as int)))
}

/// The enrollment token that a JSON object stands for.
pub open spec fn enroll_token_from(j: Json) -> Option<EnrollTokenView> {
    match (
        jwk::optional_text(j, "ps"@),
        jwk::optional_text(j, "label"@),
        json::u64_member(j, "created_at"@),
    ) {
        (Some(ps), Some(label), Some(created_at)) => Some(
            EnrollTokenView { ps, label, created_at },
        ),
        _ => None,
    }
}

/// Reading the JSON object that stands for an enrollment token gives it back.
pub proof fn law_enroll_token_round_trip(r: EnrollTokenView)
    ensures
        enroll_token_from(enroll_token_json(r)) == Some(r),
        json::plain(enroll_token_json(r), 1),
{
    reveal_strlit("ps");
    reveal_strlit("label");
    reveal_strlit("created_at");
    assert("ps"@.len() == 2);
    assert("label"@.len() == 5);
    assert("created_at"@.len() == 10);
    reveal_with_fuel(json::plain, 2);
}

impl EnrollTokenRecord {
    /// What the record holds.
    pub open spec fn view(&self) -> EnrollTokenView {
        EnrollTokenView {
            ps: text::opt_view(self.ps),
            label: text::opt_view(self.label),
            created_at: self.created_at,
        }
    }

    /// The JSON object that stands for the token.
    pub fn to_json(&self) -> (r: JsonValue)
        ensures
            r is Object,
            r@ == enroll_token_json(self@),
    {
        let out = with_optional(JsonValue::object(), "ps", &self.ps);
        let out = with_optional(out, "label", &self.label);
        out.with("created_at", JsonValue::number(self.created_at))
    }

    /// Reads an enrollment token.
    pub fn from_json(v: &JsonValue) -> (r: Option<EnrollTokenRecord>)
        ensures
            match r {
                Some(x) => enroll_token_from(v@) == Some(x@),
                None => enroll_token_from(v@) is None,
            },
    {
        match (
            jwk::read_optional_text(v, "ps"),
            jwk::read_optional_text(v, "label"),
            v.u64_of("created_at"),
        ) {
            (Some(ps), Some(label), Some(created_at)) => Some(
                EnrollTokenRecord { ps, label, created_at },
            ),
            _ => None,
        }
    }
}

/// What an [`AllowedKeyRecord`] holds.
pub struct AllowedKeyView {
    pub jkt: Seq<char>,
    pub ps: Option<Seq<char>>,
    pub label: Option<Seq<char>>,
    pub created_at: u64,
}

/// The JSON object that stands for an allowed key.
pub open spec fn allowed_key_json(r: AllowedKeyView) -> Json {
    let m = Map::<Seq<char>, Json>::empty().insert("jkt"@, Json::Str(r.jkt));
    let m = jwk::with_text(m, "ps"@, r.ps);
    let m = jwk::with_text(m, "label"@, r.label);
    Json::Obj(m.insert("created_at"@, Json::Int(r.created_at as int)))
}

/// The allowed key that a JSON object stands for.
pub open spec fn allowed_key_from(j: Json) -> Option<AllowedKeyView> {
    match (
        json::str_member(j, "jkt"@),
        jwk::optional_text(j, "ps"@),
        jwk::optional_text(j, "label"@),
        json::u64_member(j, "created_at"@),
    ) {
        (Some(jkt), Some(ps), Some(label), Some(created_at)) => Some(
            AllowedKeyView { jkt, ps, label, created_at },
        ),
        _ => None,
    }
}

/// Reading the JSON object that stands for an allowed key gives it back.
pub proof fn law_allowed_key_round_trip(r: AllowedKeyView)
    ensures
        allowed_key_from(allowed_key_json(r)) == Some(r),
        json::plain(allowed_key_json(r), 1),
{
    reveal_strlit("jkt");
    reveal_strlit("ps");
    reveal_strlit("label");
    reveal_strlit("created_at");
    assert("jkt"@.len() == 3);
    assert("ps"@.len() == 2);
    assert("label"@.len() == 5);
    assert("created_at"@.len() == 10);
    reveal_with_fuel(json::plain, 2);
}

impl AllowedKeyRecord {
    /// What the record holds.
    pub open spec fn view(&self) -> AllowedKeyView {
        AllowedKeyView {
            jkt: self.jkt@,
            ps: text::opt_view(self.ps),
            label: text::opt_view(self.label),
            created_at: self.created_at,
        }
    }

    /// The JSON object that stands for the key.
    pub fn to_json(&self) -> (r: JsonValue)
        ensures
            r is Object,
            r@ == allowed_key_json(self@),
    {
        let out = JsonValue::object().with("jkt", JsonValue::string(self.jkt.as_str()));
        let out = with_optional(out, "ps", &self.ps);
        let out = with_optional(out, "label", &self.label);
        out.with("created_at", JsonValue::number(self.created_at))
    }

    /// Reads an allowed key.
    pub fn from_json(v: &JsonValue) -> (r: Option<AllowedKeyRecord>)
        ensures
            match r {
                Some(x) => allowed_key_from(v@) == Some(x@),
                None => allowed_key_from(v@) is None,
            },
    {
        match (
            v.str_of("jkt"),
            jwk::read_optional_text(v, "ps"),
            jwk::read_optional_text(v, "label"),
            v.u64_of("created_at"),
        ) {
            (Some(jkt), Some(ps), Some(label), Some(created_at)) => Some(
                AllowedKeyRecord { jkt: jkt.clone(), ps, label, created_at },
            ),
            _ => None,
        }
    }
}

/// What a [`SubscriptionRecord`] holds.
pub struct SubscriptionView {
    pub eid: Seq<char>,
    pub agent_local: Seq<char>,
    pub agent_id: Seq<char>,
    pub resource: Seq<char>,
    pub max_uses: Option<u64>,
    pub created_at: u64,
}

/// The JSON object that stands for a subscription.
pub open spec fn subscription_json(r: SubscriptionView) -> Json {
    let m = Map::<Seq<char>, Json>::empty().insert("eid"@, Json::Str(r.eid)).insert(
        "agent_local"@,
        Json::Str(r.agent_local),
    ).insert("agent_id"@, Json::Str(r.agent_id)).insert("resource"@, Json::Str(r.resource));
    let m = with_value(m, "max_uses"@, number_value(r.max_uses));
    Json::Obj(m.insert("created_at"@, Json::Int(r.created_at as int)))
}

/// The subscription that a JSON object stands for.
pub open spec fn subscription_from(j: Json) -> Option<SubscriptionView> {
    match (
        json::str_member(j, "eid"@),
        json::str_member(j, "agent_local"@),
        json::str_member(j, "agent_id"@),
        json::str_member(j, "resource"@),
        optional_number(j, "max_uses"@),
        json::u64_member(j, "created_at"@),
    ) {
        (
            Some(eid),
            Some(agent_local),
            Some(agent_id),
            Some(resource),
            Some(max_uses),
            Some(created_at),
        ) => Some(
            SubscriptionView { eid, agent_local, agent_id, resource, max_uses, created_at },
        ),
        _ => None,
    }
}

/// Reading the JSON object that stands for a subscription gives it back.
pub proof fn law_subscription_round_trip(r: SubscriptionView)
    ensures
        subscription_from(subscription_json(r)) == Some(r),
        json::plain(subscription_json(r), 1),
{
    reveal_strlit("eid");
    reveal_strlit("agent_local");
    reveal_strlit("agent_id");
    reveal_strlit("resource");
    reveal_strlit("max_uses");
    reveal_strlit("created_at");
    assert("eid"@.len() == 3);
    assert("agent_local"@.len() == 11);
    assert("agent_id"@.len() == 8 && "agent_id"@[0] == 'a');
    assert("resource"@.len() == 8 && "resource"@[0] == 'r');
    assert("max_uses"@.len() == 8 && "max_uses"@[0] == 'm');
    assert("created_at"@.len() == 10);
    reveal_with_fuel(json::plain, 2);
}

impl SubscriptionRecord {
    /// What the record holds.
    pub open spec fn view(&self) -> SubscriptionView {
        SubscriptionView {
            eid: self.eid@,
            agent_local: self.agent_local@,
            agent_id: self.agent_id@,
            resource: self.resource@,
            max_uses: self.max_uses,
            created_at: self.created_at,
        }
    }

    /// The JSON object that stands for the subscription.
    pub fn to_json(&self) -> (r: JsonValue)
        ensures
            r is Object,
            r@ == subscription_json(self@),
    {
        let out = JsonValue::object().with("eid", JsonValue::string(self.eid.as_str())).with(
            "agent_local",
            JsonValue::string(self.agent_local.as_str()),
        ).with("agent_id", JsonValue::string(self.agent_id.as_str())).with(
            "resource",
            JsonValue::string(self.resource.as_str()),
        );
        let out = match self.max_uses {
            Some(n) => out.with("max_uses", JsonValue::number(n)),
            None => out,
        };
        out.with("created_at", JsonValue::number(self.created_at))
    }

    /// Reads a subscription.
    pub fn from_json(v: &JsonValue) -> (r: Option<SubscriptionRecord>)
        ensures
            match r {
                Some(x) => subscription_from(v@) == Some(x@),
                None => subscription_from(v@) is None,
            },
    {
        match (
            v.str_of("eid"),
            v.str_of("agent_local"),
            v.str_of("agent_id"),
            v.str_of("resource"),
            read_optional_number(v, "max_uses"),
            v.u64_of("created_at"),
        ) {
            (
                Some(eid),
                Some(agent_local),
                Some(agent_id),
                Some(resource),
                Some(max_uses),
                Some(created_at),
            ) => Some(
                SubscriptionRecord {
                    eid: eid.clone(),
                    agent_local: agent_local.clone(),
                    agent_id: agent_id.clone(),
                    resource: resource.clone(),
                    max_uses,
                    created_at,
                },
            ),
            _ => None,
        }
    }
}

/// What an [`InboxItem`] holds.
pub struct InboxView {
    pub event_token: Seq<char>,
    pub payload: Option<Json>,
    pub received_at: u64,
    pub iss: Seq<char>,
    pub eid: Seq<char>,
}

/// The JSON object that stands for a delivered event.
pub open spec fn inbox_json(r: InboxView) -> Json {
    let m = Map::<Seq<char>, Json>::empty().insert("event_token"@, Json::Str(r.event_token));
    let m = with_value(m, "payload"@, r.payload);
    Json::Obj(
        m.insert("received_at"@, Json::Int(r.received_at as int)).insert(
            "iss"@,
            Json::Str(r.iss),
        ).insert("eid"@, Json::Str(r.eid)),
    )
}

/// The delivered event that a JSON object stands for.
pub open spec fn inbox_from(j: Json) -> Option<InboxView> {
    match (
        json::str_member(j, "event_token"@),
        json::u64_member(j, "received_at"@),
        json::str_member(j, "iss"@),
        json::str_member(j, "eid"@),
    ) {
        (Some(event_token), Some(received_at), Some(iss), Some(eid)) => Some(
            InboxView {
                event_token,
                payload: optional_value(j, "payload"@),
                received_at,
                iss,
                eid,
            },
        ),
        _ => None,
    }
}

/// Reading the JSON object that stands for a delivered event gives it back.
pub proof fn law_inbox_item_round_trip(r: InboxView)
    requires
        r.payload != Some(Json::Null),
    ensures
        inbox_from(inbox_json(r)) == Some(r),
{
    reveal_strlit("event_token");
    reveal_strlit("payload");
    reveal_strlit("received_at");
    reveal_strlit("iss");
    reveal_strlit("eid");
    assert("event_token"@.len() == 11 && "event_token"@[0] == 'e');
    assert("received_at"@.len() == 11 && "received_at"@[0] == 'r');
    assert("payload"@.len() == 7);
    assert("iss"@.len() == 3 && "iss"@[0] == 'i');
    assert("eid"@.len() == 3 && "eid"@[0] == 'e');
}

impl InboxItem {
    /// What the record holds.
    pub open spec fn view(&self) -> InboxView {
        InboxView {
            event_token: self.event_token@,
            payload: value_view(self.payload),
            received_at: self.received_at,
            iss: self.iss@,
            eid: self.eid@,
        }
    }

    /// The JSON object that stands for the event.
    pub fn to_json(&self) -> (r: JsonValue)
        ensures
            r is Object,
            r@ == inbox_json(self@),
    {
        let out = JsonValue::object().with(
            "event_token",
            JsonValue::string(self.event_token.as_str()),
        );
        let out = match &self.payload {
            Some(p) => out.with("payload", p.copy()),
            None => out,
        };
        out.with("received_at", JsonValue::number(self.received_at)).with(
            "iss",
            JsonValue::string(self.iss.as_str()),
        ).with("eid", JsonValue::string(self.eid.as_str()))
    }

    /// Reads a delivered event.
    pub fn from_json(v: &JsonValue) -> (r: Option<InboxItem>)
        ensures
            match r {
                Some(x) => inbox_from(v@) == Some(x@),
                None => inbox_from(v@) is None,
            },
    {
        let payload = match v.get("payload") {
            None => None,
            Some(JsonValue::Null) => None,
            Some(p) => Some(p.copy()),
        };
        match (v.str_of("event_token"), v.u64_of("received_at"), v.str_of("iss"), v.str_of("eid")) {
            (Some(event_token), Some(received_at), Some(iss), Some(eid)) => Some(
                InboxItem {
                    event_token: event_token.clone(),
                    payload,
                    received_at,
                    iss: iss.clone(),
                    eid: eid.clone(),
                },
            ),
            _ => None,
        }
    }
}

// ---------------------------------------------------------- stored bytes

/// The bytes that a JSON value is stored as.
pub open spec fn stored(v: Json) -> Seq<u8> {
    vstd::utf8::encode_utf8(json::json_text(v))
}

/// The bytes that a JSON value is stored as. A value of at most 127 levels without
/// fractions is read back from them.
pub fn store_json(v: &JsonValue) -> (r: Vec<u8>)
    ensures
        r@ == stored(v@),
        json::plain(v@, 127) ==> json::json_parsed(r@) == Some(v@),
{
    let s = v.render();
    crate::storage::copy_bytes(s.as_str().as_bytes())
}

/// The agent that stored bytes stand for.
pub open spec fn stored_agent(b: Seq<u8>) -> Option<AgentView> {
    match json::json_parsed(b) {
        Some(j) => agent_from(j),
        None => None,
    }
}

/// Reads a stored agent.
pub fn read_agent(b: &[u8]) -> (r: Option<AgentRecord>)
    ensures
        match r {
            Some(x) => stored_agent(b@) == Some(x@),
            None => stored_agent(b@) is None,
        },
{
    match json::parse(b) {
        Ok(v) => AgentRecord::from_json(&v),
        Err(_) => None,
    }
}

/// The bytes that an agent is stored as.
pub fn write_agent(a: &AgentRecord) -> (r: Vec<u8>)
    ensures
        r@ == stored(agent_json(a@)),
        json::plain(agent_json(a@), 127) ==> stored_agent(r@) == Some(a@),
{
    proof {
        law_agent_record_round_trip(a@);
    }
    let v = a.to_json();
    store_json(&v)
}

/// The subscription that stored bytes stand for.
pub open spec fn stored_subscription(b: Seq<u8>) -> Option<SubscriptionView> {
    match json::json_parsed(b) {
        Some(j) => subscription_from(j),
        None => None,
    }
}

/// Reads a stored subscription.
pub fn read_subscription(b: &[u8]) -> (r: Option<SubscriptionRecord>)
    ensures
        match r {
            Some(x) => stored_subscription(b@) == Some(x@),
            None => stored_subscription(b@) is None,
        },
{
    match json::parse(b) {
        Ok(v) => SubscriptionRecord::from_json(&v),
        Err(_) => None,
    }
}

/// The bytes that a subscription is stored as.
pub fn write_subscription(a: &SubscriptionRecord) -> (r: Vec<u8>)
    ensures
        r@ == stored(subscription_json(a@)),
        stored_subscription(r@) == Some(a@),
{
    proof {
        law_subscription_round_trip(a@);
        lemma_plain_deeper(subscription_json(a@), 1, 127);
    }
    let v = a.to_json();
    store_json(&v)
}

/// The enrollment token that stored bytes stand for.
pub open spec fn stored_enroll_token(b: Seq<u8>) -> Option<EnrollTokenView> {
    match json::json_parsed(b) {
        Some(j) => enroll_token_from(j),
        None => None,
    }
}

/// Reads a stored enrollment token.
pub fn read_enroll_token(b: &[u8]) -> (r: Option<EnrollTokenRecord>)
    ensures
        match r {
            Some(x) => stored_enroll_token(b@) == Some(x@),
            None => stored_enroll_token(b@) is None,
        },
{
    match json::parse(b) {
        Ok(v) => EnrollTokenRecord::from_json(&v),
        Err(_) => None,
    }
}

/// The bytes that an enrollment token is stored as.
pub fn write_enroll_token(a: &EnrollTokenRecord) -> (r: Vec<u8>)
    ensures
        r@ == stored(enroll_token_json(a@)),
        stored_enroll_token(r@) == Some(a@),
{
    proof {
        law_enroll_token_round_trip(a@);
        lemma_plain_deeper(enroll_token_json(a@), 1, 127);
    }
    let v = a.to_json();
    store_json(&v)
}

/// The allowed key that stored bytes stand for.
pub open spec fn stored_allowed_key(b: Seq<u8>) -> Option<AllowedKeyView> {
    match json::json_parsed(b) {
        Some(j) => allowed_key_from(j),
        None => None,
    }
}

/// Reads a stored allowed key.
pub fn read_allowed_key(b: &[u8]) -> (r: Option<AllowedKeyRecord>)
    ensures
        match r {
            Some(x) => stored_allowed_key(b@) == Some(x@),
            None => stored_allowed_key(b@) is None,
        },
{
    match json::parse(b) {
        Ok(v) => AllowedKeyRecord::from_json(&v),
        Err(_) => None,
    }
}

/// The bytes that an allowed key is stored as.
pub fn write_allowed_key(a: &AllowedKeyRecord) -> (r: Vec<u8>)
    ensures
        r@ == stored(allowed_key_json(a@)),
        stored_allowed_key(r@) == Some(a@),
{
    proof {
        law_allowed_key_round_trip(a@);
        lemma_plain_deeper(allowed_key_json(a@), 1, 127);
    }
    let v = a.to_json();
    store_json(&v)
}

/// The delivered event that stored bytes stand for.
pub open spec fn stored_item(b: Seq<u8>) -> Option<InboxView> {
    match json::json_parsed(b) {
        Some(j) => inbox_from(j),
        None => None,
    }
}

/// Reads a stored event.
pub fn read_item(b: &[u8]) -> (r: Option<InboxItem>)
    ensures
        match r {
            Some(x) => stored_item(b@) == Some(x@),
            None => stored_item(b@) is None,
        },
{
    match json::parse(b) {
        Ok(v) => InboxItem::from_json(&v),
        Err(_) => None,
    }
}

/// The bytes that a delivered event is stored as.
pub fn write_item(a: &InboxItem) -> (r: Vec<u8>)
    ensures
        r@ == stored(inbox_json(a@)),
        json::plain(inbox_json(a@), 127) && a@.payload != Some(Json::Null) ==> stored_item(r@)
            == Some(a@),
{
    proof {
        if a@.payload != Some(Json::Null) {
            law_inbox_item_round_trip(a@);
        }
    }
    let v = a.to_json();
    store_json(&v)
}

/// What is no deeper than some levels is no deeper than more.
proof fn lemma_plain_deeper(v: Json, a: nat, b: nat)
    requires
        json::plain(v, a),
        a <= b,
    ensures
        json::plain(v, b),
    decreases a,
{
    match v {
        Json::Arr(s) => {
            assert forall|i: int| 0 <= i < s.len() implies json::plain(
                #[trigger] s[i],
                (b - 1) as nat,
            ) by {
                lemma_plain_deeper(s[i], (a - 1) as nat, (b - 1) as nat);
            }
        },
        Json::Obj(m) => {
            assert forall|k: Seq<char>| #[trigger] m.dom().contains(k) implies json::plain(
                m[k],
                (b - 1) as nat,
            ) by {
                lemma_plain_deeper(m[k], (a - 1) as nat, (b - 1) as nat);
            }
        },
        _ => {},
    }
}

/// The names under which an agent is stored.
pub proof fn law_agent_members(r: AgentView)
    ensures
        ({
            let j = agent_json(r);
            &&& json::str_member(j, "local"@) == Some(r.local)
            &&& json::str_member(j, "durable_jkt"@) == Some(r.durable_jkt)
            &&& json::str_member(j, "ps"@) == r.ps
            &&& json::str_member(j, "platform"@) == r.platform
            &&& json::str_member(j, "label"@) == r.label
            &&& json::u64_member(j, "created_at"@) == Some(r.created_at)
            &&& json::str_member(j, "status"@) == Some(r.status)
            &&& json::u64_member(j, "last_issued_at"@) == Some(r.last_issued_at)
            &&& json::u64_member(j, "tokens_issued"@) == Some(r.tokens_issued)
            &&& json::str_member(j, "method"@) == Some(r.method)
            &&& json::str_member(j, "issuer"@) == r.issuer
            &&& json::str_member(j, "subject"@) == r.subject
            &&& json::str_member(j, "assurance"@) == r.assurance
            &&& r.embed_claims matches Some(c) ==> json::json_get(j, "embed_claims"@) == Some(
                Json::Obj(c),
            )
            &&& r.embed_claims is None ==> json::json_get(j, "embed_claims"@) is None
        }),
{
    reveal_strlit("local");
    reveal_strlit("durable_jkt");
    reveal_strlit("ps");
    reveal_strlit("platform");
    reveal_strlit("label");
    reveal_strlit("created_at");
    reveal_strlit("status");
    reveal_strlit("last_issued_at");
    reveal_strlit("tokens_issued");
    reveal_strlit("method");
    reveal_strlit("issuer");
    reveal_strlit("subject");
    reveal_strlit("embed_claims");
    reveal_strlit("assurance");
    assert("local"@.len() == 5 && "durable_jkt"@.len() == 11 && "ps"@.len() == 2 && "platform"@.len() == 8 && "label"@.len() == 5 && "created_at"@.len() == 10 && "status"@.len() == 6 && "last_issued_at"@.len() == 14 && "tokens_issued"@.len() == 13 && "method"@.len() == 6 && "issuer"@.len() == 6 && "subject"@.len() == 7 && "embed_claims"@.len() == 12 && "assurance"@.len() == 9);
    assert("local"@[1] == 'o');
    assert("label"@[1] == 'a');
    assert("status"@[0] == 's');
    assert("method"@[0] == 'm');
    assert("issuer"@[0] == 'i');
}

/// What is read of an agent is what stands under these names; counts that are
/// missing are none, and a missing method is that of tokens.
pub proof fn law_agent_read(j: Json, r: AgentView)
    requires
        agent_from(j) == Some(r),
    ensures
        json::str_member(j, "local"@) == Some(r.local),
        json::str_member(j, "durable_jkt"@) == Some(r.durable_jkt),
        json::str_member(j, "ps"@) == r.ps,
        json::str_member(j, "platform"@) == r.platform,
        json::str_member(j, "label"@) == r.label,
        json::u64_member(j, "created_at"@) == Some(r.created_at),
        json::str_member(j, "status"@) == Some(r.status),
        json::str_member(j, "issuer"@) == r.issuer,
        json::str_member(j, "subject"@) == r.subject,
        json::str_member(j, "assurance"@) == r.assurance,
        json::json_get(j, "last_issued_at"@) is None ==> r.last_issued_at == 0,
        json::json_get(j, "last_issued_at"@) is Some ==> json::u64_member(j, "last_issued_at"@)
            == Some(r.last_issued_at),
        json::json_get(j, "tokens_issued"@) is None ==> r.tokens_issued == 0,
        json::json_get(j, "tokens_issued"@) is Some ==> json::u64_member(j, "tokens_issued"@)
            == Some(r.tokens_issued),
        json::json_get(j, "method"@) is None ==> r.method == "token"@,
        json::json_get(j, "method"@) is Some ==> json::str_member(j, "method"@) == Some(r.method),
        r.embed_claims matches Some(c) ==> json::json_get(j, "embed_claims"@) == Some(Json::Obj(c)),
{
}

/// The names under which enrollment tokens and allowed keys are stored.
pub proof fn law_admission_members(t: EnrollTokenView, k: AllowedKeyView)
    ensures
        json::str_member(enroll_token_json(t), "ps"@) == t.ps,
        json::str_member(enroll_token_json(t), "label"@) == t.label,
        json::u64_member(enroll_token_json(t), "created_at"@) == Some(t.created_at),
        json::str_member(allowed_key_json(k), "jkt"@) == Some(k.jkt),
        json::str_member(allowed_key_json(k), "ps"@) == k.ps,
        json::str_member(allowed_key_json(k), "label"@) == k.label,
        json::u64_member(allowed_key_json(k), "created_at"@) == Some(k.created_at),
{
    reveal_strlit("jkt");
    reveal_strlit("ps");
    reveal_strlit("label");
    reveal_strlit("created_at");
    assert("jkt"@.len() == 3 && "ps"@.len() == 2 && "label"@.len() == 5 && "created_at"@.len() == 10);
}

/// The names under which a subscription is stored.
pub proof fn law_subscription_members(r: SubscriptionView)
    ensures
        json::str_member(subscription_json(r), "eid"@) == Some(r.eid),
        json::str_member(subscription_json(r), "agent_local"@) == Some(r.agent_local),
        json::str_member(subscription_json(r), "agent_id"@) == Some(r.agent_id),
        json::str_member(subscription_json(r), "resource"@) == Some(r.resource),
        json::u64_member(subscription_json(r), "max_uses"@) == r.max_uses,
        json::u64_member(subscription_json(r), "created_at"@) == Some(r.created_at),
{
    reveal_strlit("eid");
    reveal_strlit("agent_local");
    reveal_strlit("agent_id");
    reveal_strlit("resource");
    reveal_strlit("max_uses");
    reveal_strlit("created_at");
    assert("eid"@.len() == 3 && "agent_local"@.len() == 11 && "agent_id"@.len() == 8 && "resource"@.len() == 8 && "max_uses"@.len() == 8 && "created_at"@.len() == 10);
    assert("agent_id"@[0] == 'a');
    assert("resource"@[0] == 'r');
    assert("max_uses"@[0] == 'm');
}

/// The names under which a delivered event is stored.
pub proof fn law_inbox_members(r: InboxView)
    ensures
        json::str_member(inbox_json(r), "event_token"@) == Some(r.event_token),
        json::json_get(inbox_json(r), "payload"@) == r.payload,
        json::u64_member(inbox_json(r), "received_at"@) == Some(r.received_at),
        json::str_member(inbox_json(r), "iss"@) == Some(r.iss),
        json::str_member(inbox_json(r), "eid"@) == Some(r.eid),
{
    reveal_strlit("event_token");
    reveal_strlit("payload");
    reveal_strlit("received_at");
    reveal_strlit("iss");
    reveal_strlit("eid");
    assert("event_token"@.len() == 11 && "payload"@.len() == 7 && "received_at"@.len() == 11 && "iss"@.len() == 3 && "eid"@.len() == 3);
    assert("event_token"@[0] == 'e');
    assert("received_at"@[0] == 'r');
    assert("iss"@[0] == 'i');
    assert("eid"@[0] == 'e');
}

/// A record is stored as its JSON text, and read from that text only.
pub proof fn law_stored_as_json(v: Json, b: Seq<u8>)
    ensures
        stored(v) == vstd::utf8::encode_utf8(json::json_text(v)),
        json::json_parsed(b) is None ==> stored_agent(b) is None && stored_subscription(b) is None
            && stored_enroll_token(b) is None && stored_allowed_key(b) is None && stored_item(
            b,
        ) is None,
        json::json_parsed(b) matches Some(j) ==> stored_agent(b) == agent_from(j)
            && stored_subscription(b) == subscription_from(j) && stored_enroll_token(b)
            == enroll_token_from(j) && stored_allowed_key(b) == allowed_key_from(j) && stored_item(
            b,
        ) == inbox_from(j),
{
}

/// What a record's optional members may be.
pub proof fn law_optional_members(m: Map<Seq<char>, Json>, name: Seq<char>, n: u64, d: u64, s: Seq<char>)
    ensures
        !m.dom().contains(name) ==> number_or(Json::Obj(m), name, d) == Some(d) && optional_number(
            Json::Obj(m),
            name,
        ) == Some(None::<u64>) && text_or(Json::Obj(m), name, s) == Some(s),
        number_or(Json::Obj(m.insert(name, Json::Int(n as int))), name, d) == Some(n),
        optional_number(Json::Obj(m.insert(name, Json::Int(n as int))), name) == Some(Some(n)),
        optional_number(Json::Obj(m.insert(name, Json::Null)), name) == Some(None::<u64>),
        number_or(Json::Obj(m.insert(name, Json::Str(s))), name, d) is None,
        text_or(Json::Obj(m.insert(name, Json::Int(n as int))), name, s) is None,
        optional_value(Json::Obj(m.insert(name, Json::Null)), name) is None,
{
}

/// What the keys of each family begin with.
pub proof fn law_families()
    ensures
        family_prefix(Family::Agent) == "agent:"@,
        family_prefix(Family::Jkt) == "jkt:"@,
        family_prefix(Family::EnrollToken) == "enrolltok:"@,
        family_prefix(Family::AllowedKey) == "allowkey:"@,
        family_prefix(Family::AssertionJti) == "ajti:"@,
        family_prefix(Family::Jti) == "jti:"@,
        family_prefix(Family::Subscription) == "sub:"@,
        family_prefix(Family::SubUses) == "subuses:"@,
        family_prefix(Family::Inbox) == "inbox:"@,
        family_prefix(Family::IssuedJti) == "agent_jti:"@,
{
}

} // verus!
