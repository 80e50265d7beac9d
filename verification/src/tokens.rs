//! The token types of AAuth, and the rules that the claims of agent tokens and
//! event tokens have to meet.

use vstd::prelude::*;

use crate::ident;
use crate::ident::AgentId;
use crate::json;
use crate::json::{Json, JsonValue};
use crate::jwk;
use crate::jwk::{Jwk, JwkView};
use crate::jwt::{ClaimExt, DecodedJwt, JwtView};
use crate::text;

verus! {

pub const TYP_AGENT: &'static str = "aa-agent+jwt";

pub const TYP_PERSON: &'static str = "aa-person+jwt";

pub const TYP_RESOURCE: &'static str = "aa-resource+jwt";

pub const TYP_AUTH: &'static str = "aa-auth+jwt";

pub const TYP_SUBSCRIBE: &'static str = "aa-subscribe+jwt";

pub const TYP_EVENT: &'static str = "aa-event+jwt";

/// The type of a naming token.
pub const TYP_NAMING: &'static str = "jkt-s256+jwt";

/// How far the clocks of issuers may be ahead, in seconds.
pub const IAT_SKEW_SECS: u64 = 60;

/// What is wrong with a token.
#[derive(Debug)]
pub struct TokenError {
    /// Whether its time is over.
    pub expired: bool,
    pub detail: String,
}

/// What a [`TokenError`] says.
pub struct TokenErrorView {
    pub expired: bool,
    pub detail: Seq<char>,
}

/// A claim that is not as it should be.
pub open spec fn bad_claim(detail: Seq<char>) -> TokenErrorView {
    TokenErrorView { expired: false, detail }
}

impl TokenError {
    /// What the error says.
    pub open spec fn view(&self) -> TokenErrorView {
        TokenErrorView { expired: self.expired, detail: self.detail@ }
    }
}

fn wrong(detail: &str) -> (r: TokenError)
    ensures
        r@ == bad_claim(detail@),
{
    TokenError { expired: false, detail: detail.to_owned() }
}

/// What is wrong with the times of a token.
pub open spec fn lifetime_fault(payload: Json, now: u64) -> Option<TokenErrorView> {
    match (json::u64_member(payload, "exp"@), json::u64_member(payload, "iat"@)) {
        (None, _) => Some(bad_claim("missing or invalid exp"@)),
        (_, None) => Some(bad_claim("missing or invalid iat"@)),
        (Some(exp), Some(iat)) => if exp <= now {
            Some(TokenErrorView { expired: true, detail: "token expired"@ })
        } else if iat > now + IAT_SKEW_SECS {
            Some(bad_claim("iat is in the future"@))
        } else {
            None
        },
    }
}

/// The key that a token is bound to.
pub open spec fn confirmed_key(payload: Json) -> Option<JwkView> {
    match json::json_get(payload, "cnf"@) {
        Some(cnf) => match json::json_get(cnf, "jwk"@) {
            Some(v) => jwk::jwk_from(v),
            None => None,
        },
        None => None,
    }
}

/// The claims of an agent token.
pub struct AgentTokenClaims {
    pub iss: String,
    pub sub: String,
    pub cnf_jwk: Jwk,
    pub iat: u64,
    pub exp: u64,
    pub ps: Option<String>,
    pub parent_agent: Option<String>,
}

/// What [`AgentTokenClaims`] hold.
pub struct AgentClaimsView {
    pub iss: Seq<char>,
    pub sub: Seq<char>,
    pub cnf_jwk: JwkView,
    pub iat: u64,
    pub exp: u64,
    pub ps: Option<Seq<char>>,
    pub parent_agent: Option<Seq<char>>,
}

impl AgentTokenClaims {
    /// What the claims hold.
    pub open spec fn view(&self) -> AgentClaimsView {
        AgentClaimsView {
            iss: self.iss@,
            sub: self.sub@,
            cnf_jwk: self.cnf_jwk@,
            iat: self.iat,
            exp: self.exp,
            ps: text::opt_view(self.ps),
            parent_agent: text::opt_view(self.parent_agent),
        }
    }
}

/// The claims of an agent token, or what is wrong with it.
pub open spec fn agent_claims(t: JwtView, now: u64, insecure: bool) -> Result<
    AgentClaimsView,
    TokenErrorView,
> {
    let p = t.payload;
    let iss = json::str_member(p, "iss"@);
    let sub = json::str_member(p, "sub"@);
    let ps = jwk::optional_text(p, "ps"@);
    let parent = jwk::optional_text(p, "parent_agent"@);
    if t.header.typ != Some("aa-agent+jwt"@) {
        Err(bad_claim("typ is not aa-agent+jwt"@))
    } else if lifetime_fault(p, now) is Some {
        Err(lifetime_fault(p, now)->0)
    } else if iss is None || !ident::is_server_identifier(iss->0, insecure) {
        Err(bad_claim("iss is not a valid server identifier"@))
    } else if json::str_member(p, "dwk"@) != Some("aauth-agent.json"@) {
        Err(bad_claim("dwk is not aauth-agent.json"@))
    } else if sub is None || ident::agent_parts(sub->0) is None {
        Err(bad_claim("sub is not a valid agent identifier"@))
    } else if confirmed_key(p) is None {
        Err(bad_claim("missing or invalid cnf.jwk"@))
    } else if ps is None || (ps->0 matches Some(x) && !ident::is_server_identifier(x, insecure)) {
        Err(bad_claim("ps is not a valid server identifier"@))
    } else if parent is None || (parent->0 matches Some(x) && ident::agent_parts(x) is None) {
        Err(bad_claim("parent_agent is not a valid agent identifier"@))
    } else {
        Ok(
            AgentClaimsView {
                iss: iss->0,
                sub: sub->0,
                cnf_jwk: confirmed_key(p)->0,
                iat: json::u64_member(p, "iat"@)->0,
                exp: json::u64_member(p, "exp"@)->0,
                ps: ps->0,
                parent_agent: parent->0,
            },
        )
    }
}

fn check_lifetime(payload: &JsonValue, now: u64) -> (r: Result<(u64, u64), TokenError>)
    ensures
        match r {
            Ok(t) => lifetime_fault(payload@, now) is None && json::u64_member(payload@, "iat"@)
                == Some(t.0) && json::u64_member(payload@, "exp"@) == Some(t.1),
            Err(e) => lifetime_fault(payload@, now) == Some(e@),
        },
{
    let exp: u64 = match payload.u64_of("exp") {
        Some(n) => n,
        None => {
            return Err(wrong("missing or invalid exp"));
        },
    };
    let iat: u64 = match payload.u64_of("iat") {
        Some(n) => n,
        None => {
            return Err(wrong("missing or invalid iat"));
        },
    };
    if exp <= now {
        return Err(TokenError { expired: true, detail: "token expired".to_owned() });
    }
    if iat > IAT_SKEW_SECS && iat - IAT_SKEW_SECS > now {
        return Err(wrong("iat is in the future"));
    }
    Ok((iat, exp))
}

/// Reads the key that a token is bound to.
pub fn read_confirmed_key(payload: &JsonValue) -> (r: Option<Jwk>)
    ensures
        match r {
            Some(k) => confirmed_key(payload@) == Some(k@),
            None => confirmed_key(payload@) is None,
        },
{
    match payload.get("cnf") {
        Some(cnf) => match cnf.get("jwk") {
            Some(v) => Jwk::from_json(v),
            None => None,
        },
        None => None,
    }
}

fn is_agent(s: &str) -> (r: bool)
    ensures
        r == (ident::agent_parts(s@) is Some),
{
    AgentId::parse(s).is_ok()
}

fn is_server(s: &str, insecure: bool) -> (r: bool)
    ensures
        r == ident::is_server_identifier(s@, insecure),
{
    ident::validate_server_identifier(s, insecure).is_ok()
}

fn has_typ(t: &DecodedJwt, typ: &str) -> (r: bool)
    ensures
        r == (t@.header.typ == Some(typ@)),
{
    match &t.header.typ {
        Some(own) => text::same(own.as_str(), typ),
        None => false,
    }
}

/// Reads the claims of an agent token whose signature was verified.
pub fn validate_agent_token(t: &DecodedJwt, now: u64, insecure: bool) -> (r: Result<
    AgentTokenClaims,
    TokenError,
>)
    ensures
        match r {
            Ok(c) => agent_claims(t@, now, insecure) == Ok::<AgentClaimsView, TokenErrorView>(c@),
            Err(e) => agent_claims(t@, now, insecure) == Err::<AgentClaimsView, TokenErrorView>(
                e@,
            ),
        },
{
    let p = &t.payload;
    if !has_typ(t, TYP_AGENT) {
        return Err(wrong("typ is not aa-agent+jwt"));
    }
    let (iat, exp) = match check_lifetime(p, now) {
        Ok(x) => x,
        Err(e) => {
            return Err(e);
        },
    };
    let iss = match p.str_claim("iss") {
        Some(s) => if is_server(s.as_str(), insecure) {
            s.clone()
        } else {
            return Err(wrong("iss is not a valid server identifier"));
        },
        None => {
            return Err(wrong("iss is not a valid server identifier"));
        },
    };
    let named = match p.str_claim("dwk") {
        Some(s) => text::same(s.as_str(), "aauth-agent.json"),
        None => false,
    };
    if !named {
        return Err(wrong("dwk is not aauth-agent.json"));
    }
    let sub = match p.str_claim("sub") {
        Some(s) => if is_agent(s.as_str()) {
            s.clone()
        } else {
            return Err(wrong("sub is not a valid agent identifier"));
        },
        None => {
            return Err(wrong("sub is not a valid agent identifier"));
        },
    };
    let cnf_jwk = match read_confirmed_key(p) {
        Some(k) => k,
        None => {
            return Err(wrong("missing or invalid cnf.jwk"));
        },
    };
    let ps = match jwk::read_optional_text(p, "ps") {
        Some(Some(s)) => if is_server(s.as_str(), insecure) {
            Some(s)
        } else {
            return Err(wrong("ps is not a valid server identifier"));
        },
        Some(None) => None,
        None => {
            return Err(wrong("ps is not a valid server identifier"));
        },
    };
    let parent_agent = match jwk::read_optional_text(p, "parent_agent") {
        Some(Some(s)) => if is_agent(s.as_str()) {
            Some(s)
        } else {
            return Err(wrong("parent_agent is not a valid agent identifier"));
        },
        Some(None) => None,
        None => {
            return Err(wrong("parent_agent is not a valid agent identifier"));
        },
    };
    Ok(AgentTokenClaims { iss, sub, cnf_jwk, iat, exp, ps, parent_agent })
}

/// The claims of an event token.
pub struct EventTokenClaims {
    pub iss: String,
    pub dwk: String,
    pub aud: String,
    pub eid: String,
    pub iat: u64,
    pub exp: u64,
}

/// What [`EventTokenClaims`] hold.
pub struct EventClaimsView {
    pub iss: Seq<char>,
    pub dwk: Seq<char>,
    pub aud: Seq<char>,
    pub eid: Seq<char>,
    pub iat: u64,
    pub exp: u64,
}

impl EventTokenClaims {
    /// What the claims hold.
    pub open spec fn view(&self) -> EventClaimsView {
        EventClaimsView {
            iss: self.iss@,
            dwk: self.dwk@,
            aud: self.aud@,
            eid: self.eid@,
            iat: self.iat,
            exp: self.exp,
        }
    }
}

/// The claims of an event token, or what is wrong with it.
pub open spec fn event_claims(t: JwtView, now: u64, insecure: bool) -> Result<
    EventClaimsView,
    TokenErrorView,
> {
    let p = t.payload;
    let iss = json::str_member(p, "iss"@);
    let aud = json::str_member(p, "aud"@);
    let eid = json::str_member(p, "eid"@);
    if t.header.typ != Some("aa-event+jwt"@) {
        Err(bad_claim("typ is not aa-event+jwt"@))
    } else if lifetime_fault(p, now) is Some {
        Err(lifetime_fault(p, now)->0)
    } else if iss is None || !ident::is_server_identifier(iss->0, insecure) {
        Err(bad_claim("iss is not a valid server identifier"@))
    } else if json::str_member(p, "dwk"@) != Some("aauth-resource.json"@) {
        Err(bad_claim("dwk is not aauth-resource.json"@))
    } else if aud is None || ident::agent_parts(aud->0) is None {
        Err(bad_claim("aud is not a valid agent identifier"@))
    } else if eid is None || eid->0.len() == 0 {
        Err(bad_claim("missing or invalid eid"@))
    } else {
        Ok(
            EventClaimsView {
                iss: iss->0,
                dwk: "aauth-resource.json"@,
                aud: aud->0,
                eid: eid->0,
                iat: json::u64_member(p, "iat"@)->0,
                exp: json::u64_member(p, "exp"@)->0,
            },
        )
    }
}

/// Reads the claims of an event token.
pub fn validate_event_token(t: &DecodedJwt, now: u64, insecure: bool) -> (r: Result<
    EventTokenClaims,
    TokenError,
>)
    ensures
        match r {
            Ok(c) => event_claims(t@, now, insecure) == Ok::<EventClaimsView, TokenErrorView>(c@),
            Err(e) => event_claims(t@, now, insecure) == Err::<EventClaimsView, TokenErrorView>(
                e@,
            ),
        },
{
    let p = &t.payload;
    if !has_typ(t, TYP_EVENT) {
        return Err(wrong("typ is not aa-event+jwt"));
    }
    let (iat, exp) = match check_lifetime(p, now) {
        Ok(x) => x,
        Err(e) => {
            return Err(e);
        },
    };
    let iss = match p.str_claim("iss") {
        Some(s) => if is_server(s.as_str(), insecure) {
            s.clone()
        } else {
            return Err(wrong("iss is not a valid server identifier"));
        },
        None => {
            return Err(wrong("iss is not a valid server identifier"));
        },
    };
    let named = match p.str_claim("dwk") {
        Some(s) => text::same(s.as_str(), "aauth-resource.json"),
        None => false,
    };
    if !named {
        return Err(wrong("dwk is not aauth-resource.json"));
    }
    let aud = match p.str_claim("aud") {
        Some(s) => if is_agent(s.as_str()) {
            s.clone()
        } else {
            return Err(wrong("aud is not a valid agent identifier"));
        },
        None => {
            return Err(wrong("aud is not a valid agent identifier"));
        },
    };
    let eid = match p.str_claim("eid") {
        Some(s) => if s.as_str().unicode_len() > 0 {
            s.clone()
        } else {
            return Err(wrong("missing or invalid eid"));
        },
        None => {
            return Err(wrong("missing or invalid eid"));
        },
    };
    Ok(
        EventTokenClaims {
            iss,
            dwk: "aauth-resource.json".to_owned(),
            aud,
            eid,
            iat,
            exp,
        },
    )
}

/// A token that is accepted has not expired.
pub proof fn law_accepted_not_expired(t: JwtView, now: u64, insecure: bool)
    ensures
        agent_claims(t, now, insecure) matches Ok(c) ==> c.exp > now,
        event_claims(t, now, insecure) matches Ok(c) ==> c.exp > now,
{
}

/// Whatever is accepted has its times as numbers, is not over, and was made no
/// more than a minute ahead.
pub proof fn law_times_of_accepted(t: JwtView, now: u64, insecure: bool)
    ensures
        agent_claims(t, now, insecure) matches Ok(c) ==> json::u64_member(t.payload, "exp"@)
            == Some(c.exp) && json::u64_member(t.payload, "iat"@) == Some(c.iat) && now < c.exp
            && c.iat <= now + 60,
        event_claims(t, now, insecure) matches Ok(c) ==> json::u64_member(t.payload, "exp"@)
            == Some(c.exp) && json::u64_member(t.payload, "iat"@) == Some(c.iat) && now < c.exp
            && c.iat <= now + 60,
{
}

/// A token is called expired exactly where both its times are numbers and its
/// time is over; it must be of the type that is looked for.
pub proof fn law_expired_is_told(t: JwtView, now: u64, insecure: bool)
    ensures
        (agent_claims(t, now, insecure) matches Err(e) && e.expired) == (t.header.typ == Some(
            "aa-agent+jwt"@,
        ) && json::u64_member(t.payload, "iat"@) is Some && (json::u64_member(
            t.payload,
            "exp"@,
        ) matches Some(exp) && exp <= now)),
        (event_claims(t, now, insecure) matches Err(e) && e.expired) == (t.header.typ == Some(
            "aa-event+jwt"@,
        ) && json::u64_member(t.payload, "iat"@) is Some && (json::u64_member(
            t.payload,
            "exp"@,
        ) matches Some(exp) && exp <= now)),
{
}

/// The claims of an accepted agent token are those that it carries, each of its
/// form.
pub proof fn law_agent_claims_are_carried(t: JwtView, now: u64, insecure: bool)
    ensures
        agent_claims(t, now, insecure) matches Ok(c) ==> {
            &&& t.header.typ == Some("aa-agent+jwt"@)
            &&& json::str_member(t.payload, "iss"@) == Some(c.iss)
            &&& json::str_member(t.payload, "sub"@) == Some(c.sub)
            &&& json::str_member(t.payload, "dwk"@) == Some("aauth-agent.json"@)
            &&& json::str_member(t.payload, "ps"@) == c.ps
            &&& json::str_member(t.payload, "parent_agent"@) == c.parent_agent
            &&& confirmed_key(t.payload) == Some(c.cnf_jwk)
            &&& ident::is_server_identifier(c.iss, insecure)
            &&& ident::agent_parts(c.sub) is Some
            &&& c.ps matches Some(p) ==> ident::is_server_identifier(p, insecure)
            &&& c.parent_agent matches Some(p) ==> ident::agent_parts(p) is Some
        },
{
}

/// The key that a token is bound to is the one under `jwk` in its `cnf`.
pub proof fn law_confirmed_key(payload: Json)
    ensures
        confirmed_key(payload) matches Some(k) ==> (json::json_get(payload, "cnf"@) matches Some(
            cnf,
        ) && (json::json_get(cnf, "jwk"@) matches Some(v) && jwk::jwk_from(v) == Some(k))),
        json::json_get(payload, "cnf"@) matches Some(cnf) ==> (json::json_get(
            cnf,
            "jwk"@,
        ) matches Some(v) ==> confirmed_key(payload) == jwk::jwk_from(v)),
{
}

/// An agent token with all its claims in form is accepted while it lasts.
pub proof fn law_agent_token_accepted(
    t: JwtView,
    now: u64,
    insecure: bool,
    iss: Seq<char>,
    sub: Seq<char>,
    iat: u64,
    exp: u64,
)
    requires
        t.header.typ == Some("aa-agent+jwt"@),
        json::str_member(t.payload, "iss"@) == Some(iss),
        ident::is_server_identifier(iss, insecure),
        json::str_member(t.payload, "sub"@) == Some(sub),
        ident::agent_parts(sub) is Some,
        json::str_member(t.payload, "dwk"@) == Some("aauth-agent.json"@),
        confirmed_key(t.payload) is Some,
        json::u64_member(t.payload, "iat"@) == Some(iat),
        json::u64_member(t.payload, "exp"@) == Some(exp),
        json::json_get(t.payload, "ps"@) is None,
        json::json_get(t.payload, "parent_agent"@) is None,
        iat <= now + 60,
        now < exp,
    ensures
        agent_claims(t, now, insecure) matches Ok(c) && c.sub == sub && c.iss == iss,
{
}

/// The claims of an accepted event token are those that it carries, each of its
/// form.
pub proof fn law_event_claims_are_carried(t: JwtView, now: u64, insecure: bool)
    ensures
        event_claims(t, now, insecure) matches Ok(c) ==> {
            &&& t.header.typ == Some("aa-event+jwt"@)
            &&& json::str_member(t.payload, "iss"@) == Some(c.iss)
            &&& json::str_member(t.payload, "aud"@) == Some(c.aud)
            &&& json::str_member(t.payload, "eid"@) == Some(c.eid)
            &&& json::str_member(t.payload, "dwk"@) == Some("aauth-resource.json"@)
            &&& c.dwk == "aauth-resource.json"@
            &&& ident::is_server_identifier(c.iss, insecure)
            &&& ident::agent_parts(c.aud) is Some
            &&& c.eid.len() > 0
        },
{
}

/// An event token with all its claims in form is accepted while it lasts.
pub proof fn law_event_token_accepted(
    t: JwtView,
    now: u64,
    insecure: bool,
    iss: Seq<char>,
    aud: Seq<char>,
    eid: Seq<char>,
    iat: u64,
    exp: u64,
)
    requires
        t.header.typ == Some("aa-event+jwt"@),
        json::str_member(t.payload, "iss"@) == Some(iss),
        ident::is_server_identifier(iss, insecure),
        json::str_member(t.payload, "aud"@) == Some(aud),
        ident::agent_parts(aud) is Some,
        json::str_member(t.payload, "eid"@) == Some(eid),
        eid.len() > 0,
        json::str_member(t.payload, "dwk"@) == Some("aauth-resource.json"@),
        json::u64_member(t.payload, "iat"@) == Some(iat),
        json::u64_member(t.payload, "exp"@) == Some(exp),
        iat <= now + 60,
        now < exp,
    ensures
        event_claims(t, now, insecure) is Ok,
{
}

/// What is wrong with a token is told, the first thing first: its type, its times,
/// its issuer, its document and its subject.
pub proof fn law_token_faults_told(t: JwtView, now: u64, insecure: bool)
    ensures
        t.header.typ != Some("aa-agent+jwt"@) ==> (agent_claims(t, now, insecure) matches Err(e)
            && e.detail == "typ is not aa-agent+jwt"@),
        t.header.typ != Some("aa-event+jwt"@) ==> (event_claims(t, now, insecure) matches Err(e)
            && e.detail == "typ is not aa-event+jwt"@),
        t.header.typ == Some("aa-agent+jwt"@) ==> (lifetime_fault(t.payload, now) matches Some(e)
            ==> agent_claims(t, now, insecure) == Err::<AgentClaimsView, TokenErrorView>(e)),
        t.header.typ == Some("aa-event+jwt"@) ==> (lifetime_fault(t.payload, now) matches Some(e)
            ==> event_claims(t, now, insecure) == Err::<EventClaimsView, TokenErrorView>(e)),
        json::u64_member(t.payload, "exp"@) is None ==> (lifetime_fault(t.payload, now) matches Some(e)
            && e.detail == "missing or invalid exp"@ && !e.expired),
        json::u64_member(t.payload, "exp"@) is Some && json::u64_member(t.payload, "iat"@) is None
            ==> (lifetime_fault(t.payload, now) matches Some(e) && e.detail
            == "missing or invalid iat"@ && !e.expired),
        json::u64_member(t.payload, "iat"@) is Some ==> (json::u64_member(
            t.payload,
            "exp"@,
        ) matches Some(exp) ==> (exp <= now ==> (lifetime_fault(t.payload, now) matches Some(e)
            && e.detail == "token expired"@ && e.expired))),
        json::u64_member(t.payload, "iat"@) matches Some(iat) ==> (json::u64_member(
            t.payload,
            "exp"@,
        ) matches Some(exp) ==> (now < exp && iat > now + 60 ==> (lifetime_fault(
            t.payload,
            now,
        ) matches Some(e) && e.detail == "iat is in the future"@ && !e.expired))),
{
}

/// What else is wrong with an agent token in time is told by the claim.
pub proof fn law_claim_faults_told(t: JwtView, now: u64, insecure: bool)
    requires
        t.header.typ == Some("aa-agent+jwt"@),
        lifetime_fault(t.payload, now) is None,
    ensures
        !(json::str_member(t.payload, "iss"@) matches Some(iss) && ident::is_server_identifier(
            iss,
            insecure,
        )) ==> (agent_claims(t, now, insecure) matches Err(e) && e.detail
            == "iss is not a valid server identifier"@),
        (json::str_member(t.payload, "iss"@) matches Some(iss) && ident::is_server_identifier(
            iss,
            insecure,
        )) && json::str_member(t.payload, "dwk"@) != Some("aauth-agent.json"@) ==> (agent_claims(
            t,
            now,
            insecure,
        ) matches Err(e) && e.detail == "dwk is not aauth-agent.json"@),
        (json::str_member(t.payload, "iss"@) matches Some(iss) && ident::is_server_identifier(
            iss,
            insecure,
        )) && json::str_member(t.payload, "dwk"@) == Some("aauth-agent.json"@) && !(
        json::str_member(t.payload, "sub"@) matches Some(sub) && ident::agent_parts(sub) is Some) ==> (
        agent_claims(t, now, insecure) matches Err(e) && e.detail
            == "sub is not a valid agent identifier"@),
        (json::str_member(t.payload, "iss"@) matches Some(iss) && ident::is_server_identifier(
            iss,
            insecure,
        )) && json::str_member(t.payload, "dwk"@) == Some("aauth-agent.json"@) && (
        json::str_member(t.payload, "sub"@) matches Some(sub) && ident::agent_parts(sub) is Some)
            && confirmed_key(t.payload) is None ==> (agent_claims(t, now, insecure) matches Err(e)
            && e.detail == "missing or invalid cnf.jwk"@),
        agent_claims(t, now, insecure) matches Err(e) ==> !e.expired,
{
}

} // verus!
