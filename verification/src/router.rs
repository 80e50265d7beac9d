//! Which endpoint a request goes to.

use vstd::prelude::*;

use crate::problem;
use crate::problem::ApiError;
use crate::text;

verus! {

/// The endpoints.
pub enum Route {
    AgentMetadata,
    Jwks,
    Healthz,
    Enroll,
    AgentToken,
    SubagentToken,
    Subscribe,
    Events,
    Inbox,
    MintEnrollmentToken,
    ListAgents,
    AddAllowedKey,
    ListAllowedKeys,
    CancelSubscription(String),
    RemoveAllowedKey(String),
    RevokeAgent(String),
    ReinstateAgent(String),
    GetAgent(String),
    NotFound,
}

/// The same, as mathematics has it.
pub enum RouteView {
    AgentMetadata,
    Jwks,
    Healthz,
    Enroll,
    AgentToken,
    SubagentToken,
    Subscribe,
    Events,
    Inbox,
    MintEnrollmentToken,
    ListAgents,
    AddAllowedKey,
    ListAllowedKeys,
    CancelSubscription(Seq<char>),
    RemoveAllowedKey(Seq<char>),
    RevokeAgent(Seq<char>),
    ReinstateAgent(Seq<char>),
    GetAgent(Seq<char>),
    NotFound,
}

impl Route {
    /// Which endpoint it is.
    pub open spec fn view(&self) -> RouteView {
        match self {
            Route::AgentMetadata => RouteView::AgentMetadata,
            Route::Jwks => RouteView::Jwks,
            Route::Healthz => RouteView::Healthz,
            Route::Enroll => RouteView::Enroll,
            Route::AgentToken => RouteView::AgentToken,
            Route::SubagentToken => RouteView::SubagentToken,
            Route::Subscribe => RouteView::Subscribe,
            Route::Events => RouteView::Events,
            Route::Inbox => RouteView::Inbox,
            Route::MintEnrollmentToken => RouteView::MintEnrollmentToken,
            Route::ListAgents => RouteView::ListAgents,
            Route::AddAllowedKey => RouteView::AddAllowedKey,
            Route::ListAllowedKeys => RouteView::ListAllowedKeys,
            Route::CancelSubscription(s) => RouteView::CancelSubscription(s@),
            Route::RemoveAllowedKey(s) => RouteView::RemoveAllowedKey(s@),
            Route::RevokeAgent(s) => RouteView::RevokeAgent(s@),
            Route::ReinstateAgent(s) => RouteView::ReinstateAgent(s@),
            Route::GetAgent(s) => RouteView::GetAgent(s@),
            Route::NotFound => RouteView::NotFound,
        }
    }
}

/// One step of a path: not empty, and without a slash.
pub open spec fn is_segment(s: Seq<char>) -> bool {
    s.len() > 0 && !s.contains('/')
}

/// The endpoint of an agent: what follows `/admin/agents/`.
pub open spec fn agent_route(method: Seq<char>, rest: Seq<char>) -> RouteView {
    match text::without_suffix(rest, "/revoke"@) {
        Some(local) => if method == "POST"@ {
            RouteView::RevokeAgent(local)
        } else {
            RouteView::NotFound
        },
        None => match text::without_suffix(rest, "/reinstate"@) {
            Some(local) => if method == "POST"@ {
                RouteView::ReinstateAgent(local)
            } else {
                RouteView::NotFound
            },
            None => if method == "GET"@ && is_segment(rest) {
                RouteView::GetAgent(rest)
            } else {
                RouteView::NotFound
            },
        },
    }
}

/// The endpoint of a path that names something.
pub open spec fn named_route(method: Seq<char>, path: Seq<char>) -> RouteView {
    let eid = text::without_prefix(path, "/subscriptions/"@);
    let jkt = text::without_prefix(path, "/admin/allowed-keys/"@);
    if eid is Some && method == "DELETE"@ && is_segment(eid->0) {
        RouteView::CancelSubscription(eid->0)
    } else if jkt is Some && method == "DELETE"@ && is_segment(jkt->0) {
        RouteView::RemoveAllowedKey(jkt->0)
    } else {
        match text::without_prefix(path, "/admin/agents/"@) {
            Some(rest) => agent_route(method, rest),
            None => RouteView::NotFound,
        }
    }
}

/// The endpoint that a request goes to.
pub open spec fn route_of(method: Seq<char>, path: Seq<char>) -> RouteView {
    let get = method == "GET"@;
    let post = method == "POST"@;
    if get && path == "/.well-known/aauth-agent.json"@ {
        RouteView::AgentMetadata
    } else if get && path == "/.well-known/jwks.json"@ {
        RouteView::Jwks
    } else if get && path == "/healthz"@ {
        RouteView::Healthz
    } else if post && path == "/enroll"@ {
        RouteView::Enroll
    } else if post && path == "/agent-token"@ {
        RouteView::AgentToken
    } else if post && path == "/subagent-token"@ {
        RouteView::SubagentToken
    } else if post && path == "/subscribe"@ {
        RouteView::Subscribe
    } else if post && path == "/events"@ {
        RouteView::Events
    } else if get && path == "/inbox"@ {
        RouteView::Inbox
    } else if post && path == "/admin/enrollment-tokens"@ {
        RouteView::MintEnrollmentToken
    } else if get && path == "/admin/agents"@ {
        RouteView::ListAgents
    } else if post && path == "/admin/allowed-keys"@ {
        RouteView::AddAllowedKey
    } else if get && path == "/admin/allowed-keys"@ {
        RouteView::ListAllowedKeys
    } else {
        named_route(method, path)
    }
}

fn segment(s: &str) -> (r: bool)
    ensures
        r == is_segment(s@),
{
    s.unicode_len() > 0 && !text::contains_char(s, '/')
}

fn route_agent(method: &str, rest: &str) -> (r: Route)
    ensures
        r@ == agent_route(method@, rest@),
{
    if let Some(local) = text::strip_suffix(rest, "/revoke") {
        if text::same(method, "POST") {
            Route::RevokeAgent(local)
        } else {
            Route::NotFound
        }
    } else if let Some(local) = text::strip_suffix(rest, "/reinstate") {
        if text::same(method, "POST") {
            Route::ReinstateAgent(local)
        } else {
            Route::NotFound
        }
    } else if text::same(method, "GET") && segment(rest) {
        Route::GetAgent(rest.to_owned())
    } else {
        Route::NotFound
    }
}

fn route_named(method: &str, path: &str) -> (r: Route)
    ensures
        r@ == named_route(method@, path@),
{
    if let Some(eid) = text::strip_prefix(path, "/subscriptions/") {
        if text::same(method, "DELETE") && segment(eid.as_str()) {
            return Route::CancelSubscription(eid);
        }
    }
    if let Some(jkt) = text::strip_prefix(path, "/admin/allowed-keys/") {
        if text::same(method, "DELETE") && segment(jkt.as_str()) {
            return Route::RemoveAllowedKey(jkt);
        }
    }
    match text::strip_prefix(path, "/admin/agents/") {
        Some(rest) => route_agent(method, rest.as_str()),
        None => Route::NotFound,
    }
}

/// Finds the endpoint that a request goes to.
pub fn route(method: &str, path: &str) -> (r: Route)
    ensures
        r@ == route_of(method@, path@),
{
    let get = text::same(method, "GET");
    let post = text::same(method, "POST");
    if get && text::same(path, "/.well-known/aauth-agent.json") {
        Route::AgentMetadata
    } else if get && text::same(path, "/.well-known/jwks.json") {
        Route::Jwks
    } else if get && text::same(path, "/healthz") {
        Route::Healthz
    } else if post && text::same(path, "/enroll") {
        Route::Enroll
    } else if post && text::same(path, "/agent-token") {
        Route::AgentToken
    } else if post && text::same(path, "/subagent-token") {
        Route::SubagentToken
    } else if post && text::same(path, "/subscribe") {
        Route::Subscribe
    } else if post && text::same(path, "/events") {
        Route::Events
    } else if get && text::same(path, "/inbox") {
        Route::Inbox
    } else if post && text::same(path, "/admin/enrollment-tokens") {
        Route::MintEnrollmentToken
    } else if get && text::same(path, "/admin/agents") {
        Route::ListAgents
    } else if post && text::same(path, "/admin/allowed-keys") {
        Route::AddAllowedKey
    } else if get && text::same(path, "/admin/allowed-keys") {
        Route::ListAllowedKeys
    } else {
        route_named(method, path)
    }
}

/// What is answered to a request that goes nowhere.
pub fn no_route(method: &str, path: &str) -> (r: ApiError)
    ensures
        r@ == problem::not_found("not_found"@, "no route for "@ + method@ + " "@ + path@),
{
    let mut out = text::join3("no route for ", method, " ");
    out.append(path);
    ApiError::not_found("not_found", out.as_str())
}

/// Each endpoint has its method and its path, and no other request goes to it.
pub proof fn law_routes(method: Seq<char>, path: Seq<char>)
    ensures
        (route_of(method, path) is AgentMetadata) == (method == "GET"@ && path
            == "/.well-known/aauth-agent.json"@),
        (route_of(method, path) is Jwks) == (method == "GET"@ && path == "/.well-known/jwks.json"@),
        (route_of(method, path) is Healthz) == (method == "GET"@ && path == "/healthz"@),
        (route_of(method, path) is Enroll) == (method == "POST"@ && path == "/enroll"@),
        (route_of(method, path) is AgentToken) == (method == "POST"@ && path == "/agent-token"@),
        (route_of(method, path) is SubagentToken) == (method == "POST"@ && path
            == "/subagent-token"@),
        (route_of(method, path) is Subscribe) == (method == "POST"@ && path == "/subscribe"@),
        (route_of(method, path) is Events) == (method == "POST"@ && path == "/events"@),
        (route_of(method, path) is Inbox) == (method == "GET"@ && path == "/inbox"@),
        (route_of(method, path) is MintEnrollmentToken) == (method == "POST"@ && path
            == "/admin/enrollment-tokens"@),
        (route_of(method, path) is ListAgents) == (method == "GET"@ && path == "/admin/agents"@),
        (route_of(method, path) is AddAllowedKey) == (method == "POST"@ && path
            == "/admin/allowed-keys"@),
        (route_of(method, path) is ListAllowedKeys) == (method == "GET"@ && path
            == "/admin/allowed-keys"@),
{
    lemma_methods();
    reveal_strlit("/.well-known/aauth-agent.json");
    reveal_strlit("/.well-known/jwks.json");
    reveal_strlit("/healthz");
    reveal_strlit("/enroll");
    reveal_strlit("/agent-token");
    reveal_strlit("/subagent-token");
    reveal_strlit("/subscribe");
    reveal_strlit("/events");
    reveal_strlit("/inbox");
    reveal_strlit("/admin/enrollment-tokens");
    reveal_strlit("/admin/agents");
    reveal_strlit("/admin/allowed-keys");
    assert("/.well-known/aauth-agent.json"@.len() == 29 && "/.well-known/jwks.json"@.len() == 22 && "/healthz"@.len() == 8 && "/enroll"@.len() == 7 && "/agent-token"@.len() == 12 && "/subagent-token"@.len() == 15 && "/subscribe"@.len() == 10 && "/events"@.len() == 7 && "/inbox"@.len() == 6 && "/admin/enrollment-tokens"@.len() == 24 && "/admin/agents"@.len() == 13 && "/admin/allowed-keys"@.len() == 19);
    assert("/enroll"@[2] == 'n');
    assert("/events"@[2] == 'v');
}

proof fn lemma_methods()
    ensures
        "GET"@ != "POST"@,
        "GET"@ != "DELETE"@,
        "POST"@ != "DELETE"@,
{
    reveal_strlit("GET");
    reveal_strlit("POST");
    reveal_strlit("DELETE");
    assert("GET"@.len() == 3 && "POST"@.len() == 4 && "DELETE"@.len() == 6);
}

proof fn lemma_behind(p: Seq<char>, s: Seq<char>)
    ensures
        text::without_prefix(p + s, p) == Some(s),
        text::without_suffix(s + p, p) == Some(s),
{
    assert((p + s).skip(p.len() as int) =~= s);
    assert(p.is_prefix_of(p + s));
    assert((s + p).take((s + p).len() - p.len()) =~= s);
    assert((s + p).subrange(s.len() as int, (s + p).len() as int) =~= p);
}

/// What is cancelled or withdrawn is named by the last step of the path.
pub proof fn law_named_routes(s: Seq<char>)
    requires
        s.len() > 0,
        !s.contains('/'),
    ensures
        route_of("DELETE"@, "/subscriptions/"@ + s) == RouteView::CancelSubscription(s),
        route_of("DELETE"@, "/admin/allowed-keys/"@ + s) == RouteView::RemoveAllowedKey(s),
{
    lemma_methods();
    lemma_behind("/subscriptions/"@, s);
    lemma_behind("/admin/allowed-keys/"@, s);
    reveal_strlit("/subscriptions/");
    reveal_strlit("/admin/allowed-keys/");
    assert(("/admin/allowed-keys/"@ + s)[1] == 'a');
    assert("/subscriptions/"@[1] == 's');
    if "/subscriptions/"@.is_prefix_of("/admin/allowed-keys/"@ + s) {
        assert(("/admin/allowed-keys/"@ + s).subrange(0, 15)[1] == "/subscriptions/"@[1]);
    }
}

/// An agent is revoked and reinstated by posting to its own path.
pub proof fn law_agent_routes(method: Seq<char>, local: Seq<char>)
    ensures
        agent_route("POST"@, local + "/revoke"@) == RouteView::RevokeAgent(local),
        agent_route("POST"@, local + "/reinstate"@) == RouteView::ReinstateAgent(local),
        method != "POST"@ ==> agent_route(method, local + "/revoke"@) is NotFound,
        method != "POST"@ ==> agent_route(method, local + "/reinstate"@) is NotFound,
        is_segment(local) ==> agent_route("GET"@, local) == RouteView::GetAgent(local),
        is_segment(local) == (local.len() > 0 && !local.contains('/')),
{
    lemma_methods();
    lemma_behind("/revoke"@, local);
    lemma_behind("/reinstate"@, local);
    reveal_strlit("/revoke");
    reveal_strlit("/reinstate");
    let r = local + "/reinstate"@;
    assert(r[r.len() - 2] == 't');
    if "/revoke"@.is_suffix_of(r) {
        assert(r.subrange(r.len() - 7, r.len() as int)[5] == "/revoke"@[5]);
    }
    if is_segment(local) {
        if "/revoke"@.is_suffix_of(local) {
            assert(local.subrange(local.len() - 7, local.len() as int)[0] == '/');
            assert(local[local.len() - 7] == '/');
        }
        if "/reinstate"@.is_suffix_of(local) {
            assert(local.subrange(local.len() - 10, local.len() as int)[0] == '/');
            assert(local[local.len() - 10] == '/');
        }
    }
}

/// The path of an agent begins with `/admin/agents/`, by any method but for the
/// withdrawals.
pub proof fn law_agent_paths(method: Seq<char>, rest: Seq<char>)
    ensures
        named_route(method, "/admin/agents/"@ + rest) == agent_route(method, rest),
{
    lemma_behind("/admin/agents/"@, rest);
    reveal_strlit("/admin/agents/");
    reveal_strlit("/subscriptions/");
    reveal_strlit("/admin/allowed-keys/");
    let p = "/admin/agents/"@ + rest;
    assert(p[1] == 'a' && p[8] == 'g');
    if "/subscriptions/"@.is_prefix_of(p) {
        assert(p.subrange(0, 15)[1] == "/subscriptions/"@[1]);
    }
    if "/admin/allowed-keys/"@.is_prefix_of(p) {
        assert(p.subrange(0, 20)[8] == "/admin/allowed-keys/"@[8]);
    }
}

/// Every other path is looked at for what it names.
pub proof fn law_other_paths(method: Seq<char>, rest: Seq<char>)
    requires
        rest.len() > 0,
    ensures
        route_of(method, "/admin/agents/"@ + rest) == agent_route(method, rest),
{
    law_agent_paths(method, rest);
    law_routes(method, "/admin/agents/"@ + rest);
    reveal_strlit("/admin/agents/");
    let p = "/admin/agents/"@ + rest;
    assert(p[1] == 'a' && p[2] == 'd' && p[7] == 'a' && p[8] == 'g' && p[13] == '/');
    reveal_strlit("/.well-known/aauth-agent.json");
    reveal_strlit("/.well-known/jwks.json");
    reveal_strlit("/healthz");
    reveal_strlit("/enroll");
    reveal_strlit("/agent-token");
    reveal_strlit("/subagent-token");
    reveal_strlit("/subscribe");
    reveal_strlit("/events");
    reveal_strlit("/inbox");
    reveal_strlit("/admin/enrollment-tokens");
    reveal_strlit("/admin/agents");
    reveal_strlit("/admin/allowed-keys");
    assert("/.well-known/aauth-agent.json"@.len() == 29 && "/.well-known/jwks.json"@.len() == 22 && "/healthz"@.len() == 8 && "/enroll"@.len() == 7 && "/agent-token"@.len() == 12 && "/subagent-token"@.len() == 15 && "/subscribe"@.len() == 10 && "/events"@.len() == 7 && "/inbox"@.len() == 6 && "/admin/enrollment-tokens"@.len() == 24 && "/admin/agents"@.len() == 13 && "/admin/allowed-keys"@.len() == 19);
    assert("/enroll"@[2] == 'n');
    assert("/events"@[2] == 'v');
    assert("/.well-known/aauth-agent.json"@[1] == '.' && "/.well-known/jwks.json"@[1] == '.');
    assert("/healthz"@[1] == 'h' && "/enroll"@[1] == 'e' && "/agent-token"@[2] == 'g');
    assert("/subagent-token"@[1] == 's' && "/subscribe"@[1] == 's' && "/events"@[1] == 'e');
    assert("/inbox"@[1] == 'i' && "/admin/enrollment-tokens"@[7] == 'e');
    assert("/admin/allowed-keys"@[8] == 'l');
}

} // verus!
