//! What metrics and traces are told apart by, and where they are sent.

use vstd::prelude::*;

use crate::config::TelemetryConfig;
use crate::text;

verus! {

/// Where metrics and traces are sent, where nothing else is configured.
pub const DEFAULT_ENDPOINT: &'static str = "http://localhost:4318";

/// The name of the service and of its instruments.
pub const SCOPE: &'static str = "apd";

/// The base of the URLs that signals are sent to: without a slash at the end.
pub fn base_url(cfg: &TelemetryConfig) -> (r: String)
    ensures
        r@ == text::trimmed_end_of(
            match cfg.endpoint {
                Some(e) => e@,
                None => "http://localhost:4318"@,
            },
            '/',
        ),
{
    match &cfg.endpoint {
        Some(e) => text::trim_end_of(e.as_str(), '/'),
        None => text::trim_end_of(DEFAULT_ENDPOINT, '/'),
    }
}

/// The name that the service goes by.
pub fn service_name(cfg: &TelemetryConfig) -> (r: String)
    ensures
        r@ == (match cfg.service_name {
            Some(n) => n@,
            None => "apd"@,
        }),
{
    match &cfg.service_name {
        Some(n) => n.clone(),
        None => SCOPE.to_owned(),
    }
}

/// How many seconds pass between two exports of metrics: one at least.
pub fn metric_interval_secs(cfg: &TelemetryConfig) -> (r: u64)
    ensures
        r == (match cfg.metric_interval_secs {
            Some(n) => if n >= 1 {
                n
            } else {
                1
            },
            None => 30,
        }),
{
    match cfg.metric_interval_secs {
        Some(n) => if n >= 1 {
            n
        } else {
            1
        },
        None => 30,
    }
}

/// Whether a path is that of an endpoint that names nothing.
pub open spec fn is_fixed_path(p: Seq<char>) -> bool {
    p == "/enroll"@ || p == "/agent-token"@ || p == "/subagent-token"@ || p == "/subscribe"@ || p
        == "/events"@ || p == "/inbox"@ || p == "/healthz"@ || p
        == "/.well-known/aauth-agent.json"@ || p == "/.well-known/jwks.json"@ || p
        == "/admin/enrollment-tokens"@ || p == "/admin/agents"@ || p == "/admin/allowed-keys"@
}

/// The form of a path, without the identifiers in it.
pub open spec fn template_of(p: Seq<char>) -> Seq<char> {
    if is_fixed_path(p) {
        p
    } else if text::without_prefix(p, "/subscriptions/"@) is Some {
        "/subscriptions/{eid}"@
    } else if text::without_prefix(p, "/admin/allowed-keys/"@) is Some {
        "/admin/allowed-keys/{jkt}"@
    } else if text::without_prefix(p, "/admin/agents/"@) is Some {
        if text::without_suffix(p, "/revoke"@) is Some {
            "/admin/agents/{id}/revoke"@
        } else if text::without_suffix(p, "/reinstate"@) is Some {
            "/admin/agents/{id}/reinstate"@
        } else {
            "/admin/agents/{id}"@
        }
    } else {
        "other"@
    }
}

fn fixed_path(p: &str) -> (r: Option<&'static str>)
    ensures
        match r {
            Some(t) => is_fixed_path(p@) && t@ == p@,
            None => !is_fixed_path(p@),
        },
{
    if text::same(p, "/enroll") {
        Some("/enroll")
    } else if text::same(p, "/agent-token") {
        Some("/agent-token")
    } else if text::same(p, "/subagent-token") {
        Some("/subagent-token")
    } else if text::same(p, "/subscribe") {
        Some("/subscribe")
    } else if text::same(p, "/events") {
        Some("/events")
    } else if text::same(p, "/inbox") {
        Some("/inbox")
    } else if text::same(p, "/healthz") {
        Some("/healthz")
    } else if text::same(p, "/.well-known/aauth-agent.json") {
        Some("/.well-known/aauth-agent.json")
    } else if text::same(p, "/.well-known/jwks.json") {
        Some("/.well-known/jwks.json")
    } else if text::same(p, "/admin/enrollment-tokens") {
        Some("/admin/enrollment-tokens")
    } else if text::same(p, "/admin/agents") {
        Some("/admin/agents")
    } else if text::same(p, "/admin/allowed-keys") {
        Some("/admin/allowed-keys")
    } else {
        None
    }
}

/// The form of a path, without the identifiers in it: so few of them come up
/// that metrics can be told apart by it.
pub fn route_template(path: &str) -> (r: &'static str)
    ensures
        r@ == template_of(path@),
{
    if let Some(t) = fixed_path(path) {
        return t;
    }
    if text::starts_with(path, "/subscriptions/") {
        "/subscriptions/{eid}"
    } else if text::starts_with(path, "/admin/allowed-keys/") {
        "/admin/allowed-keys/{jkt}"
    } else if text::starts_with(path, "/admin/agents/") {
        if text::ends_with(path, "/revoke") {
            "/admin/agents/{id}/revoke"
        } else if text::ends_with(path, "/reinstate") {
            "/admin/agents/{id}/reinstate"
        } else {
            "/admin/agents/{id}"
        }
    } else {
        "other"
    }
}

/// The class of a status.
pub open spec fn class_of(status: u16) -> Seq<char> {
    if 200 <= status <= 299 {
        "2xx"@
    } else if 300 <= status <= 399 {
        "3xx"@
    } else if 400 <= status <= 499 {
        "4xx"@
    } else if 500 <= status <= 599 {
        "5xx"@
    } else {
        "other"@
    }
}

/// The class of a status.
pub fn status_class(status: u16) -> (r: &'static str)
    ensures
        r@ == class_of(status),
{
    match status / 100 {
        2 => "2xx",
        3 => "3xx",
        4 => "4xx",
        5 => "5xx",
        _ => "other",
    }
}

/// However many paths come up, the forms of them are these few.
pub proof fn law_few_templates(p: Seq<char>)
    ensures
        is_fixed_path(template_of(p)) || template_of(p) == "/subscriptions/{eid}"@ || template_of(p)
            == "/admin/allowed-keys/{jkt}"@ || template_of(p) == "/admin/agents/{id}/revoke"@
            || template_of(p) == "/admin/agents/{id}/reinstate"@ || template_of(p)
            == "/admin/agents/{id}"@ || template_of(p) == "other"@,
{
}

/// The class of a status is its hundred.
pub proof fn law_status_class(status: u16)
    ensures
        status / 100 == 2 ==> class_of(status) == "2xx"@,
        status / 100 == 3 ==> class_of(status) == "3xx"@,
        status / 100 == 4 ==> class_of(status) == "4xx"@,
        status / 100 == 5 ==> class_of(status) == "5xx"@,
        status / 100 < 2 || status / 100 > 5 ==> class_of(status) == "other"@,
{
}

/// A path that names nothing is its own form; one that names something is told
/// without what it names.
pub proof fn law_path_forms(p: Seq<char>)
    ensures
        is_fixed_path(p) ==> template_of(p) == p,
        !is_fixed_path(p) && "/subscriptions/"@.is_prefix_of(p) ==> template_of(p)
            == "/subscriptions/{eid}"@,
        !is_fixed_path(p) && !"/subscriptions/"@.is_prefix_of(p)
            && "/admin/allowed-keys/"@.is_prefix_of(p) ==> template_of(p)
            == "/admin/allowed-keys/{jkt}"@,
        !is_fixed_path(p) && !"/subscriptions/"@.is_prefix_of(p)
            && !"/admin/allowed-keys/"@.is_prefix_of(p) && "/admin/agents/"@.is_prefix_of(p) ==> (
        if "/revoke"@.is_suffix_of(p) {
            template_of(p) == "/admin/agents/{id}/revoke"@
        } else if "/reinstate"@.is_suffix_of(p) {
            template_of(p) == "/admin/agents/{id}/reinstate"@
        } else {
            template_of(p) == "/admin/agents/{id}"@
        }),
        !is_fixed_path(p) && !"/subscriptions/"@.is_prefix_of(p)
            && !"/admin/allowed-keys/"@.is_prefix_of(p) && !"/admin/agents/"@.is_prefix_of(p)
            ==> template_of(p) == "other"@,
{
}

/// The paths that name nothing.
pub proof fn law_fixed_paths(p: Seq<char>)
    ensures
        is_fixed_path(p) == (p == "/enroll"@ || p == "/agent-token"@ || p == "/subagent-token"@ || p
            == "/subscribe"@ || p == "/events"@ || p == "/inbox"@ || p == "/healthz"@ || p
            == "/.well-known/aauth-agent.json"@ || p == "/.well-known/jwks.json"@ || p
            == "/admin/enrollment-tokens"@ || p == "/admin/agents"@ || p == "/admin/allowed-keys"@),
{
}

} // verus!
