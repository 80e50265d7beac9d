//! Configuration: what an operator may set, its defaults, and the rules that it
//! has to meet before the provider starts.

use vstd::prelude::*;

use crate::ident;
use crate::json;
use crate::json::{Json, JsonValue};
use crate::text;

verus! {

/// The longest lifetime of an agent token.
pub const AGENT_TOKEN_MAX_TTL_SECS: u64 = 86400;

/// The whole configuration.
pub struct Config {
    /// The provider's server identifier; this URL serves the well-known documents.
    pub issuer: String,
    /// The address to listen on.
    pub listen: String,
    /// The file that holds the signing keys.
    pub keys_file: String,
    pub storage: StorageConfig,
    /// The lifetime of agent tokens.
    pub agent_token_ttl_secs: u64,
    /// The registration window of subscribe tokens.
    pub subscribe_token_ttl_secs: u64,
    /// How far the `created` time of an HTTP signature may be off.
    pub signature_window_secs: u64,
    /// The longest lifetime of a naming JWT.
    pub naming_jwt_max_lifetime_secs: u64,
    pub enrollment: EnrollmentConfig,
    /// The shared bearer token of the admin API.
    pub admin_token: Option<String>,
    /// The identity provider of the admin API.
    pub admin_oidc: Option<AdminOidcConfig>,
    /// Whether a token request may name another Person Server than the
    /// enrollment did.
    pub allow_ps_override: bool,
    pub metadata: MetadataConfig,
    pub events: EventsConfig,
    /// For development only: `http`, ports and private addresses are accepted.
    pub insecure_dev_mode: bool,
    /// The largest request body.
    pub max_body_bytes: usize,
    /// Hosts that may serve the keys of an issuer on another host.
    pub jwks_cross_origin_hosts: Vec<String>,
    /// The file that audit events are appended to.
    pub audit_log_file: Option<String>,
    pub telemetry: TelemetryConfig,
    pub revocation: RevocationConfig,
    /// The authority that signed requests must name, where it is not the
    /// issuer's.
    pub expected_authority: Option<String>,
}

/// The identity provider whose tokens open the admin API.
pub struct AdminOidcConfig {
    /// The issuer URL; a token's `iss` must equal it.
    pub issuer: String,
    /// The audience that a token must name.
    pub audience: String,
    /// Claim path and matcher: who may administer.
    pub required_claims: Vec<(String, JsonValue)>,
    /// The claim that names the operator in the audit log.
    pub principal_claim: String,
    /// The key set's URL, where discovery is not wanted.
    pub jwks_uri: Option<String>,
}

/// Whether a Person Server is told of revoked tokens.
pub struct RevocationConfig {
    pub notify_ps: bool,
    /// How many outstanding token identifiers are tracked for one agent.
    pub max_tracked_tokens: usize,
}

/// Export of metrics and traces.
pub struct TelemetryConfig {
    pub enabled: bool,
    pub endpoint: Option<String>,
    pub service_name: Option<String>,
    pub metric_interval_secs: Option<u64>,
}

/// Where state is kept.
pub struct StorageConfig {
    /// `memory`, `file` or `redis`.
    pub backend: String,
    pub path: Option<String>,
    pub redis_addr: Option<String>,
    pub key_prefix: String,
}

/// How agents are admitted.
pub struct EnrollmentConfig {
    /// One method, in the older form.
    pub mode: Option<String>,
    /// The methods: `token`, `federated`, `allowlist`, `open`.
    pub methods: Option<Vec<String>>,
    /// The Person Server of tokens for which nothing else names one.
    pub default_ps: Option<String>,
    pub trusted_issuers: Vec<TrustedIssuer>,
    pub static_tokens: Vec<StaticEnrollToken>,
}

/// An enrollment token that is known in advance and can be used again.
pub struct StaticEnrollToken {
    pub token: String,
    pub ps: Option<String>,
    pub label: Option<String>,
}

/// An issuer whose assertions admit agents.
pub struct TrustedIssuer {
    pub name: String,
    /// `oidc`, `jwks_uri`, `jwks_file`, `jwks`, `x5c` or `spiffe`.
    pub issuer_type: String,
    /// The `iss` of its assertions.
    pub issuer: String,
    /// The audience of its assertions, where it is not the provider's issuer.
    pub audience: Option<String>,
    pub jwks_uri: Option<String>,
    pub jwks_file: Option<String>,
    pub jwks: Option<JsonValue>,
    pub ca_bundle_file: Option<String>,
    pub crl_file: Option<String>,
    /// Patterns, one of which a name of the leaf certificate must meet.
    pub required_sans: Vec<String>,
    /// Claim path and matcher.
    pub required_claims: Vec<(String, JsonValue)>,
    /// Claim path in the assertion, and the name of the claim in agent tokens.
    pub embed_claims: Vec<(String, JsonValue)>,
    /// Whether an assertion must be bound to the enrolling key.
    pub require_cnf_binding: bool,
    /// Whether an assertion can be used once only.
    pub single_use_jti: Option<bool>,
    /// The Person Server of these enrollments.
    pub ps: Option<String>,
    pub label: Option<String>,
    /// Whether its keys may be fetched over `http` and from private addresses.
    pub allow_insecure_egress: bool,
    pub trust_domain: Option<String>,
    pub assurance: Option<String>,
}

/// What the well-known metadata shows.
pub struct MetadataConfig {
    pub name: Option<String>,
    pub description: Option<String>,
    pub logo_uri: Option<String>,
    pub logo_dark_uri: Option<String>,
    pub documentation_uri: Option<String>,
    pub tos_uri: Option<String>,
    pub policy_uri: Option<String>,
}

/// The event inbox.
pub struct EventsConfig {
    pub enabled: bool,
    /// How long events that nobody fetched are kept.
    pub inbox_ttl_secs: u64,
    /// How many events wait for one agent; the oldest are dropped.
    pub max_pending_per_agent: usize,
    /// The largest event payload.
    pub max_payload_bytes: usize,
}

// -------------------------------------------------------------- defaults

pub fn default_principal_claim() -> (r: String)
    ensures
        r@ == "sub"@,
{
    "sub".to_owned()
}

pub fn default_max_tracked() -> (r: usize)
    ensures
        r == 64,
{
    64
}

pub fn default_listen() -> (r: String)
    ensures
        r@ == "127.0.0.1:8420"@,
{
    "127.0.0.1:8420".to_owned()
}

pub fn default_keys_file() -> (r: String)
    ensures
        r@ == "apd-keys.json"@,
{
    "apd-keys.json".to_owned()
}

pub fn default_backend() -> (r: String)
    ensures
        r@ == "memory"@,
{
    "memory".to_owned()
}

pub fn default_prefix() -> (r: String)
    ensures
        r@ == "apd:"@,
{
    "apd:".to_owned()
}

pub fn default_agent_token_ttl() -> (r: u64)
    ensures
        r == 3600,
{
    3600
}

pub fn default_subscribe_token_ttl() -> (r: u64)
    ensures
        r == 86400,
{
    86400
}

pub fn default_signature_window() -> (r: u64)
    ensures
        r == 60,
{
    60
}

pub fn default_naming_jwt_max() -> (r: u64)
    ensures
        r == 300,
{
    300
}

pub fn default_inbox_ttl() -> (r: u64)
    ensures
        r == 604800,
{
    604800
}

pub fn default_inbox_max() -> (r: usize)
    ensures
        r == 1000,
{
    1000
}

pub fn default_max_payload() -> (r: usize)
    ensures
        r == 65536,
{
    65536
}

pub fn default_max_body() -> (r: usize)
    ensures
        r == 65536,
{
    65536
}

pub fn default_true() -> (r: bool)
    ensures
        r,
{
    true
}

impl Default for RevocationConfig {
    fn default() -> (r: Self)
        ensures
            r.notify_ps,
            r.max_tracked_tokens == 64,
    {
        RevocationConfig { notify_ps: true, max_tracked_tokens: default_max_tracked() }
    }
}

impl Default for TelemetryConfig {
    fn default() -> (r: Self)
        ensures
            !r.enabled,
            r.endpoint is None,
            r.service_name is None,
            r.metric_interval_secs is None,
    {
        TelemetryConfig {
            enabled: false,
            endpoint: None,
            service_name: None,
            metric_interval_secs: None,
        }
    }
}

impl Default for StorageConfig {
    fn default() -> (r: Self)
        ensures
            r.backend@ == "memory"@,
            r.path is None,
            r.redis_addr is None,
            r.key_prefix@ == "apd:"@,
    {
        StorageConfig {
            backend: default_backend(),
            path: None,
            redis_addr: None,
            key_prefix: default_prefix(),
        }
    }
}

impl Default for EnrollmentConfig {
    fn default() -> (r: Self)
        ensures
            r.mode is None,
            r.methods is None,
            r.default_ps is None,
            r.trusted_issuers@.len() == 0,
            r.static_tokens@.len() == 0,
    {
        EnrollmentConfig {
            mode: None,
            methods: None,
            default_ps: None,
            trusted_issuers: Vec::new(),
            static_tokens: Vec::new(),
        }
    }
}

impl Default for MetadataConfig {
    fn default() -> (r: Self)
        ensures
            r.name is None,
            r.description is None,
            r.logo_uri is None,
            r.logo_dark_uri is None,
            r.documentation_uri is None,
            r.tos_uri is None,
            r.policy_uri is None,
    {
        MetadataConfig {
            name: None,
            description: None,
            logo_uri: None,
            logo_dark_uri: None,
            documentation_uri: None,
            tos_uri: None,
            policy_uri: None,
        }
    }
}

impl Default for EventsConfig {
    fn default() -> (r: Self)
        ensures
            r.enabled,
            r.inbox_ttl_secs == 604800,
            r.max_pending_per_agent == 1000,
            r.max_payload_bytes == 65536,
    {
        EventsConfig {
            enabled: default_true(),
            inbox_ttl_secs: default_inbox_ttl(),
            max_pending_per_agent: default_inbox_max(),
            max_payload_bytes: default_max_payload(),
        }
    }
}

impl Default for TrustedIssuer {
    fn default() -> (r: Self)
        ensures
            r.name@.len() == 0,
            r.issuer_type@.len() == 0,
            r.issuer@.len() == 0,
            r.audience is None,
            r.jwks_uri is None,
            r.jwks_file is None,
            r.jwks is None,
            r.ca_bundle_file is None,
            r.crl_file is None,
            r.required_sans@.len() == 0,
            r.required_claims@.len() == 0,
            r.embed_claims@.len() == 0,
            !r.require_cnf_binding,
            r.single_use_jti is None,
            r.ps is None,
            r.label is None,
            !r.allow_insecure_egress,
            r.trust_domain is None,
            r.assurance is None,
    {
        TrustedIssuer {
            name: String::new(),
            issuer_type: String::new(),
            issuer: String::new(),
            audience: None,
            jwks_uri: None,
            jwks_file: None,
            jwks: None,
            ca_bundle_file: None,
            crl_file: None,
            required_sans: Vec::new(),
            required_claims: Vec::new(),
            embed_claims: Vec::new(),
            require_cnf_binding: false,
            single_use_jti: None,
            ps: None,
            label: None,
            allow_insecure_egress: false,
            trust_domain: None,
            assurance: None,
        }
    }
}

impl TrustedIssuer {
    /// The identity provider of the admin API as a trusted issuer, so that its
    /// keys are resolved in the same way.
    pub fn for_admin_idp(o: &AdminOidcConfig) -> (r: TrustedIssuer)
        ensures
            r.name@ == "admin-idp"@,
            r.issuer_type@ == "oidc"@,
            r.issuer@ == o.issuer@,
            text::opt_view(r.audience) == Some(o.audience@),
            text::opt_view(r.jwks_uri) == text::opt_view(o.jwks_uri),
            r.jwks_file is None,
            r.jwks is None,
            r.ca_bundle_file is None,
            r.crl_file is None,
            r.required_sans@.len() == 0,
            r.required_claims@.len() == 0,
            r.embed_claims@.len() == 0,
            !r.require_cnf_binding,
            r.single_use_jti is None,
            r.ps is None,
            r.label is None,
            !r.allow_insecure_egress,
            r.trust_domain is None,
            r.assurance is None,
    {
        let mut out = TrustedIssuer::default();
        out.name = "admin-idp".to_owned();
        out.issuer_type = "oidc".to_owned();
        out.issuer = o.issuer.clone();
        out.audience = Some(o.audience.clone());
        out.jwks_uri = o.jwks_uri.clone();
        out
    }
}

// --------------------------------------------------------------- methods

impl EnrollmentConfig {
    /// The enabled methods.
    pub open spec fn method_names(&self) -> Seq<Seq<char>> {
        match self.methods {
            Some(m) => text::list_view(m@),
            None => match self.mode {
                Some(m) => seq![m@],
                None => seq!["token"@],
            },
        }
    }

    /// The enabled methods: the list, else the one of the older form, else
    /// `token`.
    pub fn effective_methods(&self) -> (r: Vec<String>)
        ensures
            text::list_view(r@) == self.method_names(),
    {
        match &self.methods {
            Some(m) => copy_texts(m),
            None => {
                let mut out: Vec<String> = Vec::new();
                match &self.mode {
                    Some(m) => {
                        out.push(m.clone());
                        proof {
                            assert(text::list_view(out@) =~= seq![m@]);
                        }
                    },
                    None => {
                        out.push("token".to_owned());
                        proof {
                            assert(text::list_view(out@) =~= seq!["token"@]);
                        }
                    },
                }
                out
            },
        }
    }

    /// Whether a method is enabled.
    pub fn method_enabled(&self, method: &str) -> (r: bool)
        ensures
            r == self.method_names().contains(method@),
    {
        let all = self.effective_methods();
        contains_text(&all, method)
    }
}

/// A list of the same texts.
pub fn copy_texts(v: &Vec<String>) -> (r: Vec<String>)
    ensures
        text::list_view(r@) == text::list_view(v@),
{
    let mut out: Vec<String> = Vec::new();
    let mut i: usize = 0;
    while i < v.len()
        invariant
            i <= v@.len(),
            out@.len() == i,
            forall|j: int| 0 <= j < i ==> #[trigger] out@[j]@ == v@[j]@,
        decreases v@.len() - i,
    {
        out.push(v[i].clone());
        i += 1;
    }
    proof {
        assert(text::list_view(out@) =~= text::list_view(v@));
    }
    out
}

/// Whether a text stands in a list.
pub fn contains_text(v: &Vec<String>, s: &str) -> (r: bool)
    ensures
        r == text::list_view(v@).contains(s@),
{
    let ghost all = text::list_view(v@);
    let mut i: usize = 0;
    while i < v.len()
        invariant
            i <= v@.len(),
            all == text::list_view(v@),
            forall|j: int| 0 <= j < i ==> #[trigger] all[j] != s@,
        decreases v@.len() - i,
    {
        if text::same(v[i].as_str(), s) {
            proof {
                assert(all[i as int] == s@);
            }
            return true;
        }
        i += 1;
    }
    false
}

// ------------------------------------------------------------- authority

impl Config {
    /// The authority that a signed request has to name.
    pub open spec fn authority_spec(&self) -> Seq<char> {
        match self.expected_authority {
            Some(a) => text::lowered(a@),
            None => {
                let https = "https://"@.is_prefix_of(self.issuer@);
                let rest = match ident::after_scheme(self.issuer@) {
                    Some(rest) => rest,
                    None => self.issuer@,
                };
                let named = text::lowered(ident::authority_of(rest));
                let port = if https {
                    ":443"@
                } else {
                    ":80"@
                };
                match text::without_suffix(named, port) {
                    Some(host) => host,
                    None => named,
                }
            },
        }
    }

    /// The authority that a signed request has to name: the configured one, else
    /// the issuer's, without the scheme's own port, in lower case.
    pub fn required_authority(&self) -> (r: String)
        ensures
            r@ == self.authority_spec(),
    {
        if let Some(a) = &self.expected_authority {
            return text::to_ascii_lowercase(a.as_str());
        }
        let https = text::starts_with(self.issuer.as_str(), "https://");
        let rest = match text::strip_prefix(self.issuer.as_str(), "https://") {
            Some(rest) => rest,
            None => match text::strip_prefix(self.issuer.as_str(), "http://") {
                Some(rest) => rest,
                None => self.issuer.clone(),
            },
        };
        let whole = ident::authority(rest.as_str());
        let named = text::to_ascii_lowercase(whole.as_str());
        let port = if https {
            ":443"
        } else {
            ":80"
        };
        match text::strip_suffix(named.as_str(), port) {
            Some(host) => host,
            None => named,
        }
    }

    /// The domain of agent identifiers: the issuer's host.
    pub fn agent_domain(&self) -> (r: String)
        requires
            ident::is_server_identifier(self.issuer@, self.insecure_dev_mode),
        ensures
            Some(r@) == ident::url_host(self.issuer@),
            ident::is_host(r@),
    {
        proof {
            ident::lemma_identifier_has_host(self.issuer@, self.insecure_dev_mode);
        }
        match ident::host_of(self.issuer.as_str()) {
            Some(host) => host,
            None => String::new(),
        }
    }
}

// ------------------------------------------------------------ validation

/// Claims of a token that an issuer's `embed_claims` may not set.
pub const RESERVED_TOKEN_CLAIMS: [&'static str; 10] = [
    "iss",
    "sub",
    "aud",
    "exp",
    "iat",
    "nbf",
    "jti",
    "cnf",
    "dwk",
    "ps",
];

/// Whether a claim is one of those.
pub open spec fn is_reserved(name: Seq<char>) -> bool {
    ||| name == "iss"@
    ||| name == "sub"@
    ||| name == "aud"@
    ||| name == "exp"@
    ||| name == "iat"@
    ||| name == "nbf"@
    ||| name == "jti"@
    ||| name == "cnf"@
    ||| name == "dwk"@
    ||| name == "ps"@
}

fn reserved(name: &str) -> (r: bool)
    ensures
        r == is_reserved(name@),
{
    let mut i: usize = 0;
    while i < RESERVED_TOKEN_CLAIMS.len()
        invariant
            i <= RESERVED_TOKEN_CLAIMS@.len(),
            forall|j: int| 0 <= j < i ==> #[trigger] RESERVED_TOKEN_CLAIMS@[j]@ != name@,
        decreases RESERVED_TOKEN_CLAIMS@.len() - i,
    {
        if text::same(RESERVED_TOKEN_CLAIMS[i], name) {
            return true;
        }
        i += 1;
    }
    false
}

/// A lower-case letter, a digit or an underscore.
pub open spec fn is_name_char(c: char) -> bool {
    'a' <= c <= 'z' || '0' <= c <= '9' || c == '_'
}

/// Only lower-case letters, digits and underscores, between one and `max`.
pub open spec fn is_short_name(s: Seq<char>, max: nat) -> bool {
    0 < s.len() <= max && forall|i: int| 0 <= i < s.len() ==> is_name_char(#[trigger] s[i])
}

fn short_name(s: &str, max: usize) -> (r: bool)
    ensures
        r == is_short_name(s@, max as nat),
{
    let a = text::to_chars(s);
    let mut i: usize = 0;
    while i < a.len()
        invariant
            i <= a@.len(),
            a@ == s@,
            forall|j: int| 0 <= j < i ==> is_name_char(#[trigger] s@[j]),
        decreases a@.len() - i,
    {
        let c = a[i];
        if !(('a' <= c && c <= 'z') || ('0' <= c && c <= '9') || c == '_') {
            return false;
        }
        i += 1;
    }
    a.len() > 0 && a.len() <= max
}

/// Whether a text can be an assurance tier.
pub fn valid_assurance(v: &str) -> (r: bool)
    ensures
        r == is_short_name(v@, 32),
{
    short_name(v, 32)
}

/// Whether an issuer's claim may be copied under this name.
pub open spec fn is_embed_target(name: Seq<char>) -> bool {
    is_short_name(name, 64) && !is_reserved(name) && name != "parent_agent"@ && name
        != "assurance"@
}

/// Whether an issuer's claim may be copied under this name.
pub fn valid_embed_target(name: &str) -> (r: bool)
    ensures
        r == is_embed_target(name@),
{
    short_name(name, 64) && !reserved(name) && !text::same(name, "parent_agent") && !text::same(
        name,
        "assurance",
    )
}

/// A claim matcher: a text, or texts, at least one.
pub open spec fn is_matcher(j: Json) -> bool {
    match j {
        Json::Str(_) => true,
        Json::Arr(s) => s.len() > 0 && forall|i: int| 0 <= i < s.len() ==> #[trigger] s[i] is Str,
        _ => false,
    }
}

fn matcher(v: &JsonValue) -> (r: bool)
    ensures
        r == is_matcher(v@),
{
    match v {
        JsonValue::Text(_) => true,
        JsonValue::Array(a) => {
            proof {
                json::lemma_elements(a@);
            }
            let mut i: usize = 0;
            while i < a.len()
                invariant
                    i <= a@.len(),
                    v@ == Json::Arr(json::elements(a@)),
                    json::elements(a@).len() == a@.len(),
                    forall|j: int|
                        0 <= j < a@.len() ==> #[trigger] json::elements(a@)[j] == a@[j]@,
                    forall|j: int| 0 <= j < i ==> #[trigger] json::elements(a@)[j] is Str,
                decreases a@.len() - i,
            {
                if a[i].as_str().is_none() {
                    proof {
                        assert(!(json::elements(a@)[i as int] is Str));
                    }
                    return false;
                }
                i += 1;
            }
            a.len() > 0
        },
        _ => false,
    }
}

/// How messages name an issuer.
pub open spec fn issuer_context(i: TrustedIssuer) -> Seq<char> {
    "trusted issuer '"@ + i.name@ + "'"@
}

/// One for yes, none for no.
pub open spec fn tally(b: bool) -> nat {
    if b {
        1
    } else {
        0
    }
}

/// The domain that a trust domain setting names.
pub open spec fn bare_domain(td: Seq<char>) -> Seq<char> {
    match text::without_prefix(td, "spiffe://"@) {
        Some(d) => d,
        None => td,
    }
}

/// What is wrong with the key source of an issuer.
pub open spec fn source_fault(i: TrustedIssuer) -> Option<Seq<char>> {
    let ctx = issuer_context(i);
    let kind = i.issuer_type@;
    if kind == "oidc"@ {
        if !"https://"@.is_prefix_of(i.issuer@) && !(i.allow_insecure_egress
            && "http://"@.is_prefix_of(i.issuer@)) {
            Some(
                ctx + ": oidc issuer must be an https URL (or http with allow_insecure_egress)"@,
            )
        } else {
            None
        }
    } else if kind == "jwks_uri"@ {
        if i.jwks_uri is None {
            Some(ctx + ": jwks_uri is required for type jwks_uri"@)
        } else {
            None
        }
    } else if kind == "jwks_file"@ {
        if i.jwks_file is None {
            Some(ctx + ": jwks_file is required for type jwks_file"@)
        } else {
            None
        }
    } else if kind == "jwks"@ {
        if i.jwks is None {
            Some(ctx + ": inline jwks is required for type jwks"@)
        } else {
            None
        }
    } else if kind == "x5c"@ {
        if i.ca_bundle_file is None {
            Some(ctx + ": ca_bundle_file is required for type x5c"@)
        } else {
            None
        }
    } else if kind == "spiffe"@ {
        match i.trust_domain {
            None => Some(ctx + ": trust_domain is required for type spiffe"@),
            Some(td) => {
                let domain = bare_domain(td@);
                if domain.len() == 0 || domain.contains('/') {
                    Some(
                        ctx
                            + ": trust_domain must be a bare domain or spiffe://<domain> (no path), got '"@
                            + td@ + "'"@,
                    )
                } else if tally(i.jwks is Some) + tally(i.jwks_file is Some) + tally(
                    i.jwks_uri is Some,
                ) != 1 {
                    Some(
                        ctx
                            + ": type spiffe requires exactly one JWT-bundle source (jwks, jwks_file, or jwks_uri)"@,
                    )
                } else {
                    None
                }
            },
        }
    } else {
        Some(ctx + ": unknown type '"@ + kind + "'"@)
    }
}

/// What is wrong with the first faulty claim requirement.
pub open spec fn claims_fault(
    ctx: Seq<char>,
    claims: Seq<(String, JsonValue)>,
) -> Option<Seq<char>>
    decreases claims.len(),
{
    if claims.len() == 0 {
        None
    } else {
        match claims_fault(ctx, claims.drop_last()) {
            Some(e) => Some(e),
            None => {
                let path = claims.last().0@;
                if path.len() == 0 {
                    Some(ctx + ": empty required_claims path"@)
                } else if !is_matcher(claims.last().1@) {
                    Some(
                        ctx + ": required_claims['"@ + path
                            + "'] must be a string or array of strings"@,
                    )
                } else {
                    None
                }
            },
        }
    }
}

/// The name under which a claim is copied; no text counts as the empty name.
pub open spec fn target_name(j: Json) -> Seq<char> {
    match json::json_str(j) {
        Some(s) => s,
        None => Seq::empty(),
    }
}

/// What is wrong with the first faulty claim to copy.
pub open spec fn embeds_fault(
    ctx: Seq<char>,
    claims: Seq<(String, JsonValue)>,
) -> Option<Seq<char>>
    decreases claims.len(),
{
    if claims.len() == 0 {
        None
    } else {
        match embeds_fault(ctx, claims.drop_last()) {
            Some(e) => Some(e),
            None => {
                let path = claims.last().0@;
                let target = target_name(claims.last().1@);
                if path.len() == 0 {
                    Some(ctx + ": empty embed_claims path"@)
                } else if !is_embed_target(target) {
                    Some(
                        ctx + ": embed_claims['"@ + path + "'] target '"@ + target
                            + "' must be lowercase [a-z0-9_], <=64 chars, and not a reserved claim name"@,
                    )
                } else {
                    None
                }
            },
        }
    }
}

/// What is wrong with a trusted issuer.
pub open spec fn issuer_fault(i: TrustedIssuer, insecure: bool) -> Option<Seq<char>> {
    let ctx = issuer_context(i);
    if i.name@.len() == 0 {
        Some("trusted issuer name must not be empty"@)
    } else if i.issuer@.len() == 0 {
        Some(ctx + ": issuer must not be empty"@)
    } else if source_fault(i) is Some {
        source_fault(i)
    } else if i.required_sans@.len() > 0 && i.issuer_type@ != "x5c"@ {
        Some(ctx + ": required_sans only applies to type x5c"@)
    } else if i.trust_domain is Some && i.issuer_type@ != "spiffe"@ {
        Some(ctx + ": trust_domain only applies to type spiffe"@)
    } else if i.assurance is Some && !is_short_name(i.assurance.unwrap()@, 32) {
        Some(
            ctx + ": assurance '"@ + i.assurance.unwrap()@
                + "' must be lowercase [a-z0-9_], 1..=32 chars"@,
        )
    } else if claims_fault(ctx, i.required_claims@) is Some {
        claims_fault(ctx, i.required_claims@)
    } else if embeds_fault(ctx, i.embed_claims@) is Some {
        embeds_fault(ctx, i.embed_claims@)
    } else if i.ps is Some && !ident::is_server_identifier(i.ps.unwrap()@, insecure) {
        Some(ctx + ": ps is not a valid server identifier"@)
    } else {
        None
    }
}

fn check_source(i: &TrustedIssuer, ctx: &str) -> (r: Result<(), String>)
    requires
        ctx@ == issuer_context(*i),
    ensures
        text::fault_view(r) == source_fault(*i),
{
    let kind = i.issuer_type.as_str();
    if text::same(kind, "oidc") {
        if !text::starts_with(i.issuer.as_str(), "https://") && !(i.allow_insecure_egress
            && text::starts_with(i.issuer.as_str(), "http://")) {
            return Err(
                text::join2(
                    ctx,
                    ": oidc issuer must be an https URL (or http with allow_insecure_egress)",
                ),
            );
        }
    } else if text::same(kind, "jwks_uri") {
        if i.jwks_uri.is_none() {
            return Err(text::join2(ctx, ": jwks_uri is required for type jwks_uri"));
        }
    } else if text::same(kind, "jwks_file") {
        if i.jwks_file.is_none() {
            return Err(text::join2(ctx, ": jwks_file is required for type jwks_file"));
        }
    } else if text::same(kind, "jwks") {
        if i.jwks.is_none() {
            return Err(text::join2(ctx, ": inline jwks is required for type jwks"));
        }
    } else if text::same(kind, "x5c") {
        if i.ca_bundle_file.is_none() {
            return Err(text::join2(ctx, ": ca_bundle_file is required for type x5c"));
        }
    } else if text::same(kind, "spiffe") {
        let td = match &i.trust_domain {
            Some(td) => td,
            None => {
                return Err(text::join2(ctx, ": trust_domain is required for type spiffe"));
            },
        };
        let domain = match text::strip_prefix(td.as_str(), "spiffe://") {
            Some(d) => d,
            None => td.clone(),
        };
        if domain.as_str().is_empty() || text::contains_char(domain.as_str(), '/') {
            let mut e = text::join3(
                ctx,
                ": trust_domain must be a bare domain or spiffe://<domain> (no path), got '",
                td.as_str(),
            );
            e.append("'");
            return Err(e);
        }
        let mut sources: u8 = 0;
        if i.jwks.is_some() {
            sources += 1;
        }
        if i.jwks_file.is_some() {
            sources += 1;
        }
        if i.jwks_uri.is_some() {
            sources += 1;
        }
        if sources != 1 {
            return Err(
                text::join2(
                    ctx,
                    ": type spiffe requires exactly one JWT-bundle source (jwks, jwks_file, or jwks_uri)",
                ),
            );
        }
    } else {
        let mut e = text::join3(ctx, ": unknown type '", kind);
        e.append("'");
        return Err(e);
    }
    Ok(())
}

proof fn lemma_claims_prefix(ctx: Seq<char>, claims: Seq<(String, JsonValue)>, n: int)
    requires
        0 <= n <= claims.len(),
        claims_fault(ctx, claims.take(n)) is Some,
    ensures
        claims_fault(ctx, claims) == claims_fault(ctx, claims.take(n)),
    decreases claims.len() - n,
{
    if n < claims.len() {
        assert(claims.take(n + 1).drop_last() =~= claims.take(n));
        lemma_claims_prefix(ctx, claims, n + 1);
    } else {
        assert(claims.take(n) =~= claims);
    }
}

fn check_claims(ctx: &str, claims: &Vec<(String, JsonValue)>) -> (r: Result<(), String>)
    ensures
        text::fault_view(r) == claims_fault(ctx@, claims@),
{
    let mut i: usize = 0;
    while i < claims.len()
        invariant
            i <= claims@.len(),
            claims_fault(ctx@, claims@.take(i as int)) is None,
        decreases claims@.len() - i,
    {
        proof {
            assert(claims@.take(i + 1).drop_last() =~= claims@.take(i as int));
            assert(claims@.take(i + 1).last() == claims@[i as int]);
        }
        let path = claims[i].0.as_str();
        if path.is_empty() {
            proof {
                lemma_claims_prefix(ctx@, claims@, i + 1);
            }
            return Err(text::join2(ctx, ": empty required_claims path"));
        }
        if !matcher(&claims[i].1) {
            proof {
                lemma_claims_prefix(ctx@, claims@, i + 1);
            }
            let mut e = text::join3(ctx, ": required_claims['", path);
            e.append("'] must be a string or array of strings");
            return Err(e);
        }
        i += 1;
    }
    proof {
        assert(claims@.take(claims@.len() as int) =~= claims@);
    }
    Ok(())
}

proof fn lemma_embeds_prefix(ctx: Seq<char>, claims: Seq<(String, JsonValue)>, n: int)
    requires
        0 <= n <= claims.len(),
        embeds_fault(ctx, claims.take(n)) is Some,
    ensures
        embeds_fault(ctx, claims) == embeds_fault(ctx, claims.take(n)),
    decreases claims.len() - n,
{
    if n < claims.len() {
        assert(claims.take(n + 1).drop_last() =~= claims.take(n));
        lemma_embeds_prefix(ctx, claims, n + 1);
    } else {
        assert(claims.take(n) =~= claims);
    }
}

/// The name under which a claim is copied.
pub fn embed_target(v: &JsonValue) -> (r: String)
    ensures
        r@ == target_name(v@),
{
    match v.as_str() {
        Some(s) => s.clone(),
        None => String::new(),
    }
}

fn check_embeds(ctx: &str, claims: &Vec<(String, JsonValue)>) -> (r: Result<(), String>)
    ensures
        text::fault_view(r) == embeds_fault(ctx@, claims@),
{
    let mut i: usize = 0;
    while i < claims.len()
        invariant
            i <= claims@.len(),
            embeds_fault(ctx@, claims@.take(i as int)) is None,
        decreases claims@.len() - i,
    {
        proof {
            assert(claims@.take(i + 1).drop_last() =~= claims@.take(i as int));
            assert(claims@.take(i + 1).last() == claims@[i as int]);
        }
        let path = claims[i].0.as_str();
        if path.is_empty() {
            proof {
                lemma_embeds_prefix(ctx@, claims@, i + 1);
            }
            return Err(text::join2(ctx, ": empty embed_claims path"));
        }
        let target = embed_target(&claims[i].1);
        if !valid_embed_target(target.as_str()) {
            proof {
                lemma_embeds_prefix(ctx@, claims@, i + 1);
            }
            let mut e = text::join3(ctx, ": embed_claims['", path);
            e.append("'] target '");
            e.append(target.as_str());
            e.append("' must be lowercase [a-z0-9_], <=64 chars, and not a reserved claim name");
            return Err(e);
        }
        i += 1;
    }
    proof {
        assert(claims@.take(claims@.len() as int) =~= claims@);
    }
    Ok(())
}

/// Checks a trusted issuer.
pub fn validate_trusted_issuer(i: &TrustedIssuer, insecure: bool) -> (r: Result<(), String>)
    ensures
        text::fault_view(r) == issuer_fault(*i, insecure),
{
    let ctx_text = text::join3("trusted issuer '", i.name.as_str(), "'");
    let ctx = ctx_text.as_str();
    if i.name.as_str().is_empty() {
        return Err("trusted issuer name must not be empty".to_owned());
    }
    if i.issuer.as_str().is_empty() {
        return Err(text::join2(ctx, ": issuer must not be empty"));
    }
    if let Err(e) = check_source(i, ctx) {
        return Err(e);
    }
    if i.required_sans.len() > 0 && !text::same(i.issuer_type.as_str(), "x5c") {
        return Err(text::join2(ctx, ": required_sans only applies to type x5c"));
    }
    if i.trust_domain.is_some() && !text::same(i.issuer_type.as_str(), "spiffe") {
        return Err(text::join2(ctx, ": trust_domain only applies to type spiffe"));
    }
    if let Some(a) = &i.assurance {
        if !valid_assurance(a.as_str()) {
            let mut e = text::join3(ctx, ": assurance '", a.as_str());
            e.append("' must be lowercase [a-z0-9_], 1..=32 chars");
            return Err(e);
        }
    }
    if let Err(e) = check_claims(ctx, &i.required_claims) {
        return Err(e);
    }
    if let Err(e) = check_embeds(ctx, &i.embed_claims) {
        return Err(e);
    }
    if let Some(ps) = &i.ps {
        if ident::validate_server_identifier(ps.as_str(), insecure).is_err() {
            return Err(text::join2(ctx, ": ps is not a valid server identifier"));
        }
    }
    Ok(())
}

// ------------------------------------------------- the whole configuration

/// Whether some claim requirement has a name of white space only.
pub open spec fn has_blank_name(claims: Seq<(String, JsonValue)>) -> bool {
    exists|i: int| 0 <= i < claims.len() && text::trimmed(#[trigger] claims[i].0@).len() == 0
}

/// What is wrong with the identity provider of the admin API.
pub open spec fn admin_fault(o: AdminOidcConfig, insecure: bool) -> Option<Seq<char>> {
    if !"https://"@.is_prefix_of(o.issuer@) && !(insecure && "http://"@.is_prefix_of(o.issuer@)) {
        Some(
            "admin_oidc.issuer '"@ + o.issuer@
                + "' must be an https URL (set insecure_dev_mode=true for local http development)"@,
        )
    } else if "/"@.is_suffix_of(o.issuer@) {
        Some(
            "admin_oidc.issuer '"@ + o.issuer@
                + "' must not end with a slash: it is compared to the token's iss exactly, and discovery is appended to it"@,
        )
    } else if text::trimmed(o.audience@).len() == 0 {
        Some(
            "admin_oidc.audience must be set: without it, a token the IdP minted for any other application would administer this provider"@,
        )
    } else if o.required_claims@.len() == 0 {
        Some(
            "admin_oidc.required_claims must not be empty: it is the authorization gate, and without it every account at the identity provider could administer this provider. Use a group or role claim, e.g. {\"groups\": \"apd-admins\"}"@,
        )
    } else if has_blank_name(o.required_claims@) {
        Some("admin_oidc.required_claims has an empty claim name"@)
    } else {
        None
    }
}

/// What is wrong with the storage settings.
pub open spec fn storage_fault(s: StorageConfig) -> Option<Seq<char>> {
    if s.backend@ == "memory"@ {
        None
    } else if s.backend@ == "file"@ {
        if s.path is None {
            Some("storage.path is required for the file backend"@)
        } else {
            None
        }
    } else if s.backend@ == "redis"@ {
        if s.redis_addr is None {
            Some("storage.redis_addr is required for the redis backend"@)
        } else {
            None
        }
    } else {
        Some("unknown storage backend '"@ + s.backend@ + "'"@)
    }
}

/// The enrollment methods there are.
pub open spec fn is_method(m: Seq<char>) -> bool {
    m == "token"@ || m == "open"@ || m == "federated"@ || m == "allowlist"@
}

/// The first name that is not a method's.
pub open spec fn unknown_method(methods: Seq<Seq<char>>) -> Option<Seq<char>>
    decreases methods.len(),
{
    if methods.len() == 0 {
        None
    } else if !is_method(methods[0]) {
        Some(methods[0])
    } else {
        unknown_method(methods.drop_first())
    }
}

/// What is wrong with the first faulty issuer: its own fault, or a name that an
/// earlier one has.
pub open spec fn issuers_fault(s: Seq<TrustedIssuer>, insecure: bool) -> Option<Seq<char>>
    decreases s.len(),
{
    if s.len() == 0 {
        None
    } else {
        match issuers_fault(s.drop_last(), insecure) {
            Some(e) => Some(e),
            None => match issuer_fault(s.last(), insecure) {
                Some(e) => Some(e),
                None => if exists|i: int|
                    0 <= i < s.len() - 1 && #[trigger] s[i].name@ == s.last().name@ {
                    Some("duplicate trusted issuer name '"@ + s.last().name@ + "'"@)
                } else {
                    None
                },
            },
        }
    }
}

/// What is wrong with the first faulty static token.
pub open spec fn static_fault(s: Seq<StaticEnrollToken>, insecure: bool) -> Option<Seq<char>>
    decreases s.len(),
{
    if s.len() == 0 {
        None
    } else {
        match static_fault(s.drop_last(), insecure) {
            Some(e) => Some(e),
            None => if s.last().token@.len() < 16 {
                Some(
                    "enrollment.static_tokens entries must be at least 16 characters (they are reusable shared credentials — make them unguessable)"@,
                )
            } else if s.last().ps is Some && !ident::is_server_identifier(
                s.last().ps.unwrap()@,
                insecure,
            ) {
                Some("enrollment.static_tokens: ps is not a valid server identifier"@)
            } else {
                None
            },
        }
    }
}

/// What is wrong with the enrollment settings.
pub open spec fn enrollment_fault(e: EnrollmentConfig, insecure: bool) -> Option<Seq<char>> {
    let methods = e.method_names();
    if methods.len() == 0 {
        Some("enrollment.methods must not be empty"@)
    } else if unknown_method(methods) is Some {
        Some("unknown enrollment method '"@ + unknown_method(methods).unwrap() + "'"@)
    } else if methods.contains("federated"@) && e.trusted_issuers@.len() == 0 {
        Some(
            "enrollment method 'federated' requires at least one enrollment.trusted_issuers entry"@,
        )
    } else if !methods.contains("federated"@) && e.trusted_issuers@.len() > 0 {
        Some("enrollment.trusted_issuers is set but the 'federated' method is not enabled"@)
    } else if issuers_fault(e.trusted_issuers@, insecure) is Some {
        issuers_fault(e.trusted_issuers@, insecure)
    } else if e.static_tokens@.len() > 0 && !methods.contains("token"@) {
        Some("enrollment.static_tokens is set but the 'token' method is not enabled"@)
    } else if static_fault(e.static_tokens@, insecure) is Some {
        static_fault(e.static_tokens@, insecure)
    } else if e.default_ps is Some && !ident::is_server_identifier(
        e.default_ps.unwrap()@,
        insecure,
    ) {
        Some("enrollment.default_ps is not a valid server identifier"@)
    } else {
        None
    }
}

/// What is wrong with the telemetry settings.
pub open spec fn telemetry_fault(t: TelemetryConfig) -> Option<Seq<char>> {
    if t.enabled && t.endpoint is Some && !"http://"@.is_prefix_of(t.endpoint.unwrap()@)
        && !"https://"@.is_prefix_of(t.endpoint.unwrap()@) {
        Some(
            "telemetry.endpoint must be an http(s) OTLP/HTTP URL, e.g. http://otel-collector:4318"@,
        )
    } else {
        None
    }
}

/// What is wrong with a configuration: the first rule that it breaks.
pub open spec fn config_fault(c: Config) -> Option<Seq<char>> {
    let insecure = c.insecure_dev_mode;
    if !ident::is_server_identifier(c.issuer@, insecure) {
        Some(
            "issuer '"@ + c.issuer@
                + "' is not a valid AAuth server identifier (https://host, lowercase, no port/path). Set insecure_dev_mode=true for local http development."@,
        )
    } else if c.admin_oidc is Some && admin_fault(c.admin_oidc.unwrap(), insecure) is Some {
        admin_fault(c.admin_oidc.unwrap(), insecure)
    } else if c.agent_token_ttl_secs == 0 || c.agent_token_ttl_secs > AGENT_TOKEN_MAX_TTL_SECS {
        Some(
            "agent_token_ttl_secs must be 1..=86400 (spec: agent tokens SHOULD NOT exceed 24h)"@,
        )
    } else if storage_fault(c.storage) is Some {
        storage_fault(c.storage)
    } else if enrollment_fault(c.enrollment, insecure) is Some {
        enrollment_fault(c.enrollment, insecure)
    } else {
        telemetry_fault(c.telemetry)
    }
}

fn check_admin(o: &AdminOidcConfig, insecure: bool) -> (r: Result<(), String>)
    ensures
        text::fault_view(r) == admin_fault(*o, insecure),
{
    let issuer = o.issuer.as_str();
    if !text::starts_with(issuer, "https://") && !(insecure && text::starts_with(
        issuer,
        "http://",
    )) {
        return Err(
            text::join3(
                "admin_oidc.issuer '",
                issuer,
                "' must be an https URL (set insecure_dev_mode=true for local http development)",
            ),
        );
    }
    if text::ends_with(issuer, "/") {
        return Err(
            text::join3(
                "admin_oidc.issuer '",
                issuer,
                "' must not end with a slash: it is compared to the token's iss exactly, and discovery is appended to it",
            ),
        );
    }
    if text::trim(o.audience.as_str()).as_str().is_empty() {
        return Err(
            "admin_oidc.audience must be set: without it, a token the IdP minted for any other application would administer this provider".to_owned(),
        );
    }
    if o.required_claims.len() == 0 {
        return Err(
            "admin_oidc.required_claims must not be empty: it is the authorization gate, and without it every account at the identity provider could administer this provider. Use a group or role claim, e.g. {\"groups\": \"apd-admins\"}".to_owned(),
        );
    }
    let mut i: usize = 0;
    while i < o.required_claims.len()
        invariant
            i <= o.required_claims@.len(),
            forall|j: int|
                0 <= j < i ==> text::trimmed(#[trigger] o.required_claims@[j].0@).len() > 0,
            admin_fault(*o, insecure) == (if has_blank_name(o.required_claims@) {
                Some("admin_oidc.required_claims has an empty claim name"@)
            } else {
                None
            }),
        decreases o.required_claims@.len() - i,
    {
        if text::trim(o.required_claims[i].0.as_str()).as_str().is_empty() {
            proof {
                assert(text::trimmed(o.required_claims@[i as int].0@).len() == 0);
            }
            return Err("admin_oidc.required_claims has an empty claim name".to_owned());
        }
        i += 1;
    }
    Ok(())
}

fn check_storage(s: &StorageConfig) -> (r: Result<(), String>)
    ensures
        text::fault_view(r) == storage_fault(*s),
{
    let backend = s.backend.as_str();
    if text::same(backend, "memory") {
        Ok(())
    } else if text::same(backend, "file") {
        if s.path.is_none() {
            return Err("storage.path is required for the file backend".to_owned());
        }
        Ok(())
    } else if text::same(backend, "redis") {
        if s.redis_addr.is_none() {
            return Err("storage.redis_addr is required for the redis backend".to_owned());
        }
        Ok(())
    } else {
        Err(text::join3("unknown storage backend '", backend, "'"))
    }
}

fn first_unknown_method(v: &Vec<String>) -> (r: Option<String>)
    ensures
        text::opt_view(r) == unknown_method(text::list_view(v@)),
{
    let ghost all = text::list_view(v@);
    let mut i: usize = 0;
    proof {
        assert(all.skip(0) =~= all);
    }
    while i < v.len()
        invariant
            i <= v@.len(),
            all == text::list_view(v@),
            unknown_method(all.skip(i as int)) == unknown_method(all),
        decreases v@.len() - i,
    {
        proof {
            assert(all.skip(i as int)[0] == v@[i as int]@);
            assert(all.skip(i as int).drop_first() =~= all.skip(i + 1));
        }
        let m = v[i].as_str();
        if !(text::same(m, "token") || text::same(m, "open") || text::same(m, "federated")
            || text::same(m, "allowlist")) {
            return Some(v[i].clone());
        }
        i += 1;
    }
    None
}

proof fn lemma_issuers_prefix(s: Seq<TrustedIssuer>, insecure: bool, n: int)
    requires
        0 <= n <= s.len(),
        issuers_fault(s.take(n), insecure) is Some,
    ensures
        issuers_fault(s, insecure) == issuers_fault(s.take(n), insecure),
    decreases s.len() - n,
{
    if n < s.len() {
        assert(s.take(n + 1).drop_last() =~= s.take(n));
        lemma_issuers_prefix(s, insecure, n + 1);
    } else {
        assert(s.take(n) =~= s);
    }
}

fn check_issuers(v: &Vec<TrustedIssuer>, insecure: bool) -> (r: Result<(), String>)
    ensures
        text::fault_view(r) == issuers_fault(v@, insecure),
{
    let mut i: usize = 0;
    while i < v.len()
        invariant
            i <= v@.len(),
            issuers_fault(v@.take(i as int), insecure) is None,
        decreases v@.len() - i,
    {
        let ghost here = v@.take(i + 1);
        proof {
            assert(here.drop_last() =~= v@.take(i as int));
            assert(here.last() == v@[i as int]);
        }
        if let Err(e) = validate_trusted_issuer(&v[i], insecure) {
            proof {
                lemma_issuers_prefix(v@, insecure, i + 1);
            }
            return Err(e);
        }
        let mut j: usize = 0;
        while j < i
            invariant
                j <= i < v@.len(),
                here == v@.take(i + 1),
                here.last() == v@[i as int],
                issuers_fault(here.drop_last(), insecure) is None,
                issuer_fault(v@[i as int], insecure) is None,
                forall|k: int| 0 <= k < j ==> #[trigger] here[k].name@ != v@[i as int].name@,
            decreases i - j,
        {
            if text::same(v[j].name.as_str(), v[i].name.as_str()) {
                proof {
                    assert(here[j as int].name@ == here.last().name@);
                    lemma_issuers_prefix(v@, insecure, i + 1);
                }
                return Err(
                    text::join3("duplicate trusted issuer name '", v[i].name.as_str(), "'"),
                );
            }
            j += 1;
        }
        i += 1;
    }
    proof {
        assert(v@.take(v@.len() as int) =~= v@);
    }
    Ok(())
}

proof fn lemma_static_prefix(s: Seq<StaticEnrollToken>, insecure: bool, n: int)
    requires
        0 <= n <= s.len(),
        static_fault(s.take(n), insecure) is Some,
    ensures
        static_fault(s, insecure) == static_fault(s.take(n), insecure),
    decreases s.len() - n,
{
    if n < s.len() {
        assert(s.take(n + 1).drop_last() =~= s.take(n));
        lemma_static_prefix(s, insecure, n + 1);
    } else {
        assert(s.take(n) =~= s);
    }
}

fn check_static(v: &Vec<StaticEnrollToken>, insecure: bool) -> (r: Result<(), String>)
    ensures
        text::fault_view(r) == static_fault(v@, insecure),
{
    let mut i: usize = 0;
    while i < v.len()
        invariant
            i <= v@.len(),
            static_fault(v@.take(i as int), insecure) is None,
        decreases v@.len() - i,
    {
        proof {
            assert(v@.take(i + 1).drop_last() =~= v@.take(i as int));
            assert(v@.take(i + 1).last() == v@[i as int]);
        }
        if text::to_chars(v[i].token.as_str()).len() < 16 {
            proof {
                lemma_static_prefix(v@, insecure, i + 1);
            }
            return Err(
                "enrollment.static_tokens entries must be at least 16 characters (they are reusable shared credentials — make them unguessable)".to_owned(),
            );
        }
        if let Some(ps) = &v[i].ps {
            if ident::validate_server_identifier(ps.as_str(), insecure).is_err() {
                proof {
                    lemma_static_prefix(v@, insecure, i + 1);
                }
                return Err(
                    "enrollment.static_tokens: ps is not a valid server identifier".to_owned(),
                );
            }
        }
        i += 1;
    }
    proof {
        assert(v@.take(v@.len() as int) =~= v@);
    }
    Ok(())
}

fn check_enrollment(e: &EnrollmentConfig, insecure: bool) -> (r: Result<(), String>)
    ensures
        text::fault_view(r) == enrollment_fault(*e, insecure),
{
    let methods = e.effective_methods();
    proof {
        assert(text::list_view(methods@).len() == methods@.len());
    }
    if methods.len() == 0 {
        return Err("enrollment.methods must not be empty".to_owned());
    }
    if let Some(m) = first_unknown_method(&methods) {
        return Err(text::join3("unknown enrollment method '", m.as_str(), "'"));
    }
    let federated = contains_text(&methods, "federated");
    if federated && e.trusted_issuers.len() == 0 {
        return Err(
            "enrollment method 'federated' requires at least one enrollment.trusted_issuers entry".to_owned(),
        );
    }
    if !federated && e.trusted_issuers.len() > 0 {
        return Err(
            "enrollment.trusted_issuers is set but the 'federated' method is not enabled".to_owned(),
        );
    }
    if let Err(f) = check_issuers(&e.trusted_issuers, insecure) {
        return Err(f);
    }
    if e.static_tokens.len() > 0 && !contains_text(&methods, "token") {
        return Err(
            "enrollment.static_tokens is set but the 'token' method is not enabled".to_owned(),
        );
    }
    if let Err(f) = check_static(&e.static_tokens, insecure) {
        return Err(f);
    }
    if let Some(ps) = &e.default_ps {
        if ident::validate_server_identifier(ps.as_str(), insecure).is_err() {
            return Err("enrollment.default_ps is not a valid server identifier".to_owned());
        }
    }
    Ok(())
}

impl Config {
    /// Checks the configuration; an error names the rule that it breaks.
    pub fn validate(&self) -> (r: Result<(), String>)
        ensures
            text::fault_view(r) == config_fault(*self),
    {
        let insecure = self.insecure_dev_mode;
        if ident::validate_server_identifier(self.issuer.as_str(), insecure).is_err() {
            return Err(
                text::join3(
                    "issuer '",
                    self.issuer.as_str(),
                    "' is not a valid AAuth server identifier (https://host, lowercase, no port/path). Set insecure_dev_mode=true for local http development.",
                ),
            );
        }
        if let Some(o) = &self.admin_oidc {
            if let Err(e) = check_admin(o, insecure) {
                return Err(e);
            }
        }
        if self.agent_token_ttl_secs == 0 || self.agent_token_ttl_secs
            > AGENT_TOKEN_MAX_TTL_SECS {
            return Err(
                "agent_token_ttl_secs must be 1..=86400 (spec: agent tokens SHOULD NOT exceed 24h)".to_owned(),
            );
        }
        if let Err(e) = check_storage(&self.storage) {
            return Err(e);
        }
        if let Err(e) = check_enrollment(&self.enrollment, insecure) {
            return Err(e);
        }
        if self.telemetry.enabled {
            if let Some(ep) = &self.telemetry.endpoint {
                if !text::starts_with(ep.as_str(), "http://") && !text::starts_with(
                    ep.as_str(),
                    "https://",
                ) {
                    return Err(
                        "telemetry.endpoint must be an http(s) OTLP/HTTP URL, e.g. http://otel-collector:4318".to_owned(),
                    );
                }
            }
        }
        Ok(())
    }
}

// ---------------------------------------------------- environment, laws

/// What the environment sets, variable by variable.
pub struct EnvOverrides {
    /// `APD_ISSUER`.
    pub issuer: Option<String>,
    /// `APD_LISTEN`.
    pub listen: Option<String>,
    /// `APD_KEYS_FILE`.
    pub keys_file: Option<String>,
    /// `APD_ADMIN_TOKEN`.
    pub admin_token: Option<String>,
    /// `APD_REDIS_ADDR`.
    pub redis_addr: Option<String>,
    /// `APD_STATIC_ENROLL_TOKEN`.
    pub static_enroll_token: Option<String>,
    /// `APD_TELEMETRY_ENABLED`.
    pub telemetry_enabled: Option<String>,
    /// `OTEL_EXPORTER_OTLP_ENDPOINT`.
    pub otlp_endpoint: Option<String>,
    /// `OTEL_SERVICE_NAME`.
    pub service_name: Option<String>,
}

/// `new` where it is set, else `old`.
pub open spec fn overridden(old_value: Seq<char>, new_value: Option<String>) -> Seq<char> {
    match new_value {
        Some(v) => v@,
        None => old_value,
    }
}

/// `new` where it is set, else `old`.
pub open spec fn replaced(
    old_value: Option<String>,
    new_value: Option<String>,
) -> Option<Seq<char>> {
    match new_value {
        Some(v) => Some(v@),
        None => text::opt_view(old_value),
    }
}

/// `old` where it is set, else `new`.
pub open spec fn filled(old_value: Option<String>, new_value: Option<String>) -> Option<Seq<char>> {
    match old_value {
        Some(v) => Some(v@),
        None => text::opt_view(new_value),
    }
}

impl Config {
    /// Applies what the environment sets. A Redis address switches the backend;
    /// a static enrollment token is added to those of the file; telemetry's
    /// endpoint and service name only fill what the file leaves open.
    pub fn apply_env(&mut self, env: EnvOverrides)
        ensures
            final(self).issuer@ == overridden(old(self).issuer@, env.issuer),
            final(self).listen@ == overridden(old(self).listen@, env.listen),
            final(self).keys_file@ == overridden(old(self).keys_file@, env.keys_file),
            text::opt_view(final(self).admin_token) == replaced(
                old(self).admin_token,
                env.admin_token,
            ),
            final(self).storage.backend@ == (if env.redis_addr is Some {
                "redis"@
            } else {
                old(self).storage.backend@
            }),
            text::opt_view(final(self).storage.redis_addr) == replaced(
                old(self).storage.redis_addr,
                env.redis_addr,
            ),
            final(self).storage.path == old(self).storage.path,
            final(self).storage.key_prefix == old(self).storage.key_prefix,
            env.static_enroll_token is None ==> final(self).enrollment == old(self).enrollment,
            env.static_enroll_token matches Some(t) ==> ({
                let before = old(self).enrollment;
                let after = final(self).enrollment;
                &&& after.static_tokens@.drop_last() == before.static_tokens@
                &&& after.static_tokens@.len() == before.static_tokens@.len() + 1
                &&& after.static_tokens@.last().token@ == t@
                &&& after.static_tokens@.last().ps is None
                &&& text::opt_view(after.static_tokens@.last().label) == Some("env"@)
                &&& after.mode == before.mode
                &&& after.methods == before.methods
                &&& after.default_ps == before.default_ps
                &&& after.trusted_issuers == before.trusted_issuers
            }),
            final(self).telemetry.enabled == (match env.telemetry_enabled {
                Some(v) => v@ == "1"@ || text::lowered(v@) == "true"@,
                None => old(self).telemetry.enabled,
            }),
            text::opt_view(final(self).telemetry.endpoint) == filled(
                old(self).telemetry.endpoint,
                env.otlp_endpoint,
            ),
            text::opt_view(final(self).telemetry.service_name) == filled(
                old(self).telemetry.service_name,
                env.service_name,
            ),
            final(self).telemetry.metric_interval_secs == old(self).telemetry.metric_interval_secs,
            *final(self) == (Config {
                issuer: final(self).issuer,
                listen: final(self).listen,
                keys_file: final(self).keys_file,
                admin_token: final(self).admin_token,
                storage: final(self).storage,
                enrollment: final(self).enrollment,
                telemetry: final(self).telemetry,
                ..*old(self)
            }),
    {
        if let Some(v) = env.issuer {
            self.issuer = v;
        }
        if let Some(v) = env.listen {
            self.listen = v;
        }
        if let Some(v) = env.keys_file {
            self.keys_file = v;
        }
        if let Some(v) = env.admin_token {
            self.admin_token = Some(v);
        }
        if let Some(v) = env.redis_addr {
            self.storage.backend = "redis".to_owned();
            self.storage.redis_addr = Some(v);
        }
        if let Some(v) = env.static_enroll_token {
            self.enrollment.static_tokens.push(
                StaticEnrollToken { token: v, ps: None, label: Some("env".to_owned()) },
            );
            proof {
                assert(self.enrollment.static_tokens@.drop_last()
                    =~= old(self).enrollment.static_tokens@);
            }
        }
        if let Some(v) = env.telemetry_enabled {
            self.telemetry.enabled = text::same(v.as_str(), "1") || text::same(
                text::to_ascii_lowercase(v.as_str()).as_str(),
                "true",
            );
        }
        if self.telemetry.endpoint.is_none() {
            self.telemetry.endpoint = env.otlp_endpoint;
        }
        if self.telemetry.service_name.is_none() {
            self.telemetry.service_name = env.service_name;
        }
    }
}

proof fn lemma_issuers_sound(s: Seq<TrustedIssuer>, insecure: bool)
    requires
        issuers_fault(s, insecure) is None,
    ensures
        forall|i: int| 0 <= i < s.len() ==> issuer_fault(#[trigger] s[i], insecure) is None,
        forall|i: int, j: int| 0 <= i < j < s.len() ==> s[i].name@ != s[j].name@,
    decreases s.len(),
{
    if s.len() > 0 {
        let t = s.drop_last();
        lemma_issuers_sound(t, insecure);
        assert forall|i: int| 0 <= i < s.len() implies issuer_fault(
            #[trigger] s[i],
            insecure,
        ) is None by {
            if i < s.len() - 1 {
                assert(t[i] == s[i]);
            }
        }
        assert forall|i: int, j: int| 0 <= i < j < s.len() implies s[i].name@ != s[j].name@ by {
            if j < s.len() - 1 {
                assert(t[i].name@ != t[j].name@);
            }
        }
    }
}

proof fn lemma_embeds_sound(ctx: Seq<char>, claims: Seq<(String, JsonValue)>, i: int)
    requires
        embeds_fault(ctx, claims) is None,
        0 <= i < claims.len(),
    ensures
        is_embed_target(target_name(claims[i].1@)),
    decreases claims.len(),
{
    if i < claims.len() - 1 {
        lemma_embeds_sound(ctx, claims.drop_last(), i);
    }
}

proof fn lemma_static_sound(s: Seq<StaticEnrollToken>, insecure: bool, i: int)
    requires
        static_fault(s, insecure) is None,
        0 <= i < s.len(),
    ensures
        s[i].token@.len() >= 16,
    decreases s.len(),
{
    if i < s.len() - 1 {
        lemma_static_sound(s.drop_last(), insecure, i);
    }
}

/// A configuration that passes never leaves the admin API open to everyone with
/// an account: the identity provider's claim gate is not empty, and tokens for
/// other audiences are refused.
pub proof fn law_admin_gate_not_empty(c: Config)
    requires
        config_fault(c) is None,
        c.admin_oidc is Some,
    ensures
        c.admin_oidc.unwrap().required_claims@.len() > 0,
        c.admin_oidc.unwrap().audience@.len() > 0,
{
    let audience = c.admin_oidc.unwrap().audience@;
    if audience.len() == 0 {
        assert(text::trimmed(audience).len() == 0);
    }
}

/// A configuration that passes issues no agent token for longer than a day.
pub proof fn law_token_lifetime_bounded(c: Config)
    requires
        config_fault(c) is None,
    ensures
        1 <= c.agent_token_ttl_secs <= AGENT_TOKEN_MAX_TTL_SECS,
{
}

/// In a configuration that passes, issuers have names of their own, and none
/// copies a claim over one that the provider controls.
pub proof fn law_issuers_are_sound(c: Config, i: int, j: int)
    requires
        config_fault(c) is None,
        0 <= i < c.enrollment.trusted_issuers@.len(),
        0 <= j < c.enrollment.trusted_issuers@.len(),
        i != j,
    ensures
        c.enrollment.trusted_issuers@[i].name@ != c.enrollment.trusted_issuers@[j].name@,
        forall|k: int|
            0 <= k < c.enrollment.trusted_issuers@[i].embed_claims@.len() ==> {
                let target = target_name(
                    (#[trigger] c.enrollment.trusted_issuers@[i].embed_claims@[k]).1@,
                );
                !is_reserved(target) && target != "parent_agent"@ && target != "assurance"@
            },
{
    let s = c.enrollment.trusted_issuers@;
    lemma_issuers_sound(s, c.insecure_dev_mode);
    if i < j {
        assert(s[i].name@ != s[j].name@);
    } else {
        assert(s[j].name@ != s[i].name@);
    }
    assert(issuer_fault(s[i], c.insecure_dev_mode) is None);
    assert forall|k: int| 0 <= k < s[i].embed_claims@.len() implies ({
        let target = target_name((#[trigger] s[i].embed_claims@[k]).1@);
        !is_reserved(target) && target != "parent_agent"@ && target != "assurance"@
    }) by {
        lemma_embeds_sound(issuer_context(s[i]), s[i].embed_claims@, k);
    }
}

/// In a configuration that passes, every static token is at least 16 characters
/// long.
pub proof fn law_static_tokens_are_long(c: Config, i: int)
    requires
        config_fault(c) is None,
        0 <= i < c.enrollment.static_tokens@.len(),
    ensures
        c.enrollment.static_tokens@[i].token@.len() >= 16,
{
    lemma_static_sound(c.enrollment.static_tokens@, c.insecure_dev_mode, i);
}

/// A configuration to start from.
pub const EXAMPLE_CONFIG: &'static str = "{
  \"issuer\": \"https://ap.example.com\",
  \"listen\": \"127.0.0.1:8420\",
  \"keys_file\": \"/var/lib/apd/apd-keys.json\",
  \"storage\": { \"backend\": \"file\", \"path\": \"/var/lib/apd/apd-state.json\" },
  \"agent_token_ttl_secs\": 3600,
  \"subscribe_token_ttl_secs\": 86400,
  \"signature_window_secs\": 60,
  \"enrollment\": {
    \"methods\": [\"token\"],
    \"trusted_issuers\": []
  },
  \"allow_ps_override\": true,
  \"metadata\": {
    \"name\": \"Example Agent Provider\",
    \"description\": \"Self-hosted AAuth agent provider.\",
    \"documentation_uri\": \"https://ap.example.com/docs\"
  },
  \"events\": { \"enabled\": true },
  \"telemetry\": { \"enabled\": false, \"endpoint\": \"http://localhost:4318\" },
  \"revocation\": { \"notify_ps\": true },
  \"insecure_dev_mode\": false
}
";

/// A configuration to start from, with federated enrollment.
pub const EXAMPLE_CONFIG_FEDERATED: &'static str = "{
  \"issuer\": \"https://ap.example.com\",
  \"listen\": \"127.0.0.1:8420\",
  \"keys_file\": \"/var/lib/apd/apd-keys.json\",
  \"storage\": { \"backend\": \"redis\", \"redis_addr\": \"127.0.0.1:6379\" },
  \"enrollment\": {
    \"methods\": [\"token\", \"federated\", \"allowlist\"],
    \"trusted_issuers\": [
      {
        \"name\": \"prod-eks\",
        \"type\": \"oidc\",
        \"issuer\": \"https://oidc.eks.eu-west-1.amazonaws.com/id/EXAMPLE\",
        \"audience\": \"https://ap.example.com\",
        \"required_claims\": { \"sub\": \"system:serviceaccount:agents:*\" },
        \"embed_claims\": { \"kubernetes.io.namespace\": \"k8s_namespace\" },
        \"label\": \"eks-prod\"
      },
      {
        \"name\": \"agent-operator\",
        \"type\": \"jwks_file\",
        \"issuer\": \"https://operator.internal.example\",
        \"jwks_file\": \"/etc/apd/operator-jwks.json\",
        \"require_cnf_binding\": true,
        \"embed_claims\": { \"tenant\": \"tenant\" }
      },
      {
        \"name\": \"corp-ca\",
        \"type\": \"x5c\",
        \"issuer\": \"https://ca.corp.example\",
        \"ca_bundle_file\": \"/etc/apd/corp-roots.pem\",
        \"required_sans\": [\"spiffe://corp.example/ns/agents/*\"],
        \"require_cnf_binding\": true
      },
      {
        \"name\": \"corp-spire\",
        \"type\": \"spiffe\",
        \"issuer\": \"corp-spire\",
        \"trust_domain\": \"corp.example\",
        \"jwks_file\": \"/etc/apd/spire-bundle.json\",
        \"required_claims\": { \"sub\": \"spiffe://corp.example/ns/agents/*\" }
      }
    ]
  },
  \"audit_log_file\": \"/var/log/apd/audit.jsonl\",
  \"events\": { \"enabled\": true },
  \"telemetry\": { \"enabled\": true, \"endpoint\": \"http://otel-collector:4318\", \"service_name\": \"apd\" }
}
";

/// The enabled methods: those of the list, else the one of the older setting,
/// else tokens.
pub proof fn law_enabled_methods(e: EnrollmentConfig)
    ensures
        e.methods matches Some(m) ==> e.method_names() == text::list_view(m@),
        e.methods is None ==> (e.mode matches Some(m) ==> e.method_names() == seq![m@]),
        e.methods is None && e.mode is None ==> e.method_names() == seq!["token"@],
{
}

proof fn lemma_host_lowered(host: Seq<char>)
    requires
        ident::is_host(host),
    ensures
        text::lowered(host) == host,
        !":443"@.is_suffix_of(host),
        !":80"@.is_suffix_of(host),
{
    reveal_strlit(":443");
    reveal_strlit(":80");
    assert forall|i: int| 0 <= i < host.len() implies text::lowered(host)[i] == host[i] by {
        assert(ident::is_host_char(host[i]));
    }
    assert(text::lowered(host) =~= host);
    if ":443"@.is_suffix_of(host) {
        assert(host.subrange(host.len() - 4, host.len() as int)[0] == ':');
        assert(ident::is_host_char(host[host.len() - 4]));
    }
    if ":80"@.is_suffix_of(host) {
        assert(host.subrange(host.len() - 3, host.len() as int)[0] == ':');
        assert(ident::is_host_char(host[host.len() - 3]));
    }
}

/// The authority that requests must name: the configured one in lower case, else
/// the host of the issuer.
pub proof fn law_required_authority(c: Config, host: Seq<char>)
    ensures
        c.expected_authority matches Some(a) ==> c.authority_spec() == text::lowered(a@),
        c.expected_authority is None && ident::is_host(host) && (c.issuer@ == "https://"@ + host
            || c.issuer@ == "http://"@ + host) ==> c.authority_spec() == host,
{
    if c.expected_authority is None && ident::is_host(host) && (c.issuer@ == "https://"@ + host
        || c.issuer@ == "http://"@ + host) {
        ident::lemma_after_either_scheme(host);
        ident::lemma_host_is_authority(host);
        lemma_host_lowered(host);
    }
}

/// A trust domain may be written with its scheme or without.
pub proof fn law_bare_domain(d: Seq<char>)
    ensures
        bare_domain("spiffe://"@ + d) == d,
        !"spiffe://"@.is_prefix_of(d) ==> bare_domain(d) == d,
{
    reveal_strlit("spiffe://");
    assert(("spiffe://"@ + d).skip(9) =~= d);
    assert("spiffe://"@.is_prefix_of("spiffe://"@ + d));
}

/// What an issuer of each type must bring, and that there are no other types.
pub proof fn law_issuer_sources(i: TrustedIssuer)
    ensures
        i.issuer_type@ == "oidc"@ ==> source_fault(i) is None == ("https://"@.is_prefix_of(i.issuer@)
            || (i.allow_insecure_egress && "http://"@.is_prefix_of(i.issuer@))),
        i.issuer_type@ == "jwks_uri"@ ==> source_fault(i) is None == i.jwks_uri is Some,
        i.issuer_type@ == "jwks_file"@ ==> source_fault(i) is None == i.jwks_file is Some,
        i.issuer_type@ == "jwks"@ ==> source_fault(i) is None == i.jwks is Some,
        i.issuer_type@ == "x5c"@ ==> source_fault(i) is None == i.ca_bundle_file is Some,
        i.issuer_type@ == "spiffe"@ ==> source_fault(i) is None == ((i.trust_domain matches Some(td)
            && bare_domain(td@).len() > 0 && !bare_domain(td@).contains('/')) && tally(
            i.jwks is Some,
        ) + tally(i.jwks_file is Some) + tally(i.jwks_uri is Some) == 1),
        source_fault(i) is None ==> i.issuer_type@ == "oidc"@ || i.issuer_type@ == "jwks_uri"@
            || i.issuer_type@ == "jwks_file"@ || i.issuer_type@ == "jwks"@ || i.issuer_type@
            == "x5c"@ || i.issuer_type@ == "spiffe"@,
        tally(true) == 1 && tally(false) == 0,
{
    reveal_strlit("oidc");
    reveal_strlit("jwks_uri");
    reveal_strlit("jwks_file");
    reveal_strlit("jwks");
    reveal_strlit("x5c");
    reveal_strlit("spiffe");
    assert("oidc"@.len() == 4 && "jwks_uri"@.len() == 8 && "jwks_file"@.len() == 9 && "jwks"@.len() == 4 && "x5c"@.len() == 3 && "spiffe"@.len() == 6);
    assert("oidc"@[0] == 'o');
    assert("jwks"@[0] == 'j');
}

/// Required claims are in order exactly where each has a path and a matcher.
pub proof fn law_required_claims(ctx: Seq<char>, claims: Seq<(String, JsonValue)>, c: (String, JsonValue))
    ensures
        claims_fault(ctx, Seq::empty()) is None,
        claims_fault(ctx, claims.push(c)) is None == (claims_fault(ctx, claims) is None && c.0@.len()
            > 0 && is_matcher(c.1@)),
{
    assert(claims.push(c).drop_last() =~= claims);
}

/// A matcher is a text or a list of texts with one at least.
pub proof fn law_matcher(s: Seq<char>, list: Seq<Json>, n: int)
    ensures
        is_matcher(Json::Str(s)),
        is_matcher(Json::Arr(list)) == (list.len() > 0 && forall|i: int|
            0 <= i < list.len() ==> #[trigger] list[i] is Str),
        !is_matcher(Json::Int(n)) && !is_matcher(Json::Null) && !is_matcher(Json::Obj(Map::empty())),
{
}

/// Claims to copy are in order exactly where each has a path and a target of
/// lower-case letters, digits and underscores that the provider does not control.
pub proof fn law_embedded_claims(ctx: Seq<char>, claims: Seq<(String, JsonValue)>, c: (String, JsonValue))
    ensures
        embeds_fault(ctx, Seq::empty()) is None,
        embeds_fault(ctx, claims.push(c)) is None == (embeds_fault(ctx, claims) is None && c.0@.len()
            > 0 && is_embed_target(target_name(c.1@))),
        c.1@ matches Json::Str(s) ==> target_name(c.1@) == s,
        !(c.1@ is Str) ==> target_name(c.1@).len() == 0,
{
    assert(claims.push(c).drop_last() =~= claims);
}

/// Which names a claim may be copied under.
pub proof fn law_embed_targets(name: Seq<char>)
    ensures
        is_embed_target(name) == {
            &&& 0 < name.len() <= 64
            &&& forall|i: int|
                0 <= i < name.len() ==> 'a' <= #[trigger] name[i] <= 'z' || '0' <= name[i] <= '9'
                    || name[i] == '_'
            &&& name != "iss"@ && name != "sub"@ && name != "aud"@ && name != "exp"@
            &&& name != "iat"@ && name != "nbf"@ && name != "jti"@ && name != "cnf"@
            &&& name != "dwk"@ && name != "ps"@ && name != "parent_agent"@ && name != "assurance"@
        },
{
    if is_embed_target(name) {
        assert forall|i: int| 0 <= i < name.len() implies 'a' <= #[trigger] name[i] <= 'z' || '0'
            <= name[i] <= '9' || name[i] == '_' by {
            assert(is_name_char(name[i]));
        }
    }
}

/// A trusted issuer is in order exactly where it meets all of these.
pub proof fn law_trusted_issuer(i: TrustedIssuer, insecure: bool)
    ensures
        issuer_fault(i, insecure) is None == {
            &&& i.name@.len() > 0
            &&& i.issuer@.len() > 0
            &&& source_fault(i) is None
            &&& i.required_sans@.len() > 0 ==> i.issuer_type@ == "x5c"@
            &&& i.trust_domain is Some ==> i.issuer_type@ == "spiffe"@
            &&& i.assurance matches Some(a) ==> is_short_name(a@, 32)
            &&& claims_fault(issuer_context(i), i.required_claims@) is None
            &&& embeds_fault(issuer_context(i), i.embed_claims@) is None
            &&& i.ps matches Some(p) ==> ident::is_server_identifier(p@, insecure)
        },
{
}

/// The identity provider of the admin interface is in order exactly where it is
/// an https issuer without a trailing slash, with an audience and with claims to
/// require.
pub proof fn law_admin_provider(o: AdminOidcConfig, insecure: bool)
    ensures
        admin_fault(o, insecure) is None == {
            &&& "https://"@.is_prefix_of(o.issuer@) || (insecure && "http://"@.is_prefix_of(
                o.issuer@,
            ))
            &&& !"/"@.is_suffix_of(o.issuer@)
            &&& text::trimmed(o.audience@).len() > 0
            &&& o.required_claims@.len() > 0
            &&& forall|i: int|
                0 <= i < o.required_claims@.len() ==> text::trimmed(
                    (#[trigger] o.required_claims@[i]).0@,
                ).len() > 0
        },
{
    if forall|i: int|
        0 <= i < o.required_claims@.len() ==> text::trimmed(
            (#[trigger] o.required_claims@[i]).0@,
        ).len() > 0 {
        assert(!has_blank_name(o.required_claims@));
    } else {
        let i = choose|i: int|
            0 <= i < o.required_claims@.len() && text::trimmed(
                (#[trigger] o.required_claims@[i]).0@,
            ).len() == 0;
        assert(text::trimmed(o.required_claims@[i].0@).len() == 0);
        assert(has_blank_name(o.required_claims@));
    }
}

/// The three backends, and what each needs.
pub proof fn law_storage_settings(s: StorageConfig)
    ensures
        storage_fault(s) is None == (s.backend@ == "memory"@ || (s.backend@ == "file"@ && s.path is Some)
            || (s.backend@ == "redis"@ && s.redis_addr is Some)),
{
    reveal_strlit("memory");
    reveal_strlit("file");
    reveal_strlit("redis");
    assert("memory"@.len() == 6 && "file"@.len() == 4 && "redis"@.len() == 5);
}

/// The methods of enrollment are these four; a list of them is in order where it
/// holds no other.
pub proof fn law_methods_known(methods: Seq<Seq<char>>)
    ensures
        unknown_method(methods) is None == (forall|i: int|
            0 <= i < methods.len() ==> (#[trigger] methods[i] == "token"@ || methods[i] == "open"@
                || methods[i] == "federated"@ || methods[i] == "allowlist"@)),
    decreases methods.len(),
{
    if methods.len() > 0 {
        let rest = methods.drop_first();
        law_methods_known(rest);
        if is_method(methods[0]) {
            assert forall|i: int| 0 <= i < rest.len() implies rest[i] == methods[i + 1] by {}
            if unknown_method(rest) is None {
                assert forall|i: int| 0 <= i < methods.len() implies (#[trigger] methods[i]
                    == "token"@ || methods[i] == "open"@ || methods[i] == "federated"@
                    || methods[i] == "allowlist"@) by {
                    if i > 0 {
                        assert(rest[i - 1] == methods[i]);
                    }
                }
            } else {
                let i = choose|i: int|
                    0 <= i < rest.len() && !(#[trigger] rest[i] == "token"@ || rest[i] == "open"@
                        || rest[i] == "federated"@ || rest[i] == "allowlist"@);
                assert(methods[i + 1] == rest[i]);
            }
        }
    }
}

/// Trusted issuers are in order exactly where each is, and no two have one name.
pub proof fn law_trusted_issuers(s: Seq<TrustedIssuer>, x: TrustedIssuer, insecure: bool)
    ensures
        issuers_fault(Seq::empty(), insecure) is None,
        issuers_fault(s.push(x), insecure) is None == (issuers_fault(s, insecure) is None
            && issuer_fault(x, insecure) is None && forall|i: int|
            0 <= i < s.len() ==> (#[trigger] s[i]).name@ != x.name@),
{
    let all = s.push(x);
    assert(all.drop_last() =~= s);
    assert(all.last() == x);
    if exists|i: int| 0 <= i < all.len() - 1 && #[trigger] all[i].name@ == all.last().name@ {
        let i = choose|i: int| 0 <= i < all.len() - 1 && #[trigger] all[i].name@ == all.last().name@;
        assert(s[i] == all[i]);
    }
    if exists|i: int| 0 <= i < s.len() && (#[trigger] s[i]).name@ == x.name@ {
        let i = choose|i: int| 0 <= i < s.len() && (#[trigger] s[i]).name@ == x.name@;
        assert(all[i] == s[i]);
    }
}

/// Static tokens are in order exactly where each is long enough and names no
/// invalid Person Server.
pub proof fn law_static_tokens(s: Seq<StaticEnrollToken>, x: StaticEnrollToken, insecure: bool)
    ensures
        static_fault(Seq::empty(), insecure) is None,
        static_fault(s.push(x), insecure) is None == (static_fault(s, insecure) is None
            && x.token@.len() >= 16 && (x.ps matches Some(p) ==> ident::is_server_identifier(
            p@,
            insecure,
        ))),
{
    assert(s.push(x).drop_last() =~= s);
}

/// The enrollment settings are in order exactly where they meet all of these.
pub proof fn law_enrollment_settings(e: EnrollmentConfig, insecure: bool)
    ensures
        enrollment_fault(e, insecure) is None == {
            &&& e.method_names().len() > 0
            &&& unknown_method(e.method_names()) is None
            &&& e.method_names().contains("federated"@) == (e.trusted_issuers@.len() > 0)
            &&& issuers_fault(e.trusted_issuers@, insecure) is None
            &&& e.static_tokens@.len() > 0 ==> e.method_names().contains("token"@)
            &&& static_fault(e.static_tokens@, insecure) is None
            &&& e.default_ps matches Some(p) ==> ident::is_server_identifier(p@, insecure)
        },
{
}

/// A configuration is in order exactly where the issuer is a server, agent tokens
/// last between a second and a day, and every part is in order.
pub proof fn law_configuration(c: Config)
    ensures
        config_fault(c) is None == {
            &&& ident::is_server_identifier(c.issuer@, c.insecure_dev_mode)
            &&& c.admin_oidc matches Some(o) ==> admin_fault(o, c.insecure_dev_mode) is None
            &&& 1 <= c.agent_token_ttl_secs <= 86400
            &&& storage_fault(c.storage) is None
            &&& enrollment_fault(c.enrollment, c.insecure_dev_mode) is None
            &&& c.telemetry.enabled ==> (c.telemetry.endpoint matches Some(u)
                ==> "http://"@.is_prefix_of(u@) || "https://"@.is_prefix_of(u@))
        },
{
}

/// What the environment sets stands before what the file says, but for the
/// settings that it only fills.
pub proof fn law_environment(old_text: Seq<char>, old_value: Option<String>, new_value: Option<String>)
    ensures
        new_value matches Some(v) ==> overridden(old_text, new_value) == v@ && replaced(
            old_value,
            new_value,
        ) == Some(v@),
        new_value is None ==> overridden(old_text, new_value) == old_text && replaced(
            old_value,
            new_value,
        ) == text::opt_view(old_value),
        old_value is Some ==> filled(old_value, new_value) == text::opt_view(old_value),
        old_value is None ==> filled(old_value, new_value) == text::opt_view(new_value),
{
}

} // verus!
