//! Who may enroll. The methods are tried in one order: an assertion that is
//! presented, a token that is presented, the allow-list, and open enrollment.
//! A credential that is presented and is not good is a denial; no other method
//! is tried after it.

use vstd::prelude::*;

use crate::assertion;
use crate::assertion::{FederatedVerdict, VerdictView};
use crate::config::{Config, EnrollmentConfig, StaticEnrollToken};
use crate::ident;
use crate::json::JsonValue;
use crate::problem;
use crate::problem::{ApiError, ApiErrorView};
use crate::records;
use crate::records::{AgentRecord, AgentView};
use crate::text;

verus! {

/// Whether two byte strings are equal, in a time that depends on their lengths
/// alone.
pub fn constant_time_eq(a: &[u8], b: &[u8]) -> (r: bool)
    ensures
        r == (a@ == b@),
{
    if a.len() != b.len() {
        return false;
    }
    let mut diff: u8 = 0;
    let mut i: usize = 0;
    while i < a.len()
        invariant
            i <= a@.len(),
            a@.len() == b@.len(),
            (diff == 0) == (forall|j: int| 0 <= j < i ==> #[trigger] a@[j] == b@[j]),
        decreases a@.len() - i,
    {
        let x: u8 = a[i];
        let y: u8 = b[i];
        let next: u8 = diff | (x ^ y);
        proof {
            assert((next == 0) == (diff == 0 && x == y)) by (bit_vector)
                requires
                    next == diff | (x ^ y),
            ;
            assert(x == a@[i as int] && y == b@[i as int]);
        }
        diff = next;
        i += 1;
    }
    proof {
        if diff == 0 {
            assert(a@ =~= b@);
        }
    }
    diff == 0
}

/// How an enrollment was authorized.
pub enum Authorized {
    Token {
        ps: Option<String>,
        label: Option<String>,
        /// Whether the token was one of the configuration, which can be used
        /// again.
        static_token: bool,
    },
    Federated(FederatedVerdict),
    Allowlist { ps: Option<String>, label: Option<String> },
    Open,
}

/// What an [`Authorized`] holds.
pub enum AuthorizedView {
    Token { ps: Option<Seq<char>>, label: Option<Seq<char>>, static_token: bool },
    Federated(VerdictView),
    Allowlist { ps: Option<Seq<char>>, label: Option<Seq<char>> },
    Open,
}

/// The name of the method of an authorization.
pub open spec fn method_of(a: AuthorizedView) -> Seq<char> {
    match a {
        AuthorizedView::Token { .. } => "token"@,
        AuthorizedView::Federated(_) => "federated"@,
        AuthorizedView::Allowlist { .. } => "allowlist"@,
        AuthorizedView::Open => "open"@,
    }
}

/// The assurance that an authorization gives.
pub open spec fn assurance_of(a: AuthorizedView) -> Seq<char> {
    match a {
        AuthorizedView::Token { static_token, .. } => if static_token {
            "low"@
        } else {
            "medium"@
        },
        AuthorizedView::Federated(v) => v.assurance,
        AuthorizedView::Allowlist { .. } => "medium"@,
        AuthorizedView::Open => "none"@,
    }
}

/// The label that an authorization brings.
pub open spec fn label_of(a: AuthorizedView) -> Option<Seq<char>> {
    match a {
        AuthorizedView::Token { label, .. } => label,
        AuthorizedView::Federated(v) => v.label,
        AuthorizedView::Allowlist { label, .. } => label,
        AuthorizedView::Open => None,
    }
}

impl Authorized {
    /// What the authorization holds.
    pub open spec fn view(&self) -> AuthorizedView {
        match self {
            Authorized::Token { ps, label, static_token } => AuthorizedView::Token {
                ps: text::opt_view(*ps),
                label: text::opt_view(*label),
                static_token: *static_token,
            },
            Authorized::Federated(v) => AuthorizedView::Federated(v@),
            Authorized::Allowlist { ps, label } => AuthorizedView::Allowlist {
                ps: text::opt_view(*ps),
                label: text::opt_view(*label),
            },
            Authorized::Open => AuthorizedView::Open,
        }
    }

    /// The name of the method.
    pub fn method(&self) -> (r: &'static str)
        ensures
            r@ == method_of(self@),
    {
        match self {
            Authorized::Token { .. } => "token",
            Authorized::Federated(_) => "federated",
            Authorized::Allowlist { .. } => "allowlist",
            Authorized::Open => "open",
        }
    }

    /// The assurance that the authorization gives.
    pub fn assurance(&self) -> (r: String)
        ensures
            r@ == assurance_of(self@),
    {
        match self {
            Authorized::Token { static_token, .. } => if *static_token {
                "low".to_owned()
            } else {
                "medium".to_owned()
            },
            Authorized::Federated(v) => v.assurance.clone(),
            Authorized::Allowlist { .. } => "medium".to_owned(),
            Authorized::Open => "none".to_owned(),
        }
    }

    fn label(&self) -> (r: Option<String>)
        ensures
            text::opt_view(r) == label_of(self@),
    {
        match self {
            Authorized::Token { label, .. } => label.clone(),
            Authorized::Federated(v) => v.label.clone(),
            Authorized::Allowlist { label, .. } => label.clone(),
            Authorized::Open => None,
        }
    }
}

// ----------------------------------------------------------- credentials

/// What an enrollment has to be authorized by.
pub enum Credential {
    /// The verdict on this assertion.
    Assertion(String),
    /// Nothing more: a token of the configuration was presented.
    Granted(Authorized),
    /// The record under this key, which is consumed: a minted token.
    Minted(String),
    /// The record under this key, which is consumed: an allowed key.
    Listed(String),
}

/// The same, as mathematics has it.
pub enum CredentialView {
    Assertion(Seq<char>),
    Granted(AuthorizedView),
    Minted(Seq<char>),
    Listed(Seq<char>),
}

impl Credential {
    /// What is needed.
    pub open spec fn view(&self) -> CredentialView {
        match self {
            Credential::Assertion(a) => CredentialView::Assertion(a@),
            Credential::Granted(a) => CredentialView::Granted(a@),
            Credential::Minted(k) => CredentialView::Minted(k@),
            Credential::Listed(k) => CredentialView::Listed(k@),
        }
    }
}

/// A method that is not enabled.
pub open spec fn disabled(method: Seq<char>) -> ApiErrorView {
    problem::forbidden(
        "method_disabled"@,
        "the "@ + method + " enrollment method is not enabled"@,
    )
}

/// An enrollment without a credential.
pub open spec fn credential_required() -> ApiErrorView {
    problem::forbidden("enrollment_required"@, "an enrollment credential is required"@)
}

/// A token of the configuration.
pub open spec fn static_match(s: Seq<StaticEnrollToken>, token: Seq<char>) -> Option<AuthorizedView>
    decreases s.len(),
{
    if s.len() == 0 {
        None
    } else if s[0].token@ == token {
        Some(
            AuthorizedView::Token {
                ps: text::opt_view(s[0].ps),
                label: text::opt_view(s[0].label),
                static_token: true,
            },
        )
    } else {
        static_match(s.drop_first(), token)
    }
}

/// What authorizes an enrollment where nothing is presented and the key is on
/// no list.
pub open spec fn open_or_denied(e: EnrollmentConfig) -> Result<AuthorizedView, ApiErrorView> {
    if e.method_names().contains("open"@) {
        Ok(AuthorizedView::Open)
    } else {
        Err(credential_required())
    }
}

/// What an enrollment has to be authorized by, or why it is denied.
pub open spec fn credential(
    e: EnrollmentConfig,
    presented: Option<Seq<char>>,
    token: Option<Seq<char>>,
    jkt: Seq<char>,
) -> Result<CredentialView, ApiErrorView> {
    match (presented, token) {
        (Some(a), _) => if e.method_names().contains("federated"@) {
            Ok(CredentialView::Assertion(a))
        } else {
            Err(disabled("federated"@))
        },
        (None, Some(t)) => if !e.method_names().contains("token"@) {
            Err(disabled("token"@))
        } else {
            match static_match(e.static_tokens@, t) {
                Some(granted) => Ok(CredentialView::Granted(granted)),
                None => Ok(CredentialView::Minted("enrolltok:"@ + t)),
            }
        },
        (None, None) => if e.method_names().contains("allowlist"@) {
            Ok(CredentialView::Listed("allowkey:"@ + jkt))
        } else {
            match open_or_denied(e) {
                Ok(a) => Ok(CredentialView::Granted(a)),
                Err(x) => Err(x),
            }
        },
    }
}

fn find_static(tokens: &Vec<StaticEnrollToken>, token: &str) -> (r: Option<Authorized>)
    ensures
        match r {
            Some(a) => static_match(tokens@, token@) == Some(a@),
            None => static_match(tokens@, token@) is None,
        },
{
    let mut i: usize = 0;
    proof {
        assert(tokens@.skip(0) =~= tokens@);
    }
    while i < tokens.len()
        invariant
            i <= tokens@.len(),
            static_match(tokens@, token@) == static_match(tokens@.skip(i as int), token@),
        decreases tokens@.len() - i,
    {
        proof {
            assert(tokens@.skip(i as int)[0] == tokens@[i as int]);
            assert(tokens@.skip(i as int).drop_first() =~= tokens@.skip(i + 1));
            vstd::utf8::encode_utf8_decode_utf8(tokens@[i as int].token@);
            vstd::utf8::encode_utf8_decode_utf8(token@);
        }
        if constant_time_eq(tokens[i].token.as_str().as_bytes(), token.as_bytes()) {
            return Some(
                Authorized::Token {
                    ps: tokens[i].ps.clone(),
                    label: tokens[i].label.clone(),
                    static_token: true,
                },
            );
        }
        i += 1;
    }
    None
}

fn method_disabled(method: &str) -> (r: ApiError)
    ensures
        r@ == disabled(method@),
{
    ApiError::forbidden(
        "method_disabled",
        text::join3("the ", method, " enrollment method is not enabled").as_str(),
    )
}

fn no_credential() -> (r: ApiError)
    ensures
        r@ == credential_required(),
{
    ApiError::forbidden("enrollment_required", "an enrollment credential is required")
}

/// What an enrollment has to be authorized by. `presented` is an assertion,
/// `token` an enrollment token, `jkt` the thumbprint of the enrolling key.
pub fn choose_credential(
    e: &EnrollmentConfig,
    presented: &Option<String>,
    token: &Option<String>,
    jkt: &str,
) -> (r: Result<Credential, ApiError>)
    ensures
        match r {
            Ok(c) => credential(*e, text::opt_view(*presented), text::opt_view(*token), jkt@)
                == Ok::<CredentialView, ApiErrorView>(c@),
            Err(x) => credential(*e, text::opt_view(*presented), text::opt_view(*token), jkt@)
                == Err::<CredentialView, ApiErrorView>(x@),
        },
{
    if let Some(a) = presented {
        if !e.method_enabled("federated") {
            return Err(method_disabled("federated"));
        }
        return Ok(Credential::Assertion(a.clone()));
    }
    if let Some(t) = token {
        if !e.method_enabled("token") {
            return Err(method_disabled("token"));
        }
        return match find_static(&e.static_tokens, t.as_str()) {
            Some(granted) => Ok(Credential::Granted(granted)),
            None => Ok(Credential::Minted(records::enroll_token_key(t.as_str()))),
        };
    }
    if e.method_enabled("allowlist") {
        return Ok(Credential::Listed(records::allowed_key_key(jkt)));
    }
    if e.method_enabled("open") {
        Ok(Credential::Granted(Authorized::Open))
    } else {
        Err(no_credential())
    }
}

/// What a consumed enrollment token authorizes.
pub open spec fn minted_outcome(found: Option<Seq<u8>>) -> Result<AuthorizedView, ApiErrorView> {
    match found {
        None => Err(
            problem::forbidden(
                "invalid_enrollment_token"@,
                "enrollment token is unknown, expired, or already used"@,
            ),
        ),
        Some(b) => match records::stored_enroll_token(b) {
            Some(rec) => Ok(
                AuthorizedView::Token { ps: rec.ps, label: rec.label, static_token: false },
            ),
            None => Ok(AuthorizedView::Token { ps: None, label: None, static_token: false }),
        },
    }
}

/// What a consumed enrollment token authorizes.
pub fn token_consumed(found: &Option<Vec<u8>>) -> (r: Result<Authorized, ApiError>)
    ensures
        match r {
            Ok(a) => minted_outcome(crate::storage::opt_bytes(*found)) == Ok::<
                AuthorizedView,
                ApiErrorView,
            >(a@),
            Err(e) => minted_outcome(crate::storage::opt_bytes(*found)) == Err::<
                AuthorizedView,
                ApiErrorView,
            >(e@),
        },
{
    match found {
        None => Err(
            ApiError::forbidden(
                "invalid_enrollment_token",
                "enrollment token is unknown, expired, or already used",
            ),
        ),
        Some(b) => match records::read_enroll_token(b.as_slice()) {
            Some(rec) => Ok(
                Authorized::Token { ps: rec.ps, label: rec.label, static_token: false },
            ),
            None => Ok(Authorized::Token { ps: None, label: None, static_token: false }),
        },
    }
}

/// What a consumed pre-registration authorizes; without one, open enrollment
/// where it is enabled.
pub open spec fn listed_outcome(e: EnrollmentConfig, found: Option<Seq<u8>>) -> Result<
    AuthorizedView,
    ApiErrorView,
> {
    match found {
        None => open_or_denied(e),
        Some(b) => match records::stored_allowed_key(b) {
            Some(rec) => Ok(AuthorizedView::Allowlist { ps: rec.ps, label: rec.label }),
            None => Ok(AuthorizedView::Allowlist { ps: None, label: None }),
        },
    }
}

/// What a consumed pre-registration authorizes; without one, open enrollment
/// where it is enabled.
pub fn allowlist_consumed(e: &EnrollmentConfig, found: &Option<Vec<u8>>) -> (r: Result<
    Authorized,
    ApiError,
>)
    ensures
        match r {
            Ok(a) => listed_outcome(*e, crate::storage::opt_bytes(*found)) == Ok::<
                AuthorizedView,
                ApiErrorView,
            >(a@),
            Err(x) => listed_outcome(*e, crate::storage::opt_bytes(*found)) == Err::<
                AuthorizedView,
                ApiErrorView,
            >(x@),
        },
{
    match found {
        None => if e.method_enabled("open") {
            Ok(Authorized::Open)
        } else {
            Err(no_credential())
        },
        Some(b) => match records::read_allowed_key(b.as_slice()) {
            Some(rec) => Ok(Authorized::Allowlist { ps: rec.ps, label: rec.label }),
            None => Ok(Authorized::Allowlist { ps: None, label: None }),
        },
    }
}

/// A refused assertion.
pub open spec fn bad_assertion(detail: Seq<char>) -> ApiErrorView {
    problem::forbidden("invalid_assertion"@, detail)
}

/// The error for a refused assertion.
pub fn assertion_refused(detail: &str) -> (r: ApiError)
    ensures
        r@ == bad_assertion(detail@),
{
    ApiError::forbidden("invalid_assertion", detail)
}

/// What an accepted assertion authorizes. One that can be used once only is
/// refused where its identifier was used before.
pub fn assertion_accepted(v: FederatedVerdict, fresh: bool) -> (r: Result<Authorized, ApiError>)
    ensures
        match r {
            Ok(a) => (v@.consume_jti is None || fresh) && a@ == AuthorizedView::Federated(v@),
            Err(e) => v@.consume_jti is Some && !fresh && e@ == bad_assertion(
                "assertion jti already used (replay)"@,
            ),
        },
{
    if v.consume_jti.is_some() && !fresh {
        return Err(assertion_refused("assertion jti already used (replay)"));
    }
    Ok(Authorized::Federated(v))
}

// --------------------------------------------------------- Person Server

/// A value for `ps` that is no server identifier.
pub open spec fn bad_ps() -> ApiErrorView {
    problem::bad_request("invalid_request"@, "ps is not a valid server identifier"@)
}

/// A value for `ps` that the enrollment does not allow.
pub open spec fn other_ps() -> ApiErrorView {
    problem::forbidden(
        "ps_mismatch"@,
        "requested ps differs from the enrollment's bound ps and override is disabled"@,
    )
}

/// The Person Server that tokens name: the one that is asked for, where it may
/// be, else that of the enrollment, else the default.
pub open spec fn chosen_ps(
    cfg: Config,
    bound: Option<Seq<char>>,
    requested: Option<Seq<char>>,
) -> Result<Option<Seq<char>>, ApiErrorView> {
    if requested matches Some(p) && !ident::is_server_identifier(p, cfg.insecure_dev_mode) {
        Err(bad_ps())
    } else {
        match (bound, requested) {
            (Some(e), Some(r)) => if e != r && !cfg.allow_ps_override {
                Err(other_ps())
            } else {
                Ok(Some(r))
            },
            (Some(e), None) => Ok(Some(e)),
            (None, Some(r)) => Ok(Some(r)),
            (None, None) => Ok(text::opt_view(cfg.enrollment.default_ps)),
        }
    }
}

/// The Person Server of an enrollment. One that the issuer of an assertion
/// fixes stands, whatever else is asked for or allowed.
pub open spec fn enrolled_ps(
    cfg: Config,
    a: AuthorizedView,
    requested: Option<Seq<char>>,
) -> Result<Option<Seq<char>>, ApiErrorView> {
    match a {
        AuthorizedView::Federated(v) => match v.ps_pin {
            Some(pin) => if requested matches Some(p) && !ident::is_server_identifier(
                p,
                cfg.insecure_dev_mode,
            ) {
                Err(bad_ps())
            } else if requested matches Some(p) && p != pin {
                Err(other_ps())
            } else {
                Ok(Some(pin))
            },
            None => chosen_ps(cfg, None, requested),
        },
        AuthorizedView::Token { ps, .. } => chosen_ps(cfg, ps, requested),
        AuthorizedView::Allowlist { ps, .. } => chosen_ps(cfg, ps, requested),
        AuthorizedView::Open => chosen_ps(cfg, None, requested),
    }
}

/// What choosing a Person Server gave.
pub open spec fn ps_outcome(r: Result<Option<String>, ApiError>) -> Result<
    Option<Seq<char>>,
    ApiErrorView,
> {
    match r {
        Ok(o) => Ok(text::opt_view(o)),
        Err(e) => Err(e@),
    }
}

fn check_ps(cfg: &Config, requested: &Option<String>) -> (r: Result<(), ApiError>)
    ensures
        match r {
            Ok(_) => !(text::opt_view(*requested) matches Some(p) && !ident::is_server_identifier(
                p,
                cfg.insecure_dev_mode,
            )),
            Err(e) => text::opt_view(*requested) matches Some(p) && !ident::is_server_identifier(
                p,
                cfg.insecure_dev_mode,
            ) && e@ == bad_ps(),
        },
{
    if let Some(p) = requested {
        if ident::validate_server_identifier(p.as_str(), cfg.insecure_dev_mode).is_err() {
            return Err(
                ApiError::bad_request("invalid_request", "ps is not a valid server identifier"),
            );
        }
    }
    Ok(())
}

fn ps_denied() -> (r: ApiError)
    ensures
        r@ == other_ps(),
{
    ApiError::forbidden(
        "ps_mismatch",
        "requested ps differs from the enrollment's bound ps and override is disabled",
    )
}

/// The Person Server that tokens name.
pub fn resolve_ps(cfg: &Config, bound: &Option<String>, requested: &Option<String>) -> (r: Result<
    Option<String>,
    ApiError,
>)
    ensures
        ps_outcome(r) == chosen_ps(*cfg, text::opt_view(*bound), text::opt_view(*requested)),
{
    if let Err(e) = check_ps(cfg, requested) {
        return Err(e);
    }
    match (bound, requested) {
        (Some(e), Some(p)) => if !text::same(e.as_str(), p.as_str()) && !cfg.allow_ps_override {
            Err(ps_denied())
        } else {
            Ok(Some(p.clone()))
        },
        (Some(e), None) => Ok(Some(e.clone())),
        (None, Some(p)) => Ok(Some(p.clone())),
        (None, None) => Ok(cfg.enrollment.default_ps.clone()),
    }
}

/// The Person Server of an enrollment.
pub fn enrollment_ps(cfg: &Config, a: &Authorized, requested: &Option<String>) -> (r: Result<
    Option<String>,
    ApiError,
>)
    ensures
        ps_outcome(r) == enrolled_ps(*cfg, a@, text::opt_view(*requested)),
{
    let none: Option<String> = None;
    match a {
        Authorized::Federated(v) => match &v.ps_pin {
            Some(pin) => {
                if let Err(e) = check_ps(cfg, requested) {
                    return Err(e);
                }
                if let Some(p) = requested {
                    if !text::same(p.as_str(), pin.as_str()) {
                        return Err(ps_denied());
                    }
                }
                Ok(Some(pin.clone()))
            },
            None => resolve_ps(cfg, &none, requested),
        },
        Authorized::Token { ps, .. } => resolve_ps(cfg, ps, requested),
        Authorized::Allowlist { ps, .. } => resolve_ps(cfg, ps, requested),
        Authorized::Open => resolve_ps(cfg, &none, requested),
    }
}

/// The record of a new enrollment.
pub open spec fn fresh_record(
    a: AuthorizedView,
    local: Seq<char>,
    durable_jkt: Seq<char>,
    ps: Option<Seq<char>>,
    platform: Option<Seq<char>>,
    label: Option<Seq<char>>,
    now: u64,
) -> AgentView {
    AgentView {
        local,
        durable_jkt,
        ps,
        platform,
        label: match label {
            Some(l) => Some(l),
            None => label_of(a),
        },
        created_at: now,
        status: "active"@,
        last_issued_at: 0,
        tokens_issued: 0,
        method: method_of(a),
        issuer: match a {
            AuthorizedView::Federated(v) => Some(v.issuer_name),
            _ => None,
        },
        subject: match a {
            AuthorizedView::Federated(v) => v.subject,
            _ => None,
        },
        embed_claims: match a {
            AuthorizedView::Federated(v) => Some(v.embed),
            _ => None,
        },
        assurance: Some(assurance_of(a)),
    }
}

/// The record of a new enrollment.
pub fn new_record(
    a: &Authorized,
    local: &str,
    durable_jkt: &str,
    ps: Option<String>,
    platform: &Option<String>,
    label: &Option<String>,
    now: u64,
) -> (r: AgentRecord)
    ensures
        r@ == fresh_record(
            a@,
            local@,
            durable_jkt@,
            text::opt_view(ps),
            text::opt_view(*platform),
            text::opt_view(*label),
            now,
        ),
{
    let own_label = match label {
        Some(l) => Some(l.clone()),
        None => a.label(),
    };
    let mut issuer: Option<String> = None;
    let mut subject: Option<String> = None;
    let mut embed_claims: Option<Vec<(String, JsonValue)>> = None;
    if let Authorized::Federated(v) = a {
        issuer = Some(v.issuer_name.clone());
        subject = v.subject.clone();
        embed_claims = Some(records::copy_members(&v.embed));
    }
    AgentRecord {
        local: local.to_owned(),
        durable_jkt: durable_jkt.to_owned(),
        ps,
        platform: platform.clone(),
        label: own_label,
        created_at: now,
        status: records::STATUS_ACTIVE.to_owned(),
        last_issued_at: 0,
        tokens_issued: 0,
        method: a.method().to_owned(),
        issuer,
        subject,
        embed_claims,
        assurance: Some(a.assurance()),
    }
}

// ------------------------------------------------------------------ laws

/// A presented assertion is what decides, and after it a presented token: with
/// neither of them another method authorizes the enrollment, whether or not
/// they turn out to be good.
pub proof fn law_presented_decides(
    e: EnrollmentConfig,
    presented: Option<Seq<char>>,
    token: Option<Seq<char>>,
    jkt: Seq<char>,
)
    ensures
        presented matches Some(a) ==> match credential(e, presented, token, jkt) {
            Ok(c) => c == CredentialView::Assertion(a),
            Err(x) => x == disabled("federated"@),
        },
        presented is None && token is Some ==> match credential(e, presented, token, jkt) {
            Ok(CredentialView::Granted(a)) => static_match(e.static_tokens@, token->0) == Some(a),
            Ok(CredentialView::Minted(k)) => k == "enrolltok:"@ + token->0,
            Ok(_) => false,
            Err(x) => x == disabled("token"@),
        },
{
}

/// A minted token that is not there any more authorizes nothing.
pub proof fn law_missing_token_denied()
    ensures
        minted_outcome(None) is Err,
{
}

/// Open enrollment happens only where it is enabled.
pub proof fn law_open_only_where_enabled(
    e: EnrollmentConfig,
    presented: Option<Seq<char>>,
    token: Option<Seq<char>>,
    jkt: Seq<char>,
    found: Option<Seq<u8>>,
)
    requires
        !e.method_names().contains("open"@),
    ensures
        credential(e, presented, token, jkt) != Ok::<CredentialView, ApiErrorView>(
            CredentialView::Granted(AuthorizedView::Open),
        ),
        listed_outcome(e, found) != Ok::<AuthorizedView, ApiErrorView>(AuthorizedView::Open),
{
    if let Some(t) = token {
        lemma_static_match(e.static_tokens@, t);
    }
}

proof fn lemma_static_match(s: Seq<StaticEnrollToken>, token: Seq<char>)
    ensures
        static_match(s, token) matches Some(a) ==> a is Token,
    decreases s.len(),
{
    if s.len() > 0 {
        lemma_static_match(s.drop_first(), token);
    }
}

/// Without leave to override, the Person Server of an enrollment stays what it
/// was bound to.
pub proof fn law_bound_ps_stays(
    cfg: Config,
    bound: Seq<char>,
    requested: Option<Seq<char>>,
)
    requires
        !cfg.allow_ps_override,
        chosen_ps(cfg, Some(bound), requested) is Ok,
    ensures
        chosen_ps(cfg, Some(bound), requested) == Ok::<Option<Seq<char>>, ApiErrorView>(
            Some(bound),
        ),
{
}

/// The Person Server that an issuer fixes is that of the enrollment, or there
/// is no enrollment.
pub proof fn law_pinned_ps_stands(cfg: Config, v: VerdictView, requested: Option<Seq<char>>)
    requires
        v.ps_pin is Some,
        enrolled_ps(cfg, AuthorizedView::Federated(v), requested) is Ok,
    ensures
        enrolled_ps(cfg, AuthorizedView::Federated(v), requested) == Ok::<
            Option<Seq<char>>,
            ApiErrorView,
        >(v.ps_pin),
{
}

/// Where overriding is allowed, the Person Server that is asked for is the one that
/// is named, whatever the enrollment was bound to. An enrollment that is bound to
/// none takes what is asked for too; without a request the bound one stands, and
/// without either the default. What is no server identifier is refused.
pub proof fn law_requested_ps_wins(
    cfg: Config,
    bound: Option<Seq<char>>,
    requested: Seq<char>,
)
    ensures
        !ident::is_server_identifier(requested, cfg.insecure_dev_mode) ==> (chosen_ps(
            cfg,
            bound,
            Some(requested),
        ) matches Err(e) && e.status == 400 && e.error == "invalid_request"@),
        ident::is_server_identifier(requested, cfg.insecure_dev_mode) && (cfg.allow_ps_override
            || bound is None || bound == Some(requested)) ==> chosen_ps(
            cfg,
            bound,
            Some(requested),
        ) == Ok::<Option<Seq<char>>, ApiErrorView>(Some(requested)),
        ident::is_server_identifier(requested, cfg.insecure_dev_mode) && !cfg.allow_ps_override
            && bound is Some && bound != Some(requested) ==> (chosen_ps(
            cfg,
            bound,
            Some(requested),
        ) matches Err(e) && e.status == 403 && e.error == "ps_mismatch"@),
        bound is Some ==> chosen_ps(cfg, bound, None) == Ok::<Option<Seq<char>>, ApiErrorView>(
            bound,
        ),
        cfg.enrollment.default_ps matches Some(d) ==> chosen_ps(cfg, None, None) == Ok::<
            Option<Seq<char>>,
            ApiErrorView,
        >(Some(d@)),
        cfg.enrollment.default_ps is None ==> chosen_ps(cfg, None, None) == Ok::<
            Option<Seq<char>>,
            ApiErrorView,
        >(None),
{
}

/// An enrollment is bound to the Person Server of what authorized it, as its tokens
/// later are to that of the enrollment.
pub proof fn law_enrollment_ps(
    cfg: Config,
    ps: Option<Seq<char>>,
    label: Option<Seq<char>>,
    fixed: bool,
    requested: Option<Seq<char>>,
    v: VerdictView,
)
    ensures
        enrolled_ps(cfg, AuthorizedView::Token { ps, label, static_token: fixed }, requested)
            == chosen_ps(cfg, ps, requested),
        enrolled_ps(cfg, AuthorizedView::Allowlist { ps, label }, requested) == chosen_ps(
            cfg,
            ps,
            requested,
        ),
        enrolled_ps(cfg, AuthorizedView::Open, requested) == chosen_ps(cfg, None, requested),
        v.ps_pin is None ==> enrolled_ps(cfg, AuthorizedView::Federated(v), requested) == chosen_ps(
            cfg,
            None,
            requested,
        ),
        v.ps_pin is Some && requested is None ==> enrolled_ps(
            cfg,
            AuthorizedView::Federated(v),
            requested,
        ) == Ok::<Option<Seq<char>>, ApiErrorView>(v.ps_pin),
        v.ps_pin is Some && requested is Some && requested != v.ps_pin ==> enrolled_ps(
            cfg,
            AuthorizedView::Federated(v),
            requested,
        ) is Err,
{
}

/// How much each way to enroll vouches for an agent, and by which name it is known.
pub proof fn law_methods_and_assurance(
    ps: Option<Seq<char>>,
    label: Option<Seq<char>>,
    v: VerdictView,
)
    ensures
        ({
            let open = AuthorizedView::Open;
            let minted = AuthorizedView::Token { ps, label, static_token: false };
            let fixed = AuthorizedView::Token { ps, label, static_token: true };
            let listed = AuthorizedView::Allowlist { ps, label };
            let federated = AuthorizedView::Federated(v);
            &&& method_of(open) == "open"@ && assurance_of(open) == "none"@
            &&& method_of(minted) == "token"@ && assurance_of(minted) == "medium"@
            &&& method_of(fixed) == "token"@ && assurance_of(fixed) == "low"@
            &&& method_of(listed) == "allowlist"@ && assurance_of(listed) == "medium"@
            &&& method_of(federated) == "federated"@ && assurance_of(federated) == v.assurance
        }),
{
}

/// Each credential is looked at where its method is enabled, and refused where not: an
/// assertion by its verdict, a token of the configuration at once, any other token and
/// a listed key by what the store has under their own names.
pub proof fn law_enabled_methods_are_tried(
    e: EnrollmentConfig,
    assertion: Seq<char>,
    token: Option<Seq<char>>,
    presented: Seq<char>,
    jkt: Seq<char>,
)
    ensures
        e.method_names().contains("federated"@) ==> credential(e, Some(assertion), token, jkt)
            == Ok::<CredentialView, ApiErrorView>(CredentialView::Assertion(assertion)),
        !e.method_names().contains("federated"@) ==> (credential(e, Some(assertion), token, jkt)
            matches Err(x) && x.status == 403 && x.error == "method_disabled"@),
        e.method_names().contains("token"@) && static_match(e.static_tokens@, presented) is None
            ==> credential(e, None, Some(presented), jkt) == Ok::<CredentialView, ApiErrorView>(
            CredentialView::Minted("enrolltok:"@ + presented),
        ),
        !e.method_names().contains("token"@) ==> (credential(e, None, Some(presented), jkt) matches
            Err(x) && x.status == 403 && x.error == "method_disabled"@),
        e.method_names().contains("allowlist"@) ==> credential(e, None, None, jkt) == Ok::<
            CredentialView,
            ApiErrorView,
        >(CredentialView::Listed("allowkey:"@ + jkt)),
        !e.method_names().contains("allowlist"@) && e.method_names().contains("open"@)
            ==> credential(e, None, None, jkt) == Ok::<CredentialView, ApiErrorView>(
            CredentialView::Granted(AuthorizedView::Open),
        ),
        !e.method_names().contains("allowlist"@) && !e.method_names().contains("open"@) ==> (
        credential(e, None, None, jkt) matches Err(x) && x.status == 403 && x.error
            == "enrollment_required"@),
{
}

/// A token of the configuration is the one that is presented, with its own Person
/// Server and label; one that the configuration does not have is none of these.
pub proof fn law_static_token_is_its_own(s: Seq<StaticEnrollToken>, token: Seq<char>, i: int)
    ensures
        static_match(s, token) matches Some(a) ==> exists|j: int|
            0 <= j < s.len() && (#[trigger] s[j]).token@ == token && a == (AuthorizedView::Token {
                ps: text::opt_view(s[j].ps),
                label: text::opt_view(s[j].label),
                static_token: true,
            }),
        0 <= i < s.len() && s[i].token@ == token ==> static_match(s, token) is Some,
    decreases s.len(),
{
    if s.len() > 0 {
        let less = s.drop_first();
        law_static_token_is_its_own(less, token, i - 1);
        if s[0].token@ == token {
            assert(s[0].token@ == token);
        } else if let Some(a) = static_match(less, token) {
            let j = choose|j: int|
                0 <= j < less.len() && (#[trigger] less[j]).token@ == token && a == (
                AuthorizedView::Token {
                    ps: text::opt_view(less[j].ps),
                    label: text::opt_view(less[j].label),
                    static_token: true,
                });
            assert(s[j + 1] == less[j]);
        }
        if 0 < i < s.len() {
            assert(less[i - 1] == s[i]);
        }
    }
}

/// What a stored admission was made for is what it gives; what is not there gives
/// nothing, or an open enrollment where that is enabled.
pub proof fn law_admissions(
    e: EnrollmentConfig,
    found: Option<Seq<u8>>,
    token: records::EnrollTokenView,
    key: records::AllowedKeyView,
)
    ensures
        found is None ==> (minted_outcome(found) matches Err(x) && x.status == 403 && x.error
            == "invalid_enrollment_token"@),
        found is Some && records::stored_enroll_token(found->0) == Some(token) ==> minted_outcome(
            found,
        ) == Ok::<AuthorizedView, ApiErrorView>(
            AuthorizedView::Token { ps: token.ps, label: token.label, static_token: false },
        ),
        found is Some && records::stored_allowed_key(found->0) == Some(key) ==> listed_outcome(
            e,
            found,
        ) == Ok::<AuthorizedView, ApiErrorView>(
            AuthorizedView::Allowlist { ps: key.ps, label: key.label },
        ),
        found is None && e.method_names().contains("open"@) ==> listed_outcome(e, found) == Ok::<
            AuthorizedView,
            ApiErrorView,
        >(AuthorizedView::Open),
        found is None && !e.method_names().contains("open"@) ==> (listed_outcome(e, found) matches
            Err(x) && x.status == 403 && x.error == "enrollment_required"@),
{
}

/// A new enrollment is active, has issued nothing, and is what was asked for: its
/// name, its key, its Person Server, its platform and its label, which is that of the
/// authorization where none was asked for. An assertion leaves its issuer, its subject
/// and its claims.
pub proof fn law_new_enrollment(
    a: AuthorizedView,
    local: Seq<char>,
    jkt: Seq<char>,
    ps: Option<Seq<char>>,
    platform: Option<Seq<char>>,
    label: Option<Seq<char>>,
    now: u64,
    v: VerdictView,
)
    ensures
        ({
            let rec = fresh_record(a, local, jkt, ps, platform, label, now);
            &&& rec.local == local && rec.durable_jkt == jkt && rec.ps == ps && rec.platform
                == platform
            &&& rec.created_at == now && rec.status == "active"@ && rec.last_issued_at == 0
                && rec.tokens_issued == 0
            &&& label is Some ==> rec.label == label
            &&& label is None && a is Open ==> rec.label is None
            &&& rec.assurance == Some(assurance_of(a)) && rec.method == method_of(a)
            &&& a == AuthorizedView::Federated(v) ==> rec.issuer == Some(v.issuer_name)
                && rec.subject == v.subject && rec.embed_claims == Some(v.embed) && (label is None
                ==> rec.label == v.label)
            &&& !(a is Federated) ==> rec.issuer is None && rec.subject is None
                && rec.embed_claims is None
            &&& label is None ==> (a matches AuthorizedView::Token { label: given, .. } ==> rec.label
                == given)
            &&& label is None ==> (a matches AuthorizedView::Allowlist { label: given, .. }
                ==> rec.label == given)
        }),
{
}

/// A refused assertion is a denial, told with its reason.
pub proof fn law_bad_assertion(detail: Seq<char>)
    ensures
        bad_assertion(detail).status == 403,
        bad_assertion(detail).error == "invalid_assertion"@,
        bad_assertion(detail).detail == detail,
{
}

/// Each denial has its name: a method that is off, no credential, a token that is
/// gone, and a Person Server that is none or another.
pub proof fn law_denials_named(method: Seq<char>)
    ensures
        disabled(method).status == 403 && disabled(method).error == "method_disabled"@
            && disabled(method).detail == "the "@ + method + " enrollment method is not enabled"@,
        credential_required().status == 403 && credential_required().error
            == "enrollment_required"@,
        minted_outcome(None) matches Err(e) && e.status == 403 && e.error
            == "invalid_enrollment_token"@,
        bad_ps().status == 400 && bad_ps().error == "invalid_request"@,
        other_ps().status == 403 && other_ps().error == "ps_mismatch"@,
{
}

/// Open enrollment admits exactly where it is enabled.
pub proof fn law_open_enrollment(e: EnrollmentConfig)
    ensures
        e.method_names().contains("open"@) ==> open_or_denied(e) == Ok::<
            AuthorizedView,
            ApiErrorView,
        >(AuthorizedView::Open),
        !e.method_names().contains("open"@) ==> (open_or_denied(e) matches Err(x) && x.status == 403
            && x.error == "enrollment_required"@),
{
}

/// A label comes with the token, the assertion or the pre-registration.
pub proof fn law_labels(
    ps: Option<Seq<char>>,
    label: Option<Seq<char>>,
    fixed: bool,
    v: VerdictView,
)
    ensures
        label_of(AuthorizedView::Token { ps, label, static_token: fixed }) == label,
        label_of(AuthorizedView::Federated(v)) == v.label,
        label_of(AuthorizedView::Allowlist { ps, label }) == label,
        label_of(AuthorizedView::Open) is None,
{
}

/// A Person Server that an issuer pins can be asked for by its own name only: what
/// names no server is a bad request, and what names another is denied.
pub proof fn law_pinned_ps_requests(cfg: Config, v: VerdictView, pin: Seq<char>, r: Seq<char>)
    requires
        v.ps_pin == Some(pin),
    ensures
        ident::is_server_identifier(pin, cfg.insecure_dev_mode) ==> enrolled_ps(
            cfg,
            AuthorizedView::Federated(v),
            Some(pin),
        ) == Ok::<Option<Seq<char>>, ApiErrorView>(Some(pin)),
        !ident::is_server_identifier(r, cfg.insecure_dev_mode) ==> (enrolled_ps(
            cfg,
            AuthorizedView::Federated(v),
            Some(r),
        ) matches Err(e) && e.status == 400),
        ident::is_server_identifier(r, cfg.insecure_dev_mode) && r != pin ==> (enrolled_ps(
            cfg,
            AuthorizedView::Federated(v),
            Some(r),
        ) matches Err(e) && e.status == 403 && e.error == "ps_mismatch"@),
{
}

} // verus!
