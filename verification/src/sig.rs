//! HTTP Message Signatures (RFC 9421) in the AAuth profile: what a request is
//! signed over, and whether the signature is good.

use vstd::prelude::*;

use crate::b64;
use crate::crypto;
use crate::crypto::SigningKey;
use crate::decimal;
use crate::jwk;
use crate::jwk::{Jwk, JwkView};
use crate::jwt;
use crate::problem;
use crate::sfv;
use crate::sfv::{Bare, BareView, Content, ContentView, Item, ItemView, Member, MemberView};
use crate::text;

verus! {

/// Why a signature is refused, as the `Signature-Error` header names it.
#[derive(Debug, Clone, Copy, PartialEq, Eq, Structural)]
pub enum SigErrorCode {
    UnsupportedAlgorithm,
    UnsupportedScheme,
    InvalidSignature,
    InvalidInput,
    InvalidRequest,
    InvalidKey,
    UnknownKey,
    IssuerMissing,
    IssuerMismatch,
    CacheMiss,
    InvalidJwt,
    ExpiredJwt,
}

/// The name of a code.
pub open spec fn code_name(c: SigErrorCode) -> Seq<char> {
    match c {
        SigErrorCode::UnsupportedAlgorithm => "unsupported_algorithm"@,
        SigErrorCode::UnsupportedScheme => "unsupported_scheme"@,
        SigErrorCode::InvalidSignature => "invalid_signature"@,
        SigErrorCode::InvalidInput => "invalid_input"@,
        SigErrorCode::InvalidRequest => "invalid_request"@,
        SigErrorCode::InvalidKey => "invalid_key"@,
        SigErrorCode::UnknownKey => "unknown_key"@,
        SigErrorCode::IssuerMissing => "issuer_missing"@,
        SigErrorCode::IssuerMismatch => "issuer_mismatch"@,
        SigErrorCode::CacheMiss => "cache_miss"@,
        SigErrorCode::InvalidJwt => "invalid_jwt"@,
        SigErrorCode::ExpiredJwt => "expired_jwt"@,
    }
}

impl SigErrorCode {
    /// The name of the code.
    pub fn as_str(&self) -> (r: &'static str)
        ensures
            r@ == code_name(*self),
    {
        match self {
            SigErrorCode::UnsupportedAlgorithm => "unsupported_algorithm",
            SigErrorCode::UnsupportedScheme => "unsupported_scheme",
            SigErrorCode::InvalidSignature => "invalid_signature",
            SigErrorCode::InvalidInput => "invalid_input",
            SigErrorCode::InvalidRequest => "invalid_request",
            SigErrorCode::InvalidKey => "invalid_key",
            SigErrorCode::UnknownKey => "unknown_key",
            SigErrorCode::IssuerMissing => "issuer_missing",
            SigErrorCode::IssuerMismatch => "issuer_mismatch",
            SigErrorCode::CacheMiss => "cache_miss",
            SigErrorCode::InvalidJwt => "invalid_jwt",
            SigErrorCode::ExpiredJwt => "expired_jwt",
        }
    }
}

/// A refused signature.
#[derive(Debug)]
pub struct SigError {
    pub code: SigErrorCode,
    pub detail: String,
    /// The components that must be covered, where some were not.
    pub required_input: Option<Vec<String>>,
}

/// What a [`SigError`] says.
pub struct SigErrorView {
    pub code: SigErrorCode,
    pub detail: Seq<char>,
    pub required_input: Option<Seq<Seq<char>>>,
}

/// An error without a list of components.
pub open spec fn sig_error(code: SigErrorCode, detail: Seq<char>) -> SigErrorView {
    SigErrorView { code, detail, required_input: None }
}

impl SigError {
    /// What the error says.
    pub open spec fn view(&self) -> SigErrorView {
        SigErrorView {
            code: self.code,
            detail: self.detail@,
            required_input: jwt::opt_list_view(self.required_input),
        }
    }

    /// An error without a list of components.
    pub fn new(code: SigErrorCode, detail: &str) -> (r: SigError)
        ensures
            r@ == sig_error(code, detail@),
    {
        SigError { code, detail: detail.to_owned(), required_input: None }
    }
}

/// Where the key of a signature comes from: the schemes of `Signature-Key`.
pub enum SigKeyScheme {
    /// The key itself.
    Hwk(Jwk),
    /// A token that names the key.
    Jwt(String),
    /// A naming token, in which a durable key names an ephemeral one.
    JktJwt(String),
    /// A key that a server publishes.
    JwksUri { id: String, dwk: String, kid: String },
}

/// What a [`SigKeyScheme`] holds.
pub enum SchemeView {
    Hwk(JwkView),
    Jwt(Seq<char>),
    JktJwt(Seq<char>),
    JwksUri { id: Seq<char>, dwk: Seq<char>, kid: Seq<char> },
}

impl SigKeyScheme {
    /// What the scheme holds.
    pub open spec fn view(&self) -> SchemeView {
        match self {
            SigKeyScheme::Hwk(k) => SchemeView::Hwk(k@),
            SigKeyScheme::Jwt(t) => SchemeView::Jwt(t@),
            SigKeyScheme::JktJwt(t) => SchemeView::JktJwt(t@),
            SigKeyScheme::JwksUri { id, dwk, kid } => SchemeView::JwksUri {
                id: id@,
                dwk: dwk@,
                kid: kid@,
            },
        }
    }
}

/// The signature of a request, taken from its headers.
pub struct ParsedSignature {
    pub scheme: SigKeyScheme,
    /// The text that was signed.
    pub base: String,
    pub signature: Vec<u8>,
}

/// What a [`ParsedSignature`] holds.
pub struct ParsedView {
    pub scheme: SchemeView,
    pub base: Seq<char>,
    pub signature: Seq<u8>,
}

impl ParsedSignature {
    /// What the signature holds.
    pub open spec fn view(&self) -> ParsedView {
        ParsedView { scheme: self.scheme@, base: self.base@, signature: self.signature@ }
    }
}

/// Why a signature is not that of a key; nothing where it is.
pub open spec fn parsed_fault(p: ParsedView, key: JwkView) -> Option<SigErrorView> {
    match jwk::key_bytes(key) {
        Err(_) => Some(sig_error(SigErrorCode::InvalidKey, "unusable signing key"@)),
        Ok(raw) => if p.signature.len() == 64 && crypto::ed_verifies(
            raw,
            vstd::utf8::encode_utf8(p.base),
            p.signature,
        ) {
            None
        } else {
            Some(sig_error(SigErrorCode::InvalidSignature, "signature verification failed"@))
        },
    }
}

/// What an outcome without a value says.
pub open spec fn sig_outcome(r: Result<(), SigError>) -> Option<SigErrorView> {
    match r {
        Ok(_) => None,
        Err(e) => Some(e@),
    }
}

/// Verifies the signature of a request with a key.
pub fn verify_parsed(p: &ParsedSignature, key: &Jwk) -> (r: Result<(), SigError>)
    ensures
        sig_outcome(r) == parsed_fault(p@, key@),
{
    match key.verifying_key() {
        Err(_) => Err(SigError::new(SigErrorCode::InvalidKey, "unusable signing key")),
        Ok(_) => if jwt::verify_bytes(key, p.base.as_str().as_bytes(), &p.signature) {
            Ok(())
        } else {
            Err(SigError::new(SigErrorCode::InvalidSignature, "signature verification failed"))
        },
    }
}

// --------------------------------------------------------------- headers

/// The values of the headers with a name, without white space around them.
pub open spec fn header_values(headers: Seq<(Seq<char>, Seq<char>)>, name: Seq<char>) -> Seq<
    Seq<char>,
>
    decreases headers.len(),
{
    if headers.len() == 0 {
        Seq::empty()
    } else if headers.last().0 == name {
        header_values(headers.drop_last(), name).push(text::trimmed(headers.last().1))
    } else {
        header_values(headers.drop_last(), name)
    }
}

/// The value of a header: several are joined by commas.
pub open spec fn header_value(headers: Seq<(Seq<char>, Seq<char>)>, name: Seq<char>) -> Option<
    Seq<char>,
> {
    let values = header_values(headers, name);
    if values.len() == 0 {
        None
    } else {
        Some(text::joined(values, ", "@))
    }
}

/// The value of a header: several are joined by commas.
pub fn lookup_header(headers: &Vec<(String, String)>, name: &str) -> (r: Option<String>)
    ensures
        text::opt_view(r) == header_value(problem::headers_view(headers@), name@),
{
    let ghost all = problem::headers_view(headers@);
    let mut values: Vec<String> = Vec::new();
    let mut i: usize = 0;
    proof {
        assert(all.take(0) =~= Seq::empty());
        assert(text::list_view(values@) =~= Seq::empty());
    }
    while i < headers.len()
        invariant
            i <= headers@.len(),
            all == problem::headers_view(headers@),
            text::list_view(values@) == header_values(all.take(i as int), name@),
        decreases headers@.len() - i,
    {
        proof {
            assert(all.take(i + 1).drop_last() =~= all.take(i as int));
            assert(all.take(i + 1).last() == (headers@[i as int].0@, headers@[i as int].1@));
        }
        if text::same(headers[i].0.as_str(), name) {
            let ghost was = values@;
            let value = text::trim(headers[i].1.as_str());
            values.push(value);
            proof {
                assert(text::list_view(values@) =~= text::list_view(was).push(value@));
            }
        }
        i += 1;
    }
    proof {
        assert(all.take(all.len() as int) =~= all);
        assert(text::list_view(values@).len() == values@.len());
    }
    if values.len() == 0 {
        None
    } else {
        Some(text::join(values.as_slice(), ", "))
    }
}

// -------------------------------------------------------- signature base

/// What of a request can be signed.
pub struct RequestParts<'a> {
    pub method: &'a str,
    pub authority: &'a str,
    pub path: &'a str,
    /// With its question mark; empty where there is none.
    pub query: &'a str,
    pub headers: &'a Vec<(String, String)>,
}

/// What [`RequestParts`] hold.
pub struct PartsView {
    pub method: Seq<char>,
    pub authority: Seq<char>,
    pub path: Seq<char>,
    pub query: Seq<char>,
    pub headers: Seq<(Seq<char>, Seq<char>)>,
}

impl<'a> RequestParts<'a> {
    /// What the parts hold.
    pub open spec fn view(&self) -> PartsView {
        PartsView {
            method: self.method@,
            authority: self.authority@,
            path: self.path@,
            query: self.query@,
            headers: problem::headers_view(self.headers@),
        }
    }
}

/// The value of a component of a request; nothing where it has none.
pub open spec fn component(p: PartsView, name: Seq<char>) -> Option<Seq<char>> {
    if name == "@method"@ {
        Some(p.method)
    } else if name == "@authority"@ {
        Some(p.authority)
    } else if name == "@path"@ {
        Some(p.path)
    } else if name == "@query"@ {
        Some(
            if p.query.len() == 0 {
                "?"@
            } else {
                p.query
            },
        )
    } else if "@"@.is_prefix_of(name) {
        None
    } else {
        header_value(p.headers, name)
    }
}

/// The lines of a signature base; nothing where a component has no value.
pub open spec fn base_lines(p: PartsView, covered: Seq<Seq<char>>) -> Option<Seq<char>>
    decreases covered.len(),
{
    if covered.len() == 0 {
        Some(Seq::empty())
    } else {
        match (base_lines(p, covered.drop_last()), component(p, covered.last())) {
            (Some(lines), Some(v)) => Some(
                lines + problem::quoted(covered.last()) + ": "@ + v + "\n"@,
            ),
            _ => None,
        }
    }
}

/// The text that is signed: a line for each covered component, and the
/// parameters of the signature as they stand.
pub open spec fn signature_base(
    p: PartsView,
    covered: Seq<Seq<char>>,
    params: Seq<char>,
) -> Option<Seq<char>> {
    match base_lines(p, covered) {
        Some(lines) => Some(lines + "\"@signature-params\": "@ + params),
        None => None,
    }
}

fn read_component(p: &RequestParts, name: &str) -> (r: Option<String>)
    ensures
        text::opt_view(r) == component(p@, name@),
{
    if text::same(name, "@method") {
        Some(p.method.to_owned())
    } else if text::same(name, "@authority") {
        Some(p.authority.to_owned())
    } else if text::same(name, "@path") {
        Some(p.path.to_owned())
    } else if text::same(name, "@query") {
        if p.query.unicode_len() == 0 {
            Some("?".to_owned())
        } else {
            Some(p.query.to_owned())
        }
    } else if text::starts_with(name, "@") {
        None
    } else {
        lookup_header(p.headers, name)
    }
}

proof fn lemma_base_lines_prefix(p: PartsView, s: Seq<Seq<char>>, n: int)
    requires
        0 <= n <= s.len(),
        base_lines(p, s.take(n)) is None,
    ensures
        base_lines(p, s) is None,
    decreases s.len() - n,
{
    if n < s.len() {
        assert(s.take(n + 1).drop_last() =~= s.take(n));
        lemma_base_lines_prefix(p, s, n + 1);
    } else {
        assert(s.take(n) =~= s);
    }
}

/// Builds the text that is signed.
pub fn build_base(p: &RequestParts, covered: &Vec<String>, params: &str) -> (r: Option<String>)
    ensures
        text::opt_view(r) == signature_base(p@, text::list_view(covered@), params@),
{
    let ghost all = text::list_view(covered@);
    let mut out = String::new();
    let mut i: usize = 0;
    proof {
        assert(all.take(0) =~= Seq::empty());
        assert(out@ =~= Seq::empty());
    }
    while i < covered.len()
        invariant
            i <= covered@.len(),
            all == text::list_view(covered@),
            base_lines(p@, all.take(i as int)) == Some(out@),
        decreases covered@.len() - i,
    {
        proof {
            assert(all.take(i + 1).drop_last() =~= all.take(i as int));
            assert(all.take(i + 1).last() == covered@[i as int]@);
        }
        match read_component(p, covered[i].as_str()) {
            Some(v) => {
                out.append(problem::serialize_string(covered[i].as_str()).as_str());
                out.append(": ");
                out.append(v.as_str());
                out.append("\n");
            },
            None => {
                proof {
                    lemma_base_lines_prefix(p@, all, i + 1);
                }
                return None;
            },
        }
        i += 1;
    }
    proof {
        assert(all.take(all.len() as int) =~= all);
    }
    out.append("\"@signature-params\": ");
    out.append(params);
    Some(out)
}

// --------------------------------------------------------------- schemes

/// A text parameter.
pub open spec fn text_param(params: sfv::ParamsView, name: Seq<char>) -> Option<Seq<char>> {
    match sfv::param_named(params, name) {
        Some(BareView::Text(t)) => Some(t),
        _ => None,
    }
}

/// The key that a `Signature-Key` member describes itself.
pub open spec fn inline_key(params: sfv::ParamsView) -> Result<SchemeView, SigErrorView> {
    match (
        text_param(params, "kty"@),
        text_param(params, "crv"@),
        text_param(params, "x"@),
        text_param(params, "alg"@),
    ) {
        (Some(kty), Some(crv), Some(x), Some(alg)) => if alg == "Ed25519"@ {
            Ok(
                SchemeView::Hwk(
                    JwkView { kty, crv, x, kid: None, alg: Some(alg), use_: None },
                ),
            )
        } else {
            Err(sig_error(SigErrorCode::UnsupportedAlgorithm, "hwk alg is not Ed25519"@))
        },
        _ => Err(sig_error(SigErrorCode::InvalidKey, "hwk requires kty, crv, x and alg"@)),
    }
}

/// The scheme that a `Signature-Key` member names.
pub open spec fn scheme_of(m: MemberView) -> Result<SchemeView, SigErrorView> {
    match m.value {
        ContentView::One(BareView::Token(t)) => if t == "hwk"@ {
            inline_key(m.params)
        } else if t == "jwt"@ {
            match text_param(m.params, "jwt"@) {
                Some(token) => Ok(SchemeView::Jwt(token)),
                None => Err(sig_error(SigErrorCode::InvalidKey, "jwt scheme requires jwt"@)),
            }
        } else if t == "jkt-jwt"@ {
            match text_param(m.params, "jwt"@) {
                Some(token) => Ok(SchemeView::JktJwt(token)),
                None => Err(sig_error(SigErrorCode::InvalidKey, "jkt-jwt scheme requires jwt"@)),
            }
        } else if t == "jwks_uri"@ {
            match (
                text_param(m.params, "id"@),
                text_param(m.params, "dwk"@),
                text_param(m.params, "kid"@),
            ) {
                (Some(id), Some(dwk), Some(kid)) => Ok(SchemeView::JwksUri { id, dwk, kid }),
                _ => Err(
                    sig_error(
                        SigErrorCode::InvalidKey,
                        "jwks_uri scheme requires id, dwk and kid"@,
                    ),
                ),
            }
        } else {
            Err(
                sig_error(
                    SigErrorCode::UnsupportedScheme,
                    "unsupported Signature-Key scheme: "@ + t,
                ),
            )
        },
        _ => Err(sig_error(SigErrorCode::InvalidKey, "malformed Signature-Key"@)),
    }
}

fn read_text_param(params: &Vec<(String, Bare)>, name: &str) -> (r: Option<String>)
    ensures
        text::opt_view(r) == text_param(sfv::params_view(params@), name@),
{
    match sfv::find_param(params, name) {
        Some(Bare::Text(t)) => Some(t.clone()),
        _ => None,
    }
}

/// What reading a scheme gave.
pub open spec fn scheme_outcome(r: Result<SigKeyScheme, SigError>) -> Result<
    SchemeView,
    SigErrorView,
> {
    match r {
        Ok(s) => Ok(s@),
        Err(e) => Err(e@),
    }
}

fn read_inline_key(params: &Vec<(String, Bare)>) -> (r: Result<SigKeyScheme, SigError>)
    ensures
        scheme_outcome(r) == inline_key(sfv::params_view(params@)),
{
    match (
        read_text_param(params, "kty"),
        read_text_param(params, "crv"),
        read_text_param(params, "x"),
        read_text_param(params, "alg"),
    ) {
        (Some(kty), Some(crv), Some(x), Some(alg)) => if text::same(alg.as_str(), "Ed25519") {
            Ok(SigKeyScheme::Hwk(Jwk { kty, crv, x, kid: None, alg: Some(alg), use_: None }))
        } else {
            Err(SigError::new(SigErrorCode::UnsupportedAlgorithm, "hwk alg is not Ed25519"))
        },
        _ => Err(SigError::new(SigErrorCode::InvalidKey, "hwk requires kty, crv, x and alg")),
    }
}

/// Reads the scheme that a `Signature-Key` member names.
pub fn read_scheme(m: &Member) -> (r: Result<SigKeyScheme, SigError>)
    ensures
        scheme_outcome(r) == scheme_of(m@),
{
    let t = match &m.value {
        Content::One(Bare::Token(t)) => t,
        _ => {
            return Err(SigError::new(SigErrorCode::InvalidKey, "malformed Signature-Key"));
        },
    };
    if text::same(t.as_str(), "hwk") {
        read_inline_key(&m.params)
    } else if text::same(t.as_str(), "jwt") {
        match read_text_param(&m.params, "jwt") {
            Some(token) => Ok(SigKeyScheme::Jwt(token)),
            None => Err(SigError::new(SigErrorCode::InvalidKey, "jwt scheme requires jwt")),
        }
    } else if text::same(t.as_str(), "jkt-jwt") {
        match read_text_param(&m.params, "jwt") {
            Some(token) => Ok(SigKeyScheme::JktJwt(token)),
            None => Err(SigError::new(SigErrorCode::InvalidKey, "jkt-jwt scheme requires jwt")),
        }
    } else if text::same(t.as_str(), "jwks_uri") {
        match (
            read_text_param(&m.params, "id"),
            read_text_param(&m.params, "dwk"),
            read_text_param(&m.params, "kid"),
        ) {
            (Some(id), Some(dwk), Some(kid)) => Ok(SigKeyScheme::JwksUri { id, dwk, kid }),
            _ => Err(
                SigError::new(
                    SigErrorCode::InvalidKey,
                    "jwks_uri scheme requires id, dwk and kid",
                ),
            ),
        }
    } else {
        Err(
            SigError::new(
                SigErrorCode::UnsupportedScheme,
                text::join2("unsupported Signature-Key scheme: ", t.as_str()).as_str(),
            ),
        )
    }
}

// --------------------------------------------------------------- profile

/// What is asked of a signature.
pub struct VerifyPolicy {
    pub now: u64,
    /// How far `created` may be off, in seconds.
    pub window_secs: u64,
    /// Components that must be covered besides the usual ones.
    pub extra_required: Vec<String>,
}

/// What a [`VerifyPolicy`] holds.
pub struct PolicyView {
    pub now: u64,
    pub window_secs: u64,
    pub extra_required: Seq<Seq<char>>,
}

impl VerifyPolicy {
    /// What the policy holds.
    pub open spec fn view(&self) -> PolicyView {
        PolicyView {
            now: self.now,
            window_secs: self.window_secs,
            extra_required: text::list_view(self.extra_required@),
        }
    }
}

/// The components that every signature covers.
pub open spec fn usual_components() -> Seq<Seq<char>> {
    seq!["@method"@, "@authority"@, "@path"@, "signature-key"@]
}

/// The components that a signature must cover: the usual ones, those that the
/// policy adds, the mission header where it is sent, and an AAuth authorization.
pub open spec fn required_components(p: PartsView, policy: PolicyView) -> Seq<Seq<char>> {
    let base = usual_components() + policy.extra_required;
    let mission = if header_value(p.headers, "aauth-mission"@) is Some {
        base.push("aauth-mission"@)
    } else {
        base
    };
    if header_value(p.headers, "authorization"@) matches Some(v) && "AAuth "@.is_prefix_of(v) {
        mission.push("authorization"@)
    } else {
        mission
    }
}

/// The components that an inner list names; nothing where an item is no plain
/// string.
pub open spec fn covered_by(items: Seq<ItemView>) -> Option<Seq<Seq<char>>>
    decreases items.len(),
{
    if items.len() == 0 {
        Some(Seq::empty())
    } else {
        match (covered_by(items.drop_last()), items.last().bare) {
            (Some(rest), BareView::Text(t)) => if items.last().params.len() == 0 {
                Some(rest.push(t))
            } else {
                None
            },
            _ => None,
        }
    }
}

/// Every wanted component is covered.
pub open spec fn all_covered(wanted: Seq<Seq<char>>, covered: Seq<Seq<char>>) -> bool {
    forall|i: int| 0 <= i < wanted.len() ==> covered.contains(#[trigger] wanted[i])
}

/// What is wrong with the times of a signature.
pub open spec fn signed_time_fault(params: sfv::ParamsView, policy: PolicyView) -> Option<
    SigErrorView,
> {
    match sfv::param_named(params, "created"@) {
        Some(BareView::Int(c)) => if c > policy.now + policy.window_secs || c + policy.window_secs
            < policy.now {
            Some(
                sig_error(
                    SigErrorCode::InvalidSignature,
                    "created is outside the validity window"@,
                ),
            )
        } else {
            match sfv::param_named(params, "expires"@) {
                None => None,
                Some(BareView::Int(e)) => if e <= policy.now {
                    Some(sig_error(SigErrorCode::InvalidSignature, "signature expired"@))
                } else {
                    None
                },
                Some(_) => Some(
                    sig_error(SigErrorCode::InvalidSignature, "malformed expires parameter"@),
                ),
            }
        },
        _ => Some(sig_error(SigErrorCode::InvalidSignature, "missing created parameter"@)),
    }
}

/// What a signature with its three members amounts to, or what is wrong.
pub open spec fn labelled_signature(
    p: PartsView,
    policy: PolicyView,
    input: MemberView,
    signature: Option<MemberView>,
    key: Option<MemberView>,
) -> Result<ParsedView, SigErrorView> {
    match (input.value, signature, key) {
        (ContentView::Many(items), Some(sm), Some(km)) => match (covered_by(items), sm.value) {
            (Some(covered), ContentView::One(BareView::Bytes(bytes))) => if !all_covered(
                required_components(p, policy),
                covered,
            ) {
                Err(
                    SigErrorView {
                        code: SigErrorCode::InvalidInput,
                        detail: "required components are not covered"@,
                        required_input: Some(required_components(p, policy)),
                    },
                )
            } else if signed_time_fault(input.params, policy) is Some {
                Err(signed_time_fault(input.params, policy)->0)
            } else {
                match scheme_of(km) {
                    Err(e) => Err(e),
                    Ok(scheme) => match signature_base(p, covered, input.raw) {
                        None => Err(
                            sig_error(
                                SigErrorCode::InvalidInput,
                                "a covered component is not part of the request"@,
                            ),
                        ),
                        Some(base) => Ok(ParsedView { scheme, base, signature: bytes }),
                    },
                }
            },
            _ => Err(sig_error(SigErrorCode::InvalidSignature, "malformed signature headers"@)),
        },
        (_, Some(_), Some(_)) => Err(
            sig_error(SigErrorCode::InvalidSignature, "malformed signature headers"@),
        ),
        _ => Err(
            sig_error(
                SigErrorCode::InvalidSignature,
                "signature headers do not share a label"@,
            ),
        ),
    }
}

/// What the signature headers of a request amount to, or what is wrong. The
/// first label of `Signature-Input` is the one that counts.
pub open spec fn request_signature(p: PartsView, policy: PolicyView) -> Result<
    ParsedView,
    SigErrorView,
> {
    match (
        header_value(p.headers, "signature-input"@),
        header_value(p.headers, "signature"@),
        header_value(p.headers, "signature-key"@),
    ) {
        (Some(a), Some(b), Some(c)) => match (
            sfv::dictionary(a),
            sfv::dictionary(b),
            sfv::dictionary(c),
        ) {
            (Some(inputs), Some(signatures), Some(keys)) => if inputs.len() == 0 {
                Err(sig_error(SigErrorCode::InvalidSignature, "malformed signature headers"@))
            } else {
                let label = inputs[0].key;
                labelled_signature(
                    p,
                    policy,
                    inputs[0],
                    sfv::member_named(signatures, label),
                    sfv::member_named(keys, label),
                )
            },
            _ => Err(sig_error(SigErrorCode::InvalidSignature, "malformed signature headers"@)),
        },
        _ => Err(sig_error(SigErrorCode::InvalidSignature, "missing signature headers"@)),
    }
}

/// What reading the signature headers gave.
pub open spec fn parsed_outcome(r: Result<ParsedSignature, SigError>) -> Result<
    ParsedView,
    SigErrorView,
> {
    match r {
        Ok(x) => Ok(x@),
        Err(e) => Err(e@),
    }
}

proof fn lemma_covered_prefix(s: Seq<ItemView>, n: int)
    requires
        0 <= n <= s.len(),
        covered_by(s.take(n)) is None,
    ensures
        covered_by(s) is None,
    decreases s.len() - n,
{
    if n < s.len() {
        assert(s.take(n + 1).drop_last() =~= s.take(n));
        lemma_covered_prefix(s, n + 1);
    } else {
        assert(s.take(n) =~= s);
    }
}

fn read_covered(items: &Vec<Item>) -> (r: Option<Vec<String>>)
    ensures
        match r {
            Some(v) => covered_by(sfv::items_view(items@)) == Some(text::list_view(v@)),
            None => covered_by(sfv::items_view(items@)) is None,
        },
{
    let ghost all = sfv::items_view(items@);
    let mut out: Vec<String> = Vec::new();
    let mut i: usize = 0;
    proof {
        assert(all.take(0) =~= Seq::empty());
        assert(text::list_view(out@) =~= Seq::empty());
    }
    while i < items.len()
        invariant
            i <= items@.len(),
            all == sfv::items_view(items@),
            covered_by(all.take(i as int)) == Some(text::list_view(out@)),
        decreases items@.len() - i,
    {
        proof {
            assert(all.take(i + 1).drop_last() =~= all.take(i as int));
            assert(all.take(i + 1).last() == items@[i as int]@);
            assert(sfv::params_view(items@[i as int].params@).len()
                == items@[i as int].params@.len());
        }
        let plain = items[i].params.len() == 0;
        match (&items[i].bare, plain) {
            (Bare::Text(t), true) => {
                let ghost was = out@;
                out.push(t.clone());
                proof {
                    assert(text::list_view(out@) =~= text::list_view(was).push(t@));
                }
            },
            _ => {
                proof {
                    lemma_covered_prefix(all, i + 1);
                }
                return None;
            },
        }
        i += 1;
    }
    proof {
        assert(all.take(all.len() as int) =~= all);
    }
    Some(out)
}

fn list_required(p: &RequestParts, policy: &VerifyPolicy) -> (r: Vec<String>)
    ensures
        text::list_view(r@) == required_components(p@, policy@),
{
    let mut out: Vec<String> = vec![
        "@method".to_owned(),
        "@authority".to_owned(),
        "@path".to_owned(),
        "signature-key".to_owned(),
    ];
    proof {
        assert(text::list_view(out@) =~= usual_components());
    }
    let ghost first = out@;
    let mut more = crate::config::copy_texts(&policy.extra_required);
    let ghost tail = more@;
    out.append(&mut more);
    proof {
        assert(text::list_view(out@) =~= text::list_view(first) + text::list_view(tail));
    }
    if lookup_header(p.headers, "aauth-mission").is_some() {
        let ghost was = out@;
        out.push("aauth-mission".to_owned());
        proof {
            assert(text::list_view(out@) =~= text::list_view(was).push("aauth-mission"@));
        }
    }
    if let Some(v) = lookup_header(p.headers, "authorization") {
        if text::starts_with(v.as_str(), "AAuth ") {
            let ghost was = out@;
            out.push("authorization".to_owned());
            proof {
                assert(text::list_view(out@) =~= text::list_view(was).push("authorization"@));
            }
        }
    }
    out
}

fn covers_all(wanted: &Vec<String>, covered: &Vec<String>) -> (r: bool)
    ensures
        r == all_covered(text::list_view(wanted@), text::list_view(covered@)),
{
    let ghost w = text::list_view(wanted@);
    let ghost c = text::list_view(covered@);
    let mut i: usize = 0;
    while i < wanted.len()
        invariant
            i <= wanted@.len(),
            w == text::list_view(wanted@),
            c == text::list_view(covered@),
            forall|j: int| 0 <= j < i ==> c.contains(#[trigger] w[j]),
        decreases wanted@.len() - i,
    {
        proof {
            assert(w[i as int] == wanted@[i as int]@);
        }
        if !crate::config::contains_text(covered, wanted[i].as_str()) {
            return false;
        }
        i += 1;
    }
    true
}

fn check_signed_times(params: &Vec<(String, Bare)>, policy: &VerifyPolicy) -> (r: Result<
    (),
    SigError,
>)
    ensures
        sig_outcome(r) == signed_time_fault(sfv::params_view(params@), policy@),
{
    let created: i64 = match sfv::find_param(params, "created") {
        Some(Bare::Int(c)) => *c,
        _ => {
            return Err(SigError::new(SigErrorCode::InvalidSignature, "missing created parameter"));
        },
    };
    let c: i128 = created as i128;
    let now: i128 = policy.now as i128;
    let window: i128 = policy.window_secs as i128;
    if c > now + window || c + window < now {
        return Err(
            SigError::new(
                SigErrorCode::InvalidSignature,
                "created is outside the validity window",
            ),
        );
    }
    match sfv::find_param(params, "expires") {
        None => Ok(()),
        Some(Bare::Int(e)) => if *e as i128 <= now {
            Err(SigError::new(SigErrorCode::InvalidSignature, "signature expired"))
        } else {
            Ok(())
        },
        Some(_) => Err(
            SigError::new(SigErrorCode::InvalidSignature, "malformed expires parameter"),
        ),
    }
}

fn read_labelled(
    p: &RequestParts,
    policy: &VerifyPolicy,
    input: &Member,
    signature: &Member,
    key: &Member,
) -> (r: Result<ParsedSignature, SigError>)
    ensures
        parsed_outcome(r) == labelled_signature(
            p@,
            policy@,
            input@,
            Some(signature@),
            Some(key@),
        ),
{
    let items = match &input.value {
        Content::Many(items) => items,
        _ => {
            return Err(
                SigError::new(SigErrorCode::InvalidSignature, "malformed signature headers"),
            );
        },
    };
    let covered = match read_covered(items) {
        Some(c) => c,
        None => {
            return Err(
                SigError::new(SigErrorCode::InvalidSignature, "malformed signature headers"),
            );
        },
    };
    let bytes = match &signature.value {
        Content::One(Bare::Bytes(b)) => crate::storage::copy_bytes(b.as_slice()),
        _ => {
            return Err(
                SigError::new(SigErrorCode::InvalidSignature, "malformed signature headers"),
            );
        },
    };
    let required = list_required(p, policy);
    if !covers_all(&required, &covered) {
        return Err(
            SigError {
                code: SigErrorCode::InvalidInput,
                detail: "required components are not covered".to_owned(),
                required_input: Some(required),
            },
        );
    }
    if let Err(e) = check_signed_times(&input.params, policy) {
        return Err(e);
    }
    let scheme = match read_scheme(key) {
        Ok(s) => s,
        Err(e) => {
            return Err(e);
        },
    };
    match build_base(p, &covered, input.raw.as_str()) {
        None => Err(
            SigError::new(
                SigErrorCode::InvalidInput,
                "a covered component is not part of the request",
            ),
        ),
        Some(base) => Ok(ParsedSignature { scheme, base, signature: bytes }),
    }
}

/// Reads the signature headers of a request: structure, covered components and
/// times. The cryptography comes when the key is known.
pub fn parse_request_signature(p: &RequestParts, policy: &VerifyPolicy) -> (r: Result<
    ParsedSignature,
    SigError,
>)
    ensures
        parsed_outcome(r) == request_signature(p@, policy@),
{
    let (a, b, c) = match (
        lookup_header(p.headers, "signature-input"),
        lookup_header(p.headers, "signature"),
        lookup_header(p.headers, "signature-key"),
    ) {
        (Some(a), Some(b), Some(c)) => (a, b, c),
        _ => {
            return Err(SigError::new(SigErrorCode::InvalidSignature, "missing signature headers"));
        },
    };
    let (inputs, signatures, keys) = match (
        sfv::parse_dictionary(a.as_str()),
        sfv::parse_dictionary(b.as_str()),
        sfv::parse_dictionary(c.as_str()),
    ) {
        (Some(a), Some(b), Some(c)) => (a, b, c),
        _ => {
            return Err(
                SigError::new(SigErrorCode::InvalidSignature, "malformed signature headers"),
            );
        },
    };
    proof {
        assert(sfv::members_view(inputs@).len() == inputs@.len());
    }
    if inputs.len() == 0 {
        return Err(SigError::new(SigErrorCode::InvalidSignature, "malformed signature headers"));
    }
    let input = &inputs[0];
    let label = input.key.as_str();
    match (sfv::find_member(&signatures, label), sfv::find_member(&keys, label)) {
        (Some(signature), Some(key)) => read_labelled(p, policy, input, signature, key),
        _ => Err(
            SigError::new(
                SigErrorCode::InvalidSignature,
                "signature headers do not share a label",
            ),
        ),
    }
}

// --------------------------------------------------------------- signing

/// The headers of a signed request.
pub struct SignedRequest {
    pub signature_input: String,
    pub signature: String,
    pub signature_key: String,
}

/// What a [`SignedRequest`] holds.
pub struct SignedView {
    pub signature_input: Seq<char>,
    pub signature: Seq<char>,
    pub signature_key: Seq<char>,
}

impl SignedRequest {
    /// What the headers hold.
    pub open spec fn view(&self) -> SignedView {
        SignedView {
            signature_input: self.signature_input@,
            signature: self.signature@,
            signature_key: self.signature_key@,
        }
    }
}

/// The parameters of a signature that is made now.
pub open spec fn own_params(covered: Seq<Seq<char>>, created: u64) -> Seq<char> {
    "("@ + text::joined(problem::quoted_all(covered), " "@) + ");created="@ + decimal::numeral(
        created as nat,
    )
}

/// The parts of a request with its `Signature-Key` header.
pub open spec fn with_key_header(p: PartsView, scheme: Seq<char>) -> PartsView {
    PartsView {
        method: p.method,
        authority: p.authority,
        path: p.path,
        query: p.query,
        headers: p.headers.push(("signature-key"@, "sig="@ + scheme)),
    }
}

/// The text that is signed of a request: the usual components are covered, and
/// `extra` ones. Nothing where an extra one has no value.
pub open spec fn signed_base(
    p: PartsView,
    extra: Seq<Seq<char>>,
    scheme: Seq<char>,
    created: u64,
) -> Option<Seq<char>> {
    let covered = usual_components() + extra;
    signature_base(with_key_header(p, scheme), covered, own_params(covered, created))
}

/// The headers of a request that is signed with a key. Nothing where a component
/// that is to be covered has no value.
pub open spec fn signed_headers(
    p: PartsView,
    extra: Seq<Seq<char>>,
    scheme: Seq<char>,
    seed: Seq<u8>,
    created: u64,
) -> Option<SignedView> {
    let params = own_params(usual_components() + extra, created);
    match signed_base(p, extra, scheme, created) {
        None => None,
        Some(base) => Some(
            SignedView {
                signature_input: "sig="@ + params,
                signature: "sig=:"@ + b64::encoded_std(
                    crypto::ed_signature(seed, vstd::utf8::encode_utf8(base)),
                ) + ":"@,
                signature_key: "sig="@ + scheme,
            },
        ),
    }
}

/// Signs a request. The signature holds under the public half of the key, unless
/// its first half encodes the neutral element of the group.
pub fn sign_request(
    p: &RequestParts,
    extra: &Vec<String>,
    scheme: &str,
    key: &SigningKey,
    created: u64,
) -> (r: Result<SignedRequest, SigError>)
    ensures
        r is Ok ==> ({
            let base = signed_base(p@, text::list_view(extra@), scheme@, created)->0;
            let signature = crypto::ed_signature(key@, vstd::utf8::encode_utf8(base));
            !crypto::neutral_commitment(signature) ==> forall|named: SchemeView|
                #[trigger] parsed_fault(
                    ParsedView { scheme: named, base, signature },
                    jwk::jwk_of_key(crypto::ed_public(key@)),
                ) is None
        }),
        match r {
            Ok(x) => signed_headers(p@, text::list_view(extra@), scheme@, key@, created) == Some(
                x@,
            ),
            Err(e) => signed_headers(p@, text::list_view(extra@), scheme@, key@, created) is None
                && e@ == sig_error(
                SigErrorCode::InvalidInput,
                "a covered component is not part of the request"@,
            ),
        },
{
    let mut covered: Vec<String> = vec![
        "@method".to_owned(),
        "@authority".to_owned(),
        "@path".to_owned(),
        "signature-key".to_owned(),
    ];
    proof {
        assert(text::list_view(covered@) =~= usual_components());
    }
    let ghost first = covered@;
    let mut more = crate::config::copy_texts(extra);
    let ghost tail = more@;
    covered.append(&mut more);
    proof {
        assert(text::list_view(covered@) =~= text::list_view(first) + text::list_view(tail));
    }
    let signature_key = text::join2("sig=", scheme);
    let mut headers = copy_headers(p.headers);
    let ghost before = headers@;
    headers.push(("signature-key".to_owned(), signature_key.clone()));
    proof {
        assert(problem::headers_view(headers@) =~= problem::headers_view(before).push(
            ("signature-key"@, "sig="@ + scheme@),
        ));
    }
    let whole = RequestParts {
        method: p.method,
        authority: p.authority,
        path: p.path,
        query: p.query,
        headers: &headers,
    };
    let quoted = problem::serialize_all(&covered);
    let mut params = text::join3("(", text::join(quoted.as_slice(), " ").as_str(), ");created=");
    params.append(decimal::unsigned(created).as_str());
    match build_base(&whole, &covered, params.as_str()) {
        None => Err(
            SigError::new(
                SigErrorCode::InvalidInput,
                "a covered component is not part of the request",
            ),
        ),
        Some(base) => {
            let signature = key.sign(base.as_str().as_bytes());
            proof {
                jwk::law_key_of_jwk(crypto::ed_public(key@));
            }
            Ok(
                SignedRequest {
                    signature_input: text::join2("sig=", params.as_str()),
                    signature: text::join3("sig=:", b64::encode_std(&signature).as_str(), ":"),
                    signature_key,
                },
            )
        },
    }
}

fn copy_headers(headers: &Vec<(String, String)>) -> (r: Vec<(String, String)>)
    ensures
        problem::headers_view(r@) == problem::headers_view(headers@),
{
    let mut out: Vec<(String, String)> = Vec::new();
    let mut i: usize = 0;
    while i < headers.len()
        invariant
            i <= headers@.len(),
            out@.len() == i,
            forall|j: int|
                0 <= j < i ==> (#[trigger] out@[j]).0@ == headers@[j].0@ && out@[j].1@
                    == headers@[j].1@,
        decreases headers@.len() - i,
    {
        out.push((headers[i].0.clone(), headers[i].1.clone()));
        i += 1;
    }
    proof {
        assert(problem::headers_view(out@) =~= problem::headers_view(headers@));
    }
    out
}

/// A signature that is accepted covers every required component, and was made
/// within the window.
pub proof fn law_accepted_signature(p: PartsView, policy: PolicyView)
    requires
        request_signature(p, policy) is Ok,
    ensures
        exists|covered: Seq<Seq<char>>, params: Seq<char>, created: i64|
            {
                &&& #[trigger] signature_base(p, covered, params) == Some(
                    request_signature(p, policy)->Ok_0.base,
                )
                &&& all_covered(required_components(p, policy), covered)
                &&& #[trigger] created_within(created, policy)
            },
{
    let input = sfv::dictionary(header_value(p.headers, "signature-input"@)->0)->0[0];
    let covered = covered_by(input.value->Many_0)->0;
    let created = sfv::param_named(input.params, "created"@)->0->Int_0;
    assert(signature_base(p, covered, input.raw) == Some(request_signature(p, policy)->Ok_0.base));
    assert(created_within(created, policy));
}

/// A time that is at most the window away from now.
pub open spec fn created_within(created: i64, policy: PolicyView) -> bool {
    policy.now - policy.window_secs <= created <= policy.now + policy.window_secs
}

// ------------------------------------------------- what a signature is for

/// A text has the line of a component: the name in quotation marks, and the
/// value.
pub open spec fn has_line(base: Seq<char>, name: Seq<char>, value: Seq<char>) -> bool {
    exists|before: Seq<char>, after: Seq<char>|
        base == #[trigger] (before + "\""@ + name + "\": "@ + value + "\n"@ + after)
}

/// A name that stands in quotation marks as it is.
pub open spec fn is_plain_name(name: Seq<char>) -> bool {
    !name.contains('"') && !name.contains('\\')
}

proof fn lemma_plain_quoted(name: Seq<char>)
    requires
        is_plain_name(name),
    ensures
        problem::quoted(name) == "\""@ + name + "\""@,
{
    lemma_plain_escaped(name);
}

proof fn lemma_plain_escaped(name: Seq<char>)
    requires
        is_plain_name(name),
    ensures
        problem::escaped(name) == name,
    decreases name.len(),
{
    if name.len() > 0 {
        let less = name.drop_last();
        assert forall|c: char| less.contains(c) implies name.contains(c) by {
            let i = choose|i: int| 0 <= i < less.len() && less[i] == c;
            assert(name[i] == c);
        }
        lemma_plain_escaped(less);
        assert(name.contains(name.last())) by {
            assert(name[name.len() - 1] == name.last());
        }
        assert(less.push(name.last()) =~= name);
    } else {
        assert(problem::escaped(name) =~= name);
    }
}

proof fn lemma_mark()
    ensures
        "\""@ == seq!['"'],
        ": "@ == seq![':', ' '],
        "\": "@ == seq!['"', ':', ' '],
        "\n"@ == seq!['\n'],
{
    reveal_strlit("\"");
    reveal_strlit(": ");
    reveal_strlit("\": ");
    reveal_strlit("\n");
    assert("\""@ =~= seq!['"']);
    assert(": "@ =~= seq![':', ' ']);
    assert("\": "@ =~= seq!['"', ':', ' ']);
    assert("\n"@ =~= seq!['\n']);
}

proof fn lemma_usual_names()
    ensures
        is_plain_name("@method"@),
        is_plain_name("@authority"@),
        is_plain_name("@path"@),
        is_plain_name("@query"@),
        is_plain_name("signature-key"@),
        is_plain_name("aauth-mission"@),
        is_plain_name("authorization"@),
        "@method"@ != "@authority"@,
        "@method"@ != "@path"@,
        "@method"@ != "@query"@,
        "@authority"@ != "@path"@,
        "@authority"@ != "@query"@,
        "@path"@ != "@query"@,
{
    reveal_strlit("@method");
    reveal_strlit("@authority");
    reveal_strlit("@path");
    reveal_strlit("@query");
    reveal_strlit("signature-key");
    reveal_strlit("aauth-mission");
    reveal_strlit("authorization");
    assert("@method"@[1] == 'm');
    assert("@authority"@[1] == 'a');
    assert("@path"@[1] == 'p');
    assert("@query"@[1] == 'q');
}

/// A line of the text that is signed, where it stands.
proof fn lemma_line(p: PartsView, covered: Seq<Seq<char>>, i: int)
    requires
        0 <= i < covered.len(),
        base_lines(p, covered) is Some,
        is_plain_name(covered[i]),
    ensures
        component(p, covered[i]) is Some,
        has_line(base_lines(p, covered)->0, covered[i], component(p, covered[i])->0),
    decreases covered.len(),
{
    let less = covered.drop_last();
    let value = component(p, covered[i])->0;
    let lines = base_lines(p, covered)->0;
    if i == covered.len() - 1 {
        lemma_plain_quoted(covered[i]);
        lemma_mark();
        let before = base_lines(p, less)->0;
        assert(lines =~= before + "\""@ + covered[i] + "\": "@ + value + "\n"@ + Seq::<
            char,
        >::empty());
    } else {
        lemma_line(p, less, i);
        let inner = base_lines(p, less)->0;
        let (before, after) = choose|before: Seq<char>, after: Seq<char>|
            inner == #[trigger] (before + "\""@ + covered[i] + "\": "@ + value + "\n"@ + after);
        let last = problem::quoted(covered.last()) + ": "@ + component(p, covered.last())->0
            + "\n"@;
        assert(lines =~= before + "\""@ + covered[i] + "\": "@ + value + "\n"@ + (after + last));
    }
}

proof fn lemma_line_of_base(p: PartsView, covered: Seq<Seq<char>>, params: Seq<char>, i: int)
    requires
        0 <= i < covered.len(),
        signature_base(p, covered, params) is Some,
        is_plain_name(covered[i]),
    ensures
        component(p, covered[i]) is Some,
        has_line(
            signature_base(p, covered, params)->0,
            covered[i],
            component(p, covered[i])->0,
        ),
{
    lemma_line(p, covered, i);
    let value = component(p, covered[i])->0;
    let inner = base_lines(p, covered)->0;
    let (before, after) = choose|before: Seq<char>, after: Seq<char>|
        inner == #[trigger] (before + "\""@ + covered[i] + "\": "@ + value + "\n"@ + after);
    let tail = "\"@signature-params\": "@ + params;
    assert(signature_base(p, covered, params)->0 =~= before + "\""@ + covered[i] + "\": "@ + value
        + "\n"@ + (after + tail));
}

/// The text that is signed of a request begins with its method, its authority and
/// its path, one to a line and in the order in which they are covered, and ends
/// with the parameters of the signature.
pub proof fn law_signed_text_of_request(
    p: PartsView,
    rest: Seq<Seq<char>>,
    params: Seq<char>,
)
    requires
        signature_base(p, seq!["@method"@, "@authority"@, "@path"@] + rest, params) is Some,
    ensures
        ({
            let base = signature_base(
                p,
                seq!["@method"@, "@authority"@, "@path"@] + rest,
                params,
            )->0;
            &&& ("\"@method\": "@ + p.method + "\n\"@authority\": "@ + p.authority
                + "\n\"@path\": "@ + p.path + "\n"@).is_prefix_of(base)
            &&& ("\"@signature-params\": "@ + params).is_suffix_of(base)
        }),
    decreases rest.len(),
{
    let three = seq!["@method"@, "@authority"@, "@path"@];
    let head = "\"@method\": "@ + p.method + "\n\"@authority\": "@ + p.authority + "\n\"@path\": "@
        + p.path + "\n"@;
    let base = signature_base(p, three + rest, params)->0;
    lemma_three_lines(p);
    lemma_lines_extend(p, three, rest);
    let tail = "\"@signature-params\": "@ + params;
    let lines = base_lines(p, three + rest)->0;
    assert(base =~= lines + tail);
    assert(head =~= base.take(head.len() as int));
    assert(tail =~= base.skip(base.len() - tail.len()));
}

proof fn lemma_three_lines(p: PartsView)
    ensures
        base_lines(p, seq!["@method"@, "@authority"@, "@path"@]) == Some(
            "\"@method\": "@ + p.method + "\n\"@authority\": "@ + p.authority + "\n\"@path\": "@
                + p.path + "\n"@,
        ),
{
    lemma_usual_names();
    lemma_mark();
    lemma_plain_quoted("@method"@);
    lemma_plain_quoted("@authority"@);
    lemma_plain_quoted("@path"@);
    reveal_strlit("@method");
    reveal_strlit("@authority");
    reveal_strlit("@path");
    reveal_strlit("\"@method\": ");
    reveal_strlit("\n\"@authority\": ");
    reveal_strlit("\n\"@path\": ");
    let none = Seq::<Seq<char>>::empty();
    let one = seq!["@method"@];
    let two = seq!["@method"@, "@authority"@];
    let three = seq!["@method"@, "@authority"@, "@path"@];
    assert(one.drop_last() =~= none);
    assert(two.drop_last() =~= one);
    assert(three.drop_last() =~= two);
    let l1 = "\"@method\": "@ + p.method + "\n"@;
    assert(base_lines(p, none) == Some(Seq::<char>::empty()));
    assert(base_lines(p, one)->0 =~= l1);
    let l2 = l1 + "\"@authority\": "@ + p.authority + "\n"@;
    reveal_strlit("\"@authority\": ");
    reveal_strlit("\"@path\": ");
    assert("\n\"@authority\": "@ =~= "\n"@ + "\"@authority\": "@);
    assert("\n\"@path\": "@ =~= "\n"@ + "\"@path\": "@);
    assert("\"@authority\": "@ =~= "\""@ + "@authority"@ + "\""@ + ": "@);
    assert("\"@path\": "@ =~= "\""@ + "@path"@ + "\""@ + ": "@);
    assert(base_lines(p, two)->0 =~= l2);
    let l3 = l2 + "\"@path\": "@ + p.path + "\n"@;
    assert(base_lines(p, three)->0 =~= l3);
    assert(l3 =~= "\"@method\": "@ + p.method + "\n\"@authority\": "@ + p.authority
        + "\n\"@path\": "@ + p.path + "\n"@);
}

proof fn lemma_lines_extend(p: PartsView, a: Seq<Seq<char>>, b: Seq<Seq<char>>)
    requires
        base_lines(p, a + b) is Some,
    ensures
        base_lines(p, a) is Some,
        base_lines(p, a)->0.is_prefix_of(base_lines(p, a + b)->0),
    decreases b.len(),
{
    if b.len() == 0 {
        assert(a + b =~= a);
    } else {
        assert((a + b).drop_last() =~= a + b.drop_last());
        assert((a + b).last() == b.last());
        lemma_lines_extend(p, a, b.drop_last());
        let x = base_lines(p, a)->0;
        let y = base_lines(p, a + b.drop_last())->0;
        let z = base_lines(p, a + b)->0;
        assert(y =~= z.take(y.len() as int));
        assert(x =~= z.take(x.len() as int));
    }
}

proof fn lemma_lines_apart(p: PartsView, q: PartsView, covered: Seq<Seq<char>>, name: Seq<char>)
    requires
        base_lines(p, covered) is Some,
        base_lines(q, covered) is Some,
        forall|n: Seq<char>| n != name ==> #[trigger] component(p, n) == component(q, n),
        component(p, name) is Some,
        component(q, name) is Some,
        component(p, name)->0.len() <= component(q, name)->0.len(),
    ensures
        base_lines(p, covered)->0.len() <= base_lines(q, covered)->0.len(),
        component(p, name)->0.len() < component(q, name)->0.len() && covered.contains(name)
            ==> base_lines(p, covered)->0.len() < base_lines(q, covered)->0.len(),
        component(p, name)->0.len() == component(q, name)->0.len() ==> base_lines(
            p,
            covered,
        )->0.len() == base_lines(q, covered)->0.len(),
        base_lines(p, covered) == base_lines(q, covered) && covered.contains(name) ==> component(
            p,
            name,
        ) == component(q, name),
    decreases covered.len(),
{
    if covered.len() > 0 {
        let less = covered.drop_last();
        let last = covered.last();
        lemma_lines_apart(p, q, less, name);
        if covered.contains(name) && last != name {
            let i = choose|i: int| 0 <= i < covered.len() && covered[i] == name;
            assert(less[i] == name);
        }
        let a = base_lines(p, less)->0;
        let b = base_lines(q, less)->0;
        let x = problem::quoted(last) + ": "@;
        let u = component(p, last)->0;
        let v = component(q, last)->0;
        let s = base_lines(p, covered)->0;
        let t = base_lines(q, covered)->0;
        assert(s =~= a + x + u + "\n"@);
        assert(t =~= b + x + v + "\n"@);
        if s == t && covered.contains(name) {
            if u.len() == v.len() {
                assert(a.len() == b.len());
                assert(a =~= s.take(a.len() as int));
                assert(b =~= t.take(b.len() as int));
                let n = (a.len() + x.len()) as int;
                assert(u =~= s.subrange(n, n + u.len()));
                assert(v =~= t.subrange(n, n + v.len()));
            } else {
                assert(last == name);
            }
        }
    }
}

/// Two requests that differ in nothing but their method, or their authority, or
/// their path have different signed texts wherever that component is covered: a
/// signature for one of them is none for the other.
pub proof fn law_signed_text_tells_requests_apart(
    p: PartsView,
    q: PartsView,
    covered: Seq<Seq<char>>,
    params: Seq<char>,
)
    requires
        p.query == q.query,
        p.headers == q.headers,
        ({
            ||| covered.contains("@method"@) && p.method != q.method && p.authority
                == q.authority && p.path == q.path
            ||| covered.contains("@authority"@) && p.authority != q.authority && p.method
                == q.method && p.path == q.path
            ||| covered.contains("@path"@) && p.path != q.path && p.method == q.method
                && p.authority == q.authority
        }),
        signature_base(p, covered, params) is Some,
    ensures
        signature_base(q, covered, params) != signature_base(p, covered, params),
{
    lemma_usual_names();
    if signature_base(q, covered, params) == signature_base(p, covered, params) {
        let name = if p.method != q.method {
            "@method"@
        } else if p.authority != q.authority {
            "@authority"@
        } else {
            "@path"@
        };
        let tail = "\"@signature-params\": "@ + params;
        let a = base_lines(p, covered)->0;
        let b = base_lines(q, covered)->0;
        assert((a + tail).take(a.len() as int) =~= a);
        assert((b + tail).take(b.len() as int) =~= b);
        assert(a + tail =~= signature_base(p, covered, params)->0);
        assert(b + tail =~= signature_base(q, covered, params)->0);
        assert((a + tail).len() == (b + tail).len());
        assert(a == b);
        if component(p, name)->0.len() <= component(q, name)->0.len() {
            lemma_lines_apart(p, q, covered, name);
        } else {
            lemma_lines_apart(q, p, covered, name);
        }
    }
}

/// A query is signed with its question mark, a missing one as a question mark
/// alone; a header by its value, which is only there where the header was sent;
/// and a component that requests do not have makes a signature impossible.
pub proof fn law_signed_line(
    p: PartsView,
    covered: Seq<Seq<char>>,
    name: Seq<char>,
    value: Seq<char>,
    params: Seq<char>,
)
    requires
        base_lines(p, covered) is Some,
        is_plain_name(name),
    ensures
        ({
            let lines = base_lines(p, covered)->0;
            let longer = signature_base(p, covered.push(name), params);
            let line = lines + "\""@ + name + "\": "@ + value + "\n"@ + "\"@signature-params\": "@
                + params;
            &&& name == "@query"@ && p.query == value && value.len() > 0 ==> longer == Some(line)
            &&& name == "@query"@ && p.query.len() == 0 && value == "?"@ ==> longer == Some(line)
            &&& name == "@method"@ && p.method == value ==> longer == Some(line)
            &&& name == "@authority"@ && p.authority == value ==> longer == Some(line)
            &&& name == "@path"@ && p.path == value ==> longer == Some(line)
            &&& name.len() > 0 && name[0] == '@' && name != "@method"@ && name != "@authority"@
                && name != "@path"@ && name != "@query"@ ==> longer is None
            &&& name.len() > 0 && name[0] != '@' && header_value(p.headers, name) == Some(value)
                ==> longer == Some(line)
            &&& name.len() > 0 && name[0] != '@' && header_value(p.headers, name) is None
                ==> longer is None
        }),
{
    lemma_usual_names();
    lemma_plain_quoted(name);
    lemma_mark();
    reveal_strlit("@");
    reveal_strlit("@method");
    reveal_strlit("@authority");
    reveal_strlit("@path");
    reveal_strlit("@query");
    assert(covered.push(name).drop_last() =~= covered);
    assert(covered.push(name).last() == name);
    let lines = base_lines(p, covered)->0;
    if name.len() > 0 && name[0] == '@' {
        assert("@"@ =~= name.take(1));
    }
    if name.len() > 0 && name[0] != '@' {
        assert("@"@[0] == '@');
        assert(!"@"@.is_prefix_of(name)) by {
            if "@"@.is_prefix_of(name) {
                assert(name.take(1)[0] == name[0]);
            }
        }
    }
    if component(p, name) == Some(value) {
        assert(signature_base(p, covered.push(name), params)->0 =~= lines + "\""@ + name + "\": "@
            + value + "\n"@ + "\"@signature-params\": "@ + params);
    }
}

/// Headers of one name are taken together in the order in which they were sent,
/// each without the white space around it; other headers play no part.
pub proof fn law_header_values_join(
    headers: Seq<(Seq<char>, Seq<char>)>,
    name: Seq<char>,
    value: Seq<char>,
    other: Seq<char>,
)
    requires
        other != name,
    ensures
        header_value(Seq::empty(), name) is None,
        header_value(headers.push((other, value)), name) == header_value(headers, name),
        header_value(headers, name) is None ==> header_value(headers.push((name, value)), name)
            == Some(text::trimmed(value)),
        header_value(headers, name) matches Some(before) ==> header_value(
            headers.push((name, value)),
            name,
        ) == Some(before + ", "@ + text::trimmed(value)),
{
    assert(headers.push((other, value)).drop_last() =~= headers);
    assert(headers.push((name, value)).drop_last() =~= headers);
    let v = header_values(headers, name);
    let t = text::trimmed(value);
    assert(v.push(t).drop_last() =~= v);
    if v.len() == 0 {
        assert(text::joined(v.push(t), ", "@) == t);
    }
}

/// A signature that is accepted says what it was made for: its text has the lines
/// of the method, the authority, the path and the key of the request, of every
/// component that is asked for besides, of the mission where one is sent, and of
/// an AAuth authorization.
pub proof fn law_accepted_signature_is_about_request(p: PartsView, policy: PolicyView, i: int)
    requires
        request_signature(p, policy) is Ok,
        0 <= i < policy.extra_required.len() ==> is_plain_name(policy.extra_required[i]),
    ensures
        ({
            let base = request_signature(p, policy)->Ok_0.base;
            &&& has_line(base, "@method"@, p.method)
            &&& has_line(base, "@authority"@, p.authority)
            &&& has_line(base, "@path"@, p.path)
            &&& header_value(p.headers, "signature-key"@) matches Some(k) && has_line(
                base,
                "signature-key"@,
                k,
            )
            &&& header_value(p.headers, "aauth-mission"@) matches Some(m) ==> has_line(
                base,
                "aauth-mission"@,
                m,
            )
            &&& header_value(p.headers, "authorization"@) matches Some(a) ==> ("AAuth "@.is_prefix_of(
                a,
            ) ==> has_line(base, "authorization"@, a))
            &&& 0 <= i < policy.extra_required.len() ==> exists|v: Seq<char>|
                has_line(base, policy.extra_required[i], v)
        }),
{
    let input = sfv::dictionary(header_value(p.headers, "signature-input"@)->0)->0[0];
    let covered = covered_by(input.value->Many_0)->0;
    let base = request_signature(p, policy)->Ok_0.base;
    assert(signature_base(p, covered, input.raw) == Some(base));
    assert(all_covered(required_components(p, policy), covered));
    lemma_lines_of_request(p, policy, covered, input.raw, base, i);
}

proof fn lemma_lines_of_request(
    p: PartsView,
    policy: PolicyView,
    covered: Seq<Seq<char>>,
    params: Seq<char>,
    base: Seq<char>,
    i: int,
)
    requires
        signature_base(p, covered, params) == Some(base),
        all_covered(required_components(p, policy), covered),
        0 <= i < policy.extra_required.len() ==> is_plain_name(policy.extra_required[i]),
    ensures
        ({
            &&& has_line(base, "@method"@, p.method)
            &&& has_line(base, "@authority"@, p.authority)
            &&& has_line(base, "@path"@, p.path)
            &&& header_value(p.headers, "signature-key"@) matches Some(k) && has_line(
                base,
                "signature-key"@,
                k,
            )
            &&& header_value(p.headers, "aauth-mission"@) matches Some(m) ==> has_line(
                base,
                "aauth-mission"@,
                m,
            )
            &&& header_value(p.headers, "authorization"@) matches Some(a) ==> ("AAuth "@.is_prefix_of(
                a,
            ) ==> has_line(base, "authorization"@, a))
            &&& 0 <= i < policy.extra_required.len() ==> exists|v: Seq<char>|
                has_line(base, policy.extra_required[i], v)
        }),
{
    let wanted = required_components(p, policy);
    lemma_usual_names();
    reveal_strlit("@");
    reveal_strlit("signature-key");
    reveal_strlit("aauth-mission");
    reveal_strlit("authorization");
    reveal_strlit("@method");
    reveal_strlit("@authority");
    reveal_strlit("@path");
    reveal_strlit("@query");
    assert(wanted[0] == "@method"@ && wanted[1] == "@authority"@ && wanted[2] == "@path"@
        && wanted[3] == "signature-key"@);
    lemma_covered_line(p, covered, params, "@method"@);
    lemma_covered_line(p, covered, params, "@authority"@);
    lemma_covered_line(p, covered, params, "@path"@);
    lemma_covered_line(p, covered, params, "signature-key"@);
    assert("@"@[0] == '@');
    assert("signature-key"@[0] == 's' && "aauth-mission"@[0] == 'a' && "authorization"@[0] == 'a');
    lemma_no_at("signature-key"@);
    lemma_no_at("aauth-mission"@);
    lemma_no_at("authorization"@);
    let n = policy.extra_required.len() as int;
    if 0 <= i < n {
        assert(wanted[4 + i] == policy.extra_required[i]);
        lemma_covered_line(p, covered, params, policy.extra_required[i]);
    }
    if header_value(p.headers, "aauth-mission"@) is Some {
        assert(wanted[4 + n] == "aauth-mission"@);
        lemma_covered_line(p, covered, params, "aauth-mission"@);
    }
    if header_value(p.headers, "authorization"@) matches Some(a) && "AAuth "@.is_prefix_of(a) {
        assert(wanted[wanted.len() - 1] == "authorization"@);
        lemma_covered_line(p, covered, params, "authorization"@);
    }
}

proof fn lemma_no_at(name: Seq<char>)
    requires
        name.len() > 0,
        name[0] != '@',
    ensures
        !"@"@.is_prefix_of(name),
        name != "@method"@,
        name != "@authority"@,
        name != "@path"@,
        name != "@query"@,
{
    reveal_strlit("@");
    reveal_strlit("@method");
    reveal_strlit("@authority");
    reveal_strlit("@path");
    reveal_strlit("@query");
    if "@"@.is_prefix_of(name) {
        assert(name.take(1)[0] == name[0]);
        assert("@"@[0] == '@');
    }
    assert("@method"@[0] == '@' && "@authority"@[0] == '@' && "@path"@[0] == '@' && "@query"@[0]
        == '@');
}

proof fn lemma_covered_line(p: PartsView, covered: Seq<Seq<char>>, params: Seq<char>, name: Seq<char>)
    requires
        covered.contains(name),
        is_plain_name(name),
        signature_base(p, covered, params) is Some,
    ensures
        component(p, name) is Some,
        has_line(signature_base(p, covered, params)->0, name, component(p, name)->0),
{
    let i = choose|i: int| 0 <= i < covered.len() && covered[i] == name;
    lemma_line_of_base(p, covered, params, i);
}

/// A signature is accepted at the times that its parameters and the window allow,
/// and at no other.
pub proof fn law_signature_is_timely(p: PartsView, policy: PolicyView)
    requires
        request_signature(p, policy) is Ok,
    ensures
        sfv::dictionary(header_value(p.headers, "signature-input"@)->0) matches Some(inputs) && ({
            &&& inputs.len() > 0
            &&& sfv::param_named(inputs[0].params, "created"@) matches Some(BareView::Int(c)) && c
                <= policy.now + policy.window_secs && c >= policy.now - policy.window_secs
            &&& sfv::param_named(inputs[0].params, "expires"@) matches Some(x) ==> x is Int
                && x->Int_0 > policy.now
        }),
{
}

/// What the times of a signature are refused for: no time, a time that is further
/// away than the window, a time that is over.
pub proof fn law_times_refused(params: sfv::ParamsView, policy: PolicyView, c: i64, e: i64)
    ensures
        sfv::param_named(params, "created"@) is None ==> signed_time_fault(params, policy) is Some,
        ({
            let near = policy.now - policy.window_secs <= c <= policy.now + policy.window_secs;
            let at = sfv::param_named(params, "created"@) == Some(BareView::Int(c));
            let ends = sfv::param_named(params, "expires"@);
            &&& at && ends is None ==> (signed_time_fault(params, policy) is None) == near
            &&& at && ends == Some(BareView::Int(e)) ==> (signed_time_fault(params, policy) is None)
                == (near && e > policy.now)
        }),
        signed_time_fault(params, policy) matches Some(x) ==> x.code
            == SigErrorCode::InvalidSignature,
{
}

/// A signature holds under a key exactly where Ed25519 says so of the text that
/// was signed; a key that is none is told from a signature that is wrong.
pub proof fn law_signature_holds(p: ParsedView, key: JwkView, raw: Seq<u8>)
    ensures
        jwk::key_bytes(key) == Ok::<Seq<u8>, jwk::JwkError>(raw) && p.signature.len() == 64 ==> (
        parsed_fault(p, key) is None) == crypto::ed_verifies(
            raw,
            vstd::utf8::encode_utf8(p.base),
            p.signature,
        ),
        p.signature.len() != 64 ==> parsed_fault(p, key) is Some,
        jwk::key_bytes(key) is Err ==> (parsed_fault(p, key) matches Some(e) && e.code
            == SigErrorCode::InvalidKey),
        jwk::key_bytes(key) is Ok && parsed_fault(p, key) is Some ==> parsed_fault(p, key)->0.code
            == SigErrorCode::InvalidSignature,
{
}

/// Without one of its three headers there is no signature.
pub proof fn law_missing_header(p: PartsView, policy: PolicyView)
    requires
        header_value(p.headers, "signature-input"@) is None || header_value(
            p.headers,
            "signature"@,
        ) is None || header_value(p.headers, "signature-key"@) is None,
    ensures
        request_signature(p, policy) matches Err(e) && e.code == SigErrorCode::InvalidSignature,
{
}

/// What must be covered begins with the usual components, and goes on with those
/// that are asked for besides.
pub proof fn law_wanted_components(p: PartsView, policy: PolicyView, i: int)
    ensures
        ({
            let all = required_components(p, policy);
            &&& all.len() >= 4 + policy.extra_required.len()
            &&& all[0] == "@method"@
            &&& all[1] == "@authority"@
            &&& all[2] == "@path"@
            &&& all[3] == "signature-key"@
            &&& 0 <= i < policy.extra_required.len() ==> all[4 + i] == policy.extra_required[i]
        }),
{
}

/// A signature that leaves out a component which must be covered is answered with
/// the list of all of them.
pub proof fn law_uncovered_is_told(
    p: PartsView,
    policy: PolicyView,
    input: MemberView,
    signature: MemberView,
    key: MemberView,
    covered: Seq<Seq<char>>,
    i: int,
)
    requires
        input.value is Many,
        covered_by(input.value->Many_0) == Some(covered),
        signature.value is One,
        signature.value->One_0 is Bytes,
        0 <= i < required_components(p, policy).len(),
        !covered.contains(required_components(p, policy)[i]),
    ensures
        labelled_signature(p, policy, input, Some(signature), Some(key)) matches Err(e) && e.code
            == SigErrorCode::InvalidInput && e.required_input == Some(
            required_components(p, policy),
        ),
{
    assert(!all_covered(required_components(p, policy), covered));
}

/// A key that is sent along must name the one algorithm; a scheme that is not known
/// is told as such.
pub proof fn law_schemes_refused(params: sfv::ParamsView, alg: Seq<char>, m: MemberView, t: Seq<char>)
    ensures
        text_param(params, "kty"@) is Some && text_param(params, "crv"@) is Some && text_param(
            params,
            "x"@,
        ) is Some && text_param(params, "alg"@) == Some(alg) ==> match inline_key(params) {
            Ok(s) => alg == "Ed25519"@ && (s matches SchemeView::Hwk(k) && Some(k.x) == text_param(
                params,
                "x"@,
            ) && Some(k.kty) == text_param(params, "kty"@) && Some(k.crv) == text_param(
                params,
                "crv"@,
            )),
            Err(e) => alg != "Ed25519"@ && e.code == SigErrorCode::UnsupportedAlgorithm,
        },
        text_param(params, "alg"@) is None || text_param(params, "x"@) is None ==> (inline_key(
            params,
        ) matches Err(e) && e.code == SigErrorCode::InvalidKey),
        m.value == ContentView::One(BareView::Token(t)) && t != "hwk"@ && t != "jwt"@ && t
            != "jkt-jwt"@ && t != "jwks_uri"@ ==> (scheme_of(m) matches Err(e) && e.code
            == SigErrorCode::UnsupportedScheme),
{
}

/// The parameters of a signature that is made without extra components, as they
/// stand in the header.
pub proof fn law_own_parameters(created: u64)
    ensures
        own_params(usual_components(), created)
            == "(\"@method\" \"@authority\" \"@path\" \"signature-key\");created="@
            + decimal::numeral(created as nat),
{
    lemma_usual_names();
    lemma_mark();
    lemma_plain_quoted("@method"@);
    lemma_plain_quoted("@authority"@);
    lemma_plain_quoted("@path"@);
    lemma_plain_quoted("signature-key"@);
    reveal_strlit("@method");
    reveal_strlit("@authority");
    reveal_strlit("@path");
    reveal_strlit("signature-key");
    reveal_strlit("(");
    reveal_strlit(" ");
    reveal_strlit(");created=");
    reveal_strlit("(\"@method\" \"@authority\" \"@path\" \"signature-key\");created=");
    let q = problem::quoted_all(usual_components());
    let a = problem::quoted("@method"@);
    let b = problem::quoted("@authority"@);
    let c = problem::quoted("@path"@);
    let d = problem::quoted("signature-key"@);
    assert(q =~= seq![a, b, c, d]);
    assert(q.drop_last() =~= seq![a, b, c]);
    assert(seq![a, b, c].drop_last() =~= seq![a, b]);
    assert(seq![a, b].drop_last() =~= seq![a]);
    reveal_with_fuel(text::joined, 4);
    assert(text::joined(q, " "@) =~= a + " "@ + b + " "@ + c + " "@ + d);
    assert("("@ + (a + " "@ + b + " "@ + c + " "@ + d) + ");created="@
        =~= "(\"@method\" \"@authority\" \"@path\" \"signature-key\");created="@);
}

/// The scheme of a signature is read from its token and parameters: a key that is
/// sent along, a token that names the key, a naming token, or a key of a server.
pub proof fn law_schemes_read(m: MemberView, t: Seq<char>, token: Seq<char>)
    requires
        m.value == ContentView::One(BareView::Token(t)),
    ensures
        t == "jwt"@ && sfv::param_named(m.params, "jwt"@) == Some(BareView::Text(token))
            ==> scheme_of(m) == Ok::<SchemeView, SigErrorView>(SchemeView::Jwt(token)),
        t == "jkt-jwt"@ && sfv::param_named(m.params, "jwt"@) == Some(BareView::Text(token))
            ==> scheme_of(m) == Ok::<SchemeView, SigErrorView>(SchemeView::JktJwt(token)),
        t == "jwks_uri"@ ==> (sfv::param_named(m.params, "id"@) matches Some(BareView::Text(id)) ==> (
        sfv::param_named(m.params, "dwk"@) matches Some(BareView::Text(dwk)) ==> (sfv::param_named(
            m.params,
            "kid"@,
        ) matches Some(BareView::Text(kid)) ==> scheme_of(m) == Ok::<SchemeView, SigErrorView>(
            SchemeView::JwksUri { id, dwk, kid },
        )))),
        t == "hwk"@ ==> (sfv::param_named(m.params, "kty"@) matches Some(BareView::Text(kty)) ==> (
        sfv::param_named(m.params, "crv"@) matches Some(BareView::Text(crv)) ==> (sfv::param_named(
            m.params,
            "x"@,
        ) matches Some(BareView::Text(x)) ==> (sfv::param_named(m.params, "alg"@) == Some(
            BareView::Text("Ed25519"@),
        ) ==> scheme_of(m) == Ok::<SchemeView, SigErrorView>(
            SchemeView::Hwk(
                JwkView { kty, crv, x, kid: None, alg: Some("Ed25519"@), use_: None },
            ),
        ))))),
        t == "jwks_uri"@ && sfv::param_named(m.params, "kid"@) is None ==> scheme_of(m) is Err,
        t == "jwt"@ && sfv::param_named(m.params, "jwt"@) is None ==> scheme_of(m) is Err,
        scheme_of(m) is Ok ==> t == "hwk"@ || t == "jwt"@ || t == "jkt-jwt"@ || t == "jwks_uri"@,
{
    reveal_strlit("hwk");
    reveal_strlit("jwt");
    reveal_strlit("jkt-jwt");
    reveal_strlit("jwks_uri");
    assert("hwk"@.len() == 3 && "jwt"@.len() == 3 && "jkt-jwt"@.len() == 7 && "jwks_uri"@.len() == 8);
    assert("hwk"@[0] == 'h');
    assert("jwt"@[0] == 'j');
}

/// The signature and the key of a request are those of the label that its input
/// has, and the text that was signed ends with that input as it stands.
pub proof fn law_parts_of_one_label(
    p: PartsView,
    policy: PolicyView,
    inputs: Seq<MemberView>,
    signatures: Seq<MemberView>,
    keys: Seq<MemberView>,
)
    requires
        header_value(p.headers, "signature-input"@) matches Some(a) && sfv::dictionary(a) == Some(
            inputs,
        ),
        header_value(p.headers, "signature"@) matches Some(b) && sfv::dictionary(b) == Some(
            signatures,
        ),
        header_value(p.headers, "signature-key"@) matches Some(c) && sfv::dictionary(c) == Some(keys),
        inputs.len() > 0,
    ensures
        request_signature(p, policy) matches Ok(v) ==> {
            &&& (sfv::member_named(signatures, inputs[0].key) matches Some(sm) && sm.value
                == ContentView::One(BareView::Bytes(v.signature)))
            &&& (sfv::member_named(keys, inputs[0].key) matches Some(km) && scheme_of(km) == Ok::<
                SchemeView,
                SigErrorView,
            >(v.scheme))
            &&& (inputs[0].value matches ContentView::Many(items) && (covered_by(items) matches Some(
                covered,
            ) && (base_lines(p, covered) matches Some(lines) && v.base == lines
                + "\"@signature-params\": "@ + inputs[0].raw)))
        },
        sfv::member_named(signatures, inputs[0].key) is None || sfv::member_named(
            keys,
            inputs[0].key,
        ) is None ==> (request_signature(p, policy) matches Err(e) && e.code is InvalidSignature
            && e.detail == "signature headers do not share a label"@),
{
}

/// The three headers that a signer adds: what is covered and when, the signature
/// of the text, and the scheme of the key, under one label.
pub proof fn law_signature_headers(
    p: PartsView,
    extra: Seq<Seq<char>>,
    scheme: Seq<char>,
    seed: Seq<u8>,
    created: u64,
    base: Seq<char>,
)
    requires
        signed_base(p, extra, scheme, created) == Some(base),
    ensures
        signed_headers(p, extra, scheme, seed, created) matches Some(s) && s.signature_input
            == "sig="@ + own_params(usual_components() + extra, created) && s.signature == "sig=:"@
            + b64::encoded_std(crypto::ed_signature(seed, vstd::utf8::encode_utf8(base))) + ":"@
            && s.signature_key == "sig="@ + scheme,
{
}

/// A signer covers the usual components and what is asked for, of the request
/// with the header of its key.
pub proof fn law_signer_covers(
    p: PartsView,
    extra: Seq<Seq<char>>,
    scheme: Seq<char>,
    created: u64,
)
    ensures
        signed_base(p, extra, scheme, created) == signature_base(
            (PartsView {
                headers: p.headers.push(("signature-key"@, "sig="@ + scheme)),
                ..p
            }),
            seq!["@method"@, "@authority"@, "@path"@, "signature-key"@] + extra,
            own_params(seq!["@method"@, "@authority"@, "@path"@, "signature-key"@] + extra, created),
        ),
{
}

/// What is wrong with a signature is told: its times, what it does not cover, its
/// key, and that it does not hold.
pub proof fn law_signature_faults_told(
    params: sfv::ParamsView,
    policy: PolicyView,
    v: ParsedView,
    key: JwkView,
)
    ensures
        !(sfv::param_named(params, "created"@) matches Some(BareView::Int(_))) ==> (
        signed_time_fault(params, policy) matches Some(e) && e.detail == "missing created parameter"@
            && e.code is InvalidSignature),
        sfv::param_named(params, "created"@) matches Some(BareView::Int(c)) ==> (c > policy.now
            + policy.window_secs || c + policy.window_secs < policy.now ==> (signed_time_fault(
            params,
            policy,
        ) matches Some(e) && e.detail == "created is outside the validity window"@)),
        signed_time_fault(params, policy) matches Some(e) ==> (e.detail == "signature expired"@ ==> (
        sfv::param_named(params, "expires"@) matches Some(BareView::Int(x)) && x <= policy.now)),
        jwk::key_bytes(key) is Err ==> (parsed_fault(v, key) matches Some(e) && e.code is InvalidKey
            && e.detail == "unusable signing key"@),
        jwk::key_bytes(key) is Ok ==> (parsed_fault(v, key) matches Some(e) ==> e.code is InvalidSignature
            && e.detail == "signature verification failed"@),
{
    reveal_strlit("signature expired");
    reveal_strlit("missing created parameter");
    reveal_strlit("created is outside the validity window");
    reveal_strlit("malformed expires parameter");
    assert("signature expired"@.len() == 17);
    assert("missing created parameter"@.len() == 25);
    assert("created is outside the validity window"@.len() == 38);
    assert("malformed expires parameter"@.len() == 27);
}

} // verus!
