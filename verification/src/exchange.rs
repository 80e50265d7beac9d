//! The client and the provider together: whoever signs a request as the client
//! does is the one that the provider takes it to be from.

use vstd::prelude::*;

use crate::config::Config;
use crate::crypto;
use crate::ident;
use crate::issue;
use crate::json::Json;
use crate::jwk;
use crate::jwk::JwkView;
use crate::jwt;
use crate::jwt::JwtView;
use crate::keys;
use crate::keys::{KeyEntryView, KeyFileView, KeySet};
use crate::problem::ApiErrorView;
use crate::reqctx;
use crate::reqctx::{ReqView, SignerView};
use crate::roundtrip;
use crate::sig;
use crate::sig::{ParsedView, PartsView, SchemeView};
use crate::sigkey;
use crate::tokens::AgentClaimsView;

verus! {

/// The keys are those of a keys file.
pub open spec fn loaded_from(keyset: KeySet, f: KeyFileView) -> bool {
    keyset.active_kid@ == f.active && keys::loaded(f) == Ok::<
        (Seq<u8>, Seq<JwkView>),
        Seq<char>,
    >((keyset.active_key@, keys::jwks_view(keyset.public_jwks@)))
}

/// What is read of a request that was signed.
pub open spec fn signed(
    p: PartsView,
    extra: Seq<Seq<char>>,
    scheme: SchemeView,
    seed: Seq<u8>,
    created: u64,
) -> ParsedView {
    let base = sig::signed_base(p, extra, roundtrip::scheme_text(scheme), created)->0;
    ParsedView {
        scheme,
        base,
        signature: crypto::ed_signature(seed, vstd::utf8::encode_utf8(base)),
    }
}

/// A request arrives as it was signed: the client added the signature headers to
/// it, in time, covered what is asked for, and the signature holds under the key.
pub open spec fn arrives(
    cfg: Config,
    r: ReqView,
    p: PartsView,
    extra: Seq<Seq<char>>,
    required: Seq<Seq<char>>,
    scheme: SchemeView,
    seed: Seq<u8>,
    created: u64,
    now: u64,
    key: JwkView,
) -> bool {
    let headers = sig::signed_headers(p, extra, roundtrip::scheme_text(scheme), seed, created);
    let policy = reqctx::policy_of(cfg, required, now);
    &&& roundtrip::is_unsigned(p)
    &&& roundtrip::coverable(extra)
    &&& roundtrip::sendable(scheme)
    &&& created <= roundtrip::MAX_TIME
    &&& roundtrip::timely(created, policy)
    &&& headers is Some
    &&& reqctx::parts_of(r) == roundtrip::received(p, headers->0)
    &&& sig::all_covered(
        sig::required_components(reqctx::parts_of(r), policy),
        sig::usual_components() + extra,
    )
    &&& r.authority == cfg.authority_spec()
    &&& sig::parsed_fault(signed(p, extra, scheme, seed, created), key) is None
}

/// A request that is signed with a key which it brings along is taken to be from
/// the holder of that key.
pub proof fn law_own_key_is_identified(
    cfg: Config,
    keyset: KeySet,
    r: ReqView,
    p: PartsView,
    extra: Seq<Seq<char>>,
    required: Seq<Seq<char>>,
    key: JwkView,
    seed: Seq<u8>,
    created: u64,
    now: u64,
)
    requires
        arrives(cfg, r, p, extra, required, SchemeView::Hwk(key), seed, created, now, key),
    ensures
        reqctx::signer_of(cfg, keyset, r, required, now) == Ok::<SignerView, ApiErrorView>(
            SignerView::Hwk { jwk: key },
        ),
{
    roundtrip::law_signed_request_is_accepted(
        p,
        extra,
        SchemeView::Hwk(key),
        seed,
        created,
        reqctx::policy_of(cfg, required, now),
    );
}

/// A request that is signed with an ephemeral key, under a token in which a
/// durable key names it, is taken to be from the holder of the durable key.
pub proof fn law_named_key_is_identified(
    cfg: Config,
    keyset: KeySet,
    r: ReqView,
    p: PartsView,
    extra: Seq<Seq<char>>,
    required: Seq<Seq<char>>,
    token: Seq<char>,
    seed: Seq<u8>,
    created: u64,
    now: u64,
)
    requires
        sigkey::named_key(token, now, cfg.naming_jwt_max_lifetime_secs) is Ok,
        arrives(
            cfg,
            r,
            p,
            extra,
            required,
            SchemeView::JktJwt(token),
            seed,
            created,
            now,
            sigkey::named_key(token, now, cfg.naming_jwt_max_lifetime_secs)->Ok_0.ephemeral_jwk,
        ),
    ensures
        ({
            let n = sigkey::named_key(token, now, cfg.naming_jwt_max_lifetime_secs)->Ok_0;
            reqctx::signer_of(cfg, keyset, r, required, now) == Ok::<SignerView, ApiErrorView>(
                SignerView::JktJwt {
                    durable_jkt: n.durable_jkt,
                    ephemeral_jwk: n.ephemeral_jwk,
                    jti: n.jti,
                },
            )
        }),
{
    roundtrip::law_signed_request_is_accepted(
        p,
        extra,
        SchemeView::JktJwt(token),
        seed,
        created,
        reqctx::policy_of(cfg, required, now),
    );
}

/// A token of the provider, whose signature holds under the key it was signed
/// with, is known to the provider as its own until it expires.
pub proof fn law_own_token_is_known(
    f: KeyFileView,
    keyset: KeySet,
    iss: Seq<char>,
    sub: Seq<char>,
    jti: Seq<char>,
    key: JwkView,
    iat: u64,
    exp: u64,
    parent: Option<Seq<char>>,
    ps: Option<Seq<char>>,
    assurance: Option<Seq<char>>,
    embed: Option<Map<Seq<char>, Json>>,
    later: u64,
    insecure: bool,
)
    requires
        loaded_from(keyset, f),
        keys::with_kid(f.keys, f.active, true).len() == 1,
        ident::is_server_identifier(iss, insecure),
        ident::agent_parts(sub) is Some,
        parent matches Some(p) ==> ident::agent_parts(p) is Some,
        ps matches Some(p) ==> ident::is_server_identifier(p, insecure),
        iat <= later < exp,
        ({
            let payload = issue::agent_payload(
                iss,
                sub,
                jti,
                key,
                iat,
                exp,
                parent,
                ps,
                assurance,
                embed,
            );
            jwt::jwt_check(
                issue::issued_view(keyset, "aa-agent+jwt"@, payload),
                jwk::jwk_of_key(crypto::ed_public(keyset.active_key@)),
            ) is Ok
        }),
    ensures
        ({
            let payload = issue::agent_payload(
                iss,
                sub,
                jti,
                key,
                iat,
                exp,
                parent,
                ps,
                assurance,
                embed,
            );
            reqctx::local_claims(
                keyset,
                issue::issued_view(keyset, "aa-agent+jwt"@, payload),
                later,
                insecure,
            ) == Ok::<AgentClaimsView, ApiErrorView>(
                AgentClaimsView {
                    iss,
                    sub,
                    cnf_jwk: jwk::bare(key),
                    iat,
                    exp,
                    ps,
                    parent_agent: parent,
                },
            )
        }),
{
    keys::law_active_key_is_published(f);
    issue::law_issued_token_is_accepted(
        keyset,
        iss,
        sub,
        jti,
        key,
        iat,
        exp,
        parent,
        ps,
        assurance,
        embed,
        later,
        insecure,
    );
}

/// A request that is signed with the key of an agent token of the provider is
/// taken to be from the agent that the token names.
pub proof fn law_token_holder_is_identified(
    cfg: Config,
    keyset: KeySet,
    r: ReqView,
    p: PartsView,
    extra: Seq<Seq<char>>,
    required: Seq<Seq<char>>,
    token: Seq<char>,
    t: JwtView,
    claims: AgentClaimsView,
    seed: Seq<u8>,
    created: u64,
    now: u64,
)
    requires
        jwt::decoded_jwt(token) == Some(t),
        reqctx::local_claims(keyset, t, now, cfg.insecure_dev_mode) == Ok::<
            AgentClaimsView,
            ApiErrorView,
        >(claims),
        arrives(
            cfg,
            r,
            p,
            extra,
            required,
            SchemeView::Jwt(token),
            seed,
            created,
            now,
            claims.cnf_jwk,
        ),
    ensures
        reqctx::signer_of(cfg, keyset, r, required, now) == Ok::<SignerView, ApiErrorView>(
            SignerView::AgentToken { claims, signing_jwk: claims.cnf_jwk },
        ),
{
    roundtrip::law_signed_request_is_accepted(
        p,
        extra,
        SchemeView::Jwt(token),
        seed,
        created,
        reqctx::policy_of(cfg, required, now),
    );
}

/// Rotating the keys leaves the tokens alone that were signed before: they mean
/// what they meant, until they expire.
pub proof fn law_tokens_outlive_rotation(
    f: KeyFileView,
    fresh: KeyEntryView,
    before: KeySet,
    after: KeySet,
    t: JwtView,
    now: u64,
    insecure: bool,
)
    requires
        loaded_from(before, f),
        loaded_from(after, keys::rotated(f, fresh)),
        t.header.kid != Some(fresh.kid),
    ensures
        reqctx::local_claims(after, t, now, insecure) == reqctx::local_claims(
            before,
            t,
            now,
            insecure,
        ),
{
    if let Some(kid) = t.header.kid {
        keys::law_rotation_keeps_published(f, fresh, kid);
    }
}

} // verus!
