//! The schemes of the `Signature-Key` header, and naming tokens, in which a
//! durable key names an ephemeral one.

use vstd::prelude::*;

use crate::crypto;
use crate::crypto::SigningKey;
use crate::json;
use crate::json::{Json, JsonValue};
use crate::jwk;
use crate::jwk::{Jwk, JwkView};
use crate::jwt;
use crate::jwt::{ClaimExt, JwtError};
use crate::problem;
use crate::sig;
use crate::sig::{SigError, SigErrorCode, SigErrorView};
use crate::text;
use crate::tokens;

verus! {

/// A text parameter.
pub open spec fn parameter(name: Seq<char>, v: Seq<char>) -> Seq<char> {
    ";"@ + name + "="@ + problem::quoted(v)
}

/// The scheme of a key that is sent along.
pub open spec fn hwk_text(k: JwkView) -> Seq<char> {
    "hwk"@ + parameter("kty"@, k.kty) + parameter("crv"@, k.crv) + parameter("x"@, k.x)
        + parameter("alg"@, "Ed25519"@)
}

/// The scheme of a key that a token names.
pub open spec fn jwt_text(token: Seq<char>) -> Seq<char> {
    "jwt"@ + parameter("jwt"@, token)
}

/// The scheme of a key that a naming token names.
pub open spec fn jkt_jwt_text(token: Seq<char>) -> Seq<char> {
    "jkt-jwt"@ + parameter("jwt"@, token)
}

/// The scheme of a key that a server publishes.
pub open spec fn jwks_uri_text(id: Seq<char>, dwk: Seq<char>, kid: Seq<char>) -> Seq<char> {
    "jwks_uri"@ + parameter("id"@, id) + parameter("dwk"@, dwk) + parameter("kid"@, kid)
}

fn append_parameter(out: &mut String, name: &str, v: &str)
    ensures
        final(out)@ == old(out)@ + parameter(name@, v@),
{
    let ghost before = out@;
    out.append(";");
    out.append(name);
    out.append("=");
    out.append(problem::serialize_string(v).as_str());
    proof {
        assert(out@ =~= before + parameter(name@, v@));
    }
}

/// The scheme of a key that is sent along.
pub fn serialize_hwk(k: &Jwk) -> (r: String)
    ensures
        r@ == hwk_text(k@),
{
    let mut out = "hwk".to_owned();
    append_parameter(&mut out, "kty", k.kty.as_str());
    append_parameter(&mut out, "crv", k.crv.as_str());
    append_parameter(&mut out, "x", k.x.as_str());
    append_parameter(&mut out, "alg", jwk::ALG_ED25519);
    out
}

/// The scheme of a key that a token names.
pub fn serialize_jwt(token: &str) -> (r: String)
    ensures
        r@ == jwt_text(token@),
{
    let mut out = "jwt".to_owned();
    append_parameter(&mut out, "jwt", token);
    out
}

/// The scheme of a key that a naming token names.
pub fn serialize_jkt_jwt(token: &str) -> (r: String)
    ensures
        r@ == jkt_jwt_text(token@),
{
    let mut out = "jkt-jwt".to_owned();
    append_parameter(&mut out, "jwt", token);
    out
}

/// The scheme of a key that a server publishes.
pub fn serialize_jwks_uri(id: &str, dwk: &str, kid: &str) -> (r: String)
    ensures
        r@ == jwks_uri_text(id@, dwk@, kid@),
{
    let mut out = "jwks_uri".to_owned();
    append_parameter(&mut out, "id", id);
    append_parameter(&mut out, "dwk", dwk);
    append_parameter(&mut out, "kid", kid);
    out
}

// --------------------------------------------------------- naming tokens

/// How a naming token names its durable key.
pub open spec fn key_urn(thumbprint: Seq<char>) -> Seq<char> {
    "urn:jkt:sha-256:"@ + thumbprint
}

/// What a naming token says.
pub struct NamedKey {
    pub durable_jkt: String,
    pub ephemeral_jwk: Jwk,
    pub jti: Option<String>,
}

/// What a [`NamedKey`] holds.
pub struct NamedView {
    pub durable_jkt: Seq<char>,
    pub ephemeral_jwk: JwkView,
    pub jti: Option<Seq<char>>,
}

impl NamedKey {
    /// What the naming token says.
    pub open spec fn view(&self) -> NamedView {
        NamedView {
            durable_jkt: self.durable_jkt@,
            ephemeral_jwk: self.ephemeral_jwk@,
            jti: text::opt_view(self.jti),
        }
    }
}

/// A refused naming token.
pub open spec fn bad_naming(detail: Seq<char>) -> SigErrorView {
    sig::sig_error(SigErrorCode::InvalidJwt, detail)
}

/// What is wrong with the times of a naming token.
pub open spec fn naming_time_fault(payload: Json, now: u64, max_lifetime: u64) -> Option<
    SigErrorView,
> {
    match (json::i64_member(payload, "iat"@), json::i64_member(payload, "exp"@)) {
        (Some(iat), Some(exp)) => if exp <= now {
            Some(sig::sig_error(SigErrorCode::ExpiredJwt, "naming JWT expired"@))
        } else if iat > now + tokens::IAT_SKEW_SECS {
            Some(bad_naming("naming JWT iat is in the future"@))
        } else if exp - iat > max_lifetime {
            Some(bad_naming("naming JWT lifetime is too long"@))
        } else {
            None
        },
        _ => Some(bad_naming("naming JWT requires iat and exp"@)),
    }
}

/// What a naming token says, or what is wrong with it. Its issuer is the
/// thumbprint of the key in its own header, which signed it.
pub open spec fn named_key(token: Seq<char>, now: u64, max_lifetime: u64) -> Result<
    NamedView,
    SigErrorView,
> {
    match jwt::decoded_jwt(token) {
        None => Err(bad_naming("malformed naming JWT"@)),
        Some(t) => if t.header.typ != Some("jkt-s256+jwt"@) {
            Err(bad_naming("typ is not jkt-s256+jwt"@))
        } else {
            match t.header.jwk {
                None => Err(bad_naming("naming JWT has no header jwk"@)),
                Some(durable) => match jwk::thumbprint_of(durable) {
                    Err(_) => Err(bad_naming("naming JWT header jwk is not supported"@)),
                    Ok(thumb) => if json::str_member(t.payload, "iss"@) != Some(key_urn(thumb)) {
                        Err(bad_naming("naming JWT iss does not match its header jwk"@))
                    } else {
                        match jwt::jwt_check(t, durable) {
                            Err(JwtError::UnsupportedAlgorithm) => Err(
                                sig::sig_error(
                                    SigErrorCode::UnsupportedAlgorithm,
                                    "naming JWT alg is not Ed25519"@,
                                ),
                            ),
                            Err(_) => Err(bad_naming("naming JWT signature invalid"@)),
                            Ok(_) => match naming_time_fault(t.payload, now, max_lifetime) {
                                Some(e) => Err(e),
                                None => match tokens::confirmed_key(t.payload) {
                                    None => Err(bad_naming("naming JWT has no cnf.jwk"@)),
                                    Some(k) => Ok(
                                        NamedView {
                                            durable_jkt: thumb,
                                            ephemeral_jwk: k,
                                            jti: json::str_member(t.payload, "jti"@),
                                        },
                                    ),
                                },
                            },
                        }
                    },
                },
            }
        },
    }
}

fn naming_error(detail: &str) -> (r: SigError)
    ensures
        r@ == bad_naming(detail@),
{
    SigError::new(SigErrorCode::InvalidJwt, detail)
}

fn check_naming_times(payload: &JsonValue, now: u64, max_lifetime: u64) -> (r: Result<
    (),
    SigError,
>)
    ensures
        sig::sig_outcome(r) == naming_time_fault(payload@, now, max_lifetime),
{
    match (payload.int_claim("iat"), payload.int_claim("exp")) {
        (Some(iat), Some(exp)) => if exp as i128 <= now as i128 {
            Err(SigError::new(SigErrorCode::ExpiredJwt, "naming JWT expired"))
        } else if iat as i128 > now as i128 + tokens::IAT_SKEW_SECS as i128 {
            Err(naming_error("naming JWT iat is in the future"))
        } else if exp as i128 - iat as i128 > max_lifetime as i128 {
            Err(naming_error("naming JWT lifetime is too long"))
        } else {
            Ok(())
        },
        _ => Err(naming_error("naming JWT requires iat and exp")),
    }
}

/// Verifies a naming token.
pub fn verify_jkt_jwt(token: &str, now: u64, max_lifetime: u64) -> (r: Result<NamedKey, SigError>)
    ensures
        match r {
            Ok(x) => named_key(token@, now, max_lifetime) == Ok::<NamedView, SigErrorView>(x@),
            Err(e) => named_key(token@, now, max_lifetime) == Err::<NamedView, SigErrorView>(e@),
        },
{
    let t = match jwt::decode(token) {
        Ok(t) => t,
        Err(_) => {
            return Err(naming_error("malformed naming JWT"));
        },
    };
    let typed = match &t.header.typ {
        Some(typ) => text::same(typ.as_str(), tokens::TYP_NAMING),
        None => false,
    };
    if !typed {
        return Err(naming_error("typ is not jkt-s256+jwt"));
    }
    let durable = match &t.header.jwk {
        Some(k) => k,
        None => {
            return Err(naming_error("naming JWT has no header jwk"));
        },
    };
    let thumb = match durable.thumbprint() {
        Ok(x) => x,
        Err(_) => {
            return Err(naming_error("naming JWT header jwk is not supported"));
        },
    };
    let urn = text::join2("urn:jkt:sha-256:", thumb.as_str());
    let issued = match t.payload.str_claim("iss") {
        Some(iss) => text::same(iss.as_str(), urn.as_str()),
        None => false,
    };
    if !issued {
        return Err(naming_error("naming JWT iss does not match its header jwk"));
    }
    match jwt::verify_with_jwk(&t, durable) {
        Err(JwtError::UnsupportedAlgorithm) => {
            return Err(
                SigError::new(
                    SigErrorCode::UnsupportedAlgorithm,
                    "naming JWT alg is not Ed25519",
                ),
            );
        },
        Err(_) => {
            return Err(naming_error("naming JWT signature invalid"));
        },
        Ok(_) => {},
    }
    if let Err(e) = check_naming_times(&t.payload, now, max_lifetime) {
        return Err(e);
    }
    let ephemeral_jwk = match tokens::read_confirmed_key(&t.payload) {
        Some(k) => k,
        None => {
            return Err(naming_error("naming JWT has no cnf.jwk"));
        },
    };
    let jti = match t.payload.str_claim("jti") {
        Some(s) => Some(s.clone()),
        None => None,
    };
    Ok(NamedKey { durable_jkt: thumb, ephemeral_jwk, jti })
}

/// The claims of a naming token.
pub open spec fn naming_payload(
    thumbprint: Seq<char>,
    ephemeral: JwkView,
    jti: Seq<char>,
    iat: u64,
    exp: u64,
) -> Json {
    Json::Obj(
        Map::<Seq<char>, Json>::empty().insert("iss"@, Json::Str(key_urn(thumbprint))).insert(
            "iat"@,
            Json::Int(iat as int),
        ).insert("exp"@, Json::Int(exp as int)).insert("jti"@, Json::Str(jti)).insert(
            "cnf"@,
            crate::issue::confirmation(ephemeral),
        ),
    )
}

/// The thumbprint of the public half of a key.
pub open spec fn own_thumbprint(seed: Seq<u8>) -> Seq<char> {
    jwk::thumbprint_of(jwk::jwk_of_key(crypto::ed_public(seed)))->Ok_0
}

/// The claims of a naming token that is made now.
pub open spec fn own_naming_payload(
    seed: Seq<u8>,
    ephemeral: JwkView,
    jti: Seq<char>,
    now: u64,
    ttl: u64,
) -> Json {
    naming_payload(own_thumbprint(seed), ephemeral, jti, now, (now + ttl) as u64)
}

/// The signature of a naming token.
pub open spec fn naming_signature(seed: Seq<u8>, payload: Json) -> Seq<u8> {
    crypto::ed_signature(
        seed,
        vstd::utf8::encode_utf8(
            jwt::own_input(
                "jkt-s256+jwt"@,
                None,
                Some(jwk::jwk_of_key(crypto::ed_public(seed))),
                payload,
            ),
        ),
    )
}

/// A naming token made at a time for a while is good later.
pub open spec fn still_named(now: u64, ttl: u64, later: u64, max_lifetime: u64) -> bool {
    now <= later < now + ttl && ttl <= max_lifetime
}

/// Makes a naming token: the durable key names an ephemeral one. `jti` is drawn
/// at random.
///
/// The token is accepted for its lifetime, and says what it was made from, unless
/// the first half of its signature encodes the neutral element of the group.
pub fn build_naming_jwt(durable: &SigningKey, ephemeral: &Jwk, jti: &str, now: u64, ttl: u64) -> (r:
    String)
    requires
        now + ttl <= u64::MAX,
    ensures
        r@ == jwt::own_token(
            "jkt-s256+jwt"@,
            None,
            Some(jwk::jwk_of_key(crypto::ed_public(durable@))),
            own_naming_payload(durable@, ephemeral@, jti@, now, ttl),
            durable@,
        ),
        now + ttl <= i64::MAX && !crypto::neutral_commitment(
            naming_signature(
                durable@,
                own_naming_payload(durable@, ephemeral@, jti@, now, ttl),
            ),
        ) ==> forall|later: u64, max_lifetime: u64|
            still_named(now, ttl, later, max_lifetime) ==> #[trigger] named_key(
                r@,
                later,
                max_lifetime,
            ) == Ok::<NamedView, SigErrorView>(
                NamedView {
                    durable_jkt: own_thumbprint(durable@),
                    ephemeral_jwk: jwk::bare(ephemeral@),
                    jti: Some(jti@),
                },
            ),
{
    let vk = durable.verifying_key();
    let own = Jwk::from_verifying_key(&vk);
    let thumb = match own.thumbprint() {
        Ok(t) => t,
        Err(_) => String::new(),
    };
    let exp: u64 = now + ttl;
    let bare = ephemeral.public_only();
    let cnf = JsonValue::object().with("jwk", bare.to_json());
    let payload = JsonValue::object().with(
        "iss",
        JsonValue::Text(text::join2("urn:jkt:sha-256:", thumb.as_str())),
    ).with("iat", JsonValue::number(now)).with("exp", JsonValue::number(exp)).with(
        "jti",
        JsonValue::string(jti),
    ).with("cnf", cnf);
    let token = jwt::sign(tokens::TYP_NAMING, None, Some(&own), &payload, durable);
    proof {
        lemma_naming_members(own_thumbprint(durable@), ephemeral@, jti@, now, exp);
        lemma_naming_plain(own_thumbprint(durable@), ephemeral@, jti@, now, exp);
    }
    token
}

/// What the claims of a naming token read as.
proof fn lemma_naming_members(
    thumbprint: Seq<char>,
    ephemeral: JwkView,
    jti: Seq<char>,
    iat: u64,
    exp: u64,
)
    ensures
        ({
            let p = naming_payload(thumbprint, ephemeral, jti, iat, exp);
            &&& json::str_member(p, "iss"@) == Some(key_urn(thumbprint))
            &&& json::str_member(p, "jti"@) == Some(jti)
            &&& iat <= i64::MAX ==> json::i64_member(p, "iat"@) == Some(iat as i64)
            &&& exp <= i64::MAX ==> json::i64_member(p, "exp"@) == Some(exp as i64)
            &&& tokens::confirmed_key(p) == Some(jwk::bare(ephemeral))
        }),
{
    reveal_strlit("iss");
    reveal_strlit("iat");
    reveal_strlit("exp");
    reveal_strlit("jti");
    reveal_strlit("cnf");
    assert("iss"@[1] == 's' && "iat"@[1] == 'a' && "exp"@[1] == 'x');
    assert("jti"@[1] == 't' && "cnf"@[1] == 'n');
    jwk::law_jwk_round_trip(jwk::bare(ephemeral));
    let p = naming_payload(thumbprint, ephemeral, jti, iat, exp);
    assert(json::json_get(p, "cnf"@) == Some(crate::issue::confirmation(ephemeral)));
}

/// The claims of a naming token are plain.
proof fn lemma_naming_plain(
    thumbprint: Seq<char>,
    ephemeral: JwkView,
    jti: Seq<char>,
    iat: u64,
    exp: u64,
)
    ensures
        json::plain(naming_payload(thumbprint, ephemeral, jti, iat, exp), 127),
{
    reveal_with_fuel(json::plain, 5);
}

/// An accepted naming token names the durable key that signed it, and lives no
/// longer than allowed.
pub proof fn law_named_key_signed(token: Seq<char>, now: u64, max_lifetime: u64)
    requires
        named_key(token, now, max_lifetime) is Ok,
    ensures
        ({
            let t = jwt::decoded_jwt(token)->0;
            let durable = t.header.jwk->0;
            &&& jwt::decoded_jwt(token) is Some
            &&& t.header.jwk is Some
            &&& jwt::jwt_check(t, durable) is Ok
            &&& jwk::thumbprint_of(durable) == Ok::<Seq<char>, jwk::JwkError>(
                named_key(token, now, max_lifetime)->Ok_0.durable_jkt,
            )
            &&& json::i64_member(t.payload, "exp"@) is Some
            &&& json::i64_member(t.payload, "iat"@) is Some
            &&& json::i64_member(t.payload, "exp"@)->0 > now
            &&& json::i64_member(t.payload, "exp"@)->0 - json::i64_member(t.payload, "iat"@)->0
                <= max_lifetime
        }),
{
}

/// How each scheme is written: its name, and its parameters as quoted texts.
pub proof fn law_scheme_texts(k: JwkView, token: Seq<char>, id: Seq<char>, dwk: Seq<char>, kid: Seq<char>)
    ensures
        hwk_text(k) == "hwk"@ + (";"@ + "kty"@ + "="@ + problem::quoted(k.kty)) + (";"@ + "crv"@
            + "="@ + problem::quoted(k.crv)) + (";"@ + "x"@ + "="@ + problem::quoted(k.x)) + (";"@
            + "alg"@ + "="@ + problem::quoted("Ed25519"@)),
        jwt_text(token) == "jwt"@ + (";"@ + "jwt"@ + "="@ + problem::quoted(token)),
        jkt_jwt_text(token) == "jkt-jwt"@ + (";"@ + "jwt"@ + "="@ + problem::quoted(token)),
        jwks_uri_text(id, dwk, kid) == "jwks_uri"@ + (";"@ + "id"@ + "="@ + problem::quoted(id)) + (
        ";"@ + "dwk"@ + "="@ + problem::quoted(dwk)) + (";"@ + "kid"@ + "="@ + problem::quoted(kid)),
{
}

/// The times of a naming token are in order exactly where both are numbers, it is
/// not over, it began no more than a minute ahead, and it does not last longer
/// than allowed.
pub proof fn law_naming_times(payload: Json, now: u64, max_lifetime: u64)
    ensures
        naming_time_fault(payload, now, max_lifetime) is None == (json::i64_member(
            payload,
            "iat"@,
        ) matches Some(iat) && (json::i64_member(payload, "exp"@) matches Some(exp) && now < exp
            && iat <= now + 60 && exp - iat <= max_lifetime)),
        json::i64_member(payload, "iat"@) is Some ==> (json::i64_member(
            payload,
            "exp"@,
        ) matches Some(exp) ==> (exp <= now ==> (naming_time_fault(
            payload,
            now,
            max_lifetime,
        ) matches Some(e) && e.code is ExpiredJwt))),
{
}

/// A naming token is accepted exactly where it is of its type, carries its durable
/// key, is issued under that key's thumbprint and signed by it, is in time, and
/// names a key; and it names just these.
pub proof fn law_naming_token(
    token: Seq<char>,
    now: u64,
    max_lifetime: u64,
    t: jwt::JwtView,
    durable: JwkView,
    thumb: Seq<char>,
    k: JwkView,
)
    requires
        jwt::decoded_jwt(token) == Some(t),
        t.header.jwk == Some(durable),
        jwk::thumbprint_of(durable) == Ok::<Seq<char>, jwk::JwkError>(thumb),
        tokens::confirmed_key(t.payload) == Some(k),
    ensures
        (named_key(token, now, max_lifetime) is Ok) == (t.header.typ == Some("jkt-s256+jwt"@)
            && json::str_member(t.payload, "iss"@) == Some("urn:jkt:sha-256:"@ + thumb)
            && jwt::jwt_check(t, durable) is Ok && naming_time_fault(
            t.payload,
            now,
            max_lifetime,
        ) is None),
        named_key(token, now, max_lifetime) matches Ok(n) ==> n.durable_jkt == thumb
            && n.ephemeral_jwk == k && n.jti == json::str_member(t.payload, "jti"@),
{
}

/// Without a key of its own, or without one that it names, a naming token is
/// refused.
pub proof fn law_naming_token_needs_keys(token: Seq<char>, now: u64, max_lifetime: u64)
    ensures
        jwt::decoded_jwt(token) is None ==> (named_key(token, now, max_lifetime) matches Err(e)
            && e.code is InvalidJwt),
        jwt::decoded_jwt(token) matches Some(t) ==> (t.header.jwk is None
            || tokens::confirmed_key(t.payload) is None ==> named_key(
            token,
            now,
            max_lifetime,
        ) is Err),
{
}

/// What a naming token that is made now says: issued under the durable key's
/// thumbprint, from now for the given time, of the ephemeral key.
pub proof fn law_own_naming_token(seed: Seq<u8>, ephemeral: JwkView, jti: Seq<char>, now: u64, ttl: u64)
    requires
        now + ttl <= u64::MAX,
    ensures
        ({
            let p = own_naming_payload(seed, ephemeral, jti, now, ttl);
            &&& json::str_member(p, "iss"@) == Some(
                "urn:jkt:sha-256:"@ + jwk::thumbprint_of(
                    jwk::jwk_of_key(crypto::ed_public(seed)),
                )->Ok_0,
            )
            &&& json::str_member(p, "jti"@) == Some(jti)
            &&& json::u64_member(p, "iat"@) == Some(now)
            &&& json::json_get(p, "exp"@) == Some(Json::Int(now + ttl))
            &&& json::json_get(p, "cnf"@) == Some(
                Json::Obj(map!["jwk"@ => jwk::jwk_json(jwk::bare(ephemeral))]),
            )
        }),
{
    reveal_strlit("iss");
    reveal_strlit("iat");
    reveal_strlit("exp");
    reveal_strlit("jti");
    reveal_strlit("cnf");
    assert("iss"@.len() == 3 && "iat"@.len() == 3 && "exp"@.len() == 3 && "jti"@.len() == 3 && "cnf"@.len() == 3);
    assert("iss"@[0] == 'i' && "iss"@[1] == 's');
    assert("iat"@[0] == 'i' && "iat"@[1] == 'a');
    assert("exp"@[0] == 'e');
    assert("jti"@[0] == 'j');
    assert("cnf"@[0] == 'c');
}

/// What is wrong with a naming token is told by its code.
pub proof fn law_naming_faults_told(token: Seq<char>, now: u64, max_lifetime: u64, t: jwt::JwtView)
    requires
        jwt::decoded_jwt(token) == Some(t),
    ensures
        t.header.typ != Some("jkt-s256+jwt"@) ==> (named_key(token, now, max_lifetime) matches Err(e)
            && e.code is InvalidJwt && e.detail == "typ is not jkt-s256+jwt"@),
        t.header.typ == Some("jkt-s256+jwt"@) ==> (t.header.jwk matches Some(durable) ==> (
        jwk::thumbprint_of(durable) matches Ok(thumb) ==> (json::str_member(t.payload, "iss"@) != Some(
            "urn:jkt:sha-256:"@ + thumb,
        ) ==> (named_key(token, now, max_lifetime) matches Err(e) && e.code is InvalidJwt && e.detail
            == "naming JWT iss does not match its header jwk"@)))),
        t.header.typ == Some("jkt-s256+jwt"@) ==> (t.header.jwk matches Some(durable) ==> (
        jwk::thumbprint_of(durable) matches Ok(thumb) ==> (json::str_member(t.payload, "iss"@) == Some(
            "urn:jkt:sha-256:"@ + thumb,
        ) && t.header.alg != "Ed25519"@ ==> (named_key(token, now, max_lifetime) matches Err(e)
            && e.code is UnsupportedAlgorithm)))),
{
}

/// A naming token lasts for what it was made for: it is good from when it was made
/// until its time is over, where no longer a time was asked for than is allowed.
pub proof fn law_naming_lasts(now: u64, ttl: u64, later: u64, max_lifetime: u64)
    ensures
        still_named(now, ttl, later, max_lifetime) == (now <= later && later - now < ttl && ttl
            <= max_lifetime),
{
}

/// The signature of a naming token is the durable key's, over its header and
/// claims.
pub proof fn law_naming_signature(seed: Seq<u8>, payload: Json)
    ensures
        naming_signature(seed, payload) == crypto::ed_signature(
            seed,
            vstd::utf8::encode_utf8(
                jwt::own_input(
                    "jkt-s256+jwt"@,
                    None,
                    Some(jwk::jwk_of_key(crypto::ed_public(seed))),
                    payload,
                ),
            ),
        ),
{
}

} // verus!
