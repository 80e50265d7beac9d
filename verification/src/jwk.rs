//! JSON Web Keys of the one kind that AAuth signs with, Ed25519, key sets, and
//! RFC 7638 thumbprints.

use vstd::prelude::*;

use crate::b64;
use crate::crypto;
use crate::crypto::{SigningKey, VerifyingKey};
use crate::json;
use crate::json::{Json, JsonValue};
use crate::text;

verus! {

/// The JOSE algorithm of AAuth signatures: the fully specified Ed25519.
pub const ALG_ED25519: &'static str = "Ed25519";

/// A public key. Only Ed25519 keys are of use; members that are not known are
/// passed over when reading and never written.
#[derive(Debug, PartialEq, Eq)]
pub struct Jwk {
    pub kty: String,
    pub crv: String,
    /// The public key, in base64url.
    pub x: String,
    pub kid: Option<String>,
    pub alg: Option<String>,
    /// The member `use`.
    pub use_: Option<String>,
}

/// What a [`Jwk`] holds.
pub struct JwkView {
    pub kty: Seq<char>,
    pub crv: Seq<char>,
    pub x: Seq<char>,
    pub kid: Option<Seq<char>>,
    pub alg: Option<Seq<char>>,
    pub use_: Option<Seq<char>>,
}

#[derive(Debug, Clone, Copy, PartialEq, Eq)]
pub enum JwkError {
    UnsupportedKeyType,
    InvalidKey,
}

impl JwkError {
    /// What the error says.
    pub fn message(&self) -> (r: &'static str)
        ensures
            r@ == (match *self {
                JwkError::UnsupportedKeyType => "unsupported key type (Ed25519/OKP only)"@,
                JwkError::InvalidKey => "invalid key material"@,
            }),
    {
        match self {
            JwkError::UnsupportedKeyType => "unsupported key type (Ed25519/OKP only)",
            JwkError::InvalidKey => "invalid key material",
        }
    }
}

/// The text that a thumbprint is taken of: the required members only, in
/// alphabetical order, without white space.
pub open spec fn canonical_text(k: JwkView) -> Seq<char> {
    "{\"crv\":"@ + json::json_string(k.crv) + ",\"kty\":"@ + json::json_string(k.kty) + ",\"x\":"@
        + json::json_string(k.x) + "}"@
}

/// The RFC 7638 thumbprint of a key.
pub open spec fn thumbprint_of(k: JwkView) -> Result<Seq<char>, JwkError> {
    if k.kty != "OKP"@ {
        Err(JwkError::UnsupportedKeyType)
    } else {
        Ok(b64::encoded(crypto::sha256_of(vstd::utf8::encode_utf8(canonical_text(k)))))
    }
}

/// The bytes of the Ed25519 key that a JWK describes.
pub open spec fn key_bytes(k: JwkView) -> Result<Seq<u8>, JwkError> {
    if k.kty != "OKP"@ || k.crv != "Ed25519"@ {
        Err(JwkError::UnsupportedKeyType)
    } else {
        match b64::decoded(k.x) {
            Some(raw) => if raw.len() == 32 && crypto::ed_point(raw) {
                Ok(raw)
            } else {
                Err(JwkError::InvalidKey)
            },
            None => Err(JwkError::InvalidKey),
        }
    }
}

/// The JWK of an Ed25519 key.
pub open spec fn jwk_of_key(raw: Seq<u8>) -> JwkView {
    JwkView {
        kty: "OKP"@,
        crv: "Ed25519"@,
        x: b64::encoded(raw),
        kid: None,
        alg: Some("Ed25519"@),
        use_: None,
    }
}

/// The key material of a JWK with the one algorithm it is for, and nothing else.
pub open spec fn bare(k: JwkView) -> JwkView {
    JwkView { kty: k.kty, crv: k.crv, x: k.x, kid: None, alg: Some("Ed25519"@), use_: None }
}

/// A member that may be absent, or null, and is a text otherwise: the outer
/// option says whether it reads at all.
pub open spec fn optional_text(j: Json, name: Seq<char>) -> Option<Option<Seq<char>>> {
    match json::json_get(j, name) {
        None => Some(None),
        Some(Json::Null) => Some(None),
        Some(Json::Str(s)) => Some(Some(s)),
        Some(_) => None,
    }
}

/// The JWK that a JSON object describes.
pub open spec fn jwk_from(j: Json) -> Option<JwkView> {
    match (
        json::str_member(j, "kty"@),
        json::str_member(j, "crv"@),
        json::str_member(j, "x"@),
        optional_text(j, "kid"@),
        optional_text(j, "alg"@),
        optional_text(j, "use"@),
    ) {
        (Some(kty), Some(crv), Some(x), Some(kid), Some(alg), Some(use_)) => Some(
            JwkView { kty, crv, x, kid, alg, use_ },
        ),
        _ => None,
    }
}

/// `m` with one text more, where there is one.
pub open spec fn with_text(
    m: Map<Seq<char>, Json>,
    name: Seq<char>,
    v: Option<Seq<char>>,
) -> Map<Seq<char>, Json> {
    match v {
        Some(s) => m.insert(name, Json::Str(s)),
        None => m,
    }
}

/// The JSON object that describes a JWK.
pub open spec fn jwk_json(k: JwkView) -> Json {
    let m = Map::<Seq<char>, Json>::empty().insert("kty"@, Json::Str(k.kty)).insert(
        "crv"@,
        Json::Str(k.crv),
    ).insert("x"@, Json::Str(k.x));
    Json::Obj(with_text(with_text(with_text(m, "kid"@, k.kid), "alg"@, k.alg), "use"@, k.use_))
}

/// The first key of a set that has the given identifier and is an Ed25519 key.
pub open spec fn first_key(keys: Seq<Json>, kid: Seq<char>) -> Option<JwkView>
    decreases keys.len(),
{
    if keys.len() == 0 {
        None
    } else {
        match jwk_from(keys[0]) {
            Some(k) => if k.kid == Some(kid) && k.kty == "OKP"@ && k.crv == "Ed25519"@ {
                Some(k)
            } else {
                first_key(keys.drop_first(), kid)
            },
            None => first_key(keys.drop_first(), kid),
        }
    }
}

impl Clone for Jwk {
    fn clone(&self) -> (r: Self)
        ensures
            r == *self,
    {
        Jwk {
            kty: self.kty.clone(),
            crv: self.crv.clone(),
            x: self.x.clone(),
            kid: self.kid.clone(),
            alg: self.alg.clone(),
            use_: self.use_.clone(),
        }
    }
}

/// Reads a member that may be absent.
pub fn read_optional_text(v: &JsonValue, name: &str) -> (r: Option<Option<String>>)
    ensures
        match r {
            Some(o) => optional_text(v@, name@) == Some(text::opt_view(o)),
            None => optional_text(v@, name@) is None,
        },
{
    match v.get(name) {
        None => Some(None),
        Some(JsonValue::Null) => Some(None),
        Some(JsonValue::Text(s)) => Some(Some(s.clone())),
        Some(_) => None,
    }
}

impl Jwk {
    /// What the key holds.
    pub open spec fn view(&self) -> JwkView {
        JwkView {
            kty: self.kty@,
            crv: self.crv@,
            x: self.x@,
            kid: text::opt_view(self.kid),
            alg: text::opt_view(self.alg),
            use_: text::opt_view(self.use_),
        }
    }

    /// The JWK of an Ed25519 public key, with the algorithm that every JWK
    /// must name.
    pub fn from_verifying_key(vk: &VerifyingKey) -> (r: Jwk)
        ensures
            r@ == jwk_of_key(vk@),
    {
        Jwk {
            kty: "OKP".to_owned(),
            crv: "Ed25519".to_owned(),
            x: b64::encode(&vk.to_bytes()),
            kid: None,
            alg: Some(ALG_ED25519.to_owned()),
            use_: None,
        }
    }

    /// The Ed25519 public key that the JWK describes.
    pub fn verifying_key(&self) -> (r: Result<VerifyingKey, JwkError>)
        ensures
            match r {
                Ok(k) => key_bytes(self@) == Ok::<Seq<u8>, JwkError>(k@),
                Err(e) => key_bytes(self@) == Err::<Seq<u8>, JwkError>(e),
            },
    {
        if !text::same(self.kty.as_str(), "OKP") || !text::same(self.crv.as_str(), "Ed25519") {
            return Err(JwkError::UnsupportedKeyType);
        }
        match b64::decode_fixed(self.x.as_str()) {
            Some(raw) => match VerifyingKey::from_bytes(&raw) {
                Some(k) => Ok(k),
                None => Err(JwkError::InvalidKey),
            },
            None => Err(JwkError::InvalidKey),
        }
    }

    /// The RFC 7638 thumbprint: SHA-256 over the canonical text, in base64url.
    pub fn thumbprint(&self) -> (r: Result<String, JwkError>)
        ensures
            match r {
                Ok(t) => thumbprint_of(self@) == Ok::<Seq<char>, JwkError>(t@),
                Err(e) => thumbprint_of(self@) == Err::<Seq<char>, JwkError>(e),
            },
    {
        if !text::same(self.kty.as_str(), "OKP") {
            return Err(JwkError::UnsupportedKeyType);
        }
        let mut canonical = "{\"crv\":".to_owned();
        canonical.append(json::quote(self.crv.as_str()).as_str());
        canonical.append(",\"kty\":");
        canonical.append(json::quote(self.kty.as_str()).as_str());
        canonical.append(",\"x\":");
        canonical.append(json::quote(self.x.as_str()).as_str());
        canonical.append("}");
        let digest = crypto::sha256(canonical.as_str().as_bytes());
        Ok(b64::encode(&digest))
    }

    /// The key material with the algorithm, for a confirmation claim.
    pub fn public_only(&self) -> (r: Jwk)
        ensures
            r@ == bare(self@),
    {
        Jwk {
            kty: self.kty.clone(),
            crv: self.crv.clone(),
            x: self.x.clone(),
            kid: None,
            alg: Some(ALG_ED25519.to_owned()),
            use_: None,
        }
    }

    /// Reads a JWK.
    pub fn from_json(v: &JsonValue) -> (r: Option<Jwk>)
        ensures
            match r {
                Some(k) => jwk_from(v@) == Some(k@),
                None => jwk_from(v@) is None,
            },
    {
        match (
            v.str_of("kty"),
            v.str_of("crv"),
            v.str_of("x"),
            read_optional_text(v, "kid"),
            read_optional_text(v, "alg"),
            read_optional_text(v, "use"),
        ) {
            (Some(kty), Some(crv), Some(x), Some(kid), Some(alg), Some(use_)) => Some(
                Jwk { kty: kty.clone(), crv: crv.clone(), x: x.clone(), kid, alg, use_ },
            ),
            _ => None,
        }
    }

    /// The JSON object that describes the key.
    pub fn to_json(&self) -> (r: JsonValue)
        ensures
            r is Object,
            r@ == jwk_json(self@),
    {
        let mut out = JsonValue::object().with(
            "kty",
            JsonValue::string(self.kty.as_str()),
        ).with("crv", JsonValue::string(self.crv.as_str())).with(
            "x",
            JsonValue::string(self.x.as_str()),
        );
        if let Some(kid) = &self.kid {
            out = out.with("kid", JsonValue::string(kid.as_str()));
        }
        if let Some(alg) = &self.alg {
            out = out.with("alg", JsonValue::string(alg.as_str()));
        }
        if let Some(use_) = &self.use_ {
            out = out.with("use", JsonValue::string(use_.as_str()));
        }
        out
    }
}

/// A set of keys. Keys of other kinds stay in it as they are, so that a
/// document with such keys still reads.
pub struct Jwks {
    pub keys: Vec<JsonValue>,
}

impl Jwks {
    /// What the keys hold.
    pub open spec fn view(&self) -> Seq<Json> {
        json::elements(self.keys@)
    }

    /// The Ed25519 key of the set with the given identifier.
    pub fn find(&self, kid: &str) -> (r: Option<Jwk>)
        ensures
            match r {
                Some(k) => first_key(self@, kid@) == Some(k@),
                None => first_key(self@, kid@) is None,
            },
    {
        let ghost all = self@;
        let mut i: usize = 0;
        proof {
            json::lemma_elements(self.keys@);
            assert(all.skip(0) =~= all);
        }
        while i < self.keys.len()
            invariant
                i <= self.keys@.len(),
                all == self@,
                all.len() == self.keys@.len(),
                forall|j: int| 0 <= j < all.len() ==> #[trigger] all[j] == self.keys@[j]@,
                first_key(all.skip(i as int), kid@) == first_key(all, kid@),
            decreases self.keys@.len() - i,
        {
            proof {
                assert(all.skip(i as int)[0] == all[i as int]);
                assert(all.skip(i as int).drop_first() =~= all.skip(i + 1));
            }
            if let Some(k) = Jwk::from_json(&self.keys[i]) {
                let named = match &k.kid {
                    Some(id) => text::same(id.as_str(), kid),
                    None => false,
                };
                if named && text::same(k.kty.as_str(), "OKP") && text::same(
                    k.crv.as_str(),
                    "Ed25519",
                ) {
                    return Some(k);
                }
            }
            i += 1;
        }
        None
    }
}

/// The signing key of freshly drawn randomness.
pub fn generate_signing_key(seed: &[u8; 32]) -> (r: SigningKey)
    ensures
        r@ == seed@,
{
    SigningKey::from_bytes(seed)
}

/// The thumbprint does not depend on `kid`, `alg` and `use`.
pub proof fn law_thumbprint_of_required_members(a: JwkView, b: JwkView)
    requires
        a.kty == b.kty,
        a.crv == b.crv,
        a.x == b.x,
    ensures
        thumbprint_of(a) == thumbprint_of(b),
{
}

/// Binding by thumbprint is not affected by cutting a key down to its material.
pub proof fn law_bare_keeps_thumbprint(k: JwkView)
    ensures
        thumbprint_of(bare(k)) == thumbprint_of(k),
{
}

/// Reading the JSON object that describes a key gives the key back.
pub proof fn law_jwk_round_trip(k: JwkView)
    ensures
        jwk_from(jwk_json(k)) == Some(k),
        json::plain(jwk_json(k), 1),
{
    reveal_strlit("kty");
    reveal_strlit("crv");
    reveal_strlit("x");
    reveal_strlit("kid");
    reveal_strlit("alg");
    reveal_strlit("use");
    assert("kty"@[1] == 't');
    assert("crv"@[1] == 'r');
    assert("kid"@[1] == 'i');
    assert("alg"@[1] == 'l');
    assert("use"@[1] == 's');
    assert("x"@.len() == 1);
    reveal_with_fuel(json::plain, 2);
}

/// The JWK of a key describes that key.
pub proof fn law_key_of_jwk(raw: Seq<u8>)
    requires
        raw.len() == 32,
    ensures
        key_bytes(jwk_of_key(raw)) == (if crypto::ed_point(raw) {
            Ok::<Seq<u8>, JwkError>(raw)
        } else {
            Err::<Seq<u8>, JwkError>(JwkError::InvalidKey)
        }),
{
    b64::law_decode_of_encode(raw);
}

/// A key is described under the names that RFC 7517 gives its members.
pub proof fn law_jwk_members(k: JwkView)
    ensures
        json::json_get(jwk_json(k), "kty"@) == Some(Json::Str(k.kty)),
        json::json_get(jwk_json(k), "crv"@) == Some(Json::Str(k.crv)),
        json::json_get(jwk_json(k), "x"@) == Some(Json::Str(k.x)),
        json::str_member(jwk_json(k), "kid"@) == k.kid,
        json::str_member(jwk_json(k), "alg"@) == k.alg,
        json::str_member(jwk_json(k), "use"@) == k.use_,
{
    reveal_strlit("kty");
    reveal_strlit("crv");
    reveal_strlit("x");
    reveal_strlit("kid");
    reveal_strlit("alg");
    reveal_strlit("use");
    assert("kty"@.len() == 3 && "crv"@.len() == 3 && "x"@.len() == 1 && "kid"@.len() == 3 && "alg"@.len() == 3 && "use"@.len() == 3);
    assert("kty"@[0] == 'k' && "kty"@[1] == 't');
    assert("crv"@[0] == 'c');
    assert("kid"@[0] == 'k' && "kid"@[1] == 'i');
    assert("alg"@[0] == 'a');
    assert("use"@[0] == 'u');
}

/// The thumbprint is the base64url SHA-256 of the three required members in the
/// order of their names; only keys of the type `OKP` have one.
pub proof fn law_thumbprint(k: JwkView)
    ensures
        (thumbprint_of(k) is Ok) == (k.kty == "OKP"@),
        k.kty == "OKP"@ ==> thumbprint_of(k) == Ok::<Seq<char>, JwkError>(
            b64::encoded(
                crypto::sha256_of(
                    vstd::utf8::encode_utf8(
                        "{\"crv\":"@ + json::json_string(k.crv) + ",\"kty\":"@ + json::json_string(
                            "OKP"@,
                        ) + ",\"x\":"@ + json::json_string(k.x) + "}"@,
                    ),
                ),
            ),
        ),
{
}

/// A key can be used exactly where it is an Ed25519 key whose 32 bytes are a
/// point of the curve, and it is those bytes.
pub proof fn law_usable_key(k: JwkView, raw: Seq<u8>)
    ensures
        (key_bytes(k) == Ok::<Seq<u8>, JwkError>(raw)) == (k.kty == "OKP"@ && k.crv == "Ed25519"@
            && b64::decoded(k.x) == Some(raw) && raw.len() == 32 && crypto::ed_point(raw)),
        k.kty != "OKP"@ ==> key_bytes(k) == Err::<Seq<u8>, JwkError>(JwkError::UnsupportedKeyType),
        k.crv != "Ed25519"@ ==> key_bytes(k) == Err::<Seq<u8>, JwkError>(
            JwkError::UnsupportedKeyType,
        ),
        k.kty == "OKP"@ && k.crv == "Ed25519"@ ==> key_bytes(k) != Err::<Seq<u8>, JwkError>(
            JwkError::UnsupportedKeyType,
        ),
{
}

/// A key that goes into a token is its material and the algorithm, nothing else;
/// the same holds of the JWK of raw bytes.
pub proof fn law_bare_key(k: JwkView, raw: Seq<u8>)
    ensures
        bare(k).kty == k.kty && bare(k).crv == k.crv && bare(k).x == k.x,
        bare(k).alg == Some("Ed25519"@) && bare(k).kid is None && bare(k).use_ is None,
        bare(jwk_of_key(raw)) == jwk_of_key(raw),
        jwk_of_key(raw).kty == "OKP"@ && jwk_of_key(raw).crv == "Ed25519"@,
{
}

/// What is found in a key set is its first Ed25519 key with the identifier;
/// nothing is found only where it has none.
pub proof fn law_first_of_its_name(keys: Seq<Json>, kid: Seq<char>)
    ensures
        match first_key(keys, kid) {
            Some(k) => k.kid == Some(kid) && k.kty == "OKP"@ && k.crv == "Ed25519"@ && exists|i: int|
                0 <= i < keys.len() && jwk_from(#[trigger] keys[i]) == Some(k) && forall|j: int|
                    0 <= j < i ==> !(jwk_from(#[trigger] keys[j]) matches Some(x) && x.kid == Some(
                        kid,
                    ) && x.kty == "OKP"@ && x.crv == "Ed25519"@),
            None => forall|j: int|
                0 <= j < keys.len() ==> !(jwk_from(#[trigger] keys[j]) matches Some(x) && x.kid
                    == Some(kid) && x.kty == "OKP"@ && x.crv == "Ed25519"@),
        },
    decreases keys.len(),
{
    if keys.len() > 0 {
        let here = jwk_from(keys[0]) matches Some(x) && x.kid == Some(kid) && x.kty == "OKP"@
            && x.crv == "Ed25519"@;
        if here {
            assert(first_key(keys, kid) == jwk_from(keys[0]));
        } else {
            let rest = keys.drop_first();
            law_first_of_its_name(rest, kid);
            assert(first_key(keys, kid) == first_key(rest, kid));
            assert forall|j: int| 1 <= j < keys.len() implies keys[j] == rest[j - 1] by {}
            match first_key(rest, kid) {
                Some(k) => {
                    let i = choose|i: int|
                        0 <= i < rest.len() && jwk_from(#[trigger] rest[i]) == Some(k) && forall|j: int|
                            0 <= j < i ==> !(jwk_from(#[trigger] rest[j]) matches Some(x) && x.kid
                                == Some(kid) && x.kty == "OKP"@ && x.crv == "Ed25519"@);
                    assert(jwk_from(keys[i + 1]) == Some(k));
                    assert forall|j: int| 0 <= j < i + 1 implies !(jwk_from(
                        #[trigger] keys[j],
                    ) matches Some(x) && x.kid == Some(kid) && x.kty == "OKP"@ && x.crv
                        == "Ed25519"@) by {
                        if j > 0 {
                            assert(keys[j] == rest[j - 1]);
                        }
                    }
                },
                None => {
                    assert forall|j: int| 0 <= j < keys.len() implies !(jwk_from(
                        #[trigger] keys[j],
                    ) matches Some(x) && x.kid == Some(kid) && x.kty == "OKP"@ && x.crv
                        == "Ed25519"@) by {
                        if j > 0 {
                            assert(keys[j] == rest[j - 1]);
                        }
                    }
                },
            }
        }
    }
}

/// An optional member may be missing or null; where it stands it is a text.
pub proof fn law_optional_member(m: Map<Seq<char>, Json>, name: Seq<char>, v: Json)
    ensures
        !m.dom().contains(name) ==> optional_text(Json::Obj(m), name) == Some(None::<Seq<char>>),
        optional_text(Json::Obj(m.insert(name, Json::Null)), name) == Some(None::<Seq<char>>),
        v matches Json::Str(s) ==> optional_text(Json::Obj(m.insert(name, v)), name) == Some(
            Some(s),
        ),
        !(v is Null) && !(v is Str) ==> optional_text(Json::Obj(m.insert(name, v)), name) is None,
{
}

} // verus!
