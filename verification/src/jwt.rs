//! Compact JWTs, signed and verified with Ed25519 only: `none` and every other
//! algorithm are refused.

use vstd::prelude::*;

use crate::b64;
use crate::crypto;
use crate::crypto::SigningKey;
use crate::json;
use crate::json::{Json, JsonValue};
use crate::jwk;
use crate::jwk::{Jwk, JwkView};
use crate::text;

verus! {

/// The header members that AAuth uses. Others are passed over.
pub struct JoseHeader {
    pub alg: String,
    pub typ: Option<String>,
    pub kid: Option<String>,
    /// The public key of a naming JWT.
    pub jwk: Option<Jwk>,
    /// A certificate chain, leaf first: standard base64 of DER.
    pub x5c: Option<Vec<String>>,
}

/// A JWT that was taken apart and not yet verified.
pub struct DecodedJwt {
    pub header: JoseHeader,
    pub payload: JsonValue,
    /// The text that was signed: the first two parts.
    pub signing_input: String,
    pub signature: Vec<u8>,
}

#[derive(Debug, Clone, Copy, PartialEq, Eq)]
pub enum JwtError {
    Malformed,
    UnsupportedAlgorithm,
    BadSignature,
}

impl JwtError {
    /// What the error says.
    pub fn message(&self) -> (r: &'static str)
        ensures
            r@ == (match *self {
                JwtError::Malformed => "malformed JWT"@,
                JwtError::UnsupportedAlgorithm => "unsupported JWT algorithm"@,
                JwtError::BadSignature => "JWT signature verification failed"@,
            }),
    {
        match self {
            JwtError::Malformed => "malformed JWT",
            JwtError::UnsupportedAlgorithm => "unsupported JWT algorithm",
            JwtError::BadSignature => "JWT signature verification failed",
        }
    }
}

/// What a [`JoseHeader`] holds.
pub struct HeaderView {
    pub alg: Seq<char>,
    pub typ: Option<Seq<char>>,
    pub kid: Option<Seq<char>>,
    pub jwk: Option<JwkView>,
    pub x5c: Option<Seq<Seq<char>>>,
}

/// What a [`DecodedJwt`] holds.
pub struct JwtView {
    pub header: HeaderView,
    pub payload: Json,
    pub signing_input: Seq<char>,
    pub signature: Seq<u8>,
}

/// What an optional key holds.
pub open spec fn opt_jwk_view(o: Option<Jwk>) -> Option<JwkView> {
    match o {
        Some(k) => Some(k@),
        None => None,
    }
}

/// What an optional list of texts holds.
pub open spec fn opt_list_view(o: Option<Vec<String>>) -> Option<Seq<Seq<char>>> {
    match o {
        Some(v) => Some(text::list_view(v@)),
        None => None,
    }
}

impl JoseHeader {
    /// What the header holds.
    pub open spec fn view(&self) -> HeaderView {
        HeaderView {
            alg: self.alg@,
            typ: text::opt_view(self.typ),
            kid: text::opt_view(self.kid),
            jwk: opt_jwk_view(self.jwk),
            x5c: opt_list_view(self.x5c),
        }
    }
}

impl DecodedJwt {
    /// What the JWT holds.
    pub open spec fn view(&self) -> JwtView {
        JwtView {
            header: self.header@,
            payload: self.payload@,
            signing_input: self.signing_input@,
            signature: self.signature@,
        }
    }
}

/// A key member that may be absent or null: the outer option says whether it
/// reads at all.
pub open spec fn optional_key(j: Json) -> Option<Option<JwkView>> {
    match json::json_get(j, "jwk"@) {
        None => Some(None),
        Some(Json::Null) => Some(None),
        Some(v) => match jwk::jwk_from(v) {
            Some(k) => Some(Some(k)),
            None => None,
        },
    }
}

/// The texts of an array of strings.
pub open spec fn all_texts(s: Seq<Json>) -> Option<Seq<Seq<char>>>
    decreases s.len(),
{
    if s.len() == 0 {
        Some(Seq::empty())
    } else {
        match (all_texts(s.drop_last()), json::json_str(s.last())) {
            (Some(rest), Some(t)) => Some(rest.push(t)),
            _ => None,
        }
    }
}

/// A list of texts that may be absent or null: the outer option says whether it
/// reads at all.
pub open spec fn optional_chain(j: Json) -> Option<Option<Seq<Seq<char>>>> {
    match json::json_get(j, "x5c"@) {
        None => Some(None),
        Some(Json::Null) => Some(None),
        Some(Json::Arr(s)) => match all_texts(s) {
            Some(t) => Some(Some(t)),
            None => None,
        },
        Some(_) => None,
    }
}

/// The header that a JSON object describes.
pub open spec fn header_from(j: Json) -> Option<HeaderView> {
    match (
        json::str_member(j, "alg"@),
        jwk::optional_text(j, "typ"@),
        jwk::optional_text(j, "kid"@),
        optional_key(j),
        optional_chain(j),
    ) {
        (Some(alg), Some(typ), Some(kid), Some(jwk), Some(x5c)) => Some(
            HeaderView { alg, typ, kid, jwk, x5c },
        ),
        _ => None,
    }
}

/// What a compact token is taken apart into; nothing where it is malformed.
pub open spec fn decoded_jwt(token: Seq<char>) -> Option<JwtView> {
    let parts = text::split_on(token, '.');
    if parts.len() != 3 {
        None
    } else {
        match (b64::decoded(parts[0]), b64::decoded(parts[1]), b64::decoded(parts[2])) {
            (Some(h), Some(p), Some(signature)) => match (
                json::json_parsed(h),
                json::json_parsed(p),
            ) {
                (Some(header), Some(payload)) => match header_from(header) {
                    Some(header) => if payload is Obj {
                        Some(
                            JwtView {
                                header,
                                payload,
                                signing_input: parts[0] + "."@ + parts[1],
                                signature,
                            },
                        )
                    } else {
                        None
                    },
                    None => None,
                },
                _ => None,
            },
            _ => None,
        }
    }
}

/// What verifying a JWT against a key finds.
pub open spec fn jwt_check(t: JwtView, key: JwkView) -> Result<(), JwtError> {
    if t.header.alg != "Ed25519"@ {
        Err(JwtError::UnsupportedAlgorithm)
    } else {
        match jwk::key_bytes(key) {
            Err(_) => Err(JwtError::BadSignature),
            Ok(raw) => if t.signature.len() == 64 && crypto::ed_verifies(
                raw,
                vstd::utf8::encode_utf8(t.signing_input),
                t.signature,
            ) {
                Ok(())
            } else {
                Err(JwtError::BadSignature)
            },
        }
    }
}

/// The header of a token that this library signs.
pub open spec fn own_header(
    typ: Seq<char>,
    kid: Option<Seq<char>>,
    key: Option<JwkView>,
) -> HeaderView {
    HeaderView { alg: "Ed25519"@, typ: Some(typ), kid, jwk: key, x5c: None }
}

/// The JSON object of such a header.
pub open spec fn own_header_json(
    typ: Seq<char>,
    kid: Option<Seq<char>>,
    key: Option<JwkView>,
) -> Json {
    let m = Map::<Seq<char>, Json>::empty().insert("alg"@, Json::Str("Ed25519"@)).insert(
        "typ"@,
        Json::Str(typ),
    );
    let m = jwk::with_text(m, "kid"@, kid);
    Json::Obj(
        match key {
            Some(k) => m.insert("jwk"@, jwk::jwk_json(k)),
            None => m,
        },
    )
}

/// The text of a token that is signed: header and payload.
pub open spec fn own_input(
    typ: Seq<char>,
    kid: Option<Seq<char>>,
    key: Option<JwkView>,
    payload: Json,
) -> Seq<char> {
    b64::encoded(vstd::utf8::encode_utf8(json::json_text(own_header_json(typ, kid, key)))) + "."@
        + b64::encoded(vstd::utf8::encode_utf8(json::json_text(payload)))
}

/// The token that this library signs.
pub open spec fn own_token(
    typ: Seq<char>,
    kid: Option<Seq<char>>,
    key: Option<JwkView>,
    payload: Json,
    seed: Seq<u8>,
) -> Seq<char> {
    let input = own_input(typ, kid, key, payload);
    input + "."@ + b64::encoded(crypto::ed_signature(seed, vstd::utf8::encode_utf8(input)))
}

proof fn lemma_header_round_trip(typ: Seq<char>, kid: Option<Seq<char>>, key: Option<JwkView>)
    ensures
        header_from(own_header_json(typ, kid, key)) == Some(own_header(typ, kid, key)),
        json::plain(own_header_json(typ, kid, key), 127),
{
    reveal_strlit("alg");
    reveal_strlit("typ");
    reveal_strlit("kid");
    reveal_strlit("jwk");
    reveal_strlit("x5c");
    assert("alg"@[1] == 'l');
    assert("typ"@[1] == 'y');
    assert("kid"@[1] == 'i');
    assert("jwk"@[1] == 'w');
    assert("x5c"@[1] == '5');
    if let Some(k) = key {
        jwk::law_jwk_round_trip(k);
        lemma_plain_deeper(jwk::jwk_json(k), 1, 126);
    }
    reveal_with_fuel(json::plain, 2);
}

/// A value that is plain at one depth is plain at a greater one.
proof fn lemma_plain_deeper(v: Json, a: nat, b: nat)
    requires
        a <= b,
        json::plain(v, a),
    ensures
        json::plain(v, b),
    decreases a,
{
    match v {
        Json::Arr(s) => {
            assert forall|i: int| 0 <= i < s.len() implies json::plain(
                #[trigger] s[i],
                (b - 1) as nat,
            ) by {
                lemma_plain_deeper(s[i], (a - 1) as nat, (b - 1) as nat);
            }
        },
        Json::Obj(m) => {
            assert forall|k: Seq<char>| #[trigger] m.dom().contains(k) implies json::plain(
                m[k],
                (b - 1) as nat,
            ) by {
                lemma_plain_deeper(m[k], (a - 1) as nat, (b - 1) as nat);
            }
        },
        _ => {},
    }
}

/// Three texts without a full stop, joined by full stops, split into the three.
proof fn lemma_split_three(a: Seq<char>, b: Seq<char>, c: Seq<char>)
    requires
        forall|i: int| 0 <= i < a.len() ==> a[i] != '.',
        forall|i: int| 0 <= i < b.len() ==> b[i] != '.',
        forall|i: int| 0 <= i < c.len() ==> c[i] != '.',
    ensures
        text::split_on(a + "."@ + b + "."@ + c, '.') == seq![a, b, c],
{
    reveal_strlit(".");
    let s = a + "."@ + b + "."@ + c;
    let t = b + "."@ + c;
    text::lemma_position_is(s, '.', a.len() as int);
    assert(s.take(a.len() as int) =~= a);
    assert(s.skip(a.len() as int + 1) =~= t);
    text::lemma_position_is(t, '.', b.len() as int);
    assert(t.take(b.len() as int) =~= b);
    assert(t.skip(b.len() as int + 1) =~= c);
    text::lemma_position(c, '.');
    assert(text::split_on(c, '.') == seq![c]);
    assert(text::split_on(t, '.') =~= seq![b, c]);
    assert(text::split_on(s, '.') =~= seq![a, b, c]);
}

/// Reads an array of strings.
fn read_texts(a: &Vec<JsonValue>) -> (r: Option<Vec<String>>)
    ensures
        match r {
            Some(v) => all_texts(json::elements(a@)) == Some(text::list_view(v@)),
            None => all_texts(json::elements(a@)) is None,
        },
{
    let ghost all = json::elements(a@);
    let mut out: Vec<String> = Vec::new();
    let mut i: usize = 0;
    proof {
        json::lemma_elements(a@);
        assert(text::list_view(out@) =~= Seq::<Seq<char>>::empty());
        assert(all.take(0) =~= Seq::empty());
    }
    while i < a.len()
        invariant
            i <= a@.len(),
            all == json::elements(a@),
            all.len() == a@.len(),
            forall|j: int| 0 <= j < all.len() ==> #[trigger] all[j] == a@[j]@,
            all_texts(all.take(i as int)) == Some(text::list_view(out@)),
        decreases a@.len() - i,
    {
        proof {
            assert(all.take(i + 1).drop_last() =~= all.take(i as int));
            assert(all.take(i + 1).last() == all[i as int]);
        }
        match a[i].as_str() {
            Some(s) => {
                let ghost before = text::list_view(out@);
                out.push(s.clone());
                proof {
                    assert(text::list_view(out@) =~= before.push(s@));
                }
            },
            None => {
                proof {
                    lemma_all_texts_prefix(all, i + 1);
                }
                return None;
            },
        }
        i += 1;
    }
    proof {
        assert(all.take(all.len() as int) =~= all);
    }
    Some(out)
}

proof fn lemma_all_texts_prefix(s: Seq<Json>, n: int)
    requires
        0 <= n <= s.len(),
        all_texts(s.take(n)) is None,
    ensures
        all_texts(s) is None,
    decreases s.len() - n,
{
    if n < s.len() {
        assert(s.take(n + 1).drop_last() =~= s.take(n));
        lemma_all_texts_prefix(s, n + 1);
    } else {
        assert(s.take(n) =~= s);
    }
}

fn read_key(v: &JsonValue) -> (r: Option<Option<Jwk>>)
    ensures
        match r {
            Some(o) => optional_key(v@) == Some(opt_jwk_view(o)),
            None => optional_key(v@) is None,
        },
{
    match v.get("jwk") {
        None => Some(None),
        Some(JsonValue::Null) => Some(None),
        Some(k) => match Jwk::from_json(k) {
            Some(k) => Some(Some(k)),
            None => None,
        },
    }
}

fn read_chain(v: &JsonValue) -> (r: Option<Option<Vec<String>>>)
    ensures
        match r {
            Some(o) => optional_chain(v@) == Some(opt_list_view(o)),
            None => optional_chain(v@) is None,
        },
{
    match v.get("x5c") {
        None => Some(None),
        Some(JsonValue::Null) => Some(None),
        Some(JsonValue::Array(a)) => match read_texts(a) {
            Some(t) => Some(Some(t)),
            None => None,
        },
        Some(_) => None,
    }
}

impl JoseHeader {
    /// Reads a header.
    pub fn from_json(v: &JsonValue) -> (r: Option<JoseHeader>)
        ensures
            match r {
                Some(h) => header_from(v@) == Some(h@),
                None => header_from(v@) is None,
            },
    {
        match (
            v.str_of("alg"),
            jwk::read_optional_text(v, "typ"),
            jwk::read_optional_text(v, "kid"),
            read_key(v),
            read_chain(v),
        ) {
            (Some(alg), Some(typ), Some(kid), Some(jwk), Some(x5c)) => Some(
                JoseHeader { alg: alg.clone(), typ, kid, jwk, x5c },
            ),
            _ => None,
        }
    }
}

/// Takes a compact JWT apart, without verifying it.
pub fn decode(token: &str) -> (r: Result<DecodedJwt, JwtError>)
    ensures
        match r {
            Ok(d) => decoded_jwt(token@) == Some(d@),
            Err(e) => decoded_jwt(token@) is None && e == JwtError::Malformed,
        },
{
    let parts = text::split(token, '.');
    let ghost pieces = text::split_on(token@, '.');
    proof {
        assert(pieces.len() == parts@.len());
    }
    if parts.len() != 3 {
        return Err(JwtError::Malformed);
    }
    proof {
        assert(pieces[0] == parts@[0]@);
        assert(pieces[1] == parts@[1]@);
        assert(pieces[2] == parts@[2]@);
    }
    let header_bytes = match b64::decode(parts[0].as_str()) {
        Some(b) => b,
        None => {
            return Err(JwtError::Malformed);
        },
    };
    let payload_bytes = match b64::decode(parts[1].as_str()) {
        Some(b) => b,
        None => {
            return Err(JwtError::Malformed);
        },
    };
    let signature = match b64::decode(parts[2].as_str()) {
        Some(b) => b,
        None => {
            return Err(JwtError::Malformed);
        },
    };
    let header_json = match json::parse(&header_bytes) {
        Ok(v) => v,
        Err(_) => {
            return Err(JwtError::Malformed);
        },
    };
    let header = match JoseHeader::from_json(&header_json) {
        Some(h) => h,
        None => {
            return Err(JwtError::Malformed);
        },
    };
    let payload = match json::parse(&payload_bytes) {
        Ok(v) => v,
        Err(_) => {
            return Err(JwtError::Malformed);
        },
    };
    if !payload.is_object() {
        return Err(JwtError::Malformed);
    }
    let signing_input = text::join3(parts[0].as_str(), ".", parts[1].as_str());
    Ok(DecodedJwt { header, payload, signing_input, signature })
}

/// The 64 bytes of a signature.
fn signature_bytes(v: &Vec<u8>) -> (r: Option<[u8; 64]>)
    ensures
        match r {
            Some(a) => a@ == v@,
            None => v@.len() != 64,
        },
{
    if v.len() != 64 {
        return None;
    }
    let mut out: [u8; 64] = [0u8; 64];
    let mut i: usize = 0;
    while i < 64
        invariant
            i <= 64,
            v@.len() == 64,
            out@.len() == 64,
            forall|j: int| 0 <= j < i ==> out@[j] == v@[j],
        decreases 64 - i,
    {
        out[i] = v[i];
        i += 1;
    }
    proof {
        assert(out@ =~= v@);
    }
    Some(out)
}

/// Whether a signature of a message holds under the key of a JWK.
pub fn verify_bytes(key: &Jwk, message: &[u8], signature: &Vec<u8>) -> (r: bool)
    ensures
        r == (jwk::key_bytes(key@) is Ok && signature@.len() == 64 && crypto::ed_verifies(
            jwk::key_bytes(key@)->Ok_0,
            message@,
            signature@,
        )),
{
    match key.verifying_key() {
        Ok(vk) => match signature_bytes(signature) {
            Some(s) => vk.verify_strict(message, &s),
            None => false,
        },
        Err(_) => false,
    }
}

/// Verifies the signature of a JWT against an Ed25519 key. A header that names
/// any algorithm but Ed25519 is refused.
pub fn verify_with_jwk(jwt: &DecodedJwt, key: &Jwk) -> (r: Result<(), JwtError>)
    ensures
        r == jwt_check(jwt@, key@),
{
    if !text::same(jwt.header.alg.as_str(), jwk::ALG_ED25519) {
        return Err(JwtError::UnsupportedAlgorithm);
    }
    if verify_bytes(key, jwt.signing_input.as_str().as_bytes(), &jwt.signature) {
        Ok(())
    } else {
        Err(JwtError::BadSignature)
    }
}

/// Signs a JWT with Ed25519.
///
/// The token decodes to the header and payload that were given, and verifies
/// under the public half of the key: for every object payload without fractions and
/// of at most 127 levels, unless the signature's first half encodes the neutral
/// element of the group.
pub fn sign(
    typ: &str,
    kid: Option<&str>,
    header_jwk: Option<&Jwk>,
    payload: &JsonValue,
    key: &SigningKey,
) -> (r: String)
    ensures
        r@ == own_token(
            typ@,
            opt_str_view(kid),
            opt_jwk_ref_view(header_jwk),
            payload@,
            key@,
        ),
        payload@ is Obj && json::plain(payload@, 127) ==> ({
            let input = own_input(typ@, opt_str_view(kid), opt_jwk_ref_view(header_jwk), payload@);
            let signature = crypto::ed_signature(key@, vstd::utf8::encode_utf8(input));
            let t = JwtView {
                header: own_header(typ@, opt_str_view(kid), opt_jwk_ref_view(header_jwk)),
                payload: payload@,
                signing_input: input,
                signature,
            };
            &&& decoded_jwt(r@) == Some(t)
            &&& !crypto::neutral_commitment(signature) ==> jwt_check(
                t,
                jwk::jwk_of_key(crypto::ed_public(key@)),
            ) is Ok
        }),
{
    let mut header = JsonValue::object().with("alg", JsonValue::string(jwk::ALG_ED25519)).with(
        "typ",
        JsonValue::string(typ),
    );
    if let Some(kid) = kid {
        header = header.with("kid", JsonValue::string(kid));
    }
    if let Some(k) = header_jwk {
        header = header.with("jwk", k.to_json());
    }
    let header_text = header.render();
    let payload_text = payload.render();
    let h = b64::encode(header_text.as_str().as_bytes());
    let p = b64::encode(payload_text.as_str().as_bytes());
    let input = text::join3(h.as_str(), ".", p.as_str());
    let signature = key.sign(input.as_str().as_bytes());
    let s = b64::encode(&signature);
    let out = text::join3(input.as_str(), ".", s.as_str());
    proof {
        let ghost_kid = opt_str_view(kid);
        let ghost_jwk = opt_jwk_ref_view(header_jwk);
        assert(header@ == own_header_json(typ@, ghost_kid, ghost_jwk));
        assert(input@ == own_input(typ@, ghost_kid, ghost_jwk, payload@));
        if payload@ is Obj && json::plain(payload@, 127) {
            let hb = vstd::utf8::encode_utf8(header_text@);
            let pb = vstd::utf8::encode_utf8(payload_text@);
            lemma_header_round_trip(typ@, ghost_kid, ghost_jwk);
            b64::lemma_unpadded_shape(hb, false);
            b64::lemma_unpadded_shape(pb, false);
            b64::lemma_unpadded_shape(signature@, false);
            lemma_split_three(h@, p@, s@);
            assert(out@ == h@ + "."@ + p@ + "."@ + s@);
            b64::law_decode_of_encode(hb);
            b64::law_decode_of_encode(pb);
            b64::law_decode_of_encode(signature@);
            jwk::law_key_of_jwk(crypto::ed_public(key@));
        }
    }
    out
}

/// The view of an optional text.
pub open spec fn opt_str_view(o: Option<&str>) -> Option<Seq<char>> {
    match o {
        Some(s) => Some(s@),
        None => None,
    }
}

/// What an optional key holds.
pub open spec fn opt_jwk_ref_view(o: Option<&Jwk>) -> Option<JwkView> {
    match o {
        Some(k) => Some(k@),
        None => None,
    }
}

/// Access to the claims of a payload.
pub trait ClaimExt {
    /// The claims.
    spec fn claims(&self) -> Json;

    /// The claim of the given name, where it is a text.
    fn str_claim(&self, name: &str) -> (r: Option<&String>)
        ensures
            match r {
                Some(s) => json::str_member(self.claims(), name@) == Some(s@),
                None => json::str_member(self.claims(), name@) is None,
            },
    ;

    /// The claim of the given name, where it is a signed integer.
    fn int_claim(&self, name: &str) -> (r: Option<i64>)
        ensures
            r == json::i64_member(self.claims(), name@),
    ;
}

impl ClaimExt for JsonValue {
    open spec fn claims(&self) -> Json {
        self@
    }

    fn str_claim(&self, name: &str) -> (r: Option<&String>) {
        self.str_of(name)
    }

    fn int_claim(&self, name: &str) -> (r: Option<i64>) {
        self.i64_of(name)
    }
}

/// A token whose header names no algorithm, or any but Ed25519, verifies under
/// no key.
pub proof fn law_other_algorithms_refused(t: JwtView, key: JwkView)
    requires
        t.header.alg != "Ed25519"@,
    ensures
        jwt_check(t, key) == Err::<(), JwtError>(JwtError::UnsupportedAlgorithm),
{
}

/// A token in which the payload was replaced is judged over a text that its
/// signature was not made for: it verifies only under a key for which the
/// signature holds for that other text too, and has a bad signature otherwise.
pub proof fn law_tampered_payload(
    header: Seq<char>,
    payload: Seq<char>,
    replaced: Seq<char>,
    signature: Seq<char>,
    key: JwkView,
)
    requires
        forall|i: int| 0 <= i < header.len() ==> header[i] != '.',
        forall|i: int| 0 <= i < payload.len() ==> payload[i] != '.',
        forall|i: int| 0 <= i < replaced.len() ==> replaced[i] != '.',
        forall|i: int| 0 <= i < signature.len() ==> signature[i] != '.',
        decoded_jwt(header + "."@ + payload + "."@ + signature) is Some,
        decoded_jwt(header + "."@ + replaced + "."@ + signature) is Some,
        payload != replaced,
    ensures
        ({
            let t = decoded_jwt(header + "."@ + payload + "."@ + signature)->0;
            let u = decoded_jwt(header + "."@ + replaced + "."@ + signature)->0;
            let message = vstd::utf8::encode_utf8(u.signing_input);
            &&& u.header == t.header
            &&& u.signature == t.signature
            &&& message != vstd::utf8::encode_utf8(t.signing_input)
            &&& t.header.alg == "Ed25519"@ ==> jwt_check(u, key) == (if jwk::key_bytes(key) is Ok
                && t.signature.len() == 64 && crypto::ed_verifies(
                jwk::key_bytes(key)->Ok_0,
                message,
                t.signature,
            ) {
                Ok::<(), JwtError>(())
            } else {
                Err::<(), JwtError>(JwtError::BadSignature)
            })
        }),
{
    lemma_split_three(header, payload, signature);
    lemma_split_three(header, replaced, signature);
    let a = header + "."@ + payload;
    let b = header + "."@ + replaced;
    let n = header.len() + "."@.len();
    assert(a.skip(n as int) =~= payload);
    assert(b.skip(n as int) =~= replaced);
    vstd::utf8::encode_utf8_decode_utf8(a);
    vstd::utf8::encode_utf8_decode_utf8(b);
}

/// The header of a token is read under the names that RFC 7515 gives its members:
/// the algorithm must stand there; type, key identifier, key and chain may.
pub proof fn law_header_members(j: Json, h: HeaderView)
    requires
        header_from(j) == Some(h),
    ensures
        json::str_member(j, "alg"@) == Some(h.alg),
        json::str_member(j, "typ"@) == h.typ,
        json::str_member(j, "kid"@) == h.kid,
        h.jwk matches Some(k) ==> (json::json_get(j, "jwk"@) matches Some(v) && jwk::jwk_from(v)
            == Some(k)),
        h.jwk is None ==> json::json_get(j, "jwk"@) is None || json::json_get(j, "jwk"@) == Some(
            Json::Null,
        ),
        h.x5c matches Some(c) ==> (json::json_get(j, "x5c"@) matches Some(Json::Arr(s)) && all_texts(s)
            == Some(c)),
        h.x5c is None ==> json::json_get(j, "x5c"@) is None || json::json_get(j, "x5c"@) == Some(
            Json::Null,
        ),
{
}

/// A chain is read text by text; one entry that is no text spoils it.
pub proof fn law_chain_texts(s: Seq<Json>, v: Json, t: Seq<char>)
    ensures
        all_texts(Seq::empty()) == Some(Seq::<Seq<char>>::empty()),
        all_texts(s) matches Some(c) ==> all_texts(s.push(Json::Str(t))) == Some(c.push(t)),
        !(v is Str) ==> all_texts(s.push(v)) is None,
        all_texts(s) is None ==> all_texts(s.push(v)) is None,
{
    assert(s.push(v).drop_last() =~= s);
    assert(s.push(Json::Str(t)).drop_last() =~= s);
}

/// A token is three base64url parts between full stops: a header, an object and
/// the bytes of the signature, which is over the first two as they stand.
pub proof fn law_token_is_three_parts(
    head: Seq<u8>,
    body: Seq<u8>,
    signature: Seq<u8>,
    h: HeaderView,
    m: Map<Seq<char>, Json>,
    header: Json,
)
    requires
        json::json_parsed(head) == Some(header),
        header_from(header) == Some(h),
        json::json_parsed(body) == Some(Json::Obj(m)),
    ensures
        ({
            let input = b64::encoded(head) + "."@ + b64::encoded(body);
            decoded_jwt(input + "."@ + b64::encoded(signature)) == Some(
                JwtView {
                    header: h,
                    payload: Json::Obj(m),
                    signing_input: input,
                    signature,
                },
            )
        }),
{
    let (a, b, c) = (b64::encoded(head), b64::encoded(body), b64::encoded(signature));
    b64::law_decode_of_encode(head);
    b64::law_decode_of_encode(body);
    b64::law_decode_of_encode(signature);
    b64::lemma_unpadded_shape(head, false);
    b64::lemma_unpadded_shape(body, false);
    b64::lemma_unpadded_shape(signature, false);
    lemma_split_three(a, b, c);
}

/// Whatever decodes has three parts, an object as payload, and the signature that
/// its third part stands for.
pub proof fn law_decoded_token(token: Seq<char>, t: JwtView)
    requires
        decoded_jwt(token) == Some(t),
    ensures
        text::split_on(token, '.').len() == 3,
        t.payload is Obj,
        b64::decoded(text::split_on(token, '.')[2]) == Some(t.signature),
        b64::decoded(text::split_on(token, '.')[1]) matches Some(p) && json::json_parsed(p) == Some(
            t.payload,
        ),
        b64::decoded(text::split_on(token, '.')[0]) matches Some(h) && (json::json_parsed(
            h,
        ) matches Some(j) && header_from(j) == Some(t.header)),
        t.signing_input == text::split_on(token, '.')[0] + "."@ + text::split_on(token, '.')[1],
{
}

/// A token holds under a key exactly where it says Ed25519, the key can be used,
/// and the 64 bytes of its signature verify over the signed text.
pub proof fn law_token_holds(t: JwtView, key: JwkView)
    ensures
        (jwt_check(t, key) is Ok) == (t.header.alg == "Ed25519"@ && t.signature.len() == 64 && (
        jwk::key_bytes(key) matches Ok(raw) && crypto::ed_verifies(
            raw,
            vstd::utf8::encode_utf8(t.signing_input),
            t.signature,
        ))),
        jwt_check(t, key) == Err::<(), JwtError>(JwtError::UnsupportedAlgorithm) <==> t.header.alg
            != "Ed25519"@,
{
}

/// The header of the library's own tokens names the algorithm, the type, and the
/// key identifier or the key where there is one.
pub proof fn law_own_header(typ: Seq<char>, kid: Option<Seq<char>>, key: Option<JwkView>)
    ensures
        json::json_get(own_header_json(typ, kid, key), "alg"@) == Some(Json::Str("Ed25519"@)),
        json::json_get(own_header_json(typ, kid, key), "typ"@) == Some(Json::Str(typ)),
        json::str_member(own_header_json(typ, kid, key), "kid"@) == kid,
        key matches Some(k) ==> json::json_get(own_header_json(typ, kid, key), "jwk"@) == Some(
            jwk::jwk_json(k),
        ),
        key is None ==> json::json_get(own_header_json(typ, kid, key), "jwk"@) is None,
        own_header(typ, kid, key).alg == "Ed25519"@,
        own_header(typ, kid, key).typ == Some(typ),
        own_header(typ, kid, key).kid == kid,
        own_header(typ, kid, key).jwk == key,
        own_header(typ, kid, key).x5c is None,
{
    reveal_strlit("alg");
    reveal_strlit("typ");
    reveal_strlit("kid");
    reveal_strlit("jwk");
    assert("alg"@.len() == 3 && "typ"@.len() == 3 && "kid"@.len() == 3 && "jwk"@.len() == 3);
    assert("alg"@[0] == 'a');
    assert("typ"@[0] == 't');
    assert("kid"@[0] == 'k');
    assert("jwk"@[0] == 'j');
}

/// The library's own tokens are signed over header and payload with the given
/// key.
pub proof fn law_own_token(
    typ: Seq<char>,
    kid: Option<Seq<char>>,
    key: Option<JwkView>,
    payload: Json,
    seed: Seq<u8>,
)
    ensures
        own_input(typ, kid, key, payload) == b64::encoded(
            vstd::utf8::encode_utf8(json::json_text(own_header_json(typ, kid, key))),
        ) + "."@ + b64::encoded(vstd::utf8::encode_utf8(json::json_text(payload))),
        own_token(typ, kid, key, payload, seed) == own_input(typ, kid, key, payload) + "."@
            + b64::encoded(
            crypto::ed_signature(
                seed,
                vstd::utf8::encode_utf8(own_input(typ, kid, key, payload)),
            ),
        ),
{
}

} // verus!
