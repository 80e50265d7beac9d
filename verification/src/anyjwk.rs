//! The public keys of third parties: Ed25519, RSA, and ECDSA on P-256 and
//! P-384. Identity providers sign their assertions with these; AAuth itself
//! signs with Ed25519 only.

use vstd::prelude::*;

use crate::b64;
use crate::json;
use crate::json::{Json, JsonValue};
use crate::pki;
use crate::pki::PkiAlg;
use crate::storage::copy_bytes;
use crate::text;
use crate::x509;

verus! {

/// The kinds of keys.
#[derive(Debug, Clone, Copy, PartialEq, Eq, Structural)]
pub enum KeyKind {
    Okp,
    Rsa,
    P256,
    P384,
}

/// A public key of a third party, in the form that verification takes.
pub struct AnyJwk {
    pub kid: Option<String>,
    pub kind: KeyKind,
    pub key: Vec<u8>,
}

/// What an [`AnyJwk`] holds.
pub struct AnyJwkView {
    pub kid: Option<Seq<char>>,
    pub kind: KeyKind,
    pub key: Seq<u8>,
}

/// The algorithms that assertions may be signed with.
pub open spec fn is_supported_alg(alg: Seq<char>) -> bool {
    x509::jws_alg(alg) is Some
}

/// Whether an algorithm is one that assertions may be signed with.
pub fn supported_alg(alg: &str) -> (r: bool)
    ensures
        r == is_supported_alg(alg@),
{
    x509::jws_alg_to_webpki(alg).is_some()
}

/// Whether keys of a kind sign with an algorithm.
pub open spec fn kind_fits(kind: KeyKind, alg: PkiAlg) -> bool {
    match alg {
        PkiAlg::Ed25519 => kind == KeyKind::Okp,
        PkiAlg::Rs256 | PkiAlg::Rs384 | PkiAlg::Rs512 => kind == KeyKind::Rsa,
        PkiAlg::Es256 => kind == KeyKind::P256,
        PkiAlg::Es384 => kind == KeyKind::P384,
    }
}

/// Whether a key signs with the algorithm that a header names.
pub open spec fn fits(k: AnyJwkView, alg: Seq<char>) -> bool {
    match x509::jws_alg(alg) {
        Some(a) => kind_fits(k.kind, a),
        None => false,
    }
}

/// Whether a signature of a message holds under a key.
pub open spec fn holds_under(
    k: AnyJwkView,
    alg: Seq<char>,
    message: Seq<u8>,
    signature: Seq<u8>,
) -> bool {
    match x509::jws_alg(alg) {
        Some(a) => kind_fits(k.kind, a) && match x509::wire_signature(a, signature) {
            Some(wire) => pki::key_verifies(a, k.key, message, wire),
            None => false,
        },
        None => false,
    }
}

/// A DER element; nothing where it would be too long.
pub open spec fn der_element(tag: u8, body: Seq<u8>) -> Option<Seq<u8>> {
    if body.len() < 128 {
        Some(seq![tag, body.len() as u8] + body)
    } else if body.len() < 256 {
        Some(seq![tag, 0x81u8, body.len() as u8] + body)
    } else if body.len() < 65536 {
        Some(seq![tag, 0x82u8, (body.len() / 256) as u8, (body.len() % 256) as u8] + body)
    } else {
        None
    }
}

/// The contents of the DER INTEGER of a positive big-endian number.
pub open spec fn der_magnitude(v: Seq<u8>) -> Seq<u8> {
    let t = x509::without_zeros(v);
    if t[0] >= 128 {
        seq![0x00u8] + t
    } else {
        t
    }
}

/// The DER form of an RSA public key.
pub open spec fn rsa_key(n: Seq<u8>, e: Seq<u8>) -> Option<Seq<u8>> {
    if n.len() == 0 || e.len() == 0 {
        None
    } else {
        match (der_element(0x02, der_magnitude(n)), der_element(0x02, der_magnitude(e))) {
            (Some(a), Some(b)) => der_element(0x30, a + b),
            _ => None,
        }
    }
}

/// A base64url member.
pub open spec fn bytes_member(j: Json, name: Seq<char>) -> Option<Seq<u8>> {
    match json::str_member(j, name) {
        Some(s) => b64::decoded(s),
        None => None,
    }
}

/// The point of an elliptic curve with coordinates of a width.
pub open spec fn curve_point(j: Json, width: nat) -> Option<Seq<u8>> {
    match (bytes_member(j, "x"@), bytes_member(j, "y"@)) {
        (Some(x), Some(y)) => if x.len() == width && y.len() == width {
            Some(seq![0x04u8] + x + y)
        } else {
            None
        },
        _ => None,
    }
}

/// The key material that a JWK describes.
pub open spec fn material(j: Json) -> Option<(KeyKind, Seq<u8>)> {
    match json::str_member(j, "kty"@) {
        Some(kty) => if kty == "RSA"@ {
            match (bytes_member(j, "n"@), bytes_member(j, "e"@)) {
                (Some(n), Some(e)) => match rsa_key(n, e) {
                    Some(k) => Some((KeyKind::Rsa, k)),
                    None => None,
                },
                _ => None,
            }
        } else {
            match json::str_member(j, "crv"@) {
                Some(crv) => if kty == "OKP"@ && crv == "Ed25519"@ {
                    match bytes_member(j, "x"@) {
                        Some(x) => if x.len() == 32 {
                            Some((KeyKind::Okp, x))
                        } else {
                            None
                        },
                        None => None,
                    }
                } else if kty == "EC"@ && crv == "P-256"@ {
                    match curve_point(j, 32) {
                        Some(p) => Some((KeyKind::P256, p)),
                        None => None,
                    }
                } else if kty == "EC"@ && crv == "P-384"@ {
                    match curve_point(j, 48) {
                        Some(p) => Some((KeyKind::P384, p)),
                        None => None,
                    }
                } else {
                    None
                },
                None => None,
            }
        },
        None => None,
    }
}

/// The key that a JWK describes.
pub open spec fn any_from(j: Json) -> Option<AnyJwkView> {
    match material(j) {
        Some((kind, key)) => Some(AnyJwkView { kid: json::str_member(j, "kid"@), kind, key }),
        None => None,
    }
}

/// The keys of a list that are of a known kind.
pub open spec fn known_keys(s: Seq<Json>) -> Seq<AnyJwkView>
    decreases s.len(),
{
    if s.len() == 0 {
        Seq::empty()
    } else {
        match any_from(s.last()) {
            Some(k) => known_keys(s.drop_last()).push(k),
            None => known_keys(s.drop_last()),
        }
    }
}

/// The keys of a key set that are of a known kind.
pub open spec fn keys_of_set(j: Json) -> Seq<AnyJwkView> {
    match json::json_get(j, "keys"@) {
        Some(Json::Arr(s)) => known_keys(s),
        _ => Seq::empty(),
    }
}

/// What a list of keys holds.
pub open spec fn keys_view(s: Seq<AnyJwk>) -> Seq<AnyJwkView> {
    s.map_values(|k: AnyJwk| k@)
}

fn append_element(tag: u8, body: &Vec<u8>) -> (r: Option<Vec<u8>>)
    ensures
        match r {
            Some(v) => der_element(tag, body@) == Some(v@),
            None => der_element(tag, body@) is None,
        },
{
    let n: usize = body.len();
    let mut out: Vec<u8> = Vec::new();
    out.push(tag);
    if n < 128 {
        out.push(n as u8);
    } else if n < 256 {
        out.push(0x81);
        out.push(n as u8);
    } else if n < 65536 {
        out.push(0x82);
        out.push((n / 256) as u8);
        out.push((n % 256) as u8);
    } else {
        return None;
    }
    let ghost head = out@;
    let mut copy = copy_bytes(body.as_slice());
    out.append(&mut copy);
    proof {
        assert(out@ =~= head + body@);
        assert(out@ =~= der_element(tag, body@).unwrap());
    }
    Some(out)
}

fn magnitude(v: &Vec<u8>) -> (r: Vec<u8>)
    requires
        v@.len() > 0,
    ensures
        r@ == der_magnitude(v@),
{
    let mut from: usize = 0;
    proof {
        assert(v@.skip(0) =~= v@);
    }
    while v.len() - from > 1 && v[from] == 0
        invariant
            from < v@.len(),
            x509::without_zeros(v@.skip(from as int)) == x509::without_zeros(v@),
        decreases v@.len() - from,
    {
        proof {
            assert(v@.skip(from as int).drop_first() =~= v@.skip(from + 1));
        }
        from += 1;
    }
    let mut out: Vec<u8> = Vec::new();
    if v[from] >= 128 {
        out.push(0x00);
    }
    let ghost head = out@;
    let mut rest = copy_bytes(vstd::slice::slice_subrange(v.as_slice(), from, v.len()));
    let ghost t = rest@;
    out.append(&mut rest);
    proof {
        assert(t =~= v@.skip(from as int));
        assert(out@ =~= head + t);
        assert(out@ =~= der_magnitude(v@));
    }
    out
}

fn encode_rsa(n: &Vec<u8>, e: &Vec<u8>) -> (r: Option<Vec<u8>>)
    ensures
        match r {
            Some(v) => rsa_key(n@, e@) == Some(v@),
            None => rsa_key(n@, e@) is None,
        },
{
    if n.len() == 0 || e.len() == 0 {
        return None;
    }
    match (append_element(0x02, &magnitude(n)), append_element(0x02, &magnitude(e))) {
        (Some(a), Some(b)) => {
            let mut body = a;
            let mut tail = b;
            body.append(&mut tail);
            append_element(0x30, &body)
        },
        _ => None,
    }
}

fn read_bytes(v: &JsonValue, name: &str) -> (r: Option<Vec<u8>>)
    ensures
        match r {
            Some(b) => bytes_member(v@, name@) == Some(b@),
            None => bytes_member(v@, name@) is None,
        },
{
    match v.str_of(name) {
        Some(s) => b64::decode(s.as_str()),
        None => None,
    }
}

fn read_point(v: &JsonValue, width: usize) -> (r: Option<Vec<u8>>)
    ensures
        match r {
            Some(b) => curve_point(v@, width as nat) == Some(b@),
            None => curve_point(v@, width as nat) is None,
        },
{
    match (read_bytes(v, "x"), read_bytes(v, "y")) {
        (Some(x), Some(y)) => if x.len() == width && y.len() == width {
            let mut out: Vec<u8> = Vec::new();
            out.push(0x04);
            let mut a = x;
            let mut b = y;
            out.append(&mut a);
            out.append(&mut b);
            proof {
                assert(out@ =~= seq![0x04u8] + x@ + y@);
            }
            Some(out)
        } else {
            None
        },
        _ => None,
    }
}

fn read_material(v: &JsonValue) -> (r: Option<(KeyKind, Vec<u8>)>)
    ensures
        match r {
            Some(m) => material(v@) == Some((m.0, m.1@)),
            None => material(v@) is None,
        },
{
    let kty = match v.str_of("kty") {
        Some(s) => s,
        None => {
            return None;
        },
    };
    if text::same(kty.as_str(), "RSA") {
        return match (read_bytes(v, "n"), read_bytes(v, "e")) {
            (Some(n), Some(e)) => match encode_rsa(&n, &e) {
                Some(k) => Some((KeyKind::Rsa, k)),
                None => None,
            },
            _ => None,
        };
    }
    let crv = match v.str_of("crv") {
        Some(s) => s,
        None => {
            return None;
        },
    };
    let curve = text::same(kty.as_str(), "EC");
    if text::same(kty.as_str(), "OKP") && text::same(crv.as_str(), "Ed25519") {
        match read_bytes(v, "x") {
            Some(x) => if x.len() == 32 {
                Some((KeyKind::Okp, x))
            } else {
                None
            },
            None => None,
        }
    } else if curve && text::same(crv.as_str(), "P-256") {
        match read_point(v, 32) {
            Some(p) => Some((KeyKind::P256, p)),
            None => None,
        }
    } else if curve && text::same(crv.as_str(), "P-384") {
        match read_point(v, 48) {
            Some(p) => Some((KeyKind::P384, p)),
            None => None,
        }
    } else {
        None
    }
}

impl Clone for AnyJwk {
    fn clone(&self) -> (r: Self)
        ensures
            r@ == self@,
    {
        AnyJwk { kid: self.kid.clone(), kind: self.kind, key: copy_bytes(self.key.as_slice()) }
    }
}

impl AnyJwk {
    /// What the key holds.
    pub open spec fn view(&self) -> AnyJwkView {
        AnyJwkView { kid: text::opt_view(self.kid), kind: self.kind, key: self.key@ }
    }

    /// Reads a key.
    pub fn from_json(v: &JsonValue) -> (r: Option<AnyJwk>)
        ensures
            match r {
                Some(k) => any_from(v@) == Some(k@),
                None => any_from(v@) is None,
            },
    {
        match read_material(v) {
            Some((kind, key)) => {
                let kid = match v.str_of("kid") {
                    Some(s) => Some(s.clone()),
                    None => None,
                };
                Some(AnyJwk { kid, kind, key })
            },
            None => None,
        }
    }

    /// The keys of a key set that are of a known kind.
    pub fn parse_jwks(v: &JsonValue) -> (r: Vec<AnyJwk>)
        ensures
            keys_view(r@) == keys_of_set(v@),
    {
        let mut out: Vec<AnyJwk> = Vec::new();
        proof {
            assert(keys_view(out@) =~= Seq::empty());
        }
        if let Some(list) = v.get("keys") {
            if let Some(items) = list.as_array() {
                let ghost all = json::elements(items@);
                let mut i: usize = 0;
                proof {
                    json::lemma_elements(items@);
                    assert(all.take(0) =~= Seq::empty());
                }
                while i < items.len()
                    invariant
                        i <= items@.len(),
                        all.len() == items@.len(),
                        forall|j: int|
                            0 <= j < items@.len() ==> #[trigger] all[j] == items@[j].view(),
                        keys_view(out@) == known_keys(all.take(i as int)),
                    decreases items@.len() - i,
                {
                    proof {
                        assert(all.take(i + 1).drop_last() =~= all.take(i as int));
                        assert(all.take(i + 1).last() == all[i as int]);
                    }
                    if let Some(k) = AnyJwk::from_json(&items[i]) {
                        let ghost was = out@;
                        out.push(k);
                        proof {
                            assert(keys_view(out@) =~= keys_view(was).push(k@));
                        }
                    }
                    i += 1;
                }
                proof {
                    assert(all.take(all.len() as int) =~= all);
                }
            }
        }
        out
    }

    /// Whether the key signs with an algorithm.
    pub fn supports_alg(&self, alg: &str) -> (r: bool)
        ensures
            r == fits(self@, alg@),
    {
        match x509::jws_alg_to_webpki(alg) {
            Some(a) => kind_supports(self.kind, a),
            None => false,
        }
    }

    /// Whether a signature of a message holds under the key.
    pub fn verify(&self, alg: &str, message: &[u8], signature: &[u8]) -> (r: bool)
        ensures
            r == holds_under(self@, alg@, message@, signature@),
    {
        match x509::jws_alg_to_webpki(alg) {
            Some(a) => if kind_supports(self.kind, a) {
                match x509::to_wire_signature(a, signature) {
                    Some(wire) => pki::verify_with_key(
                        a,
                        self.key.as_slice(),
                        message,
                        wire.as_slice(),
                    ),
                    None => false,
                }
            } else {
                false
            },
            None => false,
        }
    }
}

fn kind_supports(kind: KeyKind, alg: PkiAlg) -> (r: bool)
    ensures
        r == kind_fits(kind, alg),
{
    match alg {
        PkiAlg::Ed25519 => kind == KeyKind::Okp,
        PkiAlg::Rs256 | PkiAlg::Rs384 | PkiAlg::Rs512 => kind == KeyKind::Rsa,
        PkiAlg::Es256 => kind == KeyKind::P256,
        PkiAlg::Es384 => kind == KeyKind::P384,
    }
}

/// Some signature of a message holds under one of some keys.
pub open spec fn any_holds(
    keys: Seq<AnyJwkView>,
    alg: Seq<char>,
    message: Seq<u8>,
    signature: Seq<u8>,
) -> bool {
    exists|i: int| 0 <= i < keys.len() && holds_under(#[trigger] keys[i], alg, message, signature)
}

/// Whether a signature of a message holds under one of some keys.
pub fn verify_any(keys: &Vec<AnyJwk>, alg: &str, message: &[u8], signature: &[u8]) -> (r: bool)
    ensures
        r == any_holds(keys_view(keys@), alg@, message@, signature@),
{
    let ghost all = keys_view(keys@);
    let mut i: usize = 0;
    while i < keys.len()
        invariant
            i <= keys@.len(),
            all == keys_view(keys@),
            forall|j: int|
                0 <= j < i ==> !holds_under(#[trigger] all[j], alg@, message@, signature@),
        decreases keys@.len() - i,
    {
        if keys[i].verify(alg, message, signature) {
            proof {
                assert(all[i as int] == keys@[i as int]@);
            }
            return true;
        }
        proof {
            assert(all[i as int] == keys@[i as int]@);
        }
        i += 1;
    }
    false
}

/// The algorithms that third parties may sign with, and the kind of key that each
/// takes.
pub proof fn law_algorithms(alg: Seq<char>, k: AnyJwkView)
    ensures
        is_supported_alg(alg) == (alg == "EdDSA"@ || alg == "RS256"@ || alg == "RS384"@ || alg
            == "RS512"@ || alg == "ES256"@ || alg == "ES384"@),
        fits(k, "EdDSA"@) == (k.kind == KeyKind::Okp),
        fits(k, "RS256"@) == (k.kind == KeyKind::Rsa),
        fits(k, "RS384"@) == (k.kind == KeyKind::Rsa),
        fits(k, "RS512"@) == (k.kind == KeyKind::Rsa),
        fits(k, "ES256"@) == (k.kind == KeyKind::P256),
        fits(k, "ES384"@) == (k.kind == KeyKind::P384),
        !is_supported_alg(alg) ==> !fits(k, alg),
{
    reveal_strlit("EdDSA");
    reveal_strlit("RS256");
    reveal_strlit("RS384");
    reveal_strlit("RS512");
    reveal_strlit("ES256");
    reveal_strlit("ES384");
    assert("EdDSA"@.len() == 5 && "RS256"@.len() == 5 && "RS384"@.len() == 5 && "RS512"@.len() == 5 && "ES256"@.len() == 5 && "ES384"@.len() == 5);
    assert("EdDSA"@[0] == 'E' && "EdDSA"@[1] == 'd');
    assert("RS256"@[0] == 'R' && "RS256"@[2] == '2');
    assert("RS384"@[0] == 'R' && "RS384"@[2] == '3');
    assert("RS512"@[0] == 'R' && "RS512"@[2] == '5');
    assert("ES256"@[0] == 'E' && "ES256"@[1] == 'S' && "ES256"@[2] == '2');
    assert("ES384"@[0] == 'E' && "ES384"@[1] == 'S' && "ES384"@[2] == '3');
}

/// Which primitive each algorithm stands for.
pub proof fn law_algorithm_names()
    ensures
        x509::jws_alg("EdDSA"@) == Some(PkiAlg::Ed25519),
        x509::jws_alg("RS256"@) == Some(PkiAlg::Rs256),
        x509::jws_alg("RS384"@) == Some(PkiAlg::Rs384),
        x509::jws_alg("RS512"@) == Some(PkiAlg::Rs512),
        x509::jws_alg("ES256"@) == Some(PkiAlg::Es256),
        x509::jws_alg("ES384"@) == Some(PkiAlg::Es384),
{
    reveal_strlit("EdDSA");
    reveal_strlit("RS256");
    reveal_strlit("RS384");
    reveal_strlit("RS512");
    reveal_strlit("ES256");
    reveal_strlit("ES384");
    assert("EdDSA"@.len() == 5 && "RS256"@.len() == 5 && "RS384"@.len() == 5 && "RS512"@.len() == 5 && "ES256"@.len() == 5 && "ES384"@.len() == 5);
    assert("EdDSA"@[0] == 'E' && "EdDSA"@[1] == 'd');
    assert("RS256"@[0] == 'R' && "RS256"@[2] == '2');
    assert("RS384"@[0] == 'R' && "RS384"@[2] == '3');
    assert("RS512"@[0] == 'R' && "RS512"@[2] == '5');
    assert("ES256"@[0] == 'E' && "ES256"@[1] == 'S' && "ES256"@[2] == '2');
    assert("ES384"@[0] == 'E' && "ES384"@[1] == 'S' && "ES384"@[2] == '3');
}

/// A signature holds only under a key that signs with its algorithm, and only
/// where it verifies over the message; with the elliptic curves in its DER form.
pub proof fn law_holds_under(
    k: AnyJwkView,
    alg: Seq<char>,
    message: Seq<u8>,
    signature: Seq<u8>,
    a: PkiAlg,
)
    ensures
        holds_under(k, alg, message, signature) ==> fits(k, alg),
        x509::jws_alg(alg) == Some(a) && fits(k, alg) && a != PkiAlg::Es256 && a != PkiAlg::Es384
            ==> holds_under(k, alg, message, signature) == pki::key_verifies(
            a,
            k.key,
            message,
            signature,
        ),
        x509::jws_alg(alg) == Some(a) && fits(k, alg) && (a == PkiAlg::Es256 || a == PkiAlg::Es384)
            ==> holds_under(k, alg, message, signature) == (x509::der_signature(
            signature,
        ) matches Some(wire) && pki::key_verifies(a, k.key, message, wire)),
{
}

/// Some key of a list holds exactly where one of them does.
pub proof fn law_any_of_the_keys(
    keys: Seq<AnyJwkView>,
    k: AnyJwkView,
    alg: Seq<char>,
    message: Seq<u8>,
    signature: Seq<u8>,
)
    ensures
        any_holds(keys.push(k), alg, message, signature) == (any_holds(keys, alg, message, signature)
            || holds_under(k, alg, message, signature)),
        !any_holds(Seq::empty(), alg, message, signature),
{
    let all = keys.push(k);
    if any_holds(keys, alg, message, signature) {
        let i = choose|i: int|
            0 <= i < keys.len() && holds_under(#[trigger] keys[i], alg, message, signature);
        assert(all[i] == keys[i]);
    }
    if holds_under(k, alg, message, signature) {
        assert(all[keys.len() as int] == k);
    }
    if any_holds(all, alg, message, signature) {
        let i = choose|i: int|
            0 <= i < all.len() && holds_under(#[trigger] all[i], alg, message, signature);
        if i < keys.len() {
            assert(keys[i] == all[i]);
        }
    }
}

/// An Ed25519 key is the 32 bytes of its `x`.
pub proof fn law_okp_key(j: Json, x: Seq<u8>)
    requires
        json::str_member(j, "kty"@) == Some("OKP"@),
        json::str_member(j, "crv"@) == Some("Ed25519"@),
    ensures
        (material(j) == Some((KeyKind::Okp, x))) == ((json::str_member(j, "x"@) matches Some(s)
            && b64::decoded(s) == Some(x)) && x.len() == 32),
{
    reveal_strlit("OKP");
    reveal_strlit("RSA");
    reveal_strlit("EC");
    assert("OKP"@.len() == 3 && "RSA"@.len() == 3 && "EC"@.len() == 2);
    assert("OKP"@[0] == 'O');
    assert("RSA"@[0] == 'R');
}

/// A key of a curve is the uncompressed point of its coordinates, 32 bytes each
/// on P-256 and 48 bytes each on P-384.
pub proof fn law_curve_key(j: Json, x: Seq<u8>, y: Seq<u8>)
    requires
        json::str_member(j, "kty"@) == Some("EC"@),
        json::str_member(j, "x"@) matches Some(s) && b64::decoded(s) == Some(x),
        json::str_member(j, "y"@) matches Some(s) && b64::decoded(s) == Some(y),
    ensures
        json::str_member(j, "crv"@) == Some("P-256"@) ==> material(j) == (if x.len() == 32
            && y.len() == 32 {
            Some((KeyKind::P256, seq![0x04u8] + x + y))
        } else {
            None
        }),
        json::str_member(j, "crv"@) == Some("P-384"@) ==> material(j) == (if x.len() == 48
            && y.len() == 48 {
            Some((KeyKind::P384, seq![0x04u8] + x + y))
        } else {
            None
        }),
{
    reveal_strlit("OKP");
    reveal_strlit("RSA");
    reveal_strlit("EC");
    assert("OKP"@.len() == 3 && "RSA"@.len() == 3 && "EC"@.len() == 2);
    assert("OKP"@[0] == 'O');
    assert("RSA"@[0] == 'R');
    reveal_strlit("P-256");
    reveal_strlit("P-384");
    reveal_strlit("Ed25519");
    assert("P-256"@.len() == 5 && "P-384"@.len() == 5 && "Ed25519"@.len() == 7);
    assert("P-256"@[2] == '2');
    assert("P-384"@[2] == '3');
}

/// An RSA key is the DER sequence of its modulus and exponent.
pub proof fn law_rsa_key(j: Json, n: Seq<u8>, e: Seq<u8>)
    requires
        json::str_member(j, "kty"@) == Some("RSA"@),
        json::str_member(j, "n"@) matches Some(s) && b64::decoded(s) == Some(n),
        json::str_member(j, "e"@) matches Some(s) && b64::decoded(s) == Some(e),
    ensures
        material(j) == (match rsa_key(n, e) {
            Some(k) => Some((KeyKind::Rsa, k)),
            None => None,
        }),
        n.len() == 0 || e.len() == 0 ==> rsa_key(n, e) is None,
{
}

/// A DER element is its tag, the length of its contents in as few bytes as hold
/// it, and its contents.
pub proof fn law_der_element(tag: u8, body: Seq<u8>)
    ensures
        body.len() < 65536 ==> (der_element(tag, body) matches Some(d) && d[0] == tag && d.skip(
            d.len() - body.len(),
        ) == body),
        body.len() < 128 ==> (der_element(tag, body) matches Some(d) && d.len() == body.len() + 2
            && d[1] == body.len()),
        128 <= body.len() < 256 ==> (der_element(tag, body) matches Some(d) && d.len() == body.len()
            + 3 && d[1] == 0x81 && d[2] == body.len()),
        256 <= body.len() < 65536 ==> (der_element(tag, body) matches Some(d) && d.len()
            == body.len() + 4 && d[1] == 0x82 && d[2] * 256 + d[3] == body.len()),
        body.len() >= 65536 ==> der_element(tag, body) is None,
{
    if let Some(d) = der_element(tag, body) {
        assert(d.skip(d.len() - body.len()) =~= body);
    }
}

/// The contents of an INTEGER keep the number: leading zeros go, and one stands
/// before a byte whose top bit is set.
pub proof fn law_der_magnitude(v: Seq<u8>)
    requires
        v.len() > 0,
    ensures
        v[0] != 0 && v[0] < 128 ==> der_magnitude(v) == v,
        v[0] >= 128 ==> der_magnitude(v) == seq![0x00u8] + v,
        der_magnitude(seq![0x00u8] + v) == der_magnitude(v),
{
    assert((seq![0x00u8] + v).drop_first() =~= v);
}

/// The RSA key is one sequence of the two integers.
pub proof fn law_rsa_sequence(n: Seq<u8>, e: Seq<u8>)
    requires
        n.len() > 0,
        e.len() > 0,
    ensures
        rsa_key(n, e) matches Some(k) ==> (der_element(0x02, der_magnitude(n)) matches Some(a) && (
        der_element(0x02, der_magnitude(e)) matches Some(b) && der_element(0x30, a + b) == Some(k))),
{
}

/// Of a key set the keys of known kinds are taken, in order, with their
/// identifiers.
pub proof fn law_keys_of_set(s: Seq<Json>, j: Json)
    ensures
        any_from(j) matches Some(k) ==> known_keys(s.push(j)) == known_keys(s).push(k) && k.kid
            == json::str_member(j, "kid"@) && material(j) == Some((k.kind, k.key)),
        any_from(j) is None ==> known_keys(s.push(j)) == known_keys(s),
        (any_from(j) is None) == (material(j) is None),
        known_keys(Seq::empty()).len() == 0,
        keys_of_set(Json::Obj(map!["keys"@ => Json::Arr(s)])) == known_keys(s),
        json::json_get(j, "keys"@) is None ==> keys_of_set(j).len() == 0,
{
    assert(s.push(j).drop_last() =~= s);
}

} // verus!
