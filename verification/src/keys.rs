//! The provider's signing keys: the keys file, its rotation, and the published
//! key set.
//!
//! Rotation appends a key and makes it the active one. The public halves of
//! older keys stay published until every token that was signed with them has
//! expired; then they can be pruned.

use vstd::prelude::*;

use crate::b64;
use crate::crypto;
use crate::crypto::SigningKey;
use crate::decimal;
use crate::json;
use crate::json::{Json, JsonValue};
use crate::jwk;
use crate::jwk::{Jwk, JwkView};
use crate::text;

verus! {

/// One key of the keys file.
pub struct KeyEntry {
    pub kid: String,
    /// The Ed25519 seed, in base64url. A secret.
    pub d: String,
    pub created_at: u64,
}

/// The keys file.
pub struct KeyFile {
    pub active: String,
    pub keys: Vec<KeyEntry>,
}

/// What a [`KeyEntry`] holds.
pub struct KeyEntryView {
    pub kid: Seq<char>,
    pub d: Seq<char>,
    pub created_at: u64,
}

/// What a [`KeyFile`] holds.
pub struct KeyFileView {
    pub active: Seq<char>,
    pub keys: Seq<KeyEntryView>,
}

impl KeyEntry {
    /// What the entry holds.
    pub open spec fn view(&self) -> KeyEntryView {
        KeyEntryView { kid: self.kid@, d: self.d@, created_at: self.created_at }
    }
}

/// What a list of keys holds.
pub open spec fn entries_view(s: Seq<KeyEntry>) -> Seq<KeyEntryView> {
    s.map_values(|e: KeyEntry| e@)
}

impl KeyFile {
    /// What the file holds.
    pub open spec fn view(&self) -> KeyFileView {
        KeyFileView { active: self.active@, keys: entries_view(self.keys@) }
    }
}

impl Clone for KeyEntry {
    fn clone(&self) -> (r: Self)
        ensures
            r == *self,
    {
        KeyEntry { kid: self.kid.clone(), d: self.d.clone(), created_at: self.created_at }
    }
}

/// The public half of a key, as it is published.
pub open spec fn published(e: KeyEntryView) -> Option<JwkView> {
    match b64::decoded(e.d) {
        Some(seed) => if seed.len() == 32 {
            let k = jwk::jwk_of_key(crypto::ed_public(seed));
            Some(
                JwkView {
                    kty: k.kty,
                    crv: k.crv,
                    x: k.x,
                    kid: Some(e.kid),
                    alg: k.alg,
                    use_: Some("sig"@),
                },
            )
        } else {
            None
        },
        None => None,
    }
}

/// The public halves of keys; an error names the first that is not a seed.
pub open spec fn all_published(s: Seq<KeyEntryView>) -> Result<Seq<JwkView>, Seq<char>>
    decreases s.len(),
{
    if s.len() == 0 {
        Ok(Seq::empty())
    } else {
        match all_published(s.drop_last()) {
            Err(e) => Err(e),
            Ok(rest) => match published(s.last()) {
                Some(k) => Ok(rest.push(k)),
                None => Err("bad key seed for kid "@ + s.last().kid),
            },
        }
    }
}

/// The keys with, or without, an identifier, in their order.
pub open spec fn with_kid(s: Seq<KeyEntryView>, kid: Seq<char>, having: bool) -> Seq<KeyEntryView>
    decreases s.len(),
{
    if s.len() == 0 {
        Seq::empty()
    } else if (s.last().kid == kid) == having {
        with_kid(s.drop_last(), kid, having).push(s.last())
    } else {
        with_kid(s.drop_last(), kid, having)
    }
}

/// The keys, the active one first.
pub open spec fn active_first(f: KeyFileView) -> Seq<KeyEntryView> {
    with_kid(f.keys, f.active, true) + with_kid(f.keys, f.active, false)
}

/// What is loaded from a keys file, or what is wrong with it.
pub open spec fn loaded(f: KeyFileView) -> Result<(Seq<u8>, Seq<JwkView>), Seq<char>> {
    if f.keys.len() == 0 {
        Err("keys file contains no keys"@)
    } else {
        match all_published(active_first(f)) {
            Err(e) => Err(e),
            Ok(jwks) => {
                let active = with_kid(f.keys, f.active, true);
                if active.len() == 0 {
                    Err("active kid '"@ + f.active + "' not present in keys"@)
                } else {
                    Ok((b64::decoded(active.last().d)->0, jwks))
                }
            },
        }
    }
}

/// What a list of JWKs holds.
pub open spec fn jwks_view(s: Seq<Jwk>) -> Seq<JwkView> {
    s.map_values(|k: Jwk| k@)
}

/// The provider's keys.
pub struct KeySet {
    pub active_kid: String,
    pub active_key: SigningKey,
    /// The public keys, the active one first.
    pub public_jwks: Vec<Jwk>,
}

/// The first key with an identifier.
pub open spec fn key_named(s: Seq<JwkView>, kid: Seq<char>) -> Option<JwkView>
    decreases s.len(),
{
    if s.len() == 0 {
        None
    } else if s[0].kid == Some(kid) {
        Some(s[0])
    } else {
        key_named(s.drop_first(), kid)
    }
}

/// The JSON values of keys.
pub open spec fn jwks_values(s: Seq<JwkView>) -> Seq<Json> {
    s.map_values(|k: JwkView| jwk::jwk_json(k))
}

/// The key set document.
pub open spec fn jwks_document(s: Seq<JwkView>) -> Json {
    Json::Obj(Map::<Seq<char>, Json>::empty().insert("keys"@, Json::Arr(jwks_values(s))))
}

fn publish(e: &KeyEntry) -> (r: Option<(SigningKey, Jwk)>)
    ensures
        match r {
            Some(x) => published(e@) == Some(x.1@) && b64::decoded(e.d@) == Some(x.0@),
            None => published(e@) is None,
        },
{
    match b64::decode_fixed(e.d.as_str()) {
        Some(seed) => {
            let sk = SigningKey::from_bytes(&seed);
            let vk = sk.verifying_key();
            let mut k = Jwk::from_verifying_key(&vk);
            k.kid = Some(e.kid.clone());
            k.use_ = Some("sig".to_owned());
            Some((sk, k))
        },
        None => None,
    }
}

fn select_entries(keys: &Vec<KeyEntry>, kid: &str, having: bool) -> (r: Vec<KeyEntry>)
    ensures
        entries_view(r@) == with_kid(entries_view(keys@), kid@, having),
{
    let ghost all = entries_view(keys@);
    let mut out: Vec<KeyEntry> = Vec::new();
    let mut i: usize = 0;
    proof {
        assert(all.take(0) =~= Seq::empty());
        assert(entries_view(out@) =~= Seq::empty());
    }
    while i < keys.len()
        invariant
            i <= keys@.len(),
            all == entries_view(keys@),
            entries_view(out@) == with_kid(all.take(i as int), kid@, having),
        decreases keys@.len() - i,
    {
        proof {
            assert(all.take(i + 1).drop_last() =~= all.take(i as int));
            assert(all.take(i + 1).last() == keys@[i as int]@);
        }
        if text::same(keys[i].kid.as_str(), kid) == having {
            let ghost was = out@;
            out.push(keys[i].clone());
            proof {
                assert(entries_view(out@) =~= entries_view(was).push(keys@[i as int]@));
            }
        }
        i += 1;
    }
    proof {
        assert(all.take(all.len() as int) =~= all);
    }
    out
}

proof fn lemma_all_published_prefix(s: Seq<KeyEntryView>, n: int)
    requires
        0 <= n <= s.len(),
        all_published(s.take(n)) is Err,
    ensures
        all_published(s) == all_published(s.take(n)),
    decreases s.len() - n,
{
    if n < s.len() {
        assert(s.take(n + 1).drop_last() =~= s.take(n));
        lemma_all_published_prefix(s, n + 1);
    } else {
        assert(s.take(n) =~= s);
    }
}

/// Every published key comes from one entry, in the same place.
pub proof fn lemma_all_published(s: Seq<KeyEntryView>)
    ensures
        all_published(s) matches Ok(v) ==> v.len() == s.len() && forall|i: int|
            0 <= i < s.len() ==> published(#[trigger] s[i]) == Some(v[i]),
    decreases s.len(),
{
    if s.len() > 0 {
        lemma_all_published(s.drop_last());
        if let Ok(v) = all_published(s) {
            assert forall|i: int| 0 <= i < s.len() implies published(#[trigger] s[i]) == Some(
                v[i],
            ) by {
                if i < s.len() - 1 {
                    assert(s.drop_last()[i] == s[i]);
                }
            }
        }
    }
}

fn publish_all(entries: &Vec<KeyEntry>) -> (r: Result<Vec<Jwk>, String>)
    ensures
        match r {
            Ok(v) => all_published(entries_view(entries@)) == Ok::<Seq<JwkView>, Seq<char>>(
                jwks_view(v@),
            ),
            Err(e) => all_published(entries_view(entries@)) == Err::<Seq<JwkView>, Seq<char>>(e@),
        },
{
    let ghost all = entries_view(entries@);
    let mut out: Vec<Jwk> = Vec::new();
    let mut i: usize = 0;
    proof {
        assert(all.take(0) =~= Seq::empty());
        assert(jwks_view(out@) =~= Seq::empty());
    }
    while i < entries.len()
        invariant
            i <= entries@.len(),
            all == entries_view(entries@),
            all_published(all.take(i as int)) == Ok::<Seq<JwkView>, Seq<char>>(jwks_view(out@)),
        decreases entries@.len() - i,
    {
        proof {
            assert(all.take(i + 1).drop_last() =~= all.take(i as int));
            assert(all.take(i + 1).last() == entries@[i as int]@);
        }
        match publish(&entries[i]) {
            Some((_, k)) => {
                let ghost was = out@;
                out.push(k);
                proof {
                    assert(jwks_view(out@) =~= jwks_view(was).push(k@));
                }
            },
            None => {
                proof {
                    lemma_all_published_prefix(all, i + 1);
                }
                return Err(text::join2("bad key seed for kid ", entries[i].kid.as_str()));
            },
        }
        i += 1;
    }
    proof {
        assert(all.take(all.len() as int) =~= all);
    }
    Ok(out)
}

impl KeySet {
    /// Loads the keys of a keys file.
    pub fn load(f: &KeyFile) -> (r: Result<KeySet, String>)
        ensures
            match r {
                Ok(k) => loaded(f@) == Ok::<(Seq<u8>, Seq<JwkView>), Seq<char>>(
                    (k.active_key@, jwks_view(k.public_jwks@)),
                ) && k.active_kid@ == f.active@,
                Err(e) => loaded(f@) == Err::<(Seq<u8>, Seq<JwkView>), Seq<char>>(e@),
            },
    {
        if f.keys.len() == 0 {
            return Err("keys file contains no keys".to_owned());
        }
        let mut ordered = select_entries(&f.keys, f.active.as_str(), true);
        let ghost first = entries_view(ordered@);
        let active: Option<KeyEntry> = if ordered.len() > 0 {
            Some(ordered[ordered.len() - 1].clone())
        } else {
            None
        };
        let ghost count = ordered@.len();
        let ghost head = ordered@;
        let mut others = select_entries(&f.keys, f.active.as_str(), false);
        let ghost tail = others@;
        ordered.append(&mut others);
        proof {
            assert(entries_view(ordered@) =~= entries_view(head) + entries_view(tail));
            assert(entries_view(ordered@) == active_first(f@));
        }
        let public_jwks = match publish_all(&ordered) {
            Ok(v) => v,
            Err(e) => {
                return Err(e);
            },
        };
        match active {
            None => Err(
                text::join3("active kid '", f.active.as_str(), "' not present in keys"),
            ),
            Some(entry) => {
                proof {
                    lemma_all_published(active_first(f@));
                    assert(active_first(f@)[count - 1] == entry@);
                }
                match publish(&entry) {
                    Some((sk, _)) => Ok(
                        KeySet { active_kid: f.active.clone(), active_key: sk, public_jwks },
                    ),
                    None => Err(text::join2("bad key seed for kid ", entry.kid.as_str())),
                }
            },
        }
    }

    /// The public key with an identifier.
    pub fn find_public(&self, kid: &str) -> (r: Option<&Jwk>)
        ensures
            match r {
                Some(k) => key_named(jwks_view(self.public_jwks@), kid@) == Some(k@),
                None => key_named(jwks_view(self.public_jwks@), kid@) is None,
            },
    {
        let ghost all = jwks_view(self.public_jwks@);
        let mut i: usize = 0;
        proof {
            assert(all.skip(0) =~= all);
        }
        while i < self.public_jwks.len()
            invariant
                i <= self.public_jwks@.len(),
                all == jwks_view(self.public_jwks@),
                key_named(all, kid@) == key_named(all.skip(i as int), kid@),
            decreases self.public_jwks@.len() - i,
        {
            proof {
                assert(all.skip(i as int)[0] == self.public_jwks@[i as int]@);
                assert(all.skip(i as int).drop_first() =~= all.skip(i + 1));
            }
            if let Some(own) = &self.public_jwks[i].kid {
                if text::same(own.as_str(), kid) {
                    return Some(&self.public_jwks[i]);
                }
            }
            i += 1;
        }
        None
    }

    /// The key set document.
    pub fn jwks_json(&self) -> (r: JsonValue)
        ensures
            r@ == jwks_document(jwks_view(self.public_jwks@)),
    {
        let mut out: Vec<JsonValue> = Vec::new();
        let mut i: usize = 0;
        while i < self.public_jwks.len()
            invariant
                i <= self.public_jwks@.len(),
                out@.len() == i,
                forall|j: int|
                    0 <= j < i ==> (#[trigger] out@[j])@ == jwk::jwk_json(self.public_jwks@[j]@),
            decreases self.public_jwks@.len() - i,
        {
            out.push(self.public_jwks[i].to_json());
            i += 1;
        }
        proof {
            json::lemma_elements(out@);
            assert(json::elements(out@) =~= jwks_values(jwks_view(self.public_jwks@)));
        }
        JsonValue::object().with("keys", JsonValue::Array(out))
    }
}

// ------------------------------------------------------------ the keys file

/// A fresh key, from drawn randomness.
pub fn new_entry(id: &str, seed: &[u8; 32], now: u64) -> (r: KeyEntry)
    ensures
        r@ == (KeyEntryView { kid: "ap-"@ + id@, d: b64::encoded(seed@), created_at: now }),
{
    KeyEntry { kid: text::join2("ap-", id), d: b64::encode(seed), created_at: now }
}

/// The keys that pruning keeps: the active one, and those made at or after a
/// time.
pub open spec fn kept(s: Seq<KeyEntryView>, active: Seq<char>, cutoff: int) -> Seq<KeyEntryView>
    decreases s.len(),
{
    if s.len() == 0 {
        Seq::empty()
    } else if s.last().kid == active || s.last().created_at >= cutoff {
        kept(s.drop_last(), active, cutoff).push(s.last())
    } else {
        kept(s.drop_last(), active, cutoff)
    }
}

/// The keys file with another active key.
pub open spec fn rotated(f: KeyFileView, fresh: KeyEntryView) -> KeyFileView {
    KeyFileView { active: fresh.kid, keys: f.keys.push(fresh) }
}

/// The keys file without old keys.
pub open spec fn pruned(f: KeyFileView, age: u64, now: u64) -> KeyFileView {
    KeyFileView { active: f.active, keys: kept(f.keys, f.active, now - age) }
}

/// What generating keys says and writes: a keys file is made where there is
/// none, and rotated or pruned where that is asked for.
pub open spec fn generated(
    existing: Option<KeyFileView>,
    path: Seq<char>,
    rotate: bool,
    prune: Option<u64>,
    fresh: KeyEntryView,
    now: u64,
) -> (Seq<char>, Option<KeyFileView>) {
    match existing {
        None => (
            "created "@ + path + " with new active key '"@ + fresh.kid + "'"@,
            Some(KeyFileView { active: fresh.kid, keys: seq![fresh] }),
        ),
        Some(f) => if !rotate && prune is None {
            (
                "keys file "@ + path + " exists (active '"@ + f.active + "', "@
                    + decimal::numeral(f.keys.len()) + " keys). Use --rotate to rotate."@,
                None,
            )
        } else {
            let f = if rotate {
                rotated(f, fresh)
            } else {
                f
            };
            let said = if rotate {
                "rotated: new active key '"@ + fresh.kid + "'"@
            } else {
                Seq::empty()
            };
            match prune {
                None => (text::trimmed(said), Some(f)),
                Some(age) => {
                    let p = pruned(f, age, now);
                    (
                        text::trimmed(
                            said + " pruned "@ + decimal::numeral(
                                (f.keys.len() - p.keys.len()) as nat,
                            ) + " old keys"@,
                        ),
                        Some(p),
                    )
                },
            }
        },
    }
}

fn keep_entries(keys: Vec<KeyEntry>, active: &str, age: u64, now: u64) -> (r: Vec<KeyEntry>)
    ensures
        entries_view(r@) == kept(entries_view(keys@), active@, now - age),
        r@.len() <= keys@.len(),
{
    let cutoff: u64 = if now > age {
        now - age
    } else {
        0
    };
    let ghost all = entries_view(keys@);
    let mut out: Vec<KeyEntry> = Vec::new();
    let mut i: usize = 0;
    proof {
        assert(all.take(0) =~= Seq::empty());
        assert(entries_view(out@) =~= Seq::empty());
    }
    while i < keys.len()
        invariant
            i <= keys@.len(),
            all == entries_view(keys@),
            cutoff == if now > age {
                now - age
            } else {
                0
            },
            entries_view(out@) == kept(all.take(i as int), active@, now - age),
            out@.len() <= i,
        decreases keys@.len() - i,
    {
        proof {
            assert(all.take(i + 1).drop_last() =~= all.take(i as int));
            assert(all.take(i + 1).last() == keys@[i as int]@);
        }
        if text::same(keys[i].kid.as_str(), active) || keys[i].created_at >= cutoff {
            let ghost was = out@;
            out.push(keys[i].clone());
            proof {
                assert(entries_view(out@) =~= entries_view(was).push(keys@[i as int]@));
            }
        }
        i += 1;
    }
    proof {
        assert(all.take(all.len() as int) =~= all);
    }
    out
}

/// What an optional keys file holds.
pub open spec fn opt_file(o: Option<KeyFile>) -> Option<KeyFileView> {
    match o {
        Some(f) => Some(f@),
        None => None,
    }
}

/// Makes a keys file, or rotates or prunes one: what to say, and what to write.
pub fn keygen(
    existing: Option<KeyFile>,
    path: &str,
    rotate: bool,
    prune: Option<u64>,
    fresh: KeyEntry,
    now: u64,
) -> (r: (String, Option<KeyFile>))
    ensures
        (r.0@, opt_file(r.1)) == generated(opt_file(existing), path@, rotate, prune, fresh@, now),
{
    match existing {
        None => {
            let mut said = text::join3("created ", path, " with new active key '");
            said.append(fresh.kid.as_str());
            said.append("'");
            let active = fresh.kid.clone();
            let ghost e = fresh@;
            let keys: Vec<KeyEntry> = vec![fresh];
            proof {
                assert(entries_view(keys@) =~= seq![e]);
            }
            (said, Some(KeyFile { active, keys }))
        },
        Some(f) => {
            if !rotate && prune.is_none() {
                let mut said = text::join3("keys file ", path, " exists (active '");
                said.append(f.active.as_str());
                said.append("', ");
                said.append(decimal::unsigned(f.keys.len() as u64).as_str());
                said.append(" keys). Use --rotate to rotate.");
                return (said, None);
            }
            let mut f = f;
            let mut said = String::new();
            proof {
                assert(said@ =~= Seq::empty());
            }
            if rotate {
                said = text::join3("rotated: new active key '", fresh.kid.as_str(), "'");
                let ghost was = f.keys@;
                let ghost e = fresh@;
                f.active = fresh.kid.clone();
                f.keys.push(fresh);
                proof {
                    assert(entries_view(f.keys@) =~= entries_view(was).push(e));
                }
            }
            match prune {
                None => (text::trim(said.as_str()), Some(f)),
                Some(age) => {
                    let before: usize = f.keys.len();
                    let active = f.active.clone();
                    let keys = keep_entries(f.keys, active.as_str(), age, now);
                    let gone: usize = before - keys.len();
                    said.append(" pruned ");
                    said.append(decimal::unsigned(gone as u64).as_str());
                    said.append(" old keys");
                    (text::trim(said.as_str()), Some(KeyFile { active, keys }))
                },
            }
        },
    }
}

// ------------------------------------------------------------------ laws

/// The active key stands first in the published key set, and verifiers find it
/// under its identifier.
pub proof fn law_active_key_is_first(f: KeyFileView)
    requires
        loaded(f) is Ok,
    ensures
        loaded(f)->Ok_0.1.len() > 0,
        loaded(f)->Ok_0.1[0].kid == Some(f.active),
        key_named(loaded(f)->Ok_0.1, f.active) == Some(loaded(f)->Ok_0.1[0]),
{
    lemma_all_published(active_first(f));
    lemma_with_kid(f.keys, f.active, true);
    assert(active_first(f)[0] == with_kid(f.keys, f.active, true)[0]);
}

proof fn lemma_with_kid(s: Seq<KeyEntryView>, kid: Seq<char>, having: bool)
    ensures
        forall|i: int|
            0 <= i < with_kid(s, kid, having).len() ==> ((#[trigger] with_kid(s, kid, having)[i]).kid
                == kid) == having,
    decreases s.len(),
{
    if s.len() > 0 {
        lemma_with_kid(s.drop_last(), kid, having);
        let rest = with_kid(s.drop_last(), kid, having);
        let all = with_kid(s, kid, having);
        assert forall|i: int| 0 <= i < all.len() implies ((#[trigger] all[i]).kid == kid)
            == having by {
            if i < rest.len() {
                assert(all[i] == rest[i]);
            }
        }
    }
}

/// Pruning never drops the active key.
pub proof fn law_pruning_keeps_active(f: KeyFileView, age: u64, now: u64, i: int)
    requires
        0 <= i < f.keys.len(),
        f.keys[i].kid == f.active,
    ensures
        pruned(f, age, now).keys.contains(f.keys[i]),
        pruned(f, age, now).active == f.active,
{
    lemma_kept(f.keys, f.active, now - age, i);
}

/// Pruning keeps the keys that were made within the given time.
pub proof fn law_pruning_keeps_recent(f: KeyFileView, age: u64, now: u64, i: int)
    requires
        0 <= i < f.keys.len(),
        now - f.keys[i].created_at <= age,
    ensures
        pruned(f, age, now).keys.contains(f.keys[i]),
{
    lemma_kept(f.keys, f.active, now - age, i);
}

proof fn lemma_kept(s: Seq<KeyEntryView>, active: Seq<char>, cutoff: int, i: int)
    requires
        0 <= i < s.len(),
        s[i].kid == active || s[i].created_at >= cutoff,
    ensures
        kept(s, active, cutoff).contains(s[i]),
    decreases s.len(),
{
    let rest = kept(s.drop_last(), active, cutoff);
    if i < s.len() - 1 {
        lemma_kept(s.drop_last(), active, cutoff, i);
        assert(s.drop_last()[i] == s[i]);
        let j = choose|j: int| 0 <= j < rest.len() && rest[j] == s[i];
        assert(kept(s, active, cutoff)[j] == s[i]);
    } else {
        assert(kept(s, active, cutoff).last() == s[i]);
    }
}

/// Rotation keeps every key, and the new one is active.
pub proof fn law_rotation_keeps_keys(f: KeyFileView, fresh: KeyEntryView, i: int)
    requires
        0 <= i < f.keys.len(),
    ensures
        rotated(f, fresh).keys.contains(f.keys[i]),
        rotated(f, fresh).keys.last() == fresh,
        rotated(f, fresh).active == fresh.kid,
{
    assert(rotated(f, fresh).keys[i] == f.keys[i]);
}

/// The first entry with an identifier.
pub open spec fn entry_named(s: Seq<KeyEntryView>, kid: Seq<char>) -> Option<KeyEntryView>
    decreases s.len(),
{
    if s.len() == 0 {
        None
    } else {
        match entry_named(s.drop_last(), kid) {
            Some(e) => Some(e),
            None => if s.last().kid == kid {
                Some(s.last())
            } else {
                None
            },
        }
    }
}

proof fn lemma_key_named_push(s: Seq<JwkView>, k: JwkView, kid: Seq<char>)
    ensures
        key_named(s.push(k), kid) == (match key_named(s, kid) {
            Some(x) => Some(x),
            None => if k.kid == Some(kid) {
                Some(k)
            } else {
                None
            },
        }),
    decreases s.len(),
{
    if s.len() == 0 {
        reveal_with_fuel(key_named, 2);
        assert(s.push(k).drop_first() =~= Seq::<JwkView>::empty());
    } else {
        assert(s.push(k)[0] == s[0]);
        assert(s.push(k).drop_first() =~= s.drop_first().push(k));
        lemma_key_named_push(s.drop_first(), k, kid);
    }
}

proof fn lemma_key_of_entry(s: Seq<KeyEntryView>, kid: Seq<char>)
    requires
        all_published(s) is Ok,
    ensures
        key_named(all_published(s)->Ok_0, kid) == (match entry_named(s, kid) {
            Some(e) => published(e),
            None => None,
        }),
        entry_named(s, kid) matches Some(e) ==> published(e) is Some && e.kid == kid,
    decreases s.len(),
{
    if s.len() > 0 {
        lemma_key_of_entry(s.drop_last(), kid);
        lemma_key_named_push(all_published(s.drop_last())->Ok_0, published(s.last())->0, kid);
    }
}

proof fn lemma_entry_with_kid(s: Seq<KeyEntryView>, kid: Seq<char>, having: bool, name: Seq<char>)
    ensures
        entry_named(with_kid(s, kid, having), name) == (if (name == kid) == having {
            entry_named(s, name)
        } else {
            None
        }),
    decreases s.len(),
{
    if s.len() > 0 {
        lemma_entry_with_kid(s.drop_last(), kid, having, name);
        let rest = with_kid(s.drop_last(), kid, having);
        assert(rest.push(s.last()).drop_last() =~= rest);
    }
}

proof fn lemma_entry_of_parts(a: Seq<KeyEntryView>, b: Seq<KeyEntryView>, name: Seq<char>)
    ensures
        entry_named(a + b, name) == (match entry_named(a, name) {
            Some(e) => Some(e),
            None => entry_named(b, name),
        }),
    decreases b.len(),
{
    if b.len() == 0 {
        assert(a + b =~= a);
    } else {
        lemma_entry_of_parts(a, b.drop_last(), name);
        assert((a + b).drop_last() =~= a + b.drop_last());
    }
}

/// The key set holds under an identifier the first key of the file with it.
proof fn lemma_loaded_key(f: KeyFileView, kid: Seq<char>)
    requires
        loaded(f) is Ok,
    ensures
        key_named(loaded(f)->Ok_0.1, kid) == (match entry_named(f.keys, kid) {
            Some(e) => published(e),
            None => None,
        }),
{
    lemma_key_of_entry(active_first(f), kid);
    lemma_entry_of_parts(
        with_kid(f.keys, f.active, true),
        with_kid(f.keys, f.active, false),
        kid,
    );
    lemma_entry_with_kid(f.keys, f.active, true, kid);
    lemma_entry_with_kid(f.keys, f.active, false, kid);
}

/// Where one entry only has the active identifier, what is published under it
/// is the public half of the key that signs.
pub proof fn law_active_key_is_published(f: KeyFileView)
    requires
        loaded(f) is Ok,
        with_kid(f.keys, f.active, true).len() == 1,
    ensures
        ({
            let seed = loaded(f)->Ok_0.0;
            let own = jwk::jwk_of_key(crypto::ed_public(seed));
            key_named(loaded(f)->Ok_0.1, f.active) == Some(
                JwkView { kid: Some(f.active), use_: Some("sig"@), ..own },
            )
        }),
{
    lemma_all_published(active_first(f));
    lemma_with_kid(f.keys, f.active, true);
    law_active_key_is_first(f);
    assert(active_first(f)[0] == with_kid(f.keys, f.active, true)[0]);
}

/// Rotation changes nothing of what verifiers find under the other identifiers:
/// a token that was signed before it still verifies.
pub proof fn law_rotation_keeps_published(f: KeyFileView, fresh: KeyEntryView, kid: Seq<char>)
    requires
        loaded(f) is Ok,
        loaded(rotated(f, fresh)) is Ok,
        kid != fresh.kid,
    ensures
        key_named(loaded(rotated(f, fresh))->Ok_0.1, kid) == key_named(loaded(f)->Ok_0.1, kid),
{
    lemma_loaded_key(f, kid);
    lemma_loaded_key(rotated(f, fresh), kid);
    assert(f.keys.push(fresh).drop_last() =~= f.keys);
}

proof fn lemma_entry_kept(s: Seq<KeyEntryView>, active: Seq<char>, cutoff: int, kid: Seq<char>)
    requires
        entry_named(s, kid) matches Some(e) && (kid == active || e.created_at >= cutoff),
    ensures
        entry_named(kept(s, active, cutoff), kid) == entry_named(s, kid),
    decreases s.len(),
{
    let rest = kept(s.drop_last(), active, cutoff);
    assert(rest.push(s.last()).drop_last() =~= rest);
    if entry_named(s.drop_last(), kid) is Some {
        lemma_entry_kept(s.drop_last(), active, cutoff, kid);
    } else {
        lemma_entry_not_kept(s.drop_last(), active, cutoff, kid);
    }
}

proof fn lemma_entry_not_kept(s: Seq<KeyEntryView>, active: Seq<char>, cutoff: int, kid: Seq<char>)
    requires
        entry_named(s, kid) is None,
    ensures
        entry_named(kept(s, active, cutoff), kid) is None,
    decreases s.len(),
{
    if s.len() > 0 {
        lemma_entry_not_kept(s.drop_last(), active, cutoff, kid);
        let rest = kept(s.drop_last(), active, cutoff);
        assert(rest.push(s.last()).drop_last() =~= rest);
    }
}

/// Pruning changes nothing of what verifiers find under the active identifier,
/// or under that of a key which was made within the given time.
pub proof fn law_pruning_keeps_published(f: KeyFileView, age: u64, now: u64, kid: Seq<char>)
    requires
        loaded(f) is Ok,
        loaded(pruned(f, age, now)) is Ok,
        entry_named(f.keys, kid) matches Some(e) && (kid == f.active || now - e.created_at <= age),
    ensures
        key_named(loaded(pruned(f, age, now))->Ok_0.1, kid) == key_named(loaded(f)->Ok_0.1, kid),
{
    lemma_loaded_key(f, kid);
    lemma_loaded_key(pruned(f, age, now), kid);
    lemma_entry_kept(f.keys, f.active, now - age, kid);
}

/// The public half of a key is that of its seed, under the key's identifier, for
/// signatures with Ed25519; only 32 bytes are a seed.
pub proof fn law_published_key(e: KeyEntryView)
    ensures
        published(e) matches Some(k) ==> (b64::decoded(e.d) matches Some(seed) && seed.len() == 32
            && k.x == b64::encoded(crypto::ed_public(seed))) && k.kid == Some(e.kid) && k.kty
            == "OKP"@ && k.crv == "Ed25519"@ && k.alg == Some("Ed25519"@) && k.use_ == Some("sig"@),
        b64::decoded(e.d) matches Some(seed) ==> (seed.len() == 32 ==> published(e) is Some),
{
}

proof fn lemma_with_kid_members(s: Seq<KeyEntryView>, kid: Seq<char>, having: bool)
    ensures
        forall|i: int|
            0 <= i < with_kid(s, kid, having).len() ==> s.contains(
                #[trigger] with_kid(s, kid, having)[i],
            ),
        forall|i: int|
            0 <= i < s.len() && (s[i].kid == kid) == having ==> with_kid(s, kid, having).contains(
                #[trigger] s[i],
            ),
        with_kid(s, kid, true).len() + with_kid(s, kid, false).len() == s.len(),
    decreases s.len(),
{
    if s.len() > 0 {
        let less = s.drop_last();
        lemma_with_kid_members(less, kid, having);
        lemma_with_kid_members(less, kid, !having);
        let w = with_kid(s, kid, having);
        let v = with_kid(less, kid, having);
        assert forall|i: int| 0 <= i < w.len() implies s.contains(#[trigger] w[i]) by {
            if i < v.len() {
                assert(w[i] == v[i]);
                assert(less.contains(v[i]));
                let j = choose|j: int| 0 <= j < less.len() && less[j] == v[i];
                assert(s[j] == v[i]);
            } else {
                assert(w[i] == s[s.len() - 1]);
            }
        }
        assert forall|i: int| 0 <= i < s.len() && (s[i].kid == kid) == having implies w.contains(
            #[trigger] s[i],
        ) by {
            if i < less.len() {
                assert(less[i] == s[i]);
                assert(v.contains(less[i]));
                let j = choose|j: int| 0 <= j < v.len() && v[j] == less[i];
                assert(w[j] == s[i]);
            } else {
                assert(w[w.len() - 1] == s[i]);
            }
        }
    }
}

/// Loading signs with the seed of an active entry, and publishes every key of the
/// file, none else.
pub proof fn law_loaded_keys(f: KeyFileView, i: int)
    ensures
        loaded(f) matches Ok((seed, jwks)) ==> jwks.len() == f.keys.len() && (exists|j: int|
            0 <= j < f.keys.len() && (#[trigger] f.keys[j]).kid == f.active && b64::decoded(
                f.keys[j].d,
            ) == Some(seed)),
        loaded(f) matches Ok((seed, jwks)) ==> (0 <= i < f.keys.len() ==> (published(
            f.keys[i],
        ) matches Some(k) && jwks.contains(k))),
        f.keys.len() == 0 ==> loaded(f) is Err,
        !(exists|j: int| 0 <= j < f.keys.len() && (#[trigger] f.keys[j]).kid == f.active)
            ==> loaded(f) is Err,
{
    lemma_with_kid_members(f.keys, f.active, true);
    lemma_with_kid_members(f.keys, f.active, false);
    lemma_with_kid(f.keys, f.active, true);
    let own = with_kid(f.keys, f.active, true);
    let all = active_first(f);
    lemma_all_published(all);
    if own.len() > 0 {
        assert(own.last() == own[own.len() - 1]);
        assert(f.keys.contains(own[own.len() - 1]));
        let j = choose|j: int| 0 <= j < f.keys.len() && f.keys[j] == own.last();
        assert(f.keys[j].kid == f.active);
        if loaded(f) is Ok {
            assert(all[own.len() - 1] == own.last());
            assert(published(all[own.len() - 1]) is Some);
        }
    }
    if loaded(f) is Ok && 0 <= i < f.keys.len() {
        let e = f.keys[i];
        let having = e.kid == f.active;
        let w = with_kid(f.keys, f.active, having);
        assert(w.contains(e));
        let j = choose|j: int| 0 <= j < w.len() && w[j] == e;
        let at = if having {
            j
        } else {
            own.len() + j
        };
        assert(all[at] == e);
        assert(published(all[at]) == Some(loaded(f)->Ok_0.1[at]));
    }
}

/// A key is found by its identifier: the first that has it, and nothing only
/// where none has it.
pub proof fn law_key_by_identifier(s: Seq<JwkView>, kid: Seq<char>)
    ensures
        key_named(s, kid) matches Some(k) ==> k.kid == Some(kid) && s.contains(k),
        key_named(s, kid) is None ==> forall|i: int|
            0 <= i < s.len() ==> (#[trigger] s[i]).kid != Some(kid),
        s.len() > 0 && s[0].kid == Some(kid) ==> key_named(s, kid) == Some(s[0]),
    decreases s.len(),
{
    if s.len() > 0 && s[0].kid != Some(kid) {
        let rest = s.drop_first();
        law_key_by_identifier(rest, kid);
        if let Some(k) = key_named(rest, kid) {
            let j = choose|j: int| 0 <= j < rest.len() && rest[j] == k;
            assert(s[j + 1] == k);
        } else {
            assert forall|i: int| 0 <= i < s.len() implies (#[trigger] s[i]).kid != Some(kid) by {
                if i > 0 {
                    assert(s[i] == rest[i - 1]);
                }
            }
        }
    } else if s.len() > 0 {
        assert(s.contains(s[0]));
    }
}

/// The key set document lists the keys under `keys`, each as its JWK.
pub proof fn law_key_set_document(s: Seq<JwkView>, i: int)
    ensures
        json::json_get(jwks_document(s), "keys"@) == Some(Json::Arr(jwks_values(s))),
        jwks_values(s).len() == s.len(),
        0 <= i < s.len() ==> jwks_values(s)[i] == jwk::jwk_json(s[i]),
{
}

/// Pruning drops every old key that is not active, and adds none.
pub proof fn law_pruning_drops_old(f: KeyFileView, age: u64, now: u64, e: KeyEntryView)
    requires
        pruned(f, age, now).keys.contains(e),
    ensures
        f.keys.contains(e),
        e.kid == f.active || now - e.created_at <= age,
{
    lemma_kept_only(f.keys, f.active, now - age, e);
}

proof fn lemma_kept_only(s: Seq<KeyEntryView>, active: Seq<char>, cutoff: int, e: KeyEntryView)
    requires
        kept(s, active, cutoff).contains(e),
    ensures
        s.contains(e),
        e.kid == active || e.created_at >= cutoff,
    decreases s.len(),
{
    if s.len() > 0 {
        let less = kept(s.drop_last(), active, cutoff);
        let all = kept(s, active, cutoff);
        let i = choose|i: int| 0 <= i < all.len() && all[i] == e;
        if i < less.len() {
            assert(less[i] == e);
            assert(less.contains(e));
            lemma_kept_only(s.drop_last(), active, cutoff, e);
            let j = choose|j: int| 0 <= j < s.drop_last().len() && s.drop_last()[j] == e;
            assert(s[j] == e);
        } else {
            assert(s[s.len() - 1] == e);
        }
    }
}

/// A keys file is made with one key where there is none, stays as it is where
/// nothing is asked for, gets a new active key by rotation, and keeps its active
/// key when it is pruned.
pub proof fn law_keys_generated(
    f: KeyFileView,
    path: Seq<char>,
    rotate: bool,
    prune: Option<u64>,
    age: u64,
    fresh: KeyEntryView,
    now: u64,
)
    ensures
        generated(None, path, rotate, prune, fresh, now).1 == Some(
            KeyFileView { active: fresh.kid, keys: seq![fresh] },
        ),
        generated(Some(f), path, false, None, fresh, now).1 is None,
        generated(Some(f), path, true, None, fresh, now).1 == Some(
            KeyFileView { active: fresh.kid, keys: f.keys.push(fresh) },
        ),
        generated(Some(f), path, false, Some(age), fresh, now).1 == Some(pruned(f, age, now)),
        generated(Some(f), path, true, Some(age), fresh, now).1 == Some(
            pruned(KeyFileView { active: fresh.kid, keys: f.keys.push(fresh) }, age, now),
        ),
        generated(None, path, rotate, prune, fresh, now).0 == "created "@ + path
            + " with new active key '"@ + fresh.kid + "'"@,
        generated(Some(f), path, true, None, fresh, now).0 == text::trimmed(
            "rotated: new active key '"@ + fresh.kid + "'"@,
        ),
{
}

} // verus!
