//! The keys of other servers: found by discovery, and cached. A token is checked
//! against cached keys, so that a server that is out of reach for a while stops
//! nothing. A key that is not there makes for a fetch, but for one a minute at
//! most.

use vstd::prelude::*;

use crate::ident;
use crate::issuer_keys;
use crate::json;
use crate::json::{Json, JsonValue};
use crate::jwk;
use crate::jwk::{Jwk, JwkView, Jwks};
use crate::sig;
use crate::sig::{SigError, SigErrorCode, SigErrorView};
use crate::table::Table;
use crate::text;

verus! {

/// Keys that were fetched, and when.
pub struct Entry {
    pub jwks: Jwks,
    pub fetched_at: u64,
}

/// The cache, by server and document.
pub struct JwksCache {
    /// Hosts from which the keys of other servers may come.
    pub cross_origin_hosts: Vec<String>,
    pub entries: Table<Entry>,
    pub last_attempt: Table<u64>,
}

/// What a server's keys are cached under.
pub open spec fn cache_key(iss: Seq<char>, dwk: Seq<char>) -> Seq<char> {
    iss + "|"@ + dwk
}

fn key_of(iss: &str, dwk: &str) -> (r: String)
    ensures
        r@ == cache_key(iss@, dwk@),
{
    text::join3(iss, "|", dwk)
}

/// A server that is out of reach. That says nothing of the key, so the caller is
/// not told that it is unknown.
pub open spec fn unavailable(detail: Seq<char>) -> SigErrorView {
    sig::sig_error(SigErrorCode::InvalidRequest, detail)
}

fn out_of_reach(detail: &str) -> (r: SigError)
    ensures
        r@ == unavailable(detail@),
{
    SigError::new(SigErrorCode::InvalidRequest, detail)
}

/// Where a server describes itself.
pub open spec fn metadata_location(iss: Seq<char>, dwk: Seq<char>) -> Seq<char> {
    iss + "/.well-known/"@ + dwk
}

/// Where a server describes itself.
pub fn metadata_url(iss: &str, dwk: &str) -> (r: String)
    ensures
        r@ == metadata_location(iss@, dwk@),
{
    text::join3(iss, "/.well-known/", dwk)
}

/// What is said of a document that could not be fetched.
pub open spec fn not_reached(url: Seq<char>, why: Seq<char>) -> SigErrorView {
    unavailable(
        "cannot reach "@ + url + ": "@ + why + ". This is not a statement about your key."@,
    )
}

/// The error for a document that could not be fetched.
pub fn fetch_failed(url: &str, why: &str) -> (r: SigError)
    ensures
        r@ == not_reached(url@, why@),
{
    let mut out = text::join3("cannot reach ", url, ": ");
    out.append(why);
    out.append(". This is not a statement about your key.");
    out_of_reach(out.as_str())
}

/// Whether a server's keys may come from a URL: from the server's own host, or
/// from one that is listed.
pub open spec fn same_origin(iss: Seq<char>, jwks_uri: Seq<char>, hosts: Seq<Seq<char>>) -> bool {
    match ident::url_host(jwks_uri) {
        Some(h) => ident::url_host(iss) == Some(h) || hosts.contains(h),
        None => false,
    }
}

/// Where a server's keys are, or why its document is not followed. The document
/// must claim the server that it was fetched from.
pub open spec fn keys_location(
    iss: Seq<char>,
    dwk: Seq<char>,
    doc: Json,
    hosts: Seq<Seq<char>>,
) -> Result<Seq<char>, SigErrorView> {
    let url = metadata_location(iss, dwk);
    match json::str_member(doc, "issuer"@) {
        None => Err(
            sig::sig_error(SigErrorCode::IssuerMissing, "metadata issuer mismatch at "@ + url),
        ),
        Some(claimed) => if claimed != iss {
            Err(
                sig::sig_error(
                    SigErrorCode::IssuerMismatch,
                    "metadata issuer mismatch at "@ + url,
                ),
            )
        } else {
            match json::str_member(doc, "jwks_uri"@) {
                None => Err(sig::sig_error(SigErrorCode::InvalidKey, "no jwks_uri in "@ + url)),
                Some(uri) => if same_origin(iss, uri, hosts) {
                    Ok(uri)
                } else {
                    Err(
                        sig::sig_error(
                            SigErrorCode::InvalidKey,
                            "jwks_uri host for "@ + iss
                                + " is cross-origin and not admitted (add it to jwks_cross_origin_hosts to allow)"@,
                        ),
                    )
                },
            }
        },
    }
}

/// The keys of a key set document.
pub open spec fn key_set(doc: Json) -> Option<Seq<Json>> {
    match json::json_get(doc, "keys"@) {
        Some(Json::Arr(keys)) => Some(keys),
        _ => None,
    }
}

/// Reads a key set document. `fault` is what the parser of key sets says against
/// it, which is told where it does not read.
pub fn read_key_set(doc: JsonValue, fault: &str) -> (r: Result<Jwks, SigError>)
    ensures
        match r {
            Ok(k) => key_set(doc@) == Some(k@),
            Err(e) => key_set(doc@) is None && e@ == sig::sig_error(
                SigErrorCode::InvalidKey,
                "invalid JWKS: "@ + fault@,
            ),
        },
{
    if let Some(JsonValue::Array(keys)) = doc.get("keys") {
        let mut out: Vec<JsonValue> = Vec::new();
        let mut i: usize = 0;
        let ghost all = json::elements(keys@);
        proof {
            json::lemma_elements(keys@);
            assert(all.take(0) =~= Seq::empty());
        }
        while i < keys.len()
            invariant
                i <= keys@.len(),
                all == json::elements(keys@),
                all.len() == keys@.len(),
                forall|j: int| 0 <= j < all.len() ==> #[trigger] all[j] == keys@[j]@,
                json::elements(out@) == all.take(i as int),
            decreases keys@.len() - i,
        {
            let ghost before = out@;
            out.push(keys[i].copy());
            proof {
                assert(out@.drop_last() =~= before);
                assert(json::elements(out@) =~= all.take(i + 1));
            }
            i += 1;
        }
        proof {
            assert(all.take(all.len() as int) =~= all);
        }
        return Ok(Jwks { keys: out });
    }
    Err(
        SigError::new(SigErrorCode::InvalidKey, text::join2("invalid JWKS: ", fault).as_str()),
    )
}

/// What is said where a server may not be asked again yet.
pub open spec fn asked_recently(iss: Seq<char>, kid: Seq<char>) -> SigErrorView {
    unavailable(
        "cannot reach "@ + iss + " to resolve kid '"@ + kid
            + "' yet; a fetch was attempted recently and the retry floor is still held. This is not a statement about your key."@,
    )
}

/// What is said of a key that a server does not have.
pub open spec fn no_such_key(iss: Seq<char>, kid: Seq<char>) -> SigErrorView {
    sig::sig_error(SigErrorCode::UnknownKey, "kid '"@ + kid + "' not in JWKS of "@ + iss)
}

impl JwksCache {
    /// A cache without keys.
    pub fn new(cross_origin_hosts: Vec<String>) -> (r: JwksCache)
        ensures
            r.cross_origin_hosts == cross_origin_hosts,
            r.entries@ == Map::<Seq<char>, Entry>::empty(),
            r.last_attempt@ == Map::<Seq<char>, u64>::empty(),
    {
        JwksCache { cross_origin_hosts, entries: Table::new(), last_attempt: Table::new() }
    }

    /// The cached key of a server: one that was fetched less than a day ago.
    pub open spec fn cached(
        &self,
        iss: Seq<char>,
        dwk: Seq<char>,
        kid: Seq<char>,
        now: u64,
    ) -> Option<JwkView> {
        let k = cache_key(iss, dwk);
        if self.entries@.dom().contains(k) && issuer_keys::within(
            self.entries@[k].fetched_at,
            now,
            issuer_keys::MAX_AGE_MS,
        ) {
            jwk::first_key(self.entries@[k].jwks@, kid)
        } else {
            None
        }
    }

    /// Whether a server may not be asked again yet.
    pub open spec fn held(&self, iss: Seq<char>, dwk: Seq<char>, now: u64) -> bool {
        let k = cache_key(iss, dwk);
        self.last_attempt@.dom().contains(k) && issuer_keys::within(
            self.last_attempt@[k],
            now,
            issuer_keys::FETCH_FLOOR_MS,
        )
    }

    /// The cached key of a server. Without one, the keys are fetched.
    pub fn get_key(&self, iss: &str, dwk: &str, kid: &str, now: u64) -> (r: Option<Jwk>)
        ensures
            match r {
                Some(k) => self.cached(iss@, dwk@, kid@, now) == Some(k@),
                None => self.cached(iss@, dwk@, kid@, now) is None,
            },
    {
        let key = key_of(iss, dwk);
        match self.entries.get(key.as_str()) {
            Some(e) => if issuer_keys::is_within(e.fetched_at, now, issuer_keys::MAX_AGE_MS) {
                e.jwks.find(kid)
            } else {
                None
            },
            None => None,
        }
    }

    /// Begins to fetch a server's keys, unless that was tried less than a minute
    /// ago. That it was tried counts, not that it worked.
    pub fn refresh_and_get(&mut self, iss: &str, dwk: &str, kid: &str, now: u64) -> (r: Result<
        (),
        SigError,
    >)
        ensures
            final(self).cross_origin_hosts == old(self).cross_origin_hosts,
            final(self).entries == old(self).entries,
            match r {
                Ok(_) => !old(self).held(iss@, dwk@, now) && final(self).last_attempt@ == old(
                    self,
                ).last_attempt@.insert(cache_key(iss@, dwk@), now),
                Err(e) => old(self).held(iss@, dwk@, now) && final(self).last_attempt@ == old(
                    self,
                ).last_attempt@ && e@ == asked_recently(iss@, kid@),
            },
    {
        let key = key_of(iss, dwk);
        let held = match self.last_attempt.get(key.as_str()) {
            Some(at) => issuer_keys::is_within(*at, now, issuer_keys::FETCH_FLOOR_MS),
            None => false,
        };
        if held {
            let mut out = text::join3("cannot reach ", iss, " to resolve kid '");
            out.append(kid);
            out.append(
                "' yet; a fetch was attempted recently and the retry floor is still held. This is not a statement about your key.",
            );
            return Err(out_of_reach(out.as_str()));
        }
        self.last_attempt.insert(key.as_str(), now);
        Ok(())
    }

    /// Reads out of a server's document where its keys are.
    pub fn read_metadata(&self, iss: &str, dwk: &str, doc: &JsonValue) -> (r: Result<
        String,
        SigError,
    >)
        ensures
            match r {
                Ok(u) => keys_location(
                    iss@,
                    dwk@,
                    doc@,
                    text::list_view(self.cross_origin_hosts@),
                ) == Ok::<Seq<char>, SigErrorView>(u@),
                Err(e) => keys_location(
                    iss@,
                    dwk@,
                    doc@,
                    text::list_view(self.cross_origin_hosts@),
                ) == Err::<Seq<char>, SigErrorView>(e@),
            },
    {
        let url = metadata_url(iss, dwk);
        let mismatch = text::join2("metadata issuer mismatch at ", url.as_str());
        match doc.str_of("issuer") {
            None => {
                return Err(SigError::new(SigErrorCode::IssuerMissing, mismatch.as_str()));
            },
            Some(claimed) => {
                if !text::same(claimed.as_str(), iss) {
                    return Err(SigError::new(SigErrorCode::IssuerMismatch, mismatch.as_str()));
                }
            },
        }
        let uri = match doc.str_of("jwks_uri") {
            Some(u) => u.clone(),
            None => {
                return Err(
                    SigError::new(
                        SigErrorCode::InvalidKey,
                        text::join2("no jwks_uri in ", url.as_str()).as_str(),
                    ),
                );
            },
        };
        if admitted_origin(iss, uri.as_str(), &self.cross_origin_hosts) {
            Ok(uri)
        } else {
            Err(
                SigError::new(
                    SigErrorCode::InvalidKey,
                    text::join3(
                        "jwks_uri host for ",
                        iss,
                        " is cross-origin and not admitted (add it to jwks_cross_origin_hosts to allow)",
                    ).as_str(),
                ),
            )
        }
    }

    /// Keeps keys that were fetched, and gives the one that is wanted.
    pub fn fetched(&mut self, iss: &str, dwk: &str, kid: &str, jwks: Jwks, now: u64) -> (r: Result<
        Jwk,
        SigError,
    >)
        ensures
            final(self).cross_origin_hosts == old(self).cross_origin_hosts,
            final(self).last_attempt == old(self).last_attempt,
            final(self).entries@ == old(self).entries@.insert(
                cache_key(iss@, dwk@),
                (Entry { jwks, fetched_at: now }),
            ),
            match r {
                Ok(k) => jwk::first_key(jwks@, kid@) == Some(k@),
                Err(e) => jwk::first_key(jwks@, kid@) is None && e@ == no_such_key(iss@, kid@),
            },
    {
        let found = jwks.find(kid);
        let key = key_of(iss, dwk);
        self.entries.insert(key.as_str(), Entry { jwks, fetched_at: now });
        match found {
            Some(k) => Ok(k),
            None => {
                let mut out = text::join3("kid '", kid, "' not in JWKS of ");
                out.append(iss);
                Err(SigError::new(SigErrorCode::UnknownKey, out.as_str()))
            },
        }
    }
}

fn admitted_origin(iss: &str, jwks_uri: &str, hosts: &Vec<String>) -> (r: bool)
    ensures
        r == same_origin(iss@, jwks_uri@, text::list_view(hosts@)),
{
    match ident::host_of(jwks_uri) {
        None => false,
        Some(h) => {
            let own = match ident::host_of(iss) {
                Some(ih) => text::same(ih.as_str(), h.as_str()),
                None => false,
            };
            own || crate::config::contains_text(hosts, h.as_str())
        },
    }
}

// ------------------------------------------------------------------ laws

/// A server is asked once a minute at most: an attempt holds off the next one,
/// whether or not it worked.
pub proof fn law_one_fetch_a_minute(
    cache: JwksCache,
    after: JwksCache,
    iss: Seq<char>,
    dwk: Seq<char>,
    now: u64,
    later: u64,
)
    requires
        after.last_attempt@ == cache.last_attempt@.insert(cache_key(iss, dwk), now),
        later < now + issuer_keys::FETCH_FLOOR_MS,
    ensures
        after.held(iss, dwk, later),
{
}

/// Keys that were fetched are used for a day without asking again.
pub proof fn law_fetched_keys_serve_a_day(
    after: JwksCache,
    iss: Seq<char>,
    dwk: Seq<char>,
    kid: Seq<char>,
    entry: Entry,
    later: u64,
)
    requires
        after.entries@.dom().contains(cache_key(iss, dwk)),
        after.entries@[cache_key(iss, dwk)] == entry,
        later < entry.fetched_at + issuer_keys::MAX_AGE_MS,
    ensures
        after.cached(iss, dwk, kid, later) == jwk::first_key(entry.jwks@, kid),
{
}

/// The keys of a server come from its own host, where no other host is listed.
pub proof fn law_keys_from_own_host(iss: Seq<char>, dwk: Seq<char>, doc: Json)
    ensures
        keys_location(iss, dwk, doc, Seq::empty()) matches Ok(uri) ==> ident::url_host(uri) is Some
            && ident::url_host(uri) == ident::url_host(iss) && json::str_member(doc, "issuer"@)
            == Some(iss),
{
}

/// A server that is out of reach is never reported as an unknown key.
pub proof fn law_unreachable_is_not_unknown(url: Seq<char>, why: Seq<char>, iss: Seq<char>, kid: Seq<
    char,
>)
    ensures
        not_reached(url, why).code != SigErrorCode::UnknownKey,
        asked_recently(iss, kid).code != SigErrorCode::UnknownKey,
        crate::problem::refused(not_reached(url, why)).headers.len() == 0,
        crate::problem::refused(asked_recently(iss, kid)).headers.len() == 0,
{
}

/// Keys are cached by server and document, and a server's document is looked for
/// under `/.well-known/`.
pub proof fn law_cache_places(iss: Seq<char>, dwk: Seq<char>)
    ensures
        cache_key(iss, dwk) == iss + "|"@ + dwk,
        metadata_location(iss, dwk) == iss + "/.well-known/"@ + dwk,
{
}

/// A document is followed exactly where it claims the server and names a key set
/// on the server's own host or on a listed one; what is wrong is told by its code.
pub proof fn law_document_followed(
    iss: Seq<char>,
    dwk: Seq<char>,
    doc: Json,
    hosts: Seq<Seq<char>>,
    uri: Seq<char>,
)
    ensures
        (keys_location(iss, dwk, doc, hosts) == Ok::<Seq<char>, SigErrorView>(uri)) == (
        json::str_member(doc, "issuer"@) == Some(iss) && json::str_member(doc, "jwks_uri"@) == Some(
            uri,
        ) && (ident::url_host(uri) matches Some(h) && (ident::url_host(iss) == Some(h)
            || hosts.contains(h)))),
        json::str_member(doc, "issuer"@) is None ==> (keys_location(
            iss,
            dwk,
            doc,
            hosts,
        ) matches Err(e) && e.code is IssuerMissing),
        json::str_member(doc, "issuer"@) matches Some(c) ==> (c != iss ==> (keys_location(
            iss,
            dwk,
            doc,
            hosts,
        ) matches Err(e) && e.code is IssuerMismatch)),
        json::str_member(doc, "issuer"@) == Some(iss) ==> (keys_location(
            iss,
            dwk,
            doc,
            hosts,
        ) matches Err(e) ==> e.code is InvalidKey),
{
}

/// A cached key is the first of its identifier in what was fetched of that server
/// and document less than a day ago.
pub proof fn law_cached_key(cache: JwksCache, iss: Seq<char>, dwk: Seq<char>, kid: Seq<char>, now: u64)
    ensures
        !cache.entries@.dom().contains(iss + "|"@ + dwk) ==> cache.cached(iss, dwk, kid, now) is None,
        cache.entries@.dom().contains(iss + "|"@ + dwk) ==> cache.cached(iss, dwk, kid, now) == (
        if now < cache.entries@[iss + "|"@ + dwk].fetched_at + 86400000 {
            jwk::first_key(cache.entries@[iss + "|"@ + dwk].jwks@, kid)
        } else {
            None
        }),
        cache.held(iss, dwk, now) == (cache.last_attempt@.dom().contains(iss + "|"@ + dwk) && now
            < cache.last_attempt@[iss + "|"@ + dwk] + 60000),
{
}

/// A key set is what stands as an array under `keys`.
pub proof fn law_key_set(doc: Json, keys: Seq<Json>)
    ensures
        (key_set(doc) == Some(keys)) == (json::json_get(doc, "keys"@) == Some(Json::Arr(keys))),
{
}

/// A key that a server does not have is unknown; a server that cannot be asked
/// makes the request one that cannot be judged.
pub proof fn law_told_apart(url: Seq<char>, why: Seq<char>, iss: Seq<char>, kid: Seq<char>)
    ensures
        no_such_key(iss, kid).code is UnknownKey,
        not_reached(url, why).code is InvalidRequest,
        asked_recently(iss, kid).code is InvalidRequest,
        no_such_key(iss, kid).detail == "kid '"@ + kid + "' not in JWKS of "@ + iss,
{
}

} // verus!
