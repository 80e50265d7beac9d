//! Trusted issuers at run time, and the keys that their assertions are
//! verified with.
//!
//! Key sets and certificates that stand in files or in the configuration are
//! read once, so that a misconfiguration is seen at the start. Key sets of
//! other servers are fetched on demand: at most once a minute, kept for a day
//! at most, and fetched anew when no key fits.

use vstd::prelude::*;

use crate::anyjwk;
use crate::anyjwk::{AnyJwk, AnyJwkView};
use crate::config;
use crate::config::TrustedIssuer;
use crate::json;
use crate::json::{Json, JsonValue};
use crate::text;
use crate::x509;

verus! {

/// How long after a fetch no other one is made, in milliseconds.
pub const FETCH_FLOOR_MS: u64 = 60000;

/// How long fetched keys are used, in milliseconds.
pub const MAX_AGE_MS: u64 = 86400000;

/// Whether less than `limit` has passed since `then`.
pub open spec fn within(then: u64, now: u64, limit: u64) -> bool {
    now - then < limit
}

/// Whether less than `limit` has passed since `then`. A clock that went back
/// counts as no time passed.
pub fn is_within(then: u64, now: u64, limit: u64) -> (r: bool)
    ensures
        r == within(then, now, limit),
{
    now < then || now - then < limit
}

/// Keys that were fetched, and when.
pub struct RemoteCache {
    pub keys: Option<(Vec<AnyJwk>, u64)>,
    pub last_attempt: Option<u64>,
}

/// The files that an issuer names, as far as its type reads them: the contents,
/// or why a file could not be read.
pub struct IssuerFiles {
    pub jwks: Result<Vec<u8>, String>,
    pub ca_bundle: Result<Vec<u8>, String>,
    pub crl: Result<Vec<u8>, String>,
}

/// A trusted issuer with what is known of its keys.
pub struct IssuerRuntime {
    pub cfg: TrustedIssuer,
    /// Keys that are known in advance.
    pub static_keys: Option<Vec<AnyJwk>>,
    /// Trusted roots and revocation lists, in DER.
    pub ca_roots: Vec<Vec<u8>>,
    pub crls: Vec<Vec<u8>>,
    /// Keys that were fetched.
    pub cache: RemoteCache,
    /// Whether keys may be fetched over `http` and from private addresses.
    pub insecure_egress: bool,
}

/// What is read for an issuer at the start.
pub struct MaterialView {
    pub static_keys: Option<Seq<AnyJwkView>>,
    pub ca_roots: Seq<Seq<u8>>,
    pub crls: Seq<Seq<u8>>,
}

/// Keys, where there are some.
pub open spec fn opt_keys(o: Option<Vec<AnyJwk>>) -> Option<Seq<AnyJwkView>> {
    match o {
        Some(v) => Some(anyjwk::keys_view(v@)),
        None => None,
    }
}

/// How messages name an issuer.
pub open spec fn named(name: Seq<char>) -> Seq<char> {
    "trusted issuer '"@ + name + "'"@
}

/// Material of fixed keys only.
pub open spec fn fixed_keys(keys: Option<Seq<AnyJwkView>>) -> MaterialView {
    MaterialView { static_keys: keys, ca_roots: Seq::empty(), crls: Seq::empty() }
}

/// The keys that the configuration holds.
pub open spec fn inline_keys(ctx: Seq<char>, set: Json) -> Result<MaterialView, Seq<char>> {
    let keys = anyjwk::keys_of_set(set);
    if keys.len() == 0 {
        Err(ctx + ": inline jwks contains no supported keys"@)
    } else {
        Ok(fixed_keys(Some(keys)))
    }
}

/// The keys that a file holds.
pub open spec fn file_keys(
    ctx: Seq<char>,
    path: Seq<char>,
    file: Result<Vec<u8>, String>,
) -> Result<MaterialView, Seq<char>> {
    match file {
        Err(e) => Err(ctx + ": cannot read jwks_file "@ + path + ": "@ + e@),
        Ok(raw) => match json::json_parsed(raw@) {
            None => Err(ctx + ": invalid JWKS in "@ + path + ": "@ + json::json_error(raw@)),
            Some(set) => {
                let keys = anyjwk::keys_of_set(set);
                if keys.len() == 0 {
                    Err(ctx + ": "@ + path + " contains no supported keys"@)
                } else {
                    Ok(fixed_keys(Some(keys)))
                }
            },
        },
    }
}

/// The roots and revocation lists that files hold.
pub open spec fn file_roots(
    ctx: Seq<char>,
    path: Seq<char>,
    crl_path: Option<Seq<char>>,
    files: IssuerFiles,
) -> Result<MaterialView, Seq<char>> {
    match files.ca_bundle {
        Err(e) => Err(ctx + ": cannot read ca_bundle_file "@ + path + ": "@ + e@),
        Ok(raw) => {
            let roots = x509::pem_of(raw@, "CERTIFICATE"@);
            if roots.len() == 0 {
                Err(ctx + ": "@ + path + " contains no certificates"@)
            } else {
                match crl_path {
                    None => Ok(
                        MaterialView { static_keys: None, ca_roots: roots, crls: Seq::empty() },
                    ),
                    Some(p) => match files.crl {
                        Err(e) => Err(ctx + ": cannot read crl_file "@ + p + ": "@ + e@),
                        Ok(list) => {
                            let crls = x509::pem_of(list@, "X509 CRL"@);
                            if crls.len() == 0 {
                                Err(ctx + ": "@ + p + " contains no CRLs"@)
                            } else {
                                Ok(MaterialView { static_keys: None, ca_roots: roots, crls })
                            }
                        },
                    },
                }
            }
        },
    }
}

/// What is read for an issuer at the start, or what is wrong with it.
pub open spec fn loaded(cfg: TrustedIssuer, files: IssuerFiles) -> Result<
    MaterialView,
    Seq<char>,
> {
    let ctx = named(cfg.name@);
    let kind = cfg.issuer_type@;
    if kind == "x5c"@ && cfg.ca_bundle_file is Some {
        file_roots(ctx, cfg.ca_bundle_file->0@, text::opt_view(cfg.crl_file), files)
    } else if (kind == "jwks"@ || kind == "spiffe"@) && cfg.jwks is Some {
        inline_keys(ctx, cfg.jwks->0@)
    } else if (kind == "jwks_file"@ || kind == "spiffe"@) && cfg.jwks_file is Some {
        file_keys(ctx, cfg.jwks_file->0@, files.jwks)
    } else {
        Ok(fixed_keys(None))
    }
}

/// A trust domain with its scheme.
pub open spec fn domain_of(cfg: TrustedIssuer) -> Option<Seq<char>> {
    match cfg.trust_domain {
        Some(td) => Some("spiffe://"@ + config::bare_domain(td@)),
        None => None,
    }
}

/// The keys of a list that fit an algorithm and, where one is given, have an
/// identifier.
pub open spec fn fitting(keys: Seq<AnyJwkView>, kid: Option<Seq<char>>, alg: Seq<char>) -> Seq<
    AnyJwkView,
>
    decreases keys.len(),
{
    if keys.len() == 0 {
        Seq::empty()
    } else {
        let rest = fitting(keys.drop_last(), kid, alg);
        let k = keys.last();
        if anyjwk::fits(k, alg) && (kid is None || k.kid == kid) {
            rest.push(k)
        } else {
            rest
        }
    }
}

/// The keys to try: those with the identifier, else all that fit the algorithm.
pub open spec fn selected(keys: Seq<AnyJwkView>, kid: Option<Seq<char>>, alg: Seq<char>) -> Seq<
    AnyJwkView,
> {
    if kid is Some && fitting(keys, kid, alg).len() > 0 {
        fitting(keys, kid, alg)
    } else {
        fitting(keys, None, alg)
    }
}

fn filter_keys(keys: &Vec<AnyJwk>, kid: Option<&str>, alg: &str) -> (r: Vec<AnyJwk>)
    ensures
        anyjwk::keys_view(r@) == fitting(
            anyjwk::keys_view(keys@),
            crate::jwt::opt_str_view(kid),
            alg@,
        ),
{
    let ghost all = anyjwk::keys_view(keys@);
    let ghost id = crate::jwt::opt_str_view(kid);
    let mut out: Vec<AnyJwk> = Vec::new();
    let mut i: usize = 0;
    proof {
        assert(all.take(0) =~= Seq::empty());
        assert(anyjwk::keys_view(out@) =~= Seq::empty());
    }
    while i < keys.len()
        invariant
            i <= keys@.len(),
            all == anyjwk::keys_view(keys@),
            id == crate::jwt::opt_str_view(kid),
            anyjwk::keys_view(out@) == fitting(all.take(i as int), id, alg@),
        decreases keys@.len() - i,
    {
        proof {
            assert(all.take(i + 1).drop_last() =~= all.take(i as int));
            assert(all.take(i + 1).last() == keys@[i as int]@);
        }
        let wanted = match kid {
            None => true,
            Some(id) => match &keys[i].kid {
                Some(own) => text::same(own.as_str(), id),
                None => false,
            },
        };
        if wanted && keys[i].supports_alg(alg) {
            let ghost was = out@;
            let k = keys[i].clone();
            out.push(k);
            proof {
                assert(anyjwk::keys_view(out@) =~= anyjwk::keys_view(was).push(k@));
            }
        }
        i += 1;
    }
    proof {
        assert(all.take(all.len() as int) =~= all);
    }
    out
}

/// The keys to try: those with the identifier, else all that fit the algorithm.
pub fn select(keys: &Vec<AnyJwk>, kid: Option<&str>, alg: &str) -> (r: Vec<AnyJwk>)
    ensures
        anyjwk::keys_view(r@) == selected(
            anyjwk::keys_view(keys@),
            crate::jwt::opt_str_view(kid),
            alg@,
        ),
{
    if kid.is_some() {
        let by_kid = filter_keys(keys, kid, alg);
        if by_kid.len() > 0 {
            return by_kid;
        }
    }
    filter_keys(keys, None, alg)
}

fn describe(ctx: &str, what: &str, path: &str, rest: &str) -> (r: String)
    ensures
        r@ == ctx@ + what@ + path@ + rest@,
{
    let mut out = text::join3(ctx, what, path);
    out.append(rest);
    out
}

fn describe_fault(ctx: &str, what: &str, path: &str, fault: &str) -> (r: String)
    ensures
        r@ == ctx@ + what@ + path@ + ": "@ + fault@,
{
    let mut out = describe(ctx, what, path, ": ");
    out.append(fault);
    out
}

fn no_bytes() -> (r: Vec<Vec<u8>>)
    ensures
        text::bytes_view(r@) == Seq::<Seq<u8>>::empty(),
{
    let r: Vec<Vec<u8>> = Vec::new();
    proof {
        assert(text::bytes_view(r@) =~= Seq::empty());
    }
    r
}

impl IssuerRuntime {
    /// What was read for the issuer at the start.
    pub open spec fn material(&self) -> MaterialView {
        MaterialView {
            static_keys: opt_keys(self.static_keys),
            ca_roots: text::bytes_view(self.ca_roots@),
            crls: text::bytes_view(self.crls@),
        }
    }

    /// Reads what is known of an issuer at the start.
    pub fn load(cfg: TrustedIssuer, global_insecure: bool, files: IssuerFiles) -> (r: Result<
        IssuerRuntime,
        String,
    >)
        ensures
            match r {
                Ok(rt) => loaded(cfg, files) == Ok::<MaterialView, Seq<char>>(rt.material())
                    && rt.cfg == cfg && rt.cache.keys is None && rt.cache.last_attempt is None
                    && rt.insecure_egress == (cfg.allow_insecure_egress || global_insecure),
                Err(e) => loaded(cfg, files) == Err::<MaterialView, Seq<char>>(e@),
            },
    {
        let name = text::join3("trusted issuer '", cfg.name.as_str(), "'");
        let ctx = name.as_str();
        let spiffe = text::same(cfg.issuer_type.as_str(), "spiffe");
        let mut static_keys: Option<Vec<AnyJwk>> = None;
        let mut ca_roots = no_bytes();
        let mut crls = no_bytes();
        if text::same(cfg.issuer_type.as_str(), "x5c") && cfg.ca_bundle_file.is_some() {
            if let Some(path) = &cfg.ca_bundle_file {
                match &files.ca_bundle {
                    Err(e) => {
                        return Err(
                            describe_fault(
                                ctx,
                                ": cannot read ca_bundle_file ",
                                path.as_str(),
                                e.as_str(),
                            ),
                        );
                    },
                    Ok(raw) => {
                        ca_roots = x509::pem_blocks(raw.as_slice(), "CERTIFICATE");
                        if ca_roots.len() == 0 {
                            return Err(
                                describe(ctx, ": ", path.as_str(), " contains no certificates"),
                            );
                        }
                        if let Some(crl_path) = &cfg.crl_file {
                            match &files.crl {
                                Err(e) => {
                                    return Err(
                                        describe_fault(
                                            ctx,
                                            ": cannot read crl_file ",
                                            crl_path.as_str(),
                                            e.as_str(),
                                        ),
                                    );
                                },
                                Ok(list) => {
                                    crls = x509::pem_blocks(list.as_slice(), "X509 CRL");
                                    if crls.len() == 0 {
                                        return Err(
                                            describe(
                                                ctx,
                                                ": ",
                                                crl_path.as_str(),
                                                " contains no CRLs",
                                            ),
                                        );
                                    }
                                },
                            }
                        }
                    },
                }
            }
        } else if (text::same(cfg.issuer_type.as_str(), "jwks") || spiffe) && cfg.jwks.is_some() {
            if let Some(set) = &cfg.jwks {
                let keys = AnyJwk::parse_jwks(set);
                if keys.len() == 0 {
                    return Err(text::join2(ctx, ": inline jwks contains no supported keys"));
                }
                static_keys = Some(keys);
            }
        } else if (text::same(cfg.issuer_type.as_str(), "jwks_file") || spiffe)
            && cfg.jwks_file.is_some() {
            if let Some(path) = &cfg.jwks_file {
                match &files.jwks {
                    Err(e) => {
                        return Err(
                            describe_fault(
                                ctx,
                                ": cannot read jwks_file ",
                                path.as_str(),
                                e.as_str(),
                            ),
                        );
                    },
                    Ok(raw) => match json::parse(raw.as_slice()) {
                        Err(e) => {
                            return Err(
                                describe_fault(
                                    ctx,
                                    ": invalid JWKS in ",
                                    path.as_str(),
                                    e.as_str(),
                                ),
                            );
                        },
                        Ok(set) => {
                            let keys = AnyJwk::parse_jwks(&set);
                            if keys.len() == 0 {
                                return Err(
                                    describe(
                                        ctx,
                                        ": ",
                                        path.as_str(),
                                        " contains no supported keys",
                                    ),
                                );
                            }
                            static_keys = Some(keys);
                        },
                    },
                }
            }
        }
        let insecure_egress = cfg.allow_insecure_egress || global_insecure;
        Ok(
            IssuerRuntime {
                cfg,
                static_keys,
                ca_roots,
                crls,
                cache: RemoteCache { keys: None, last_attempt: None },
                insecure_egress,
            },
        )
    }

    /// Whether assertions carry a certificate chain.
    pub fn is_x5c(&self) -> (r: bool)
        ensures
            r == (self.cfg.issuer_type@ == "x5c"@),
    {
        text::same(self.cfg.issuer_type.as_str(), "x5c")
    }

    /// Whether assertions are SPIFFE documents.
    pub fn is_spiffe(&self) -> (r: bool)
        ensures
            r == (self.cfg.issuer_type@ == "spiffe"@),
    {
        text::same(self.cfg.issuer_type.as_str(), "spiffe")
    }

    /// The trust domain, with its scheme.
    pub fn spiffe_domain(&self) -> (r: Option<String>)
        ensures
            text::opt_view(r) == domain_of(self.cfg),
    {
        match &self.cfg.trust_domain {
            Some(td) => {
                let domain = match text::strip_prefix(td.as_str(), "spiffe://") {
                    Some(d) => d,
                    None => td.clone(),
                };
                Some(text::join2("spiffe://", domain.as_str()))
            },
            None => None,
        }
    }
}

// ------------------------------------------------------------ resolution

/// An identifier in a message.
pub open spec fn shown(kid: Option<Seq<char>>) -> Seq<char> {
    match kid {
        Some(k) => "Some("@ + text::shown(k) + ")"@,
        None => "None"@,
    }
}

fn show(kid: Option<&str>) -> (r: String)
    ensures
        r@ == shown(crate::jwt::opt_str_view(kid)),
{
    match kid {
        Some(k) => text::join3("Some(", text::show(k).as_str(), ")"),
        None => "None".to_owned(),
    }
}

/// What to do for the keys of an issuer.
pub enum KeyLookup {
    /// These are the keys to try.
    Keys(Vec<AnyJwk>),
    /// There is none.
    Refused(String),
    /// They have to be fetched.
    Fetch,
}

/// The same, over what the keys hold.
pub enum LookupView {
    Keys(Seq<AnyJwkView>),
    Refused(Seq<char>),
    Fetch,
}

impl KeyLookup {
    /// What is to be done.
    pub open spec fn view(&self) -> LookupView {
        match self {
            KeyLookup::Keys(k) => LookupView::Keys(anyjwk::keys_view(k@)),
            KeyLookup::Refused(e) => LookupView::Refused(e@),
            KeyLookup::Fetch => LookupView::Fetch,
        }
    }
}

/// Keys that were fetched less than a day ago and that fit.
pub open spec fn cached(
    cache: RemoteCache,
    kid: Option<Seq<char>>,
    alg: Seq<char>,
    now: u64,
) -> Seq<AnyJwkView> {
    match cache.keys {
        Some((keys, at)) => if within(at, now, MAX_AGE_MS) {
            selected(anyjwk::keys_view(keys@), kid, alg)
        } else {
            Seq::empty()
        },
        None => Seq::empty(),
    }
}

/// What to do for the keys of an issuer.
pub open spec fn lookup(
    rt: IssuerRuntime,
    kid: Option<Seq<char>>,
    alg: Seq<char>,
    now: u64,
) -> LookupView {
    match rt.static_keys {
        Some(keys) => LookupView::Keys(selected(anyjwk::keys_view(keys@), kid, alg)),
        None => if rt.cfg.issuer_type@ == "x5c"@ {
            LookupView::Refused("x5c issuers resolve keys from the certificate chain"@)
        } else if cached(rt.cache, kid, alg, now).len() > 0 {
            LookupView::Keys(cached(rt.cache, kid, alg, now))
        } else if rt.cache.last_attempt matches Some(t) && within(t, now, FETCH_FLOOR_MS) {
            LookupView::Refused(
                "no key for kid "@ + shown(kid) + " at issuer '"@ + rt.cfg.name@
                    + "' (fetch floor active)"@,
            )
        } else {
            LookupView::Fetch
        },
    }
}

impl IssuerRuntime {
    /// What to do for the keys that a token may be verified with. Fixed keys
    /// and cached keys are at hand; a fetch is noted, and is not asked for again
    /// within a minute.
    pub fn resolve_keys(&mut self, kid: Option<&str>, alg: &str, now: u64) -> (r: KeyLookup)
        ensures
            r@ == lookup(*old(self), crate::jwt::opt_str_view(kid), alg@, now),
            final(self).cfg == old(self).cfg,
            final(self).material() == old(self).material(),
            final(self).insecure_egress == old(self).insecure_egress,
            final(self).cache.keys == old(self).cache.keys,
            final(self).cache.last_attempt == (if r is Fetch {
                Some(now)
            } else {
                old(self).cache.last_attempt
            }),
    {
        if let Some(keys) = &self.static_keys {
            return KeyLookup::Keys(select(keys, kid, alg));
        }
        if self.is_x5c() {
            return KeyLookup::Refused(
                "x5c issuers resolve keys from the certificate chain".to_owned(),
            );
        }
        if let Some((keys, at)) = &self.cache.keys {
            if is_within(*at, now, MAX_AGE_MS) {
                let found = select(keys, kid, alg);
                if found.len() > 0 {
                    return KeyLookup::Keys(found);
                }
            }
        }
        if let Some(last) = self.cache.last_attempt {
            if is_within(last, now, FETCH_FLOOR_MS) {
                let mut message = text::join3(
                    "no key for kid ",
                    show(kid).as_str(),
                    " at issuer '",
                );
                message.append(self.cfg.name.as_str());
                message.append("' (fetch floor active)");
                return KeyLookup::Refused(message);
            }
        }
        self.cache.last_attempt = Some(now);
        KeyLookup::Fetch
    }

    /// Keeps fetched keys, and gives those to try.
    pub fn fetched(&mut self, keys: Vec<AnyJwk>, kid: Option<&str>, alg: &str, now: u64) -> (r:
        Result<Vec<AnyJwk>, String>)
        ensures
            ({
                let found = selected(
                    anyjwk::keys_view(keys@),
                    crate::jwt::opt_str_view(kid),
                    alg@,
                );
                match r {
                    Ok(v) => found.len() > 0 && anyjwk::keys_view(v@) == found,
                    Err(e) => found.len() == 0 && e@ == "no key matching kid "@ + shown(
                        crate::jwt::opt_str_view(kid),
                    ) + " / alg "@ + alg@ + " at issuer '"@ + old(self).cfg.name@ + "'"@,
                }
            }),
            final(self).cfg == old(self).cfg,
            final(self).material() == old(self).material(),
            final(self).insecure_egress == old(self).insecure_egress,
            final(self).cache.keys == Some((keys, now)),
            final(self).cache.last_attempt == old(self).cache.last_attempt,
    {
        let found = select(&keys, kid, alg);
        self.cache.keys = Some((keys, now));
        if found.len() == 0 {
            let mut message = text::join3(
                "no key matching kid ",
                show(kid).as_str(),
                " / alg ",
            );
            message.append(alg);
            message.append(" at issuer '");
            message.append(self.cfg.name.as_str());
            message.append("'");
            Err(message)
        } else {
            Ok(found)
        }
    }
}

/// Where the keys of an issuer are.
pub enum KeySource {
    /// The key set has this URL.
    Direct(String),
    /// The discovery document at this URL says where.
    Discovery(String),
}

/// The same, as mathematics has it.
pub enum SourceView {
    Direct(Seq<char>),
    Discovery(Seq<char>),
}

impl KeySource {
    /// Where the keys are.
    pub open spec fn view(&self) -> SourceView {
        match self {
            KeySource::Direct(u) => SourceView::Direct(u@),
            KeySource::Discovery(u) => SourceView::Discovery(u@),
        }
    }
}

/// The issuer without trailing slashes.
pub open spec fn issuer_base(cfg: TrustedIssuer) -> Seq<char> {
    text::trimmed_end_of(cfg.issuer@, '/')
}

/// Where the keys of an issuer are: at the URL that the configuration names,
/// else where its discovery document says.
pub open spec fn source(cfg: TrustedIssuer) -> SourceView {
    match cfg.jwks_uri {
        Some(u) => SourceView::Direct(u@),
        None => SourceView::Discovery(issuer_base(cfg) + "/.well-known/openid-configuration"@),
    }
}

/// The key set that a discovery document names. The document must be that of
/// the issuer.
pub open spec fn discovered(cfg: TrustedIssuer, doc: Json) -> Result<Seq<char>, Seq<char>> {
    let claimed = json::str_member(doc, "issuer"@);
    if claimed is None || text::trimmed_end_of(claimed->0, '/') != issuer_base(cfg) {
        Err(
            "OIDC discovery issuer mismatch for '"@ + cfg.name@ + "' (got "@ + shown(claimed)
                + ")"@,
        )
    } else {
        match json::str_member(doc, "jwks_uri"@) {
            Some(u) => Ok(u),
            None => Err("no jwks_uri in OIDC discovery for '"@ + cfg.name@ + "'"@),
        }
    }
}

/// Where the keys of an issuer are.
pub fn key_source(cfg: &TrustedIssuer) -> (r: KeySource)
    ensures
        r@ == source(*cfg),
{
    match &cfg.jwks_uri {
        Some(u) => KeySource::Direct(u.clone()),
        None => {
            let base = text::trim_end_of(cfg.issuer.as_str(), '/');
            KeySource::Discovery(
                text::join2(base.as_str(), "/.well-known/openid-configuration"),
            )
        },
    }
}

/// Reads a discovery document.
pub fn read_discovery(cfg: &TrustedIssuer, doc: &JsonValue) -> (r: Result<String, String>)
    ensures
        match r {
            Ok(u) => discovered(*cfg, doc@) == Ok::<Seq<char>, Seq<char>>(u@),
            Err(e) => discovered(*cfg, doc@) == Err::<Seq<char>, Seq<char>>(e@),
        },
{
    let claimed = doc.str_of("issuer");
    let matches_issuer = match claimed {
        Some(s) => {
            let base = text::trim_end_of(cfg.issuer.as_str(), '/');
            let own = text::trim_end_of(s.as_str(), '/');
            text::same(own.as_str(), base.as_str())
        },
        None => false,
    };
    if !matches_issuer {
        let got = match claimed {
            Some(s) => show(Some(s.as_str())),
            None => show(None),
        };
        let mut message = text::join3(
            "OIDC discovery issuer mismatch for '",
            cfg.name.as_str(),
            "' (got ",
        );
        message.append(got.as_str());
        message.append(")");
        return Err(message);
    }
    match doc.str_of("jwks_uri") {
        Some(u) => Ok(u.clone()),
        None => Err(
            text::join3("no jwks_uri in OIDC discovery for '", cfg.name.as_str(), "'"),
        ),
    }
}

/// Reads a fetched key set; one without usable keys is an error.
pub fn read_key_set(cfg: &TrustedIssuer, set: &JsonValue) -> (r: Result<Vec<AnyJwk>, String>)
    ensures
        match r {
            Ok(v) => anyjwk::keys_view(v@) == anyjwk::keys_of_set(set@)
                && anyjwk::keys_of_set(set@).len() > 0,
            Err(e) => anyjwk::keys_of_set(set@).len() == 0 && e@ == "JWKS for issuer '"@
                + cfg.name@ + "' contains no supported keys"@,
        },
{
    let keys = AnyJwk::parse_jwks(set);
    if keys.len() == 0 {
        return Err(
            text::join3(
                "JWKS for issuer '",
                cfg.name.as_str(),
                "' contains no supported keys",
            ),
        );
    }
    Ok(keys)
}

/// What a failed fetch of the discovery document is reported as.
pub fn discovery_failed(cfg: &TrustedIssuer, e: &str) -> (r: String)
    ensures
        r@ == "OIDC discovery for '"@ + cfg.name@ + "': "@ + e@,
{
    let mut out = text::join3("OIDC discovery for '", cfg.name.as_str(), "': ");
    out.append(e);
    out
}

/// What a failed fetch of the key set is reported as.
pub fn key_set_failed(cfg: &TrustedIssuer, e: &str) -> (r: String)
    ensures
        r@ == "JWKS fetch for '"@ + cfg.name@ + "': "@ + e@,
{
    let mut out = text::join3("JWKS fetch for '", cfg.name.as_str(), "': ");
    out.append(e);
    out
}

/// Between two fetches of an issuer's keys at least a minute passes.
pub proof fn law_fetch_floor(
    rt: IssuerRuntime,
    kid: Option<Seq<char>>,
    alg: Seq<char>,
    last: u64,
    now: u64,
)
    requires
        rt.cache.last_attempt == Some(last),
        lookup(rt, kid, alg, now) is Fetch,
    ensures
        now >= last + FETCH_FLOOR_MS,
{
}

/// A key that does not fit the algorithm is never tried, and one with another
/// identifier only where none has the identifier.
pub proof fn law_selected_keys_fit(
    keys: Seq<AnyJwkView>,
    kid: Option<Seq<char>>,
    alg: Seq<char>,
    i: int,
)
    requires
        0 <= i < selected(keys, kid, alg).len(),
    ensures
        anyjwk::fits(selected(keys, kid, alg)[i], alg),
        kid is Some && selected(keys, kid, alg)[i].kid != kid ==> fitting(keys, kid, alg).len()
            == 0,
{
    lemma_fitting(keys, kid, alg);
    lemma_fitting(keys, None, alg);
}

proof fn lemma_fitting(keys: Seq<AnyJwkView>, kid: Option<Seq<char>>, alg: Seq<char>)
    ensures
        forall|i: int|
            0 <= i < fitting(keys, kid, alg).len() ==> anyjwk::fits(
                #[trigger] fitting(keys, kid, alg)[i],
                alg,
            ) && (kid is None || fitting(keys, kid, alg)[i].kid == kid),
    decreases keys.len(),
{
    if keys.len() > 0 {
        lemma_fitting(keys.drop_last(), kid, alg);
    }
}

/// Fetched keys are used for a day, and no fetch follows another within a minute;
/// a clock that went back counts as no time passed.
pub proof fn law_ages(then: u64, now: u64, limit: u64)
    ensures
        MAX_AGE_MS == 24 * 60 * 60 * 1000,
        FETCH_FLOOR_MS == 60 * 1000,
        now >= then + limit ==> !within(then, now, limit),
        now < then + limit ==> within(then, now, limit),
{
}

/// The keys to try are all those, in order, that fit the algorithm and have the
/// identifier; where none has it, all that fit the algorithm.
pub proof fn law_keys_to_try(
    keys: Seq<AnyJwkView>,
    kid: Option<Seq<char>>,
    alg: Seq<char>,
    k: AnyJwkView,
)
    ensures
        fitting(Seq::empty(), kid, alg).len() == 0,
        anyjwk::fits(k, alg) && (kid is None || k.kid == kid) ==> fitting(keys.push(k), kid, alg)
            == fitting(keys, kid, alg).push(k),
        !anyjwk::fits(k, alg) || (kid is Some && k.kid != kid) ==> fitting(keys.push(k), kid, alg)
            == fitting(keys, kid, alg),
        fitting(keys, kid, alg).len() > 0 ==> selected(keys, kid, alg) == fitting(keys, kid, alg),
        fitting(keys, kid, alg).len() == 0 ==> selected(keys, kid, alg) == fitting(keys, None, alg),
{
    assert(keys.push(k).drop_last() =~= keys);
}

/// Where the keys of an issuer come from: fixed keys serve always; else those
/// that were fetched less than a day ago and fit; else they are fetched, unless
/// that was tried less than a minute ago.
pub proof fn law_lookup(rt: IssuerRuntime, kid: Option<Seq<char>>, alg: Seq<char>, now: u64)
    ensures
        rt.static_keys matches Some(keys) ==> lookup(rt, kid, alg, now) == LookupView::Keys(
            selected(anyjwk::keys_view(keys@), kid, alg),
        ),
        rt.static_keys is None && rt.cfg.issuer_type@ == "x5c"@ ==> lookup(
            rt,
            kid,
            alg,
            now,
        ) is Refused,
        rt.static_keys is None && rt.cfg.issuer_type@ != "x5c"@ ==> (rt.cache.keys matches Some(
            (keys, at),
        ) ==> (now < at + 86400000 && selected(anyjwk::keys_view(keys@), kid, alg).len() > 0
            ==> lookup(rt, kid, alg, now) == LookupView::Keys(
            selected(anyjwk::keys_view(keys@), kid, alg),
        ))),
        rt.static_keys is None && rt.cfg.issuer_type@ != "x5c"@ && (rt.cache.keys matches Some(
            (keys, at),
        ) ==> now >= at + 86400000 || selected(anyjwk::keys_view(keys@), kid, alg).len() == 0)
            ==> lookup(rt, kid, alg, now) is Fetch == (rt.cache.last_attempt matches Some(t)
            ==> now >= t + 60000),
{
}

/// Keys are found at the URL that the configuration names, else through the
/// discovery document of the issuer, whose trailing slashes do not count.
pub proof fn law_where_keys_are(cfg: TrustedIssuer)
    ensures
        cfg.jwks_uri matches Some(u) ==> source(cfg) == SourceView::Direct(u@),
        cfg.jwks_uri is None && (cfg.issuer@.len() == 0 || cfg.issuer@.last() != '/') ==> source(cfg)
            == SourceView::Discovery(cfg.issuer@ + "/.well-known/openid-configuration"@),
{
}

/// A discovery document is followed exactly where it claims the issuer, and to
/// the key set that it names.
pub proof fn law_discovery(cfg: TrustedIssuer, doc: Json, u: Seq<char>)
    ensures
        (discovered(cfg, doc) == Ok::<Seq<char>, Seq<char>>(u)) == ((json::str_member(
            doc,
            "issuer"@,
        ) matches Some(c) && text::trimmed_end_of(c, '/') == text::trimmed_end_of(cfg.issuer@, '/'))
            && json::str_member(doc, "jwks_uri"@) == Some(u)),
{
}

/// A trust domain is written with its scheme.
pub proof fn law_trust_domain_uri(cfg: TrustedIssuer)
    ensures
        cfg.trust_domain is None ==> domain_of(cfg) is None,
        cfg.trust_domain matches Some(td) ==> domain_of(cfg) == Some(
            "spiffe://"@ + config::bare_domain(td@),
        ),
{
}

/// What is known of an issuer at the start: the keys of its configuration or
/// file, or the certificates and revocation lists of its files. A list without
/// any of them is an error.
pub proof fn law_known_at_start(cfg: TrustedIssuer, files: IssuerFiles, m: MaterialView)
    requires
        loaded(cfg, files) == Ok::<MaterialView, Seq<char>>(m),
    ensures
        cfg.issuer_type@ == "jwks"@ ==> (cfg.jwks matches Some(set) ==> m.static_keys == Some(
            anyjwk::keys_of_set(set@),
        ) && anyjwk::keys_of_set(set@).len() > 0),
        cfg.issuer_type@ == "jwks_file"@ && cfg.jwks_file is Some ==> (files.jwks matches Ok(raw) && (
        json::json_parsed(raw@) matches Some(set) && m.static_keys == Some(
            anyjwk::keys_of_set(set),
        ) && anyjwk::keys_of_set(set).len() > 0)),
        cfg.issuer_type@ == "x5c"@ && cfg.ca_bundle_file is Some ==> m.static_keys is None
            && m.ca_roots.len() > 0 && (files.ca_bundle matches Ok(raw) && m.ca_roots
            == x509::pem_of(raw@, "CERTIFICATE"@)) && (cfg.crl_file is None ==> m.crls.len() == 0)
            && (cfg.crl_file is Some ==> m.crls.len() > 0 && (files.crl matches Ok(list) && m.crls
            == x509::pem_of(list@, "X509 CRL"@))),
        cfg.issuer_type@ == "oidc"@ ==> m.static_keys is None && m.ca_roots.len() == 0,
{
    reveal_strlit("x5c");
    reveal_strlit("jwks");
    reveal_strlit("oidc");
    reveal_strlit("jwks_file");
    reveal_strlit("spiffe");
    assert("x5c"@.len() == 3 && "jwks"@.len() == 4 && "oidc"@.len() == 4 && "jwks_file"@.len() == 9 && "spiffe"@.len() == 6);
    assert("jwks"@[0] == 'j');
    assert("oidc"@[0] == 'o');
}

/// What cannot be read, or holds nothing of use, stops the start.
pub proof fn law_bad_material(cfg: TrustedIssuer, files: IssuerFiles)
    ensures
        cfg.issuer_type@ == "jwks_file"@ && cfg.jwks_file is Some && files.jwks is Err ==> loaded(
            cfg,
            files,
        ) is Err,
        cfg.issuer_type@ == "x5c"@ && cfg.ca_bundle_file is Some && files.ca_bundle is Err
            ==> loaded(cfg, files) is Err,
        cfg.issuer_type@ == "x5c"@ && cfg.ca_bundle_file is Some && cfg.crl_file is Some
            && files.crl is Err ==> loaded(cfg, files) is Err,
        cfg.issuer_type@ == "jwks"@ ==> (cfg.jwks matches Some(set) ==> (anyjwk::keys_of_set(
            set@,
        ).len() == 0 ==> loaded(cfg, files) is Err)),
{
    reveal_strlit("x5c");
    reveal_strlit("jwks");
    reveal_strlit("jwks_file");
    reveal_strlit("spiffe");
    assert("x5c"@.len() == 3 && "jwks"@.len() == 4 && "jwks_file"@.len() == 9 && "spiffe"@.len() == 6);
}

/// The keys of a SPIFFE trust domain are those of its configuration, else those of
/// its file, else they are fetched.
pub proof fn law_spiffe_keys(cfg: TrustedIssuer, files: IssuerFiles, m: MaterialView)
    requires
        cfg.issuer_type@ == "spiffe"@,
        loaded(cfg, files) == Ok::<MaterialView, Seq<char>>(m),
    ensures
        m.ca_roots.len() == 0 && m.crls.len() == 0,
        cfg.jwks matches Some(set) ==> m.static_keys == Some(anyjwk::keys_of_set(set@)),
        cfg.jwks is None && cfg.jwks_file is Some ==> (files.jwks matches Ok(raw) && (
        json::json_parsed(raw@) matches Some(set) && m.static_keys == Some(anyjwk::keys_of_set(set)))),
        cfg.jwks is None && cfg.jwks_file is None ==> m.static_keys is None,
{
    reveal_strlit("x5c");
    reveal_strlit("jwks");
    reveal_strlit("jwks_file");
    reveal_strlit("spiffe");
    assert("x5c"@.len() == 3 && "jwks"@.len() == 4 && "jwks_file"@.len() == 9 && "spiffe"@.len() == 6);
}

} // verus!
