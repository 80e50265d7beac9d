//! The endpoints, run from request to answer over a store in memory. Documents
//! of other servers are laid out by URL.

use apd::admin;
use apd::admin_auth::{self, AdminCredential, AdminPrincipal};
use apd::agent;
use apd::assertion;
use apd::b64;
use apd::config::{
    AdminOidcConfig, Config, EnrollmentConfig, EventsConfig, MetadataConfig, RevocationConfig,
    StaticEnrollToken, StorageConfig, TelemetryConfig, TrustedIssuer,
};
use apd::crypto::SigningKey;
use apd::enroll_flow::{self, EnrollEnd, EnrollNext};
use apd::event_flow::{self, DeliveryNext};
use apd::events;
use apd::flow::{Action, Event};
use apd::ident;
use apd::issue;
use apd::issuer_keys::{self, IssuerFiles, IssuerRuntime, KeyLookup, KeySource};
use apd::json::{self, JsonValue};
use apd::jwk::{self, Jwk};
use apd::jwks_cache::{self, JwksCache};
use apd::jwt;
use apd::keys::{self, KeyFile, KeySet};
use apd::problem::{self, ApiError, Resp};
use apd::random;
use apd::records;
use apd::reqctx::{self, ReqCtx, Signer};
use apd::revocation::Reply;
use apd::revoke_flow::{self, RevokeNext};
use apd::router::{self, Route};
use apd::sig::{self, RequestParts, SigError};
use apd::sigkey;
use apd::storage::{Found, MemInner};
use apd::token_flow::{self, SubagentNext, TokenNext};
use apd::tokens;
use apd::wellknown;

const AUTH: &str = "ap.example";
const NOW: u64 = 1_800_000_000;

// ------------------------------------------------------------------ values

fn value(text: &str) -> JsonValue {
    json::parse(text.as_bytes()).unwrap()
}

fn text_of(v: &JsonValue, name: &str) -> String {
    v.str_of(name).cloned().unwrap_or_default()
}

/// A record as the store has it, with what a parser might say against it.
fn found(value: Option<Vec<u8>>) -> Option<Found> {
    value.map(|bytes| Found { bytes, fault: "missing field `status`".to_string() })
}

fn generate_signing_key(seed: u8) -> SigningKey {
    jwk::generate_signing_key(&[seed; 32])
}

fn public(key: &SigningKey) -> Jwk {
    Jwk::from_verifying_key(&key.verifying_key())
}

fn named(key: &SigningKey, kid: &str) -> Jwk {
    let mut k = public(key);
    k.kid = Some(kid.to_string());
    k.alg = Some("Ed25519".to_string());
    k
}

// ----------------------------------------------------------- configuration

fn opt_text(v: &JsonValue, name: &str) -> Option<String> {
    v.str_of(name).cloned()
}

fn opt_bool(v: &JsonValue, name: &str) -> Option<bool> {
    match v.get(name) {
        Some(JsonValue::Bool(b)) => Some(*b),
        _ => None,
    }
}

fn texts(v: Option<&JsonValue>) -> Option<Vec<String>> {
    v.and_then(|x| x.as_array())
        .map(|a| a.iter().filter_map(|s| s.as_str().cloned()).collect())
}

fn pairs(v: Option<&JsonValue>) -> Vec<(String, JsonValue)> {
    match v {
        Some(JsonValue::Object(m)) => m.iter().map(|(k, x)| (k.clone(), x.copy())).collect(),
        _ => Vec::new(),
    }
}

fn items(v: Option<&JsonValue>) -> Vec<JsonValue> {
    v.and_then(|x| x.as_array())
        .map(|a| a.iter().map(|x| x.copy()).collect())
        .unwrap_or_default()
}

fn issuer_from(v: &JsonValue) -> TrustedIssuer {
    TrustedIssuer {
        name: text_of(v, "name"),
        issuer_type: text_of(v, "type"),
        issuer: text_of(v, "issuer"),
        audience: opt_text(v, "audience"),
        jwks_uri: opt_text(v, "jwks_uri"),
        jwks_file: opt_text(v, "jwks_file"),
        jwks: v.get("jwks").map(|x| x.copy()),
        ca_bundle_file: opt_text(v, "ca_bundle_file"),
        crl_file: opt_text(v, "crl_file"),
        required_sans: texts(v.get("required_sans")).unwrap_or_default(),
        required_claims: pairs(v.get("required_claims")),
        embed_claims: pairs(v.get("embed_claims")),
        require_cnf_binding: opt_bool(v, "require_cnf_binding").unwrap_or(false),
        single_use_jti: opt_bool(v, "single_use_jti"),
        ps: opt_text(v, "ps"),
        label: opt_text(v, "label"),
        allow_insecure_egress: opt_bool(v, "allow_insecure_egress").unwrap_or(false),
        trust_domain: opt_text(v, "trust_domain"),
        assurance: opt_text(v, "assurance"),
    }
}

fn config_from(v: &JsonValue) -> Config {
    let none = JsonValue::object();
    let part = |name: &str| v.get(name).map(|x| x.copy()).unwrap_or_else(|| none.copy());
    let (storage, enrollment, ev, rev) =
        (part("storage"), part("enrollment"), part("events"), part("revocation"));
    Config {
        issuer: text_of(v, "issuer"),
        listen: opt_text(v, "listen").unwrap_or_else(apd::config::default_listen),
        keys_file: opt_text(v, "keys_file").unwrap_or_else(apd::config::default_keys_file),
        storage: StorageConfig {
            backend: opt_text(&storage, "backend").unwrap_or_else(apd::config::default_backend),
            path: opt_text(&storage, "path"),
            redis_addr: opt_text(&storage, "redis_addr"),
            key_prefix: opt_text(&storage, "key_prefix").unwrap_or_else(apd::config::default_prefix),
        },
        agent_token_ttl_secs: v
            .u64_of("agent_token_ttl_secs")
            .unwrap_or_else(apd::config::default_agent_token_ttl),
        subscribe_token_ttl_secs: v
            .u64_of("subscribe_token_ttl_secs")
            .unwrap_or_else(apd::config::default_subscribe_token_ttl),
        signature_window_secs: v
            .u64_of("signature_window_secs")
            .unwrap_or_else(apd::config::default_signature_window),
        naming_jwt_max_lifetime_secs: v
            .u64_of("naming_jwt_max_lifetime_secs")
            .unwrap_or_else(apd::config::default_naming_jwt_max),
        enrollment: EnrollmentConfig {
            mode: opt_text(&enrollment, "mode"),
            methods: texts(enrollment.get("methods")),
            default_ps: opt_text(&enrollment, "default_ps"),
            trusted_issuers: items(enrollment.get("trusted_issuers"))
                .iter()
                .map(issuer_from)
                .collect(),
            static_tokens: items(enrollment.get("static_tokens"))
                .iter()
                .map(|t| StaticEnrollToken {
                    token: text_of(t, "token"),
                    ps: opt_text(t, "ps"),
                    label: opt_text(t, "label"),
                })
                .collect(),
        },
        admin_token: opt_text(v, "admin_token"),
        admin_oidc: v.get("admin_oidc").map(|o| AdminOidcConfig {
            issuer: text_of(o, "issuer"),
            audience: text_of(o, "audience"),
            required_claims: pairs(o.get("required_claims")),
            principal_claim: opt_text(o, "principal_claim")
                .unwrap_or_else(apd::config::default_principal_claim),
            jwks_uri: opt_text(o, "jwks_uri"),
        }),
        allow_ps_override: opt_bool(v, "allow_ps_override").unwrap_or(true),
        metadata: MetadataConfig {
            name: None,
            description: None,
            logo_uri: None,
            logo_dark_uri: None,
            documentation_uri: None,
            tos_uri: None,
            policy_uri: None,
        },
        events: EventsConfig {
            enabled: opt_bool(&ev, "enabled").unwrap_or(true),
            inbox_ttl_secs: apd::config::default_inbox_ttl(),
            max_pending_per_agent: apd::config::default_inbox_max(),
            max_payload_bytes: apd::config::default_max_payload(),
        },
        insecure_dev_mode: opt_bool(v, "insecure_dev_mode").unwrap_or(false),
        max_body_bytes: apd::config::default_max_body(),
        jwks_cross_origin_hosts: Vec::new(),
        audit_log_file: opt_text(v, "audit_log_file"),
        telemetry: TelemetryConfig {
            enabled: false,
            endpoint: None,
            service_name: None,
            metric_interval_secs: None,
        },
        revocation: RevocationConfig {
            notify_ps: opt_bool(&rev, "notify_ps").unwrap_or(true),
            max_tracked_tokens: rev.u64_of("max_tracked_tokens").unwrap_or(64) as usize,
        },
        expected_authority: opt_text(v, "expected_authority"),
    }
}

fn config(text: &str) -> Config {
    config_from(&value(text))
}

fn test_config(issuer: &str, enroll_mode: &str) -> Config {
    let cfg = config(&format!(
        r#"{{"issuer":"{issuer}","storage":{{"backend":"memory"}},
            "enrollment":{{"mode":"{enroll_mode}"}},"admin_token":"test-admin-token",
            "insecure_dev_mode":true,"events":{{"enabled":true}}}}"#
    ));
    cfg.validate().unwrap();
    cfg
}

fn federated_config(issuers: &str) -> Config {
    let cfg = config(&format!(
        r#"{{"issuer":"https://ap.example","storage":{{"backend":"memory"}},
            "enrollment":{{"methods":["token","federated","allowlist"],
                "trusted_issuers":{issuers}}},
            "admin_token":"test-admin-token","insecure_dev_mode":true,
            "events":{{"enabled":false}}}}"#
    ));
    cfg.validate().unwrap();
    cfg
}

// ------------------------------------------------------------------ server

struct Server {
    cfg: Config,
    keys: KeySet,
    store: MemInner,
    issuers: Vec<IssuerRuntime>,
    admin_idp: Option<IssuerRuntime>,
    cache: JwksCache,
    documents: Vec<(String, String)>,
    fetched: Vec<String>,
    posted: Vec<(String, Vec<u8>, Vec<(String, String)>)>,
    post_status: u16,
    drawn: u8,
    now: u64,
    done: Vec<&'static str>,
}

fn no_file() -> Result<Vec<u8>, String> {
    Err("not read".to_string())
}

fn files_of(ca: Option<&str>, jwks: Option<&str>) -> IssuerFiles {
    IssuerFiles {
        jwks: jwks.map(|s| s.as_bytes().to_vec()).ok_or_else(|| "not read".to_string()),
        ca_bundle: ca.map(|s| s.as_bytes().to_vec()).ok_or_else(|| "not read".to_string()),
        crl: no_file(),
    }
}

impl Server {
    fn new(cfg: Config) -> Server {
        Server::with_files(cfg, None, None)
    }

    fn with_files(cfg: Config, ca: Option<&str>, jwks: Option<&str>) -> Server {
        let sk = generate_signing_key(200);
        let mut key = named(&sk, "ap-test-1");
        key.use_ = Some("sig".to_string());
        let keys = KeySet {
            active_kid: "ap-test-1".to_string(),
            active_key: sk,
            public_jwks: vec![key],
        };
        let mut issuers = Vec::new();
        for t in config_issuers(&cfg) {
            issuers.push(
                IssuerRuntime::load(t, cfg.insecure_dev_mode, files_of(ca, jwks)).unwrap(),
            );
        }
        let admin_idp = cfg.admin_oidc.as_ref().map(|o| {
            IssuerRuntime::load(
                TrustedIssuer::for_admin_idp(o),
                cfg.insecure_dev_mode,
                files_of(None, None),
            )
            .unwrap()
        });
        Server {
            cfg,
            keys,
            store: MemInner::new(),
            issuers,
            admin_idp,
            cache: JwksCache::new(Vec::new()),
            documents: Vec::new(),
            fetched: Vec::new(),
            posted: Vec::new(),
            post_status: 200,
            drawn: 0,
            now: NOW,
            done: Vec::new(),
        }
    }

    fn millis(&self) -> u64 {
        self.now * 1000
    }

    fn draw(&mut self, n: usize) -> Vec<u8> {
        self.drawn += 1;
        (0..n).map(|i| self.drawn.wrapping_mul(37).wrapping_add(i as u8)).collect()
    }

    fn fetch(&mut self, url: &str) -> Result<JsonValue, String> {
        self.fetched.push(url.to_string());
        match self.documents.iter().find(|(u, _)| u == url) {
            Some((_, text)) => Ok(value(text)),
            None => Err(format!("HTTP 404 Not Found from {url}")),
        }
    }

    fn issuer_keys(&mut self, i: usize, kid: Option<&str>, alg: &str) -> Result<Vec<apd::anyjwk::AnyJwk>, String> {
        let now = self.millis();
        match self.issuers[i].resolve_keys(kid, alg, now) {
            KeyLookup::Keys(k) => Ok(k),
            KeyLookup::Refused(e) => Err(e),
            KeyLookup::Fetch => {
                let url = match issuer_keys::key_source(&self.issuers[i].cfg) {
                    KeySource::Direct(u) => u,
                    KeySource::Discovery(u) => {
                        let doc = self
                            .fetch(&u)
                            .map_err(|e| issuer_keys::discovery_failed(&self.issuers[i].cfg, &e))?;
                        issuer_keys::read_discovery(&self.issuers[i].cfg, &doc)?
                    }
                };
                let set = self
                    .fetch(&url)
                    .map_err(|e| issuer_keys::key_set_failed(&self.issuers[i].cfg, &e))?;
                let keys = issuer_keys::read_key_set(&self.issuers[i].cfg, &set)?;
                self.issuers[i].fetched(keys, kid, alg, now)
            }
        }
    }

    fn judge(&mut self, text: &str, durable: &Jwk) -> Result<assertion::FederatedVerdict, String> {
        let (t, i, _) = assertion::read_assertion(&self.issuers, text)?;
        let keys = if self.issuers[i].is_x5c() {
            Err("unused".to_string())
        } else {
            self.issuer_keys(i, t.header.kid.as_deref(), &t.header.alg)
        };
        let audience = self.cfg.issuer.clone();
        assertion::verify_assertion(&self.issuers, text, &keys, durable, self.now, &audience)
    }

    fn find_key(&mut self, iss: &str, dwk: &str, kid: &str, fresh: bool) -> Result<(Jwk, bool), SigError> {
        let now = self.millis();
        if !fresh {
            if let Some(k) = self.cache.get_key(iss, dwk, kid, now) {
                return Ok((k, true));
            }
        }
        self.cache.refresh_and_get(iss, dwk, kid, now)?;
        let url = jwks_cache::metadata_url(iss, dwk);
        let doc = self.fetch(&url).map_err(|e| jwks_cache::fetch_failed(&url, &e))?;
        let uri = self.cache.read_metadata(iss, dwk, &doc)?;
        let set = self.fetch(&uri).map_err(|e| jwks_cache::fetch_failed(&uri, &e))?;
        let jwks = jwks_cache::read_key_set(set, "no keys")?;
        self.cache.fetched(iss, dwk, kid, jwks, now).map(|k| (k, false))
    }

    fn perform(&mut self, action: Action) -> Event {
        let now = self.millis();
        match action {
            Action::Get(k) => Event::Value(self.store.get(&k, now)),
            Action::GetAgent(k) | Action::GetSubscription(k) => {
                Event::Record(found(self.store.get(&k, now)))
            }
            Action::Take(k) => {
                self.done.push("take");
                Event::Value(self.store.take(&k, now))
            }
            Action::Claim(w) => Event::Fresh(self.store.put_if_absent(&w.key, &w.value, w.ttl, now)),
            Action::Put(w) => {
                self.store.put(&w.key, &w.value, w.ttl, now);
                Event::Done
            }
            Action::Count(k) => Event::Counted(self.store.incr(&k, now)),
            Action::Push { key, value, max } => {
                self.done.push("push");
                self.store.list_push(&key, &value, max);
                Event::Done
            }
            Action::Delete(k) => {
                self.store.delete(&k);
                Event::Done
            }
            Action::List(p) => Event::Keys(
                self.store.scan_prefix(&p, now).into_iter().map(|(k, _)| k).collect(),
            ),
            Action::Judge { assertion, durable } => Event::Verdict(self.judge(&assertion, &durable)),
            Action::FindKey { iss, dwk, kid, fresh } => {
                Event::Key(self.find_key(&iss, &dwk, &kid, fresh))
            }
            Action::Fetch(url) => Event::Document(self.fetch(&url)),
            Action::Post { url, body, headers } => {
                self.posted.push((url, body, headers));
                Event::Replied(Reply::Status(self.post_status))
            }
        }
    }

    fn enroll(&mut self, ctx: &ReqCtx) -> Result<Resp, ApiError> {
        let locals: Vec<String> = (0..6).map(|_| { let d = self.draw(16); random::random_id(&d) }).collect();
        let mut next = enroll_flow::begin_enroll(ctx, &self.cfg, &self.keys, self.now);
        loop {
            match next {
                EnrollNext::End(EnrollEnd::Known(a)) => return Ok(a),
                EnrollNext::End(EnrollEnd::Granted(x, _)) => return Ok(x.answer),
                EnrollNext::End(EnrollEnd::Denied(_, e)) => return Err(e),
                EnrollNext::End(EnrollEnd::Refused(e)) => return Err(e),
                EnrollNext::Ask(action, state) => {
                    let ev = self.perform(action);
                    next = enroll_flow::continue_enroll(&self.cfg, &locals, self.now, state, ev);
                }
            }
        }
    }

    fn agent_token(&mut self, ctx: &ReqCtx) -> Result<Resp, ApiError> {
        let jti = random::random_token(&self.draw(16));
        let mut next = token_flow::begin_token(ctx, &self.cfg, &self.keys, self.now);
        loop {
            match next {
                TokenNext::End(r) => return r.map(|x| x.answer),
                TokenNext::Ask(action, state) => {
                    let ev = self.perform(action);
                    next = token_flow::continue_token(
                        ctx, &self.cfg, &self.keys, &jti, self.now, state, ev,
                    );
                }
            }
        }
    }

    fn subagent_token(&mut self, ctx: &ReqCtx) -> Result<Resp, ApiError> {
        let jti = random::random_token(&self.draw(16));
        let mut next = token_flow::begin_subagent(ctx, &self.cfg, &self.keys, self.now);
        loop {
            match next {
                SubagentNext::End(r) => return r.map(|x| x.answer),
                SubagentNext::Ask(action, state) => {
                    let ev = self.perform(action);
                    next = token_flow::continue_subagent(
                        &self.cfg, &self.keys, &jti, self.now, state, ev,
                    );
                }
            }
        }
    }

    fn deliver(&mut self, ctx: &ReqCtx) -> Result<Resp, ApiError> {
        let mut next = event_flow::begin_delivery(ctx, &self.cfg, self.now);
        loop {
            match next {
                DeliveryNext::End(r) => return r.map(|(d, _)| d.answer),
                DeliveryNext::Ask(action, state) => {
                    let ev = self.perform(action);
                    next = event_flow::continue_delivery(ctx, &self.cfg, self.now, state, ev);
                }
            }
        }
    }

    fn revoke(&mut self, local: &str) -> Result<Resp, ApiError> {
        let mut next = revoke_flow::begin_revoke(local);
        loop {
            match next {
                RevokeNext::End(r) => return r.map(|o| admin::revoked_answer(local, &o)),
                RevokeNext::Ask(action, state) => {
                    let ev = self.perform(action);
                    next = revoke_flow::continue_revoke(
                        &self.cfg, &self.keys, local, self.now, state, ev,
                    );
                }
            }
        }
    }

    fn operator(&mut self, ctx: &ReqCtx) -> Result<AdminPrincipal, ApiError> {
        match admin_auth::authenticate(ctx, &self.cfg)? {
            AdminCredential::Shared(p) => Ok(p),
            AdminCredential::Issued(token) => {
                let t = {
                    let oidc = self.cfg.admin_oidc.as_ref().unwrap();
                    admin_auth::read_idp_token(oidc, &token, self.now)?
                };
                let idp = self.admin_idp.take().unwrap();
                self.issuers.push(idp);
                let i = self.issuers.len() - 1;
                let keys = self.issuer_keys(i, t.header.kid.as_deref(), &t.header.alg);
                self.admin_idp = self.issuers.pop();
                admin_auth::verify_oidc(self.cfg.admin_oidc.as_ref().unwrap(), &t, &keys)
            }
        }
    }

    fn values(&mut self, prefix: &str) -> Vec<Vec<u8>> {
        let now = self.millis();
        self.store.scan_prefix(prefix, now).into_iter().map(|(_, v)| v).collect()
    }

    fn dispatch(&mut self, ctx: &ReqCtx) -> Result<Resp, ApiError> {
        let now = self.now;
        let millis = self.millis();
        match router::route(&ctx.method, &ctx.path) {
            Route::AgentMetadata => Ok(wellknown::agent_metadata(&self.cfg)),
            Route::Jwks => Ok(wellknown::jwks(&self.keys)),
            Route::Healthz => Ok(wellknown::healthz(&self.cfg, now - 5, now)),
            Route::Enroll => self.enroll(ctx),
            Route::AgentToken => self.agent_token(ctx),
            Route::SubagentToken => self.subagent_token(ctx),
            Route::Subscribe => {
                let id = random::random_id(&self.draw(20));
                let s = events::subscribe(ctx, &self.cfg, &self.keys, &id, now)?;
                self.store.put(&s.write.key, &s.write.value, s.write.ttl, millis);
                Ok(s.answer)
            }
            Route::Events => self.deliver(ctx),
            Route::Inbox => {
                let (key, _) = events::inbox_request(ctx, &self.cfg, &self.keys, now)?;
                let items = self.store.list_drain(&key);
                Ok(events::inbox(&items, true, now).unwrap())
            }
            Route::CancelSubscription(eid) => {
                let agent = events::cancel_request(ctx, &self.cfg, &self.keys, now)?;
                let found = found(self.store.get(&records::subscription_key(&eid), millis));
                for k in events::cancel_subscription(&agent, &eid, &found)? {
                    self.store.delete(&k);
                }
                Ok(problem::empty_status(problem::NO_CONTENT))
            }
            Route::NotFound => Err(router::no_route(&ctx.method, &ctx.path)),
            admin_route => {
                self.operator(ctx)?;
                match admin_route {
                    Route::MintEnrollmentToken => {
                        let token = random::random_token(&self.draw(24));
                        let c = admin::mint_enrollment_token(ctx, &self.cfg, &token, now)?;
                        self.store.put(&c.write.key, &c.write.value, c.write.ttl, millis);
                        Ok(c.answer)
                    }
                    Route::AddAllowedKey => {
                        let (_, c) = admin::add_allowed_key(ctx, &self.cfg, now)?;
                        self.store.put(&c.write.key, &c.write.value, c.write.ttl, millis);
                        Ok(c.answer)
                    }
                    Route::ListAllowedKeys => Ok(admin::list_allowed_keys(&self.values("allowkey:"))),
                    Route::RemoveAllowedKey(jkt) => {
                        let removed = self.store.delete(&records::allowed_key_key(&jkt));
                        admin::remove_allowed_key(removed)
                    }
                    Route::ListAgents => {
                        let v = self.values("agent:");
                        Ok(admin::list_agents(&self.cfg, &v))
                    }
                    Route::GetAgent(local) => {
                        admin::get_agent(&found(self.store.get(&records::agent_key(&local), millis)))
                    }
                    Route::RevokeAgent(local) => self.revoke(&local),
                    Route::ReinstateAgent(local) => {
                        let found = found(self.store.get(&records::agent_key(&local), millis));
                        let c = admin::reinstate_agent(&local, &found)?;
                        self.store.put(&c.write.key, &c.write.value, c.write.ttl, millis);
                        Ok(admin::reinstated_answer(&local))
                    }
                    _ => unreachable!(),
                }
            }
        }
    }

    fn respond(&mut self, ctx: &ReqCtx) -> Resp {
        match self.dispatch(ctx) {
            Ok(r) => r,
            Err(e) => e.into_response(),
        }
    }

    fn call(&mut self, ctx: &ReqCtx) -> (u16, JsonValue) {
        let r = self.respond(ctx);
        let body = if r.body.is_empty() { JsonValue::Null } else { value(&r.body) };
        (r.status, body)
    }
}

fn config_issuers(cfg: &Config) -> Vec<TrustedIssuer> {
    cfg.enrollment
        .trusted_issuers
        .iter()
        .map(|t| TrustedIssuer {
            name: t.name.clone(),
            issuer_type: t.issuer_type.clone(),
            issuer: t.issuer.clone(),
            audience: t.audience.clone(),
            jwks_uri: t.jwks_uri.clone(),
            jwks_file: t.jwks_file.clone(),
            jwks: t.jwks.as_ref().map(|j| j.copy()),
            ca_bundle_file: t.ca_bundle_file.clone(),
            crl_file: t.crl_file.clone(),
            required_sans: t.required_sans.clone(),
            required_claims: t.required_claims.iter().map(|(k, v)| (k.clone(), v.copy())).collect(),
            embed_claims: t.embed_claims.iter().map(|(k, v)| (k.clone(), v.copy())).collect(),
            require_cnf_binding: t.require_cnf_binding,
            single_use_jti: t.single_use_jti,
            ps: t.ps.clone(),
            label: t.label.clone(),
            allow_insecure_egress: t.allow_insecure_egress,
            trust_domain: t.trust_domain.clone(),
            assurance: t.assurance.clone(),
        })
        .collect()
}

fn build_app(issuer: &str, enroll_mode: &str) -> Server {
    Server::new(test_config(issuer, enroll_mode))
}

// ---------------------------------------------------------------- requests

struct AgentReq {
    method: String,
    authority: String,
    path: String,
    query: String,
    body: Vec<u8>,
    more: Vec<(String, String)>,
}

impl AgentReq {
    fn new(method: &str, authority: &str, path: &str) -> AgentReq {
        AgentReq {
            method: method.to_string(),
            authority: authority.to_string(),
            path: path.to_string(),
            query: String::new(),
            body: Vec::new(),
            more: Vec::new(),
        }
    }

    fn json(mut self, text: &str) -> AgentReq {
        self.body = text.as_bytes().to_vec();
        self
    }

    fn into_ctx(self, sigkey_value: &str, signing: &SigningKey, created: u64) -> ReqCtx {
        let headers: Vec<(String, String)> = Vec::new();
        let parts = RequestParts {
            method: &self.method,
            authority: &self.authority,
            path: &self.path,
            query: &self.query,
            headers: &headers,
        };
        let signed = sig::sign_request(&parts, &Vec::new(), sigkey_value, signing, created).ok().unwrap();
        let mut headers = vec![
            ("host".to_string(), self.authority.clone()),
            ("signature-input".to_string(), signed.signature_input),
            ("signature".to_string(), signed.signature),
            ("signature-key".to_string(), signed.signature_key),
        ];
        if !self.body.is_empty() {
            headers.push(("content-type".to_string(), "application/json".to_string()));
        }
        headers.extend(self.more);
        ReqCtx {
            method: self.method,
            authority: self.authority,
            path: self.path,
            query: self.query,
            headers,
            body: self.body,
        }
    }
}

fn admin_ctx(method: &str, path: &str, body: &str) -> ReqCtx {
    bearer_ctx(method, path, body, "test-admin-token")
}

fn bearer_ctx(method: &str, path: &str, body: &str, token: &str) -> ReqCtx {
    ReqCtx {
        method: method.to_string(),
        authority: AUTH.to_string(),
        path: path.to_string(),
        query: String::new(),
        headers: vec![("authorization".to_string(), format!("Bearer {token}"))],
        body: body.as_bytes().to_vec(),
    }
}

fn hwk_ctx(path: &str, body: &str, key: &SigningKey, created: u64) -> ReqCtx {
    AgentReq::new("POST", AUTH, path)
        .json(body)
        .into_ctx(&sigkey::serialize_hwk(&public(key)), key, created)
}

fn naming_ctx(naming: &str, ephemeral: &SigningKey, body: &str, created: u64) -> ReqCtx {
    AgentReq::new("POST", AUTH, "/agent-token")
        .json(body)
        .into_ctx(&sigkey::serialize_jkt_jwt(naming), ephemeral, created)
}

fn token_ctx(method: &str, path: &str, body: &str, token: &str, key: &SigningKey, created: u64) -> ReqCtx {
    AgentReq::new(method, AUTH, path)
        .json(body)
        .into_ctx(&sigkey::serialize_jwt(token), key, created)
}

fn enroll_open(app: &mut Server, durable: &SigningKey) -> String {
    let now = app.now;
    let (status, body) = app.call(&hwk_ctx("/enroll", r#"{"platform":"workload"}"#, durable, now));
    assert_eq!(status, 201, "enroll failed: {}", body.render());
    text_of(&body, "agent")
}

fn get_agent_token(
    app: &mut Server,
    durable: &SigningKey,
    ephemeral: &SigningKey,
    ps: Option<&str>,
) -> String {
    let now = app.now;
    let jti = random::random_token(&app.draw(16));
    let naming = sigkey::build_naming_jwt(durable, &public(ephemeral), &jti, now, 300);
    let body = match ps {
        Some(p) => format!(r#"{{"ps":"{p}"}}"#),
        None => "{}".to_string(),
    };
    let (status, resp) = app.call(&naming_ctx(&naming, ephemeral, &body, now));
    assert_eq!(status, 200, "agent-token failed: {}", resp.render());
    text_of(&resp, "agent_token")
}

fn enroll_with_assertion(app: &mut Server, durable: &SigningKey, assertion: &str) -> (u16, JsonValue) {
    let now = app.now;
    let body = format!(r#"{{"enrollment_assertion":"{assertion}"}}"#);
    app.call(&hwk_ctx("/enroll", &body, durable, now))
}

fn sign_jws_eddsa(header: &str, payload: &str, key: &SigningKey) -> String {
    let input = format!("{}.{}", b64::encode(header.as_bytes()), b64::encode(payload.as_bytes()));
    let s = key.sign(input.as_bytes());
    format!("{input}.{}", b64::encode(&s))
}

// -------------------------------------------------- enrollment and tokens

#[test]
fn enroll_and_two_key_token() {
    let mut app = build_app("https://ap.example", "open");
    let durable = generate_signing_key(1);
    let ephemeral = generate_signing_key(2);
    let agent_id = enroll_open(&mut app, &durable);
    assert!(agent_id.starts_with("aauth:") && agent_id.ends_with("@ap.example"));

    let token = get_agent_token(&mut app, &durable, &ephemeral, Some("https://ps.example"));
    let decoded = jwt::decode(&token).unwrap();
    let ap_key = app.keys.find_public("ap-test-1").unwrap();
    jwt::verify_with_jwk(&decoded, &ap_key).unwrap();
    let claims = tokens::validate_agent_token(&decoded, app.now, true).ok().unwrap();
    assert_eq!(claims.sub, agent_id);
    assert_eq!(claims.ps.as_deref(), Some("https://ps.example"));
    assert_eq!(claims.cnf_jwk.x, public(&ephemeral).x);
    assert_eq!(claims.exp, NOW + 3600);
    assert_eq!(text_of(&decoded.payload, "assurance"), "none");
}

#[test]
fn single_key_refresh_hwk() {
    let mut app = build_app("https://ap.example", "open");
    let durable = generate_signing_key(1);
    enroll_open(&mut app, &durable);
    let (status, resp) = app.call(&hwk_ctx("/agent-token", "", &durable, NOW));
    assert_eq!(status, 200, "{}", resp.render());
    let d = jwt::decode(&text_of(&resp, "agent_token")).unwrap();
    let claims = tokens::validate_agent_token(&d, NOW, true).ok().unwrap();
    // single-key: cnf is the durable key itself
    assert_eq!(claims.cnf_jwk.x, public(&durable).x);
    assert_eq!(resp.u64_of("expires_in"), Some(3600));
    assert_eq!(text_of(&resp, "token_type"), "aa-agent+jwt");
}

#[test]
fn token_before_enroll_is_forbidden() {
    let mut app = build_app("https://ap.example", "open");
    let durable = generate_signing_key(1);
    let ephemeral = generate_signing_key(2);
    let naming = sigkey::build_naming_jwt(&durable, &public(&ephemeral), "j1", NOW, 300);
    let (status, body) = app.call(&naming_ctx(&naming, &ephemeral, "", NOW));
    assert_eq!(status, 403, "{}", body.render());
    assert_eq!(text_of(&body, "error"), "not_enrolled");
}

#[test]
fn naming_jwt_replay_rejected() {
    let mut app = build_app("https://ap.example", "open");
    let durable = generate_signing_key(1);
    enroll_open(&mut app, &durable);
    let ephemeral = generate_signing_key(2);
    let naming = sigkey::build_naming_jwt(&durable, &public(&ephemeral), "j1", NOW, 300);

    // First use succeeds.
    let (s1, _) = app.call(&naming_ctx(&naming, &ephemeral, "", NOW));
    assert_eq!(s1, 200);

    // Reusing the same naming JWT (same jti) is rejected.
    let (s2, body) = app.call(&naming_ctx(&naming, &ephemeral, "", NOW));
    assert_eq!(s2, 401, "{}", body.render());
    assert_eq!(text_of(&body, "error"), "invalid_jwt");

    // It is still rejected as long as it could be presented at all.
    app.now += 59;
    let (s3, _) = app.call(&naming_ctx(&naming, &ephemeral, "", NOW + 59));
    assert_eq!(s3, 401);
}

#[test]
fn stale_created_rejected() {
    let mut app = build_app("https://ap.example", "open");
    let durable = generate_signing_key(1);
    let (status, body) = app.call(&hwk_ctx("/enroll", "", &durable, NOW - 3600));
    assert_eq!(status, 401);
    assert_eq!(text_of(&body, "error"), "invalid_signature", "{}", body.render());
}

#[test]
fn another_authority_is_refused_first() {
    let mut app = build_app("https://ap.example", "open");
    let durable = generate_signing_key(1);
    let ctx = AgentReq::new("POST", "other.example", "/enroll").into_ctx(
        &sigkey::serialize_hwk(&public(&durable)),
        &durable,
        NOW,
    );
    let r = app.respond(&ctx);
    assert_eq!(r.status, 400);
    assert!(!r.headers.iter().any(|(n, _)| n == "signature-error"));
    assert_eq!(text_of(&value(&r.body), "error"), "invalid_request");
}

#[test]
fn a_refused_signature_says_why() {
    let mut app = build_app("https://ap.example", "open");
    let durable = generate_signing_key(1);
    let other = generate_signing_key(2);
    // signed with another key than the one presented
    let ctx = AgentReq::new("POST", AUTH, "/enroll").into_ctx(
        &sigkey::serialize_hwk(&public(&durable)),
        &other,
        NOW,
    );
    let r = app.respond(&ctx);
    assert_eq!(r.status, 401);
    assert!(r
        .headers
        .iter()
        .any(|(n, v)| n == "signature-error" && v == "error=invalid_signature"));
    // a scheme that the endpoint does not accept
    let ctx = AgentReq::new("POST", AUTH, "/enroll").into_ctx(
        &sigkey::serialize_jwks_uri("https://x.example", "aauth-agent.json", "k"),
        &durable,
        NOW,
    );
    let (status, body) = app.call(&ctx);
    assert_eq!(status, 401);
    assert_eq!(text_of(&body, "error"), "unsupported_scheme");
    assert_eq!(
        text_of(&body, "detail"),
        "unsupported Signature-Key scheme for this endpoint: JwksUri { \
         id: \"https://x.example\", dwk: \"aauth-agent.json\", kid: \"k\" }"
    );
}

#[test]
fn enrolling_again_is_idempotent() {
    let mut app = build_app("https://ap.example", "open");
    let durable = generate_signing_key(1);
    let first = enroll_open(&mut app, &durable);
    let (status, body) = app.call(&hwk_ctx("/enroll", "", &durable, NOW));
    assert_eq!(status, 200);
    assert_eq!(text_of(&body, "agent"), first);
    assert_eq!(text_of(&body, "status"), "existing");
}

// ----------------------------------------------------- enrollment by token

#[test]
fn token_mode_enrollment_requires_token() {
    let mut app = build_app("https://ap.example", "token");
    let durable = generate_signing_key(1);

    // Without a token: forbidden.
    let (status, body) = app.call(&hwk_ctx("/enroll", "", &durable, NOW));
    assert_eq!(status, 403);
    assert_eq!(text_of(&body, "error"), "enrollment_required");

    // Mint an enrollment token via the admin API.
    let (status, body) = app.call(&admin_ctx(
        "POST",
        "/admin/enrollment-tokens",
        r#"{"ps":"https://ps.example"}"#,
    ));
    assert_eq!(status, 201, "{}", body.render());
    assert_eq!(body.u64_of("expires_in"), Some(3600));
    let enroll_token = text_of(&body, "enrollment_token");

    // With the token: success, and the bound ps flows into issued tokens.
    let with_token = format!(r#"{{"enrollment_token":"{enroll_token}"}}"#);
    let (status, body) = app.call(&hwk_ctx("/enroll", &with_token, &durable, NOW));
    assert_eq!(status, 201, "{}", body.render());
    let token = get_agent_token(&mut app, &durable, &generate_signing_key(9), None);
    let d = jwt::decode(&token).unwrap();
    assert_eq!(text_of(&d.payload, "ps"), "https://ps.example");
    assert_eq!(text_of(&d.payload, "assurance"), "medium");

    // The consumed token can't be used again (a fresh durable key rules out
    // the idempotent-existing-enrollment path, isolating token reuse).
    let durable2 = generate_signing_key(2);
    let (status, body) = app.call(&hwk_ctx("/enroll", &with_token, &durable2, NOW));
    assert_eq!(status, 403, "consumed token reuse: {}", body.render());
    assert_eq!(text_of(&body, "error"), "invalid_enrollment_token");
}

#[test]
fn a_minted_token_expires() {
    let mut app = build_app("https://ap.example", "token");
    let (_, body) = app.call(&admin_ctx("POST", "/admin/enrollment-tokens", r#"{"ttl":10}"#));
    let with_token = format!(r#"{{"enrollment_token":"{}"}}"#, text_of(&body, "enrollment_token"));
    app.now += 11;
    let (status, _) = app.call(&hwk_ctx("/enroll", &with_token, &generate_signing_key(1), NOW + 11));
    assert_eq!(status, 403);
}

#[test]
fn a_presented_credential_never_falls_through() {
    let mut app = Server::new(config(
        r#"{"issuer":"https://ap.example","insecure_dev_mode":true,
            "enrollment":{"methods":["token","open"]}}"#,
    ));
    let durable = generate_signing_key(1);
    let (status, body) = app.call(&hwk_ctx(
        "/enroll",
        r#"{"enrollment_token":"no-such-token-0000"}"#,
        &durable,
        NOW,
    ));
    assert_eq!(status, 403);
    assert_eq!(text_of(&body, "error"), "invalid_enrollment_token");
    let (status, body) =
        app.call(&hwk_ctx("/enroll", r#"{"enrollment_assertion":"a.b.c"}"#, &durable, NOW));
    assert_eq!(status, 403);
    assert_eq!(text_of(&body, "error"), "method_disabled");
    let (status, _) = app.call(&hwk_ctx("/enroll", "", &durable, NOW));
    assert_eq!(status, 201);
}

#[test]
fn admin_revoke_blocks_refresh() {
    let mut app = build_app("https://ap.example", "open");
    let durable = generate_signing_key(1);
    let ephemeral = generate_signing_key(2);
    let agent_id = enroll_open(&mut app, &durable);
    let local = ident::local_part(&agent_id);

    // Works before revoke.
    let _ = get_agent_token(&mut app, &durable, &ephemeral, None);

    // Revoke.
    let path = format!("/admin/agents/{local}/revoke");
    let (status, body) = app.call(&admin_ctx("POST", &path, ""));
    assert_eq!(status, 200);
    assert_eq!(text_of(&body, "status"), "revoked");
    assert_eq!(text_of(body.get("ps_notification").unwrap(), "status"), "no_ps");

    // Refresh now fails.
    let eph2 = generate_signing_key(3);
    let naming = sigkey::build_naming_jwt(&durable, &public(&eph2), "again", NOW, 300);
    let (status, body) = app.call(&naming_ctx(&naming, &eph2, "", NOW));
    assert_eq!(status, 403);
    assert_eq!(text_of(&body, "error"), "enrollment_revoked", "{}", body.render());

    // Reinstating undoes it.
    let (status, _) =
        app.call(&admin_ctx("POST", &format!("/admin/agents/{local}/reinstate"), ""));
    assert_eq!(status, 200);
    let _ = get_agent_token(&mut app, &durable, &ephemeral, None);
    let (status, _) = app.call(&admin_ctx("POST", "/admin/agents/nobody/revoke", ""));
    assert_eq!(status, 404);
}

#[test]
fn revoking_tells_the_person_server() {
    let mut app = build_app("https://ap.example", "open");
    let durable = generate_signing_key(1);
    let ephemeral = generate_signing_key(2);
    let agent_id = enroll_open(&mut app, &durable);
    let local = ident::local_part(&agent_id);
    for _ in 0..2 {
        let _ = get_agent_token(&mut app, &durable, &ephemeral, Some("https://ps.example"));
    }
    app.documents.push((
        "https://ps.example/.well-known/aauth-person.json".to_string(),
        r#"{"issuer":"https://ps.example","revocation_endpoint":"https://ps.example/revoke"}"#
            .to_string(),
    ));
    let path = format!("/admin/agents/{local}/revoke");
    let (status, body) = app.call(&admin_ctx("POST", &path, ""));
    assert_eq!(status, 200);
    let told = body.get("ps_notification").unwrap();
    assert_eq!(told.render(), r#"{"ps":"https://ps.example","status":"sent","tokens":2}"#);
    assert_eq!(app.posted.len(), 2);
    let (url, sent, headers) = &app.posted[0];
    assert_eq!(url, "https://ps.example/revoke");
    let sent = json::parse(sent).unwrap();
    assert_eq!(text_of(&sent, "iss"), "https://ap.example");
    assert!(!text_of(&sent, "jti").is_empty());
    let header = |n: &str| headers.iter().find(|(k, _)| k == n).unwrap().1.clone();
    assert!(header("signature-input").contains("\"content-digest\""));
    assert!(header("signature-key").starts_with("sig=jwks_uri"));
    assert_eq!(header("content-type"), "application/json");

    // A second revocation names nothing: the tokens were named.
    let (_, body) = app.call(&admin_ctx("POST", &path, ""));
    let told = body.get("ps_notification").unwrap();
    assert_eq!(text_of(told, "detail"), "no outstanding tokens");
}

#[test]
fn a_person_server_that_fails_changes_nothing() {
    let mut app = build_app("https://ap.example", "open");
    let durable = generate_signing_key(1);
    let ephemeral = generate_signing_key(2);
    let agent_id = enroll_open(&mut app, &durable);
    let local = ident::local_part(&agent_id);
    let path = format!("/admin/agents/{local}/revoke");
    let token = |app: &mut Server| {
        let _ = app.call(&admin_ctx("POST", &format!("/admin/agents/{local}/reinstate"), ""));
        let _ = get_agent_token(app, &durable, &ephemeral, Some("https://ps.example"));
    };

    // out of reach
    token(&mut app);
    let (status, body) = app.call(&admin_ctx("POST", &path, ""));
    assert_eq!(status, 200);
    assert_eq!(text_of(body.get("ps_notification").unwrap(), "status"), "failed");

    // claims to be another
    app.documents.push((
        "https://ps.example/.well-known/aauth-person.json".to_string(),
        r#"{"issuer":"https://evil.example","revocation_endpoint":"https://evil.example/r"}"#.to_string(),
    ));
    token(&mut app);
    let (_, body) = app.call(&admin_ctx("POST", &path, ""));
    let told = body.get("ps_notification").unwrap();
    assert_eq!(
        text_of(told, "detail"),
        "PS metadata issuer 'https://evil.example' does not match https://ps.example"
    );

    // has no endpoint
    app.documents[0].1 = r#"{"issuer":"https://ps.example"}"#.to_string();
    token(&mut app);
    let (_, body) = app.call(&admin_ctx("POST", &path, ""));
    assert_eq!(text_of(body.get("ps_notification").unwrap(), "status"), "no_endpoint");

    // does not know the token: settled
    app.documents[0].1 =
        r#"{"issuer":"https://ps.example","revocation_endpoint":"https://ps.example/r"}"#.to_string();
    app.post_status = 404;
    token(&mut app);
    let (_, body) = app.call(&admin_ctx("POST", &path, ""));
    assert_eq!(text_of(body.get("ps_notification").unwrap(), "status"), "sent");

    // refuses
    app.post_status = 500;
    token(&mut app);
    let (_, body) = app.call(&admin_ctx("POST", &path, ""));
    let told = body.get("ps_notification").unwrap();
    assert_eq!(text_of(told, "status"), "failed");
    assert_eq!(text_of(told, "detail"), "HTTP 500 from the PS");

    // and the agent stays revoked
    let (status, _) = app.call(&hwk_ctx("/agent-token", "", &durable, NOW));
    assert_eq!(status, 403);
}

#[test]
fn no_more_tokens_are_tracked_than_allowed() {
    let mut app = Server::new(config(
        r#"{"issuer":"https://ap.example","insecure_dev_mode":true,
            "enrollment":{"mode":"open"},"revocation":{"max_tracked_tokens":1}}"#,
    ));
    let durable = generate_signing_key(1);
    enroll_open(&mut app, &durable);
    for _ in 0..3 {
        let _ = get_agent_token(&mut app, &durable, &generate_signing_key(2), None);
    }
    assert_eq!(app.values("agent_jti:").len(), 1);
    app.now += 3601;
    assert_eq!(app.values("agent_jti:").len(), 0);
}

// -------------------------------------------------------------- sub-agents

#[test]
fn subagent_token_issuance() {
    let mut app = build_app("https://ap.example", "open");
    let durable = generate_signing_key(1);
    let ephemeral = generate_signing_key(2);
    let parent_id = enroll_open(&mut app, &durable);
    let parent_token = get_agent_token(&mut app, &durable, &ephemeral, Some("https://ps.example"));

    // Sub-agent generates its own key; parent requests the token.
    let sub_key = generate_signing_key(3);
    let sub_jwk = public(&sub_key);
    let ask = |d: &str, k: &Jwk| {
        format!(r#"{{"discriminator":"{d}","cnf_jwk":{}}}"#, k.to_json().render())
    };
    let ctx = token_ctx("POST", "/subagent-token", &ask("search1", &sub_jwk), &parent_token, &ephemeral, NOW);
    let (status, body) = app.call(&ctx);
    assert_eq!(status, 200, "{}", body.render());
    let sub_token = text_of(&body, "agent_token");
    let decoded = jwt::decode(&sub_token).unwrap();
    let claims = tokens::validate_agent_token(&decoded, NOW, true).ok().unwrap();
    let parent_local = ident::local_part(&parent_id);
    assert_eq!(claims.sub, format!("aauth:{parent_local}+search1@ap.example"));
    assert_eq!(claims.parent_agent.as_deref(), Some(parent_id.as_str()));
    assert_eq!(claims.cnf_jwk.x, sub_jwk.x);
    assert_eq!(claims.ps.as_deref(), Some("https://ps.example"));
    assert_eq!(text_of(&decoded.payload, "assurance"), "none");

    // A sub-agent cannot create sub-agents (single-level depth).
    let sub2_jwk = public(&generate_signing_key(4));
    let ctx = token_ctx("POST", "/subagent-token", &ask("deep", &sub2_jwk), &sub_token, &sub_key, NOW);
    let (status, body) = app.call(&ctx);
    assert_eq!(status, 403, "{}", body.render());
    assert_eq!(text_of(&body, "error"), "nested_subagent");

    // What is asked for must make sense.
    for (bad, error) in [
        ("{}".to_string(), "invalid_request"),
        (ask("UPPER", &sub_jwk), "invalid_request"),
        (r#"{"discriminator":"a"}"#.to_string(), "invalid_request"),
        (r#"{"discriminator":"a","cnf_jwk":1}"#.to_string(), "invalid_request"),
        (
            r#"{"discriminator":"a","cnf_jwk":{"kty":"OKP","crv":"Ed25519","x":"AAAA"}}"#.to_string(),
            "invalid_key",
        ),
    ] {
        let ctx = token_ctx("POST", "/subagent-token", &bad, &parent_token, &ephemeral, NOW);
        let (status, body) = app.call(&ctx);
        assert_eq!((status, text_of(&body, "error").as_str()), (400, error), "{bad}");
    }

    // The sub-agent's token ends with the parent's.
    app.now += 3000;
    let ctx = token_ctx("POST", "/subagent-token", &ask("late", &sub_jwk), &parent_token, &ephemeral, NOW + 3000);
    let (status, body) = app.call(&ctx);
    assert_eq!(status, 200);
    assert_eq!(body.u64_of("expires_in"), Some(600));
}

#[test]
fn a_revoked_parent_gets_no_sub_agents() {
    let mut app = build_app("https://ap.example", "open");
    let durable = generate_signing_key(1);
    let ephemeral = generate_signing_key(2);
    let id = enroll_open(&mut app, &durable);
    let token = get_agent_token(&mut app, &durable, &ephemeral, None);
    let _ = app.call(&admin_ctx(
        "POST",
        &format!("/admin/agents/{}/revoke", ident::local_part(&id)),
        "",
    ));
    let ask = format!(
        r#"{{"discriminator":"a","cnf_jwk":{}}}"#,
        public(&generate_signing_key(3)).to_json().render()
    );
    let (status, body) =
        app.call(&token_ctx("POST", "/subagent-token", &ask, &token, &ephemeral, NOW));
    assert_eq!(status, 403);
    assert_eq!(text_of(&body, "error"), "enrollment_revoked");
}

#[test]
fn an_expired_agent_token_is_told_as_such() {
    let mut app = build_app("https://ap.example", "open");
    let durable = generate_signing_key(1);
    let ephemeral = generate_signing_key(2);
    enroll_open(&mut app, &durable);
    let token = get_agent_token(&mut app, &durable, &ephemeral, None);
    app.now += 3600;
    let (status, body) =
        app.call(&token_ctx("GET", "/inbox", "", &token, &ephemeral, NOW + 3600));
    assert_eq!(status, 401);
    assert_eq!(text_of(&body, "error"), "expired_jwt");
}

#[test]
fn person_servers_are_bound() {
    let mut app = Server::new(config(
        r#"{"issuer":"https://ap.example","insecure_dev_mode":true,"allow_ps_override":false,
            "enrollment":{"mode":"open","default_ps":"https://default.example"}}"#,
    ));
    let durable = generate_signing_key(1);
    let (status, _) =
        app.call(&hwk_ctx("/enroll", r#"{"ps":"https://ps.example"}"#, &durable, NOW));
    assert_eq!(status, 201);
    let (status, body) =
        app.call(&hwk_ctx("/agent-token", r#"{"ps":"https://other.example"}"#, &durable, NOW));
    assert_eq!(status, 403);
    assert_eq!(text_of(&body, "error"), "ps_mismatch");
    let (status, body) =
        app.call(&hwk_ctx("/agent-token", r#"{"ps":"not a server"}"#, &durable, NOW));
    assert_eq!(status, 400);
    assert_eq!(text_of(&body, "error"), "invalid_request");
    let other = generate_signing_key(2);
    enroll_open(&mut app, &other);
    let token = get_agent_token(&mut app, &other, &generate_signing_key(3), None);
    let d = jwt::decode(&token).unwrap();
    assert_eq!(text_of(&d.payload, "ps"), "https://default.example");
}

// ------------------------------------------------------------------ events

fn resource(app: &mut Server, iss: &str, kid: &str, key: &SigningKey) {
    app.documents.push((
        format!("{iss}/.well-known/aauth-resource.json"),
        format!(r#"{{"issuer":"{iss}","jwks_uri":"{iss}/jwks.json"}}"#),
    ));
    app.documents.push((
        format!("{iss}/jwks.json"),
        format!(r#"{{"keys":[{}]}}"#, named(key, kid).to_json().render()),
    ));
}

fn event_token(iss: &str, aud: &str, eid: &str, kid: &str, key: &SigningKey, now: u64) -> String {
    let payload = value(&format!(
        r#"{{"iss":"{iss}","dwk":"aauth-resource.json","aud":"{aud}","eid":"{eid}","iat":{now},"exp":{}}}"#,
        now + 300
    ));
    jwt::sign(tokens::TYP_EVENT, Some(kid), None, &payload, key)
}

#[test]
fn events_subscribe_deliver_inbox() {
    let mut app = build_app("https://ap.example", "open");
    let durable = generate_signing_key(1);
    let ephemeral = generate_signing_key(2);
    let agent_id = enroll_open(&mut app, &durable);
    let agent_token = get_agent_token(&mut app, &durable, &ephemeral, Some("https://ps.example"));
    let resource_iss = "http://127.0.0.1:9001";
    let resource_key = generate_signing_key(50);
    resource(&mut app, resource_iss, "res-key-1", &resource_key);

    // 1. Agent subscribes (signed with its agent token / ephemeral key).
    let ask = format!(r#"{{"resource":"{resource_iss}","max_uses":1}}"#);
    let (status, body) =
        app.call(&token_ctx("POST", "/subscribe", &ask, &agent_token, &ephemeral, NOW));
    assert_eq!(status, 200, "{}", body.render());
    let eid = text_of(&body, "eid");
    assert!(eid.starts_with("evt_"));
    assert_eq!(body.u64_of("expires_in"), Some(86400));
    let subscribe = jwt::decode(&text_of(&body, "subscribe_token")).unwrap();
    assert_eq!(text_of(&subscribe.payload, "aud"), resource_iss);
    assert_eq!(subscribe.payload.u64_of("max_uses"), Some(1));

    // 2. Resource delivers an event token (aud = agent), signed by the
    //    resource key (dwk-without-cnf: same key verifies JWT + HTTP sig).
    let token = event_token(resource_iss, &agent_id, &eid, "res-key-1", &resource_key, NOW);
    let deliver = |body: &str| token_ctx("POST", "/events", body, &token, &resource_key, NOW);
    let (status, body) = app.call(&deliver(
        r#"{"event_type":"slot.available","slot_time":"2026-07-15T10:00:00Z"}"#,
    ));
    assert_eq!(status, 202, "delivery failed: {}", body.render());
    assert_eq!(body.u64_of("remaining_uses"), Some(0));

    // 3. Agent drains its inbox.
    let (status, body) =
        app.call(&token_ctx("GET", "/inbox", "", &agent_token, &ephemeral, NOW));
    assert_eq!(status, 200, "{}", body.render());
    let events = body.get("events").unwrap().as_array().unwrap();
    assert_eq!(events.len(), 1);
    assert_eq!(text_of(&events[0], "eid"), eid);
    assert_eq!(text_of(events[0].get("payload").unwrap(), "event_type"), "slot.available");

    // 4. Second delivery is refused (max_uses=1 exhausted; subscription gone).
    let (status, body) = app.call(&deliver(r#"{"event_type":"slot.available"}"#));
    assert_eq!(status, 404);
    assert_eq!(text_of(&body, "error"), "unknown_subscription");
    // The inbox is empty now.
    let (_, body) = app.call(&token_ctx("GET", "/inbox", "", &agent_token, &ephemeral, NOW));
    assert_eq!(body.render(), r#"{"events":[]}"#);
}

#[test]
fn events_wrong_resource_rejected() {
    let mut app = build_app("https://ap.example", "open");
    let durable = generate_signing_key(1);
    let ephemeral = generate_signing_key(2);
    let agent_id = enroll_open(&mut app, &durable);
    let agent_token = get_agent_token(&mut app, &durable, &ephemeral, Some("https://ps.example"));
    let (resource_iss, evil_iss) = ("http://127.0.0.1:9001", "http://127.0.0.1:9002");
    let evil_key = generate_signing_key(51);
    resource(&mut app, resource_iss, "res-key-1", &generate_signing_key(50));
    resource(&mut app, evil_iss, "evil-key-1", &evil_key);

    // Subscribe authorizing resource_iss only.
    let ask = format!(r#"{{"resource":"{resource_iss}"}}"#);
    let (_, body) =
        app.call(&token_ctx("POST", "/subscribe", &ask, &agent_token, &ephemeral, NOW));
    let eid = text_of(&body, "eid");

    // A different resource tries to deliver for this eid.
    let token = event_token(evil_iss, &agent_id, &eid, "evil-key-1", &evil_key, NOW);
    let (status, body) =
        app.call(&token_ctx("POST", "/events", r#"{"x":1}"#, &token, &evil_key, NOW));
    assert_eq!(status, 403, "{}", body.render());
    assert_eq!(text_of(&body, "error"), "resource_mismatch");
}

#[test]
fn deliveries_are_counted_and_checked() {
    let mut app = build_app("https://ap.example", "open");
    let durable = generate_signing_key(1);
    let ephemeral = generate_signing_key(2);
    let agent_id = enroll_open(&mut app, &durable);
    let agent_token = get_agent_token(&mut app, &durable, &ephemeral, None);
    let iss = "http://127.0.0.1:9001";
    let key = generate_signing_key(50);
    resource(&mut app, iss, "k1", &key);
    let ask = format!(r#"{{"resource":"{iss}","max_uses":3,"ttl":60}}"#);
    let (_, body) = app.call(&token_ctx("POST", "/subscribe", &ask, &agent_token, &ephemeral, NOW));
    let eid = text_of(&body, "eid");
    assert_eq!(body.u64_of("expires_in"), Some(60));

    // another agent's event
    let token = event_token(iss, "aauth:other@ap.example", &eid, "k1", &key, NOW);
    let (status, body) = app.call(&token_ctx("POST", "/events", "{}", &token, &key, NOW));
    assert_eq!((status, text_of(&body, "error").as_str()), (403, "agent_mismatch"));

    // an unknown key
    let token = event_token(iss, &agent_id, &eid, "k2", &key, NOW);
    let (status, body) = app.call(&token_ctx("POST", "/events", "{}", &token, &key, NOW));
    assert_eq!(status, 400, "{}", body.render());
    app.now += 61;
    let token = event_token(iss, &agent_id, &eid, "k2", &key, NOW + 61);
    let (status, body) = app.call(&token_ctx("POST", "/events", "{}", &token, &key, NOW + 61));
    assert_eq!((status, text_of(&body, "error").as_str()), (401, "unknown_key"));

    // too large
    app.cfg.events.max_payload_bytes = 4;
    let token = event_token(iss, &agent_id, &eid, "k1", &key, NOW + 61);
    let (status, _) =
        app.call(&token_ctx("POST", "/events", r#"{"a":"long"}"#, &token, &key, NOW + 61));
    assert_eq!(status, 413);
    app.cfg.events.max_payload_bytes = 65536;

    // signed with another key than the token
    let (status, _) = app.call(&token_ctx(
        "POST",
        "/events",
        "{}",
        &token,
        &generate_signing_key(77),
        NOW + 61,
    ));
    assert_eq!(status, 401);

    // three uses, and no more
    for left in [2u64, 1] {
        let (status, body) = app.call(&token_ctx("POST", "/events", "{}", &token, &key, NOW + 61));
        assert_eq!((status, body.u64_of("remaining_uses")), (202, Some(left)));
    }
    let k = records::sub_uses_key(&eid);
    let millis = app.millis();
    assert_eq!(app.store.incr(&k, millis), 3);
    let (status, body) = app.call(&token_ctx("POST", "/events", "{}", &token, &key, NOW + 61));
    assert_eq!((status, text_of(&body, "error").as_str()), (429, "max_uses_exceeded"));
    assert_eq!(app.done.iter().filter(|d| **d == "push").count(), 2);

    // expired events are dropped
    app.now += 400;
    let fresh = {
        let naming = sigkey::build_naming_jwt(&durable, &public(&ephemeral), "jj", app.now, 300);
        let now = app.now;
        let (_, r) = app.call(&naming_ctx(&naming, &ephemeral, "", now));
        text_of(&r, "agent_token")
    };
    let now = app.now;
    let (_, body) = app.call(&token_ctx("GET", "/inbox", "", &fresh, &ephemeral, now));
    assert_eq!(body.render(), r#"{"events":[]}"#);
}

#[test]
fn a_rekeyed_resource_is_asked_once_more() {
    let mut app = build_app("https://ap.example", "open");
    let durable = generate_signing_key(1);
    let ephemeral = generate_signing_key(2);
    let agent_id = enroll_open(&mut app, &durable);
    let agent_token = get_agent_token(&mut app, &durable, &ephemeral, None);
    let iss = "http://127.0.0.1:9001";
    let (old, new) = (generate_signing_key(50), generate_signing_key(51));
    resource(&mut app, iss, "k1", &old);
    let ask = format!(r#"{{"resource":"{iss}"}}"#);
    let (_, body) = app.call(&token_ctx("POST", "/subscribe", &ask, &agent_token, &ephemeral, NOW));
    let eid = text_of(&body, "eid");
    let token = event_token(iss, &agent_id, &eid, "k1", &old, NOW);
    let (status, body) = app.call(&token_ctx("POST", "/events", "", &token, &old, NOW));
    assert_eq!((status, body.render().as_str()), (202, "{}"));
    let fetches = app.fetched.len();

    // the cached key serves without a fetch
    let (status, _) = app.call(&token_ctx("POST", "/events", "", &token, &old, NOW));
    assert_eq!(status, 202);
    assert_eq!(app.fetched.len(), fetches);

    // the resource has a new key of the same name
    app.documents.clear();
    resource(&mut app, iss, "k1", &new);
    let token = event_token(iss, &agent_id, &eid, "k1", &new, NOW);
    let (status, _) = app.call(&token_ctx("POST", "/events", "", &token, &new, NOW));
    assert_eq!(status, 401, "within a minute it is not asked again");
    app.now += 60;
    let token = event_token(iss, &agent_id, &eid, "k1", &new, NOW + 60);
    let (status, _) = app.call(&token_ctx("POST", "/events", "", &token, &new, NOW + 60));
    assert_eq!(status, 202);
}

#[test]
fn subscriptions_are_cancelled_by_their_owner() {
    let mut app = build_app("https://ap.example", "open");
    let (d1, d2) = (generate_signing_key(1), generate_signing_key(2));
    enroll_open(&mut app, &d1);
    enroll_open(&mut app, &d2);
    let (e1, e2) = (generate_signing_key(3), generate_signing_key(4));
    let t1 = get_agent_token(&mut app, &d1, &e1, None);
    let t2 = get_agent_token(&mut app, &d2, &e2, None);
    let (_, body) = app.call(&token_ctx(
        "POST",
        "/subscribe",
        r#"{"resource":"https://r.example"}"#,
        &t1,
        &e1,
        NOW,
    ));
    let path = format!("/subscriptions/{}", text_of(&body, "eid"));
    let (status, _) = app.call(&token_ctx("DELETE", &path, "", &t2, &e2, NOW));
    assert_eq!(status, 403);
    let (status, _) = app.call(&token_ctx("DELETE", &path, "", &t1, &e1, NOW));
    assert_eq!(status, 204);
    let (status, _) = app.call(&token_ctx("DELETE", &path, "", &t1, &e1, NOW));
    assert_eq!(status, 404);
    for bad in ["{}", r#"{"resource":"nonsense"}"#] {
        let (status, _) = app.call(&token_ctx("POST", "/subscribe", bad, &t1, &e1, NOW));
        assert_eq!(status, 400);
    }
}

#[test]
fn waiting_is_capped() {
    let ctx = |query: &str, prefer: &str| ReqCtx {
        method: "GET".to_string(),
        authority: AUTH.to_string(),
        path: "/inbox".to_string(),
        query: query.to_string(),
        headers: vec![("prefer".to_string(), prefer.to_string())],
        body: Vec::new(),
    };
    assert_eq!(events::parse_prefer_wait(&ctx("", "respond-async, wait=45")), 45);
    assert_eq!(events::parse_prefer_wait(&ctx("", "wait=600")), 50);
    assert_eq!(events::parse_prefer_wait(&ctx("?a=1&wait=30", "wait=5")), 30);
    assert_eq!(events::parse_prefer_wait(&ctx("?wait=x", "wait=5")), 5);
    assert_eq!(events::parse_prefer_wait(&ctx("", "nothing")), 0);
}

#[test]
fn events_can_be_switched_off() {
    let mut app = Server::new(config(
        r#"{"issuer":"https://ap.example","insecure_dev_mode":true,
            "enrollment":{"mode":"open"},"events":{"enabled":false}}"#,
    ));
    let (status, _) = app.call(&hwk_ctx("/events", "", &generate_signing_key(1), NOW));
    assert_eq!(status, 404);
    let (_, md) = app.call(&admin_ctx("GET", "/.well-known/aauth-agent.json", ""));
    assert!(md.get("event_endpoint").is_none());
}

// -------------------------------------------------- federated enrollment

fn oidc(app: &mut Server, issuer: &str, kid: &str, key: &SigningKey) {
    app.documents.push((
        format!("{issuer}/.well-known/openid-configuration"),
        format!(r#"{{"issuer":"{issuer}","jwks_uri":"{issuer}/jwks.json"}}"#),
    ));
    app.documents.push((
        format!("{issuer}/jwks.json"),
        format!(r#"{{"keys":[{}]}}"#, named(key, kid).to_json().render()),
    ));
}

#[test]
fn federated_oidc_end_to_end() {
    let issuer_key = generate_signing_key(60);
    let oidc_issuer = "http://127.0.0.1:9100";
    let mut app = Server::new(federated_config(&format!(
        r#"[{{"name":"test-k8s","type":"oidc","issuer":"{oidc_issuer}",
            "allow_insecure_egress":true,
            "required_claims":{{"sub":"system:serviceaccount:agents:*"}},
            "embed_claims":{{"kubernetes.io.namespace":"k8s_namespace"}},"label":"k8s"}}]"#
    )));
    oidc(&mut app, oidc_issuer, "op-1", &issuer_key);

    // A k8s-projected-SA-token-shaped assertion (RS256 in real life; EdDSA here).
    let assertion = sign_jws_eddsa(
        r#"{"alg":"EdDSA","typ":"JWT","kid":"op-1"}"#,
        &format!(
            r#"{{"iss":"{oidc_issuer}","aud":["https://ap.example"],
                "sub":"system:serviceaccount:agents:runner",
                "kubernetes.io":{{"namespace":"agents"}},
                "jti":"sa-token-1","iat":{NOW},"exp":{}}}"#,
            NOW + 600
        ),
        &issuer_key,
    );
    let durable = generate_signing_key(1);
    let (status, body) = enroll_with_assertion(&mut app, &durable, &assertion);
    assert_eq!(status, 201, "{}", body.render());
    let agent_id = text_of(&body, "agent");

    // Agent-token issuance stamps the embedded claim.
    let ephemeral = generate_signing_key(2);
    let token = get_agent_token(&mut app, &durable, &ephemeral, None);
    let decoded = jwt::decode(&token).unwrap();
    assert_eq!(text_of(&decoded.payload, "k8s_namespace"), "agents");
    assert_eq!(text_of(&decoded.payload, "sub"), agent_id);
    assert_eq!(text_of(&decoded.payload, "assurance"), "medium");

    // Admin listing shows the federated method + issuer + subject.
    let (_, listing) = app.call(&admin_ctx("GET", "/admin/agents", ""));
    let entry = &listing.get("agents").unwrap().as_array().unwrap()[0];
    assert_eq!(text_of(entry, "agent"), agent_id);
    assert_eq!(listing.u64_of("count"), Some(1));
    let (_, one) = app.call(&admin_ctx(
        "GET",
        &format!("/admin/agents/{}", ident::local_part(&agent_id)),
        "",
    ));
    assert_eq!(text_of(&one, "method"), "federated");
    assert_eq!(text_of(&one, "issuer"), "test-k8s");
    assert_eq!(text_of(&one, "subject"), "system:serviceaccount:agents:runner");
    assert_eq!(text_of(&one, "label"), "k8s");

    // Replay: the same (non-cnf) assertion with a DIFFERENT key is rejected.
    let thief = generate_signing_key(3);
    let (status, body) = enroll_with_assertion(&mut app, &thief, &assertion);
    assert_eq!(status, 403, "{}", body.render());
    assert_eq!(text_of(&body, "error"), "invalid_assertion");

    // But an idempotent retry with the SAME key returns the existing agent.
    let (status, body) = enroll_with_assertion(&mut app, &durable, &assertion);
    assert_eq!(status, 200, "{}", body.render());
    assert_eq!(text_of(&body, "status"), "existing");
}

#[test]
fn federated_claim_and_aud_policy() {
    let issuer_key = generate_signing_key(60);
    let oidc_issuer = "http://127.0.0.1:9100";
    let mut app = Server::new(federated_config(&format!(
        r#"[{{"name":"test","type":"oidc","issuer":"{oidc_issuer}",
            "allow_insecure_egress":true,
            "required_claims":{{"sub":"system:serviceaccount:agents:*"}}}}]"#
    )));
    oidc(&mut app, oidc_issuer, "op-1", &issuer_key);
    let make = |iss: &str, aud: &str, sub: &str, iat: u64, exp: u64| {
        sign_jws_eddsa(
            r#"{"alg":"EdDSA","kid":"op-1"}"#,
            &format!(r#"{{"iss":"{iss}","aud":"{aud}","sub":"{sub}","iat":{iat},"exp":{exp}}}"#),
            &issuer_key,
        )
    };
    let durable = generate_signing_key(1);
    let good = "system:serviceaccount:agents:runner";
    // Wrong namespace in sub, wrong audience, expired, untrusted issuer.
    for bad in [
        make(oidc_issuer, "https://ap.example", "system:serviceaccount:evil:runner", NOW, NOW + 600),
        make(oidc_issuer, "https://other.example", good, NOW, NOW + 600),
        make(oidc_issuer, "https://ap.example", good, NOW - 1200, NOW - 600),
        make("http://unknown.example", "https://ap.example", good, NOW, NOW + 600),
    ] {
        let (status, body) = enroll_with_assertion(&mut app, &durable, &bad);
        assert_eq!(status, 403, "{}", body.render());
        assert_eq!(text_of(&body, "error"), "invalid_assertion");
    }
    // The unknown issuer caused no fetch of its own.
    assert!(!app.fetched.iter().any(|u| u.contains("unknown.example")));
}

#[test]
fn federated_operator_cnf_binding() {
    // Operator-signed, cnf-bound assertions from a jwks_file issuer.
    let operator_key = generate_signing_key(61);
    let set = format!(r#"{{"keys":[{}]}}"#, named(&operator_key, "operator-1").to_json().render());
    let mut app = Server::with_files(
        federated_config(
            r#"[{"name":"operator","type":"jwks_file","issuer":"https://operator.internal",
                "jwks_file":"operator.json","require_cnf_binding":true,
                "embed_claims":{"tenant":"tenant"},"ps":"https://ps.example"}]"#,
        ),
        None,
        Some(&set),
    );
    let durable = generate_signing_key(1);
    let jkt = public(&durable).thumbprint().unwrap();
    let make = |sub: &str, more: &str| {
        sign_jws_eddsa(
            r#"{"alg":"EdDSA","kid":"operator-1"}"#,
            &format!(
                r#"{{"iss":"https://operator.internal","aud":"https://ap.example",
                    "sub":"{sub}",{more}"iat":{NOW},"exp":{}}}"#,
                NOW + 300
            ),
            &operator_key,
        )
    };
    // cnf.jkt binds the enrolling key.
    let assertion = make("pod-7f3c", &format!(r#""tenant":"acme","cnf":{{"jkt":"{jkt}"}},"#));
    let (status, body) = enroll_with_assertion(&mut app, &durable, &assertion);
    assert_eq!(status, 201, "{}", body.render());

    // The issuer's ps pin flows into issued tokens, as does the tenant claim.
    let token = get_agent_token(&mut app, &durable, &generate_signing_key(2), None);
    let decoded = jwt::decode(&token).unwrap();
    assert_eq!(text_of(&decoded.payload, "tenant"), "acme");
    assert_eq!(text_of(&decoded.payload, "ps"), "https://ps.example");

    // An assertion bound to a DIFFERENT key must be rejected for this key.
    let other_jkt = public(&generate_signing_key(3)).thumbprint().unwrap();
    let mismatched = make("pod-9999", &format!(r#""cnf":{{"jkt":"{other_jkt}"}},"#));
    let (status, body) = enroll_with_assertion(&mut app, &generate_signing_key(4), &mismatched);
    assert_eq!(status, 403, "{}", body.render());

    // Missing cnf entirely violates require_cnf_binding.
    let unbound = make("pod-0000", "");
    let (status, _) = enroll_with_assertion(&mut app, &generate_signing_key(5), &unbound);
    assert_eq!(status, 403);

    // The ps pin stands even where overriding is allowed.
    let fresh = generate_signing_key(6);
    let jkt = public(&fresh).thumbprint().unwrap();
    let pinned = make("pod-1", &format!(r#""cnf":{{"jkt":"{jkt}"}},"#));
    let (status, body) = app.call(&hwk_ctx(
        "/enroll",
        &format!(r#"{{"enrollment_assertion":"{pinned}","ps":"https://other.example"}}"#),
        &fresh,
        NOW,
    ));
    assert_eq!((status, text_of(&body, "error").as_str()), (403, "ps_mismatch"));
}

fn pkcs8(key: &SigningKey) -> Vec<u8> {
    let mut out = vec![
        0x30, 0x2e, 0x02, 0x01, 0x00, 0x30, 0x05, 0x06, 0x03, 0x2b, 0x65, 0x70, 0x04, 0x22, 0x04,
        0x20,
    ];
    out.extend_from_slice(&key.to_bytes());
    out
}

struct Authority {
    key: rcgen::KeyPair,
    cert: rcgen::Certificate,
}

fn authority() -> Authority {
    let key = rcgen::KeyPair::generate_for(&rcgen::PKCS_ECDSA_P256_SHA256).unwrap();
    let mut params = rcgen::CertificateParams::new(Vec::<String>::new()).unwrap();
    params.is_ca = rcgen::IsCa::Ca(rcgen::BasicConstraints::Unconstrained);
    let cert = params.self_signed(&key).unwrap();
    Authority { key, cert }
}

fn leaf(ca: &Authority, signer: &SigningKey, san: &str, client: bool) -> Vec<u8> {
    let key = rcgen::KeyPair::try_from(pkcs8(signer).as_slice()).unwrap();
    let mut params = rcgen::CertificateParams::new(Vec::<String>::new()).unwrap();
    params.subject_alt_names.push(rcgen::SanType::URI(
        rcgen::Ia5String::try_from(san.to_string()).unwrap(),
    ));
    if client {
        params
            .extended_key_usages
            .push(rcgen::ExtendedKeyUsagePurpose::ClientAuth);
    }
    params.signed_by(&key, &ca.cert, &ca.key).unwrap().der().to_vec()
}

#[test]
fn federated_x5c_chain() {
    // CA (P-256) and an Ed25519 leaf whose key we control (PKCS#8 import).
    let ca = authority();
    let leaf_signer = generate_signing_key(70);
    let cert = leaf(&ca, &leaf_signer, "spiffe://corp.example/ns/agents/runner", true);
    let mut app = Server::with_files(
        federated_config(
            r#"[{"name":"corp-ca","type":"x5c","issuer":"https://ca.corp.example",
                "ca_bundle_file":"ca.pem",
                "required_sans":["spiffe://corp.example/ns/agents/*"],
                "require_cnf_binding":true}]"#,
        ),
        Some(&ca.cert.pem()),
        None,
    );
    let make = |cert: &[u8], signer: &SigningKey, durable: &SigningKey| {
        sign_jws_eddsa(
            &format!(r#"{{"alg":"EdDSA","x5c":["{}"]}}"#, b64::encode_std(cert)),
            &format!(
                r#"{{"iss":"https://ca.corp.example","aud":"https://ap.example",
                    "sub":"spiffe://corp.example/ns/agents/runner",
                    "cnf":{{"jkt":"{}"}},"iat":{NOW},"exp":{}}}"#,
                public(durable).thumbprint().unwrap(),
                NOW + 300
            ),
            signer,
        )
    };
    let durable = generate_signing_key(1);
    let (status, body) =
        enroll_with_assertion(&mut app, &durable, &make(&cert, &leaf_signer, &durable));
    assert_eq!(status, 201, "x5c enroll failed: {}", body.render());
    let token = get_agent_token(&mut app, &durable, &generate_signing_key(2), None);
    let decoded = jwt::decode(&token).unwrap();
    assert_eq!(text_of(&decoded.payload, "assurance"), "high");

    // A leaf signed by an UNTRUSTED CA is rejected.
    let rogue_ca = authority();
    let leaf2_signer = generate_signing_key(71);
    let leaf2 = leaf(&rogue_ca, &leaf2_signer, "spiffe://corp.example/ns/agents/x", false);
    let durable2 = generate_signing_key(3);
    let (status, body) =
        enroll_with_assertion(&mut app, &durable2, &make(&leaf2, &leaf2_signer, &durable2));
    assert_eq!(status, 403, "{}", body.render());

    // SAN outside policy is rejected (trusted CA, wrong SPIFFE path).
    let leaf3_signer = generate_signing_key(72);
    let leaf3 = leaf(&ca, &leaf3_signer, "spiffe://corp.example/ns/other/sa", false);
    let durable3 = generate_signing_key(4);
    let (status, body) =
        enroll_with_assertion(&mut app, &durable3, &make(&leaf3, &leaf3_signer, &durable3));
    assert_eq!(status, 403, "{}", body.render());

    // A signature that the leaf's key did not make is rejected.
    let durable4 = generate_signing_key(5);
    let (status, body) =
        enroll_with_assertion(&mut app, &durable4, &make(&cert, &leaf3_signer, &durable4));
    assert_eq!(status, 403, "{}", body.render());
}

#[test]
fn names_of_a_certificate() {
    let ca = authority();
    let cert = leaf(&ca, &generate_signing_key(70), "spiffe://corp.example/x", true);
    assert_eq!(
        apd::x509::extract_sans(&cert).unwrap(),
        vec!["spiffe://corp.example/x".to_string()]
    );
    assert!(apd::x509::extract_sans(&[0x30, 0x02, 0x01]).is_err());
}

#[test]
fn spiffe_jwt_svid_enrollment_and_assurance() {
    // A SPIFFE JWT-SVID: signed by the trust-bundle JWKS, `sub` is a SPIFFE ID,
    // no x5c chain, no `iss`. It is routed by trust domain, and the resulting
    // enrollment carries the "high" assurance tier into issued agent tokens.
    let bundle_key = generate_signing_key(62);
    let mut app = Server::new(federated_config(&format!(
        r#"[{{"name":"corp-spire","type":"spiffe","issuer":"corp-spire",
            "trust_domain":"corp.example","jwks":{{"keys":[{}]}},
            "required_claims":{{"sub":"spiffe://corp.example/ns/agents/*"}}}}]"#,
        named(&bundle_key, "spire-1").to_json().render()
    )));
    let make = |sub: &str| {
        sign_jws_eddsa(
            r#"{"alg":"EdDSA","kid":"spire-1"}"#,
            &format!(
                r#"{{"aud":["https://ap.example"],"sub":"{sub}","iat":{NOW},"exp":{}}}"#,
                NOW + 300
            ),
            &bundle_key,
        )
    };
    // JWT-SVID: SPIFFE mandates no `iss`; identity is the `sub`.
    let durable = generate_signing_key(1);
    let (status, body) =
        enroll_with_assertion(&mut app, &durable, &make("spiffe://corp.example/ns/agents/runner"));
    assert_eq!(status, 201, "spiffe enroll failed: {}", body.render());

    // Issued agent tokens carry assurance=high (spiffe default tier).
    let token = get_agent_token(&mut app, &durable, &generate_signing_key(2), None);
    let decoded = jwt::decode(&token).unwrap();
    assert_eq!(text_of(&decoded.payload, "assurance"), "high");

    // A sub of a DIFFERENT trust domain is not routed to this issuer.
    let (status, _) = enroll_with_assertion(
        &mut app,
        &generate_signing_key(3),
        &make("spiffe://evil.example/ns/agents/runner"),
    );
    assert_eq!(status, 403);

    // A sub outside the allowed workload path is rejected by required_claims.
    let (status, _) = enroll_with_assertion(
        &mut app,
        &generate_signing_key(4),
        &make("spiffe://corp.example/ns/other/x"),
    );
    assert_eq!(status, 403);
}

#[test]
fn allowlist_enrollment() {
    let mut app = Server::new(federated_config(
        r#"[{"name":"unused","type":"jwks","issuer":"https://unused.example",
            "jwks":{"keys":[{"kty":"OKP","crv":"Ed25519",
            "x":"11qYAYKxCrfVS_7TyWQHOg7hcvPapiMlrwIaaPcHURo","kid":"k"}]}}]"#,
    ));
    let durable = generate_signing_key(1);
    let jkt = public(&durable).thumbprint().unwrap();

    // Without pre-registration: denied (no token, no assertion, no allowlist hit).
    let (status, _) = app.call(&hwk_ctx("/enroll", "", &durable, NOW));
    assert_eq!(status, 403);

    // Orchestrator pre-registers the thumbprint via the admin API.
    let (status, body) = app.call(&admin_ctx(
        "POST",
        "/admin/allowed-keys",
        &format!(r#"{{"jkt":"{jkt}","ps":"https://ps.example","label":"orch"}}"#),
    ));
    assert_eq!(status, 201, "{}", body.render());
    let (_, listed) = app.call(&admin_ctx("GET", "/admin/allowed-keys", ""));
    assert_eq!(listed.u64_of("count"), Some(1));

    // Now the agent enrolls with only its key.
    let (status, body) = app.call(&hwk_ctx("/enroll", "", &durable, NOW));
    assert_eq!(status, 201, "{}", body.render());

    // The registration is consumed: a different key cannot ride it.
    let (status, _) = app.call(&hwk_ctx("/enroll", "", &generate_signing_key(2), NOW));
    assert_eq!(status, 403);

    // The bound ps flows into issued tokens.
    let token = get_agent_token(&mut app, &durable, &generate_signing_key(3), None);
    let decoded = jwt::decode(&token).unwrap();
    assert_eq!(text_of(&decoded.payload, "ps"), "https://ps.example");
    assert_eq!(text_of(&decoded.payload, "assurance"), "medium");

    // A withdrawn registration admits nobody.
    let late = generate_signing_key(4);
    let jkt = public(&late).thumbprint().unwrap();
    let _ = app.call(&admin_ctx("POST", "/admin/allowed-keys", &format!(r#"{{"jkt":"{jkt}"}}"#)));
    let (status, _) = app.call(&admin_ctx("DELETE", &format!("/admin/allowed-keys/{jkt}"), ""));
    assert_eq!(status, 204);
    let (status, _) = app.call(&admin_ctx("DELETE", &format!("/admin/allowed-keys/{jkt}"), ""));
    assert_eq!(status, 404);
    let (status, _) = app.call(&hwk_ctx("/enroll", "", &late, NOW));
    assert_eq!(status, 403);
    for bad in ["{}", r#"{"jkt":"short"}"#] {
        let (status, _) = app.call(&admin_ctx("POST", "/admin/allowed-keys", bad));
        assert_eq!(status, 400);
    }
}

// ----------------------------------------------------------- configuration

#[test]
fn config_compat_and_validation() {
    // Legacy `mode` still works.
    let legacy = config(r#"{"issuer":"https://ap.example","enrollment":{"mode":"open"}}"#);
    legacy.validate().unwrap();
    assert!(legacy.enrollment.method_enabled("open"));
    assert!(!legacy.enrollment.method_enabled("token"));

    // Default is token.
    let default = config(r#"{"issuer":"https://ap.example"}"#);
    assert!(default.enrollment.method_enabled("token"));

    // federated without issuers is rejected.
    let bad = config(r#"{"issuer":"https://ap.example","enrollment":{"methods":["federated"]}}"#);
    assert!(bad.validate().is_err());

    // Unknown method rejected.
    let bad2 = config(r#"{"issuer":"https://ap.example","enrollment":{"methods":["telepathy"]}}"#);
    assert!(bad2.validate().is_err());

    // embed_claims may not target reserved names.
    let bad3 = config(
        r#"{"issuer":"https://ap.example","enrollment":{"methods":["federated"],
            "trusted_issuers":[{"name":"x","type":"jwks","issuer":"https://x.example",
            "jwks":{"keys":[]},"embed_claims":{"sub":"sub"}}]}}"#,
    );
    assert!(bad3.validate().is_err());

    // nor any other claim that the provider vouches for
    for target in ["assurance", "parent_agent", "cnf"] {
        let text = format!(
            r#"{{"issuer":"https://ap.example","enrollment":{{"methods":["federated"],
                "trusted_issuers":[{{"name":"x","type":"jwks","issuer":"https://x.example",
                "jwks":{{"keys":[]}},"embed_claims":{{"tier":"{target}"}}}}]}}}}"#
        );
        assert_eq!(
            config(&text).validate().err().unwrap(),
            format!(
                "trusted issuer 'x': embed_claims['tier'] target '{target}' must be lowercase \
                 [a-z0-9_], <=64 chars, and not a reserved claim name"
            )
        );
        assert!(!apd::config::valid_embed_target(target));
    }
    assert!(apd::config::valid_embed_target("assurance_level"));

    // The shipped federated example config parses and validates
    // (issuer file paths are not touched at validate time).
    let example = config(apd::config::EXAMPLE_CONFIG_FEDERATED);
    example.validate().unwrap();
    config(apd::config::EXAMPLE_CONFIG).validate().unwrap();
}

#[test]
fn static_enrollment_token() {
    let cfg = config(
        r#"{"issuer":"https://ap.example","storage":{"backend":"memory"},
            "enrollment":{"methods":["token"],"static_tokens":[
                {"token":"dev-enroll-0123456789","ps":"https://ps.example","label":"dev"}]},
            "admin_token":"test-admin-token","insecure_dev_mode":true,
            "events":{"enabled":false}}"#,
    );
    cfg.validate().unwrap();
    let mut app = Server::new(cfg);

    // The SAME static token enrolls multiple distinct agents (reusable).
    let mut agents = Vec::new();
    for seed in [1u8, 2] {
        let durable = generate_signing_key(seed);
        let (status, body) = app.call(&hwk_ctx(
            "/enroll",
            r#"{"enrollment_token":"dev-enroll-0123456789"}"#,
            &durable,
            NOW,
        ));
        assert_eq!(status, 201, "{}", body.render());
        agents.push(text_of(&body, "agent"));

        // The static token's ps flows into issued tokens.
        let token = get_agent_token(&mut app, &durable, &generate_signing_key(seed + 10), None);
        let decoded = jwt::decode(&token).unwrap();
        assert_eq!(text_of(&decoded.payload, "ps"), "https://ps.example");
        assert_eq!(text_of(&decoded.payload, "assurance"), "low");
    }
    assert_ne!(agents[0], agents[1], "distinct identities per key");

    // A wrong token is still rejected (no fall-through).
    let (status, body) = app.call(&hwk_ctx(
        "/enroll",
        r#"{"enrollment_token":"wrong-token-0123456789"}"#,
        &generate_signing_key(3),
        NOW,
    ));
    assert_eq!(status, 403, "{}", body.render());
    assert_eq!(text_of(&body, "error"), "invalid_enrollment_token");
}

#[test]
fn static_token_validation() {
    // Too short is rejected.
    let short = config(
        r#"{"issuer":"https://ap.example","enrollment":{"methods":["token"],
            "static_tokens":[{"token":"short"}]}}"#,
    );
    assert!(short.validate().is_err());

    // static_tokens without the token method is rejected.
    let mismatched = config(
        r#"{"issuer":"https://ap.example","enrollment":{"methods":["open"],
            "static_tokens":[{"token":"dev-enroll-0123456789"}]}}"#,
    );
    assert!(mismatched.validate().is_err());

    // A valid entry passes.
    let ok = config(
        r#"{"issuer":"https://ap.example","enrollment":{"methods":["token"],
            "static_tokens":[{"token":"dev-enroll-0123456789"}]}}"#,
    );
    ok.validate().unwrap();
}

// ------------------------------------------------------------------- admin

#[test]
fn the_admin_api_wants_a_credential() {
    let mut app = build_app("https://ap.example", "open");
    let mut ctx = admin_ctx("GET", "/admin/agents", "");
    ctx.headers.clear();
    assert_eq!(app.call(&ctx).0, 401);
    assert_eq!(app.call(&bearer_ctx("GET", "/admin/agents", "", "test-admin-tokem")).0, 401);
    assert_eq!(app.call(&admin_ctx("GET", "/admin/agents", "")).0, 200);
    let mut off = Server::new(config(r#"{"issuer":"https://ap.example"}"#));
    assert_eq!(off.call(&admin_ctx("GET", "/admin/agents", "")).0, 404);
}

fn sso() -> (Server, SigningKey) {
    let idp_key = generate_signing_key(90);
    let mut app = Server::new(config(
        r#"{"issuer":"https://ap.example","insecure_dev_mode":true,
            "enrollment":{"mode":"open"},"admin_oidc":{
            "issuer":"https://idp.acme.com","audience":"apd-admin",
            "required_claims":{"groups":"apd-admins"},"principal_claim":"email"}}"#,
    ));
    oidc(&mut app, "https://idp.acme.com", "i1", &idp_key);
    (app, idp_key)
}

#[test]
fn operators_sign_in_with_the_identity_provider() {
    let (mut app, key) = sso();
    let make = |claims: &str| {
        sign_jws_eddsa(
            r#"{"alg":"EdDSA","kid":"i1"}"#,
            &format!(
                r#"{{"iss":"https://idp.acme.com","aud":"apd-admin","sub":"00u1",{claims}
                    "iat":{NOW},"exp":{}}}"#,
                NOW + 600
            ),
            &key,
        )
    };
    let good = make(r#""groups":["staff","apd-admins"],"email":"alice@acme.example","#);
    let p = app.operator(&bearer_ctx("GET", "/admin/agents", "", &good)).ok().unwrap();
    assert_eq!(p.actor, "oidc:alice@acme.example");
    let unnamed = make(r#""groups":"apd-admins","#);
    let p = app.operator(&bearer_ctx("GET", "/admin/agents", "", &unnamed)).ok().unwrap();
    assert_eq!(p.actor, "oidc:00u1");

    let refused = |app: &mut Server, token: &str| {
        let e = app.operator(&bearer_ctx("GET", "/admin/agents", "", token)).err().unwrap();
        (e.status, e.detail)
    };
    assert_eq!(
        refused(&mut app, &make("")),
        (403, "admin token has no 'groups' claim; the identity provider is not sending it".to_string())
    );
    assert_eq!(
        refused(&mut app, &make(r#""groups":["staff"],"#)),
        (403, "admin token claim 'groups' does not have a permitted value".to_string())
    );
    assert_eq!(
        refused(&mut app, &make(r#""groups":"apd-admins","cnf":{"jkt":"x"},"#)),
        (401, "this token is sender-constrained (cnf); apd validates bearer tokens only".to_string())
    );
    let parts: Vec<&str> = good.split('.').collect();
    let forged = format!("{}.{}.{}", parts[0], parts[1], b64::encode(&[7u8; 64]));
    assert_eq!(refused(&mut app, &forged).1, "admin token signature verification failed");
    assert_eq!(refused(&mut app, "a.b.c").1, "malformed admin token");
    assert_eq!(
        refused(&mut app, "a-shared-token").1,
        "this provider accepts only an identity-provider token on the admin API"
    );
    let other = |claims: &str, header: &str| sign_jws_eddsa(header, claims, &key);
    let h = r#"{"alg":"EdDSA","kid":"i1"}"#;
    for (claims, said) in [
        (r#"{"aud":"apd-admin","exp":9999999999}"#, "admin token has no iss"),
        (
            r#"{"iss":"https://x.example","aud":"apd-admin","exp":9999999999}"#,
            "admin token was not issued by the trusted IdP",
        ),
        (
            r#"{"iss":"https://idp.acme.com","aud":"wiki","exp":9999999999}"#,
            "admin token audience does not name this provider",
        ),
        (r#"{"iss":"https://idp.acme.com","aud":"apd-admin"}"#, "admin token has no exp"),
        (r#"{"iss":"https://idp.acme.com","aud":"apd-admin","exp":5}"#, "admin token expired"),
        (
            r#"{"iss":"https://idp.acme.com","aud":"apd-admin","exp":9999999999,"iat":9999999990}"#,
            "admin token iat is in the future",
        ),
    ] {
        assert_eq!(refused(&mut app, &other(claims, h)), (401, said.to_string()));
    }
    assert_eq!(
        refused(&mut app, &other("{}", r#"{"alg":"HS256"}"#)).1,
        "unsupported admin token algorithm 'HS256'"
    );
}

#[test]
fn identity_provider_out_of_reach() {
    let (mut app, key) = sso();
    app.documents.clear();
    let token = sign_jws_eddsa(
        r#"{"alg":"EdDSA","kid":"i1"}"#,
        &format!(r#"{{"iss":"https://idp.acme.com","aud":"apd-admin","exp":{}}}"#, NOW + 5),
        &key,
    );
    let e = app.operator(&bearer_ctx("GET", "/admin/agents", "", &token)).err().unwrap();
    assert_eq!(e.status, 401);
    assert!(e.detail.starts_with("cannot resolve admin IdP keys: "), "{}", e.detail);
}

// --------------------------------------------------------------- documents

#[test]
fn published_documents() {
    let mut app = build_app("https://ap.example", "open");
    let r = app.respond(&admin_ctx("GET", "/.well-known/aauth-agent.json", ""));
    assert_eq!(r.status, 200);
    assert_eq!(
        r.body,
        r#"{"accept_signature_algs":["Ed25519"],"event_endpoint":"https://ap.example/events","issuer":"https://ap.example","jwks_uri":"https://ap.example/.well-known/jwks.json"}"#
    );
    assert!(r
        .headers
        .iter()
        .any(|(n, v)| n == "cache-control" && v == "public, max-age=300"));
    let (_, keys) = app.call(&admin_ctx("GET", "/.well-known/jwks.json", ""));
    let first = &keys.get("keys").unwrap().as_array().unwrap()[0];
    assert_eq!(text_of(first, "kid"), "ap-test-1");
    assert_eq!(text_of(first, "alg"), "Ed25519");
    let (_, health) = app.call(&admin_ctx("GET", "/healthz", ""));
    assert_eq!(
        health.render(),
        r#"{"issuer":"https://ap.example","mode":"demo","status":"ok","uptime_secs":5}"#
    );
    let (status, body) = app.call(&admin_ctx("GET", "/nowhere", ""));
    assert_eq!(status, 404);
    assert_eq!(text_of(&body, "error"), "not_found");
}

#[test]
fn reserved_local_parts_are_passed_over() {
    let mut app = build_app("https://ap.example", "open");
    let before: Vec<String> = {
        let mut probe = build_app("https://ap.example", "open");
        (0..6).map(|_| { let d = probe.draw(16); random::random_id(&d) }).collect()
    };
    let millis = app.millis();
    let w = agent::reservation(&before[0]);
    app.store.put(&w.key, &w.value, w.ttl, millis);
    let id = enroll_open(&mut app, &generate_signing_key(1));
    assert_eq!(ident::local_part(&id), before[1]);
}

#[test]
fn audit_lines() {
    let fields = apd::audit::status_changed("static-token", "m4x8b1c5", &None);
    assert_eq!(
        apd::audit::emit("agent_revoked", fields, 7),
        r#"{"actor":"static-token","event":"agent_revoked","local":"m4x8b1c5","ts":7}"#
    );
    let e = ApiError::forbidden("enrollment_required", "an enrollment credential is required");
    assert_eq!(
        apd::audit::emit("enroll_denied", apd::audit::denied("jkt1", &e), 8),
        r#"{"detail":"an enrollment credential is required","durable_jkt":"jkt1","error":"enrollment_required","event":"enroll_denied","ts":8}"#
    );
}

#[test]
fn signers_are_identified() {
    let cfg = test_config("https://ap.example", "open");
    let keyset = KeySet::load(&KeyFile {
        active: "ap-one".to_string(),
        keys: vec![keys::new_entry("one", &[1; 32], NOW)],
    })
    .ok()
    .unwrap();
    let durable = generate_signing_key(41);
    let ephemeral = generate_signing_key(42);
    let none: Vec<String> = Vec::new();
    let signer = |ctx: &ReqCtx| reqctx::verify_signature(ctx, &cfg, &keyset, &none, NOW);

    let own = signer(&hwk_ctx("/enroll", "", &durable, NOW)).ok().unwrap();
    assert!(matches!(own, Signer::Hwk { jwk } if jwk.x == public(&durable).x));

    let naming = sigkey::build_naming_jwt(&durable, &public(&ephemeral), "n1", NOW, 300);
    let by_name = signer(&naming_ctx(&naming, &ephemeral, "", NOW)).ok().unwrap();
    match by_name {
        Signer::JktJwt { durable_jkt, ephemeral_jwk, jti } => {
            assert_eq!(durable_jkt, public(&durable).thumbprint().ok().unwrap());
            assert_eq!(ephemeral_jwk.x, public(&ephemeral).x);
            assert_eq!(jti.as_deref(), Some("n1"));
        }
        _ => panic!("not named"),
    }
    // the durable key itself may not stand in for the one it names
    assert!(signer(&naming_ctx(&naming, &durable, "", NOW)).is_err());

    let (token, exp) =
        issue::agent_token(&cfg, &keyset, "bot", &public(&ephemeral), None, 600, &None, None, "j1", NOW);
    assert_eq!(exp, NOW + 600);
    let holder = signer(&token_ctx("GET", "/inbox", "", &token, &ephemeral, NOW)).ok().unwrap();
    match holder {
        Signer::AgentToken { claims, signing_jwk } => {
            assert_eq!(claims.sub, "aauth:bot@ap.example");
            assert_eq!(signing_jwk.x, public(&ephemeral).x);
        }
        _ => panic!("no token"),
    }
    assert!(signer(&token_ctx("GET", "/inbox", "", &token, &durable, NOW)).is_err());
}

#[test]
fn tokens_outlive_a_rotation() {
    let cfg = test_config("https://ap.example", "open");
    let old = keys::new_entry("one", &[1; 32], NOW);
    let file = KeyFile { active: old.kid.clone(), keys: vec![old] };
    let before = KeySet::load(&file).ok().unwrap();
    let holder = public(&generate_signing_key(43));
    let (token, _) = issue::agent_token(&cfg, &before, "bot", &holder, None, 600, &None, None, "j1", NOW);
    let fresh = keys::new_entry("two", &[2; 32], NOW + 1);
    let (_, file) = keys::keygen(Some(file), "keys.json", true, None, fresh, NOW + 1);
    let after = KeySet::load(&file.unwrap()).ok().unwrap();
    assert_eq!(after.active_kid, "ap-two");
    let t = jwt::decode(&token).ok().unwrap();
    let claims = reqctx::verify_local_agent_token(&after, &t, NOW + 599, false).ok().unwrap();
    assert_eq!(claims.sub, "aauth:bot@ap.example");
    assert!(reqctx::verify_local_agent_token(&after, &t, NOW + 600, false).is_err());

    // pruned away, the old key is unknown
    let only = KeyFile { active: "ap-two".to_string(), keys: vec![keys::new_entry("two", &[2; 32], NOW)] };
    let pruned = KeySet::load(&only).ok().unwrap();
    assert!(reqctx::verify_local_agent_token(&pruned, &t, NOW + 1, false).is_err());
}

#[test]
fn corrupt_records_are_told_with_their_fault() {
    let mut app = build_app("https://ap.example", "open");
    let durable = generate_signing_key(1);
    let agent = enroll_open(&mut app, &durable);
    let local = ident::local_part(&agent);
    let now = app.millis();
    app.store.put(&records::agent_key(&local), br#"{"local":"x"}"#, None, now);

    let (status, body) = app.call(&hwk_ctx("/agent-token", "{}", &durable, NOW));
    assert_eq!(status, 500);
    assert_eq!(text_of(&body, "detail"), "corrupt agent record: missing field `status`");
    for (method, path) in [
        ("GET", format!("/admin/agents/{local}")),
        ("POST", format!("/admin/agents/{local}/revoke")),
        ("POST", format!("/admin/agents/{local}/reinstate")),
    ] {
        let (status, body) = app.call(&admin_ctx(method, &path, ""));
        assert_eq!(status, 500, "{path}");
        assert_eq!(text_of(&body, "detail"), "corrupt record: missing field `status`");
    }

    let bad = found(Some(b"{}".to_vec()));
    let e = events::cancel_subscription("aauth:a@ap.example", "e1", &bad).err().unwrap();
    assert_eq!((e.status, e.detail.as_str()), (500, "corrupt subscription: missing field `status`"));
}
