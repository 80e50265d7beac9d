//! The flow that revokes an agent. Its record comes first; then its Person
//! Server is told, which may fail in every way without undoing anything.

use vstd::prelude::*;

use crate::admin;
use crate::client;
use crate::config::Config;
use crate::flow;
use crate::flow::{Action, ActionView, Event};
use crate::httpc;
use crate::json::Json;
use crate::keys::KeySet;
use crate::problem::{ApiError, ApiErrorView};
use crate::records;
use crate::records::AgentView;
use crate::revocation;
use crate::revocation::{NotifyOutcome, OutcomeView, Reply};
use crate::sig;
use crate::sigkey;
use crate::storage;
use crate::storage::{Found, FoundView, WriteView};
use crate::text;

verus! {

/// Where a revocation stands. Every state but the first two knows the Person
/// Server that is told.
pub enum RevokeState {
    /// The agent's record is looked up.
    Lookup,
    /// The revoked record is stored; the Person Server is known.
    Storing(Option<String>),
    /// The keys of the agent's outstanding tokens are looked up.
    Listing(String),
    /// Those keys are deleted, after `done` of them.
    Clearing { ps: String, keys: Vec<String>, done: usize },
    /// The Person Server's document is fetched.
    Discovering { ps: String, jtis: Vec<String> },
    /// The Person Server is told of each token.
    Telling { ps: String, endpoint: String, jtis: Vec<String>, replies: Vec<Reply> },
}

/// What happens next. At the end stands how telling the Person Server went.
pub enum RevokeNext {
    Ask(Action, RevokeState),
    End(Result<NotifyOutcome, ApiError>),
}

/// Whether a revocation ends in an error.
pub open spec fn fails(next: RevokeNext, e: ApiErrorView) -> bool {
    next matches RevokeNext::End(Err(x)) && x@ == e
}

/// Whether a revocation ends with an outcome.
pub open spec fn ends(next: RevokeNext, o: OutcomeView) -> bool {
    next matches RevokeNext::End(Ok(x)) && x@ == o
}

/// Begins to revoke an agent: its record is looked up.
pub fn begin_revoke(local: &str) -> (r: RevokeNext)
    ensures
        r matches RevokeNext::Ask(a, s) && a@ == ActionView::GetAgent("agent:"@ + local@) && s
            == RevokeState::Lookup,
{
    RevokeNext::Ask(Action::GetAgent(records::agent_key(local)), RevokeState::Lookup)
}

/// What is stored of a revoked agent.
pub open spec fn revoked_write(local: Seq<char>, rec: AgentView) -> WriteView {
    WriteView {
        key: "agent:"@ + local,
        value: records::stored(records::agent_json(admin::with_status(rec, "revoked"@))),
        ttl: None,
    }
}

/// What an agent's record makes of its revocation.
pub open spec fn lookup_next(local: Seq<char>, found: Option<FoundView>, next: RevokeNext) -> bool {
    match admin::agent_found(found) {
        Err(e) => fails(next, e),
        Ok(rec) => next matches RevokeNext::Ask(a, RevokeState::Storing(ps)) && text::opt_view(ps)
            == rec.ps && a@ == ActionView::Put(revoked_write(local, rec)),
    }
}

fn after_lookup(local: &str, found: &Option<Found>) -> (r: RevokeNext)
    ensures
        lookup_next(local@, storage::opt_found(*found), r),
{
    match admin::revoke_agent(local, found) {
        Err(e) => RevokeNext::End(Err(e)),
        Ok(c) => RevokeNext::Ask(Action::Put(c.write), RevokeState::Storing(c.record.ps)),
    }
}

/// What follows a revocation that is stored: nobody is told, or the outstanding
/// tokens are looked up.
pub open spec fn stored_next(
    cfg: Config,
    local: Seq<char>,
    ps: Option<String>,
    next: RevokeNext,
) -> bool {
    match (revocation::untold(cfg, text::opt_view(ps)), ps) {
        (None, Some(p)) => next matches RevokeNext::Ask(a, s) && a@ == ActionView::List(
            revocation::issued_prefix(local),
        ) && s == RevokeState::Listing(p),
        (Some(o), _) => ends(next, o),
        (None, None) => false,
    }
}

fn after_storing(cfg: &Config, local: &str, ps: Option<String>) -> (r: RevokeNext)
    ensures
        stored_next(*cfg, local@, ps, r),
{
    match revocation::notify_ps(cfg, &ps) {
        Some(o) => RevokeNext::End(Ok(o)),
        None => match ps {
            Some(p) => RevokeNext::Ask(
                Action::List(revocation::jti_prefix(local)),
                RevokeState::Listing(p),
            ),
            None => RevokeNext::End(Ok(revocation::nothing_outstanding(""))),
        },
    }
}

/// The outcome where no token is outstanding.
pub open spec fn nothing_to_tell(ps: Seq<char>) -> OutcomeView {
    OutcomeView {
        status: "sent"@,
        tokens: 0,
        ps: Some(ps),
        detail: Some("no outstanding tokens"@),
    }
}

/// The keys of outstanding tokens are deleted one by one, whether or not that
/// works. Then the Person Server's document is fetched, where there is something
/// to tell.
pub open spec fn clearing_next(
    local: Seq<char>,
    ps: String,
    keys: Seq<String>,
    done: nat,
    next: RevokeNext,
) -> bool {
    let jtis = revocation::named_tokens(revocation::issued_prefix(local), text::list_view(keys));
    if done < keys.len() {
        next matches RevokeNext::Ask(a, RevokeState::Clearing { ps: p, keys: k, done: d }) && p
            == ps && k@ == keys && d == done + 1 && a@ == ActionView::Delete(
            keys[done as int]@,
        )
    } else if jtis.len() == 0 {
        ends(next, nothing_to_tell(ps@))
    } else {
        next matches RevokeNext::Ask(a, RevokeState::Discovering { ps: p, jtis: j }) && p == ps
            && text::list_view(j@) == jtis && a@ == ActionView::Fetch(
            ps@ + "/.well-known/aauth-person.json"@,
        )
    }
}

fn clear(local: &str, ps: String, keys: Vec<String>, done: usize) -> (r: RevokeNext)
    ensures
        clearing_next(local@, ps, keys@, done as nat, r),
{
    if done < keys.len() {
        let key = keys[done].clone();
        return RevokeNext::Ask(
            Action::Delete(key),
            RevokeState::Clearing { ps, keys, done: done + 1 },
        );
    }
    let jtis = revocation::outstanding(local, &keys);
    proof {
        assert(text::list_view(jtis@).len() == jtis@.len());
    }
    if jtis.len() == 0 {
        return RevokeNext::End(Ok(revocation::nothing_outstanding(ps.as_str())));
    }
    RevokeNext::Ask(
        Action::Fetch(revocation::metadata_url(ps.as_str())),
        RevokeState::Discovering { ps, jtis },
    )
}

/// The request that tells of one token.
pub open spec fn tells(
    cfg: Config,
    keys: KeySet,
    endpoint: Seq<char>,
    jti: Seq<char>,
    now: u64,
    a: ActionView,
) -> bool {
    let body = records::stored(revocation::revocation_json(cfg.issuer@, jti));
    httpc::parsed_url(endpoint) matches Ok(u) && (sig::signed_headers(
        client::call_parts(
            "POST"@,
            httpc::url_authority(u),
            httpc::path_alone(u.path_and_query),
            Some(body),
        ),
        client::body_components(Some(body)),
        sigkey::jwks_uri_text(cfg.issuer@, "aauth-agent.json"@, keys.active_kid@),
        keys.active_key@,
        now,
    ) matches Some(s) && a == (ActionView::Post {
        url: endpoint,
        body,
        headers: client::all_headers(Some(body), s),
    }))
}

/// What follows after as many replies as there are: the next token is told of,
/// or the outcome stands. An endpoint that is no URL fails every token.
pub open spec fn telling_next(
    cfg: Config,
    keys: KeySet,
    ps: String,
    endpoint: String,
    jtis: Seq<String>,
    replies: Seq<Reply>,
    now: u64,
    next: RevokeNext,
) -> bool {
    let told = revocation::replies_view(replies);
    if replies.len() >= jtis.len() {
        ends(next, revocation::concluded(ps@, told))
    } else {
        match httpc::parsed_url(endpoint@) {
            Err(e) => ends(
                next,
                OutcomeView {
                    status: "failed"@,
                    tokens: jtis.len(),
                    ps: Some(ps@),
                    detail: Some(e),
                },
            ),
            Ok(_) => next matches RevokeNext::Ask(
                a,
                RevokeState::Telling { ps: p, endpoint: u, jtis: j, replies: r },
            ) && p == ps && u == endpoint && j@ == jtis && r@ == replies && tells(
                cfg,
                keys,
                endpoint@,
                jtis[replies.len() as int]@,
                now,
                a@,
            ),
        }
    }
}

fn tell(
    cfg: &Config,
    keys: &KeySet,
    ps: String,
    endpoint: String,
    jtis: Vec<String>,
    replies: Vec<Reply>,
    now: u64,
) -> (r: RevokeNext)
    ensures
        telling_next(*cfg, *keys, ps, endpoint, jtis@, replies@, now, r),
{
    if replies.len() >= jtis.len() {
        return RevokeNext::End(Ok(revocation::conclude(ps.as_str(), &replies)));
    }
    match httpc::signing_parts(endpoint.as_str()) {
        Err(e) => {
            let o = NotifyOutcome {
                status: "failed",
                tokens: jtis.len(),
                ps: Some(ps),
                detail: Some(e),
            };
            RevokeNext::End(Ok(o))
        },
        Ok((authority, path)) => {
            let (body, headers) = revocation::revocation_request(
                cfg,
                keys,
                authority.as_str(),
                path.as_str(),
                jtis[replies.len()].as_str(),
                now,
            );
            let action = Action::Post { url: endpoint.clone(), body, headers };
            RevokeNext::Ask(action, RevokeState::Telling { ps, endpoint, jtis, replies })
        },
    }
}

/// What a Person Server's document, or the lack of one, makes of telling it.
pub open spec fn discovered_next(
    cfg: Config,
    keys: KeySet,
    ps: String,
    jtis: Seq<String>,
    doc: Result<Json, Seq<char>>,
    now: u64,
    next: RevokeNext,
) -> bool {
    let found = match doc {
        Ok(j) => revocation::published_endpoint(ps@, j),
        Err(e) => Err(e),
    };
    match found {
        Ok(Some(url)) => exists|endpoint: String|
            endpoint@ == url && #[trigger] telling_next(
                cfg,
                keys,
                ps,
                endpoint,
                jtis,
                Seq::empty(),
                now,
                next,
            ),
        Ok(None) => ends(
            next,
            OutcomeView {
                status: "no_endpoint"@,
                tokens: jtis.len(),
                ps: Some(ps@),
                detail: Some("PS metadata publishes no revocation_endpoint"@),
            },
        ),
        Err(e) => ends(
            next,
            OutcomeView { status: "failed"@, tokens: jtis.len(), ps: Some(ps@), detail: Some(e) },
        ),
    }
}

/// The view of a fetched document.
pub open spec fn document(r: Result<crate::json::JsonValue, String>) -> Result<Json, Seq<char>> {
    match r {
        Ok(j) => Ok(j@),
        Err(e) => Err(e@),
    }
}

fn after_discovery(
    cfg: &Config,
    keys: &KeySet,
    ps: String,
    jtis: Vec<String>,
    doc: Result<crate::json::JsonValue, String>,
    now: u64,
) -> (r: RevokeNext)
    ensures
        discovered_next(*cfg, *keys, ps, jtis@, document(doc), now, r),
{
    let found = match doc {
        Ok(j) => revocation::read_endpoint(ps.as_str(), &j),
        Err(e) => Err(e),
    };
    match revocation::endpoint_or_outcome(ps.as_str(), jtis.len(), found) {
        Err(o) => RevokeNext::End(Ok(o)),
        Ok(endpoint) => {
            let none: Vec<Reply> = Vec::new();
            proof {
                assert(none@ =~= Seq::<Reply>::empty());
            }
            tell(cfg, keys, ps, endpoint, jtis, none, now)
        },
    }
}

/// What happens next with a revocation.
pub open spec fn revoke_goes_on(
    cfg: Config,
    keys: KeySet,
    local: Seq<char>,
    now: u64,
    state: RevokeState,
    ev: Event,
    next: RevokeNext,
) -> bool {
    match state {
        RevokeState::Lookup => match ev {
            Event::Record(found) => lookup_next(local, storage::opt_found(found), next),
            _ => fails(next, flow::stopped(ev)),
        },
        RevokeState::Storing(ps) => match ev {
            Event::Done => stored_next(cfg, local, ps, next),
            _ => fails(next, flow::stopped(ev)),
        },
        RevokeState::Listing(ps) => match ev {
            Event::Keys(found) => clearing_next(local, ps, found@, 0, next),
            _ => clearing_next(local, ps, Seq::empty(), 0, next),
        },
        RevokeState::Clearing { ps, keys: found, done } => clearing_next(
            local,
            ps,
            found@,
            done as nat,
            next,
        ),
        RevokeState::Discovering { ps, jtis } => match ev {
            Event::Document(doc) => discovered_next(
                cfg,
                keys,
                ps,
                jtis@,
                document(doc),
                now,
                next,
            ),
            _ => discovered_next(cfg, keys, ps, jtis@, Err("unexpected reply"@), now, next),
        },
        RevokeState::Telling { ps, endpoint, jtis, replies } => match ev {
            Event::Replied(reply) => telling_next(
                cfg,
                keys,
                ps,
                endpoint,
                jtis@,
                replies@.push(reply),
                now,
                next,
            ),
            _ => exists|reply: Reply|
                reply@ == revocation::ReplyView::Failed("unexpected reply"@)
                    && #[trigger] telling_next(
                    cfg,
                    keys,
                    ps,
                    endpoint,
                    jtis@,
                    replies@.push(reply),
                    now,
                    next,
                ),
        },
    }
}

/// Goes on with the revocation of an agent.
pub fn continue_revoke(
    cfg: &Config,
    keys: &KeySet,
    local: &str,
    now: u64,
    state: RevokeState,
    ev: Event,
) -> (r: RevokeNext)
    ensures
        revoke_goes_on(*cfg, *keys, local@, now, state, ev, r),
{
    match state {
        RevokeState::Lookup => match &ev {
            Event::Record(found) => after_lookup(local, found),
            _ => RevokeNext::End(Err(flow::stop(&ev))),
        },
        RevokeState::Storing(ps) => match &ev {
            Event::Done => after_storing(cfg, local, ps),
            _ => RevokeNext::End(Err(flow::stop(&ev))),
        },
        RevokeState::Listing(ps) => match ev {
            Event::Keys(found) => clear(local, ps, found, 0),
            _ => {
                let none: Vec<String> = Vec::new();
                proof {
                    assert(none@ =~= Seq::<String>::empty());
                }
                clear(local, ps, none, 0)
            },
        },
        RevokeState::Clearing { ps, keys: found, done } => clear(local, ps, found, done),
        RevokeState::Discovering { ps, jtis } => match ev {
            Event::Document(doc) => after_discovery(cfg, keys, ps, jtis, doc, now),
            _ => after_discovery(cfg, keys, ps, jtis, Err("unexpected reply".to_owned()), now),
        },
        RevokeState::Telling { ps, endpoint, jtis, replies } => {
            let mut replies = replies;
            let reply = match ev {
                Event::Replied(reply) => reply,
                _ => Reply::Failed("unexpected reply".to_owned()),
            };
            replies.push(reply);
            tell(cfg, keys, ps, endpoint, jtis, replies, now)
        },
    }
}

// ------------------------------------------------------------------ laws

/// Once the revoked record is stored, the revocation succeeds, whatever comes
/// back from the store or from the Person Server: what follows can only change
/// how telling the Person Server went.
pub proof fn law_revocation_is_local(
    cfg: Config,
    keys: KeySet,
    local: Seq<char>,
    now: u64,
    state: RevokeState,
    ev: Event,
    next: RevokeNext,
)
    requires
        !(state is Lookup),
        state is Storing ==> ev is Done,
        revoke_goes_on(cfg, keys, local, now, state, ev, next),
    ensures
        !(next matches RevokeNext::End(Err(_))),
        next matches RevokeNext::Ask(_, s) ==> !(s is Lookup) && !(s is Storing),
{
}

/// The Person Server is told of nothing before the revoked record is stored.
pub proof fn law_stored_before_told(
    cfg: Config,
    keys: KeySet,
    local: Seq<char>,
    now: u64,
    found: Option<Found>,
    next: RevokeNext,
)
    requires
        revoke_goes_on(
            cfg,
            keys,
            local,
            now,
            RevokeState::Lookup,
            Event::Record(found),
            next,
        ),
    ensures
        match next {
            RevokeNext::Ask(a, s) => s is Storing && (admin::agent_found(
                storage::opt_found(found),
            ) matches Ok(rec) && a@ == ActionView::Put(revoked_write(local, rec))),
            RevokeNext::End(r) => r is Err,
        },
{
}

/// The record of a revoked agent is stored under its local part with the status
/// `revoked`, for good.
pub proof fn law_revoked_record(local: Seq<char>, rec: AgentView)
    ensures
        revoked_write(local, rec).key == "agent:"@ + local,
        revoked_write(local, rec).ttl is None,
        exists|after: AgentView|
            revoked_write(local, rec).value == records::stored(#[trigger] records::agent_json(after))
                && after.status == "revoked"@ && after.local == rec.local && after.durable_jkt
                == rec.durable_jkt && after.ps == rec.ps && after.tokens_issued
                == rec.tokens_issued,
{
    let after = admin::with_status(rec, "revoked"@);
    assert(revoked_write(local, rec).value == records::stored(records::agent_json(after)));
}

/// An agent that is found is stored as revoked; then its Person Server may be
/// told. One that is not found is answered with 404.
pub proof fn law_revocation_lookup(
    cfg: Config,
    keys: KeySet,
    local: Seq<char>,
    now: u64,
    found: Option<Found>,
    next: RevokeNext,
)
    requires
        revoke_goes_on(cfg, keys, local, now, RevokeState::Lookup, Event::Record(found), next),
    ensures
        found is None ==> (next matches RevokeNext::End(Err(e)) && e@.status == 404),
        admin::agent_found(storage::opt_found(found)) matches Ok(rec) ==> (
        next matches RevokeNext::Ask(a, RevokeState::Storing(ps)) && text::opt_view(ps) == rec.ps && (
        a@ matches ActionView::Put(w) && w == revoked_write(local, rec))),
        admin::agent_found(storage::opt_found(found)) matches Err(e) ==> (
        next matches RevokeNext::End(Err(x)) && x@ == e),
{
}

/// Once it is stored, the outstanding tokens are looked up where there is
/// somebody to tell.
pub proof fn law_revocation_stored(
    cfg: Config,
    keys: KeySet,
    local: Seq<char>,
    now: u64,
    ps: Option<String>,
    next: RevokeNext,
)
    requires
        revoke_goes_on(cfg, keys, local, now, RevokeState::Storing(ps), Event::Done, next),
    ensures
        revocation::untold(cfg, text::opt_view(ps)) matches Some(o) ==> (
        next matches RevokeNext::End(Ok(x)) && x@ == o),
        revocation::untold(cfg, text::opt_view(ps)) is None ==> (ps matches Some(p) && (
        next matches RevokeNext::Ask(a, RevokeState::Listing(q)) && q == p && a@ == ActionView::List(
            revocation::issued_prefix(local),
        ))),
{
}

/// Every key that was listed is deleted in turn; then the Person Server's own
/// document is fetched, unless no token is outstanding.
pub proof fn law_outstanding_cleared(
    cfg: Config,
    keys: KeySet,
    local: Seq<char>,
    now: u64,
    ps: String,
    found: Vec<String>,
    done: usize,
    ev: Event,
    first: RevokeNext,
    next: RevokeNext,
)
    requires
        revoke_goes_on(
            cfg,
            keys,
            local,
            now,
            RevokeState::Listing(ps),
            Event::Keys(found),
            first,
        ),
        revoke_goes_on(
            cfg,
            keys,
            local,
            now,
            RevokeState::Clearing { ps, keys: found, done },
            ev,
            next,
        ),
    ensures
        found@.len() == 0 && revocation::named_tokens(
            revocation::issued_prefix(local),
            text::list_view(found@),
        ).len() == 0 ==> (first matches RevokeNext::End(Ok(x)) && x@.status == "sent"@ && x@.tokens
            == 0 && x@.ps == Some(ps@)),
        found@.len() > 0 ==> (first matches RevokeNext::Ask(a, RevokeState::Clearing { done: d, .. })
            && d == 1 && a@ == ActionView::Delete(found@[0]@)),
        done < found@.len() ==> (next matches RevokeNext::Ask(
            a,
            RevokeState::Clearing { ps: p, keys: k, done: d },
        ) && p == ps && k@ == found@ && d == done + 1 && a@ == ActionView::Delete(
            found@[done as int]@,
        )),
        done >= found@.len() && revocation::named_tokens(
            revocation::issued_prefix(local),
            text::list_view(found@),
        ).len() > 0 ==> (next matches RevokeNext::Ask(a, RevokeState::Discovering { ps: p, jtis })
            && p == ps && text::list_view(jtis@) == revocation::named_tokens(
            revocation::issued_prefix(local),
            text::list_view(found@),
        ) && a@ == ActionView::Fetch(ps@ + "/.well-known/aauth-person.json"@)),
{
}

/// A Person Server that publishes no endpoint, or whose document cannot be had,
/// is not told; the outcome says which of the two, and of how many tokens.
pub proof fn law_no_endpoint(
    cfg: Config,
    keys: KeySet,
    local: Seq<char>,
    now: u64,
    ps: String,
    jtis: Vec<String>,
    doc: crate::json::JsonValue,
    why: String,
    next: RevokeNext,
    other: RevokeNext,
)
    requires
        revoke_goes_on(
            cfg,
            keys,
            local,
            now,
            RevokeState::Discovering { ps, jtis },
            Event::Document(Ok(doc)),
            next,
        ),
        revoke_goes_on(
            cfg,
            keys,
            local,
            now,
            RevokeState::Discovering { ps, jtis },
            Event::Document(Err(why)),
            other,
        ),
    ensures
        revocation::published_endpoint(ps@, doc@) == Ok::<Option<Seq<char>>, Seq<char>>(None) ==> (
        next matches RevokeNext::End(Ok(x)) && x@.status == "no_endpoint"@ && x@.tokens
            == jtis@.len() && x@.ps == Some(ps@)),
        revocation::published_endpoint(ps@, doc@) matches Err(e) ==> (next matches RevokeNext::End(
            Ok(x),
        ) && x@.status == "failed"@ && x@.tokens == jtis@.len() && x@.detail == Some(e)),
        other matches RevokeNext::End(Ok(x)) && x@.status == "failed"@ && x@.tokens == jtis@.len()
            && x@.detail == Some(why@),
{
}

/// A request that tells of a token is posted to the endpoint with the token's
/// revocation as its body, signed with the provider's active key.
pub proof fn law_told_of_token(
    cfg: Config,
    keys: KeySet,
    endpoint: Seq<char>,
    jti: Seq<char>,
    now: u64,
    a: ActionView,
)
    requires
        tells(cfg, keys, endpoint, jti, now, a),
    ensures
        a matches ActionView::Post { url, body, headers } && url == endpoint && body
            == records::stored(revocation::revocation_json(cfg.issuer@, jti)) && (
        httpc::parsed_url(endpoint) matches Ok(u) && (sig::signed_headers(
            client::call_parts(
                "POST"@,
                httpc::url_authority(u),
                httpc::path_alone(u.path_and_query),
                Some(body),
            ),
            client::body_components(Some(body)),
            sigkey::jwks_uri_text(cfg.issuer@, "aauth-agent.json"@, keys.active_kid@),
            keys.active_key@,
            now,
        ) matches Some(s) && headers == client::all_headers(Some(body), s))),
{
}

/// Every token is told of in turn, and the outcome is made of all replies.
pub proof fn law_every_token_told(
    cfg: Config,
    keys: KeySet,
    ps: String,
    endpoint: String,
    jtis: Seq<String>,
    replies: Seq<Reply>,
    now: u64,
    next: RevokeNext,
)
    requires
        telling_next(cfg, keys, ps, endpoint, jtis, replies, now, next),
    ensures
        replies.len() < jtis.len() && httpc::parsed_url(endpoint@) is Ok ==> (
        next matches RevokeNext::Ask(
            a,
            RevokeState::Telling { ps: p, endpoint: u, jtis: j, replies: r },
        ) && p == ps && u == endpoint && j@ == jtis && r@ == replies && tells(
            cfg,
            keys,
            endpoint@,
            jtis[replies.len() as int]@,
            now,
            a@,
        )),
        replies.len() >= jtis.len() ==> (next matches RevokeNext::End(Ok(x)) && x@
            == revocation::concluded(ps@, revocation::replies_view(replies))),
        replies.len() < jtis.len() ==> (httpc::parsed_url(endpoint@) matches Err(e) ==> (
        next matches RevokeNext::End(Ok(x)) && x@.status == "failed"@ && x@.tokens == jtis.len()
            && x@.detail == Some(e))),
{
}

/// What was replied is counted with what was replied before.
pub proof fn law_replies_collected(
    cfg: Config,
    keys: KeySet,
    local: Seq<char>,
    now: u64,
    ps: String,
    endpoint: String,
    jtis: Vec<String>,
    replies: Vec<Reply>,
    reply: Reply,
    next: RevokeNext,
)
    requires
        revoke_goes_on(
            cfg,
            keys,
            local,
            now,
            RevokeState::Telling { ps, endpoint, jtis, replies },
            Event::Replied(reply),
            next,
        ),
    ensures
        telling_next(cfg, keys, ps, endpoint, jtis@, replies@.push(reply), now, next),
{
}

} // verus!
