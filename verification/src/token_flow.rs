//! The flows that issue tokens: to an agent, and to a sub-agent.

use vstd::prelude::*;

use crate::agent;
use crate::agent::{
    IssuedSubagent, IssuedToken, SubagentRequest, SubagentView, TokenAskView, TokenRequest,
};
use crate::config::Config;
use crate::flow;
use crate::flow::{Action, ActionView, Event};
use crate::ident;
use crate::keys::KeySet;
use crate::problem::{ApiError, ApiErrorView};
use crate::records;
use crate::reqctx::{ReqCtx, ReqView};
use crate::revocation;
use crate::storage;
use crate::storage::{Found, FoundView};

verus! {

// ----------------------------------------------------------- agent tokens

/// Where a request for an agent token stands.
pub enum TokenState {
    /// The naming token's identifier is put down.
    Guard(TokenRequest),
    /// The key's index is looked up.
    Index(TokenRequest),
    /// The agent's record is looked up.
    Record(TokenRequest),
    /// The token is issued, and counted.
    Counting(IssuedToken),
    /// The agent's outstanding tokens are looked up.
    Listing(IssuedToken),
    /// The token is put down as outstanding.
    Noting(IssuedToken),
}

/// What happens next.
pub enum TokenNext {
    Ask(Action, TokenState),
    End(Result<IssuedToken, ApiError>),
}

/// Whether a request ends in an error.
pub open spec fn token_ends(r: TokenNext, e: ApiErrorView) -> bool {
    r matches TokenNext::End(Err(x)) && x@ == e
}

/// The key's index is looked up.
pub open spec fn asks_index(r: TokenNext, q: TokenRequest) -> bool {
    r matches TokenNext::Ask(a, s) && a@ == ActionView::Get("jkt:"@ + q@.durable_jkt) && s
        == TokenState::Index(q)
}

/// How a request for an agent token begins: a naming token works once, so its
/// identifier comes first.
pub open spec fn token_begins(
    cfg: Config,
    keyset: KeySet,
    r: ReqView,
    now: u64,
    next: TokenNext,
) -> bool {
    match agent::token_asked(cfg, keyset, r, now) {
        Err(e) => token_ends(next, e),
        Ok(ask) => match ask.jti {
            Some(jti) => next matches TokenNext::Ask(a, TokenState::Guard(q)) && q@ == ask && a@
                == ActionView::Claim(agent::replay_guard(cfg, jti)),
            None => next matches TokenNext::Ask(a, TokenState::Index(q)) && q@ == ask
                && asks_index(next, q),
        },
    }
}

/// Begins with a request for an agent token.
pub fn begin_token(ctx: &ReqCtx, cfg: &Config, keyset: &KeySet, now: u64) -> (r: TokenNext)
    ensures
        token_begins(*cfg, *keyset, ctx@, now, r),
{
    match agent::token_request(ctx, cfg, keyset, now) {
        Err(e) => TokenNext::End(Err(e)),
        Ok(q) => {
            let guard = match &q.jti {
                Some(jti) => Some(agent::guard_naming(cfg, jti.as_str())),
                None => None,
            };
            match guard {
                Some(w) => TokenNext::Ask(Action::Claim(w), TokenState::Guard(q)),
                None => look_up_index(q),
            }
        },
    }
}

fn look_up_index(q: TokenRequest) -> (r: TokenNext)
    ensures
        asks_index(r, q),
{
    TokenNext::Ask(
        Action::Get(records::jkt_key(q.durable_jkt.as_str())),
        TokenState::Index(q),
    )
}

/// What a record makes of a request for a token.
pub open spec fn record_decides(
    cfg: Config,
    keyset: KeySet,
    r: ReqView,
    q: TokenAskView,
    found: Option<FoundView>,
    jti: Seq<char>,
    now: u64,
    next: TokenNext,
) -> bool {
    match agent::serving_record(found) {
        Err(e) => token_ends(next, e),
        Ok(rec) => match next {
            TokenNext::End(x) => x is Err && agent::token_result(
                r,
                cfg,
                keyset,
                q,
                rec,
                jti,
                now,
                x,
            ),
            TokenNext::Ask(a, TokenState::Counting(x)) => a@ == ActionView::Put(x.write@)
                && agent::token_result(r, cfg, keyset, q, rec, jti, now, Ok(x)),
            _ => false,
        },
    }
}

/// What happens after a token was counted, which need not have worked: it is put
/// down as outstanding, where a Person Server is told of revocations.
pub open spec fn counted_next(cfg: Config, x: IssuedToken, next: TokenNext) -> bool {
    if cfg.revocation.notify_ps {
        next matches TokenNext::Ask(a, s) && a@ == ActionView::List(
            revocation::issued_prefix(x.record@.local),
        ) && s == TokenState::Listing(x)
    } else {
        next == TokenNext::End(Ok(x))
    }
}

/// What happens after the outstanding tokens were looked up.
pub open spec fn listed_next(
    cfg: Config,
    x: IssuedToken,
    ev: Event,
    jti: Seq<char>,
    now: u64,
    next: TokenNext,
) -> bool {
    match ev {
        Event::Keys(keys) => match revocation::tracked_jti(
            cfg,
            x.record@.local,
            jti,
            x.exp,
            keys@.len() as usize,
            now,
        ) {
            Some(w) => next matches TokenNext::Ask(a, s) && a@ == ActionView::Put(w) && s
                == TokenState::Noting(x),
            None => next == TokenNext::End(Ok(x)),
        },
        _ => next == TokenNext::End(Ok(x)),
    }
}

/// What happens next with a request for an agent token.
pub open spec fn token_goes_on(
    cfg: Config,
    keyset: KeySet,
    r: ReqView,
    jti: Seq<char>,
    now: u64,
    state: TokenState,
    ev: Event,
    next: TokenNext,
) -> bool {
    match state {
        TokenState::Guard(q) => match ev {
            Event::Fresh(fresh) => if fresh {
                asks_index(next, q)
            } else {
                token_ends(next, agent::replayed())
            },
            _ => token_ends(next, flow::stopped(ev)),
        },
        TokenState::Index(q) => match ev {
            Event::Value(found) => match agent::index_entry(storage::opt_bytes(found)) {
                Err(e) => token_ends(next, e),
                Ok(local) => next matches TokenNext::Ask(a, s) && a@ == ActionView::GetAgent(
                    "agent:"@ + local,
                ) && s == TokenState::Record(q),
            },
            _ => token_ends(next, flow::stopped(ev)),
        },
        TokenState::Record(q) => match ev {
            Event::Record(found) => record_decides(
                cfg,
                keyset,
                r,
                q@,
                storage::opt_found(found),
                jti,
                now,
                next,
            ),
            _ => token_ends(next, flow::stopped(ev)),
        },
        TokenState::Counting(x) => counted_next(cfg, x, next),
        TokenState::Listing(x) => listed_next(cfg, x, ev, jti, now, next),
        TokenState::Noting(x) => next == TokenNext::End(Ok(x)),
    }
}

/// Goes on with a request for an agent token. `jti` is drawn at random, and the
/// same throughout.
pub fn continue_token(
    ctx: &ReqCtx,
    cfg: &Config,
    keyset: &KeySet,
    jti: &str,
    now: u64,
    state: TokenState,
    ev: Event,
) -> (r: TokenNext)
    requires
        ident::is_server_identifier(cfg.issuer@, cfg.insecure_dev_mode),
        now + cfg.agent_token_ttl_secs <= u64::MAX,
    ensures
        token_goes_on(*cfg, *keyset, ctx@, jti@, now, state, ev, r),
{
    match state {
        TokenState::Guard(q) => match &ev {
            Event::Fresh(fresh) => match agent::naming_fresh(*fresh) {
                Ok(_) => look_up_index(q),
                Err(e) => TokenNext::End(Err(e)),
            },
            _ => TokenNext::End(Err(flow::stop(&ev))),
        },
        TokenState::Index(q) => match &ev {
            Event::Value(found) => match agent::enrolled_local(found) {
                Err(e) => TokenNext::End(Err(e)),
                Ok(local) => TokenNext::Ask(
                    Action::GetAgent(records::agent_key(local.as_str())),
                    TokenState::Record(q),
                ),
            },
            _ => TokenNext::End(Err(flow::stop(&ev))),
        },
        TokenState::Record(q) => match &ev {
            Event::Record(found) => match agent::active_record(found) {
                Err(e) => TokenNext::End(Err(e)),
                Ok(rec) => match agent::agent_token(ctx, cfg, keyset, &q, rec, jti, now) {
                    Err(e) => TokenNext::End(Err(e)),
                    Ok(x) => {
                        let write = x.write.copy();
                        TokenNext::Ask(Action::Put(write), TokenState::Counting(x))
                    },
                },
            },
            _ => TokenNext::End(Err(flow::stop(&ev))),
        },
        TokenState::Counting(x) => if cfg.revocation.notify_ps {
            TokenNext::Ask(
                Action::List(revocation::jti_prefix(x.record.local.as_str())),
                TokenState::Listing(x),
            )
        } else {
            TokenNext::End(Ok(x))
        },
        TokenState::Listing(x) => match &ev {
            Event::Keys(keys) => match revocation::record_issued_jti(
                cfg,
                x.record.local.as_str(),
                jti,
                x.exp,
                keys.len(),
                now,
            ) {
                Some(w) => TokenNext::Ask(Action::Put(w), TokenState::Noting(x)),
                None => TokenNext::End(Ok(x)),
            },
            _ => TokenNext::End(Ok(x)),
        },
        TokenState::Noting(x) => TokenNext::End(Ok(x)),
    }
}

// ------------------------------------------------------- sub-agent tokens

/// Where a request for a sub-agent's token stands.
pub enum SubagentState {
    /// The parent's record is looked up.
    Parent(SubagentRequest),
    /// The parent's outstanding tokens are looked up.
    Listing(IssuedSubagent),
    /// The token is put down as outstanding.
    Noting(IssuedSubagent),
}

/// What happens next.
pub enum SubagentNext {
    Ask(Action, SubagentState),
    End(Result<IssuedSubagent, ApiError>),
}

/// Whether a request ends in an error.
pub open spec fn subagent_ends(r: SubagentNext, e: ApiErrorView) -> bool {
    r matches SubagentNext::End(Err(x)) && x@ == e
}

/// How a request for a sub-agent's token begins.
pub open spec fn subagent_begins(
    cfg: Config,
    keyset: KeySet,
    r: ReqView,
    now: u64,
    next: SubagentNext,
) -> bool {
    match agent::subagent_asked(cfg, keyset, r, now) {
        Err(e) => subagent_ends(next, e),
        Ok(ask) => next matches SubagentNext::Ask(a, SubagentState::Parent(q)) && q@ == ask && a@
            == ActionView::Get("agent:"@ + ask.parent_local),
    }
}

/// Begins with a request for a sub-agent's token.
pub fn begin_subagent(ctx: &ReqCtx, cfg: &Config, keyset: &KeySet, now: u64) -> (r: SubagentNext)
    ensures
        subagent_begins(*cfg, *keyset, ctx@, now, r),
{
    match agent::subagent_request(ctx, cfg, keyset, now) {
        Err(e) => SubagentNext::End(Err(e)),
        Ok(q) => {
            let parent = q.parent.to_text();
            proof {
                ident::law_agent_round_trip(q.parent.local(), q.parent.domain());
            }
            let local = ident::local_part(parent.as_str());
            SubagentNext::Ask(
                Action::Get(records::agent_key(local.as_str())),
                SubagentState::Parent(q),
            )
        },
    }
}

/// What the parent's record makes of a request for a sub-agent.
pub open spec fn parent_decides(
    cfg: Config,
    keyset: KeySet,
    q: SubagentView,
    found: Option<Seq<u8>>,
    jti: Seq<char>,
    now: u64,
    next: SubagentNext,
) -> bool {
    match agent::inherited_claims(found) {
        Err(e) => subagent_ends(next, e),
        Ok((embed_claims, assurance)) => match next {
            SubagentNext::End(x) => (x is Ok ==> !cfg.revocation.notify_ps)
                && agent::subagent_result(cfg, keyset, q, embed_claims, assurance, jti, now, x),
            SubagentNext::Ask(a, SubagentState::Listing(x)) => cfg.revocation.notify_ps && a@
                == ActionView::List(revocation::issued_prefix(x.parent_local@))
                && agent::subagent_result(
                cfg,
                keyset,
                q,
                embed_claims,
                assurance,
                jti,
                now,
                Ok(x),
            ),
            _ => false,
        },
    }
}

/// What happens after the parent's outstanding tokens were looked up: the
/// sub-agent's token is one of them.
pub open spec fn subagent_listed(
    cfg: Config,
    x: IssuedSubagent,
    ev: Event,
    jti: Seq<char>,
    now: u64,
    next: SubagentNext,
) -> bool {
    match ev {
        Event::Keys(keys) => match revocation::tracked_jti(
            cfg,
            x.parent_local@,
            jti,
            x.exp,
            keys@.len() as usize,
            now,
        ) {
            Some(w) => next matches SubagentNext::Ask(a, s) && a@ == ActionView::Put(w) && s
                == SubagentState::Noting(x),
            None => next == SubagentNext::End(Ok(x)),
        },
        _ => next == SubagentNext::End(Ok(x)),
    }
}

/// What happens next with a request for a sub-agent's token.
pub open spec fn subagent_goes_on(
    cfg: Config,
    keyset: KeySet,
    jti: Seq<char>,
    now: u64,
    state: SubagentState,
    ev: Event,
    next: SubagentNext,
) -> bool {
    match state {
        SubagentState::Parent(q) => match ev {
            Event::Value(found) => parent_decides(
                cfg,
                keyset,
                q@,
                storage::opt_bytes(found),
                jti,
                now,
                next,
            ),
            _ => subagent_ends(next, flow::stopped(ev)),
        },
        SubagentState::Listing(x) => subagent_listed(cfg, x, ev, jti, now, next),
        SubagentState::Noting(x) => next == SubagentNext::End(Ok(x)),
    }
}

/// Goes on with a request for a sub-agent's token. `jti` is drawn at random, and
/// the same throughout.
pub fn continue_subagent(
    cfg: &Config,
    keyset: &KeySet,
    jti: &str,
    now: u64,
    state: SubagentState,
    ev: Event,
) -> (r: SubagentNext)
    requires
        now + cfg.agent_token_ttl_secs <= u64::MAX,
    ensures
        subagent_goes_on(*cfg, *keyset, jti@, now, state, ev, r),
{
    match state {
        SubagentState::Parent(q) => match &ev {
            Event::Value(found) => match agent::inherit(found) {
                Err(e) => SubagentNext::End(Err(e)),
                Ok(from) => match agent::subagent_token(cfg, keyset, &q, &from, jti, now) {
                    Err(e) => SubagentNext::End(Err(e)),
                    Ok(x) => if cfg.revocation.notify_ps {
                        SubagentNext::Ask(
                            Action::List(revocation::jti_prefix(x.parent_local.as_str())),
                            SubagentState::Listing(x),
                        )
                    } else {
                        SubagentNext::End(Ok(x))
                    },
                },
            },
            _ => SubagentNext::End(Err(flow::stop(&ev))),
        },
        SubagentState::Listing(x) => match &ev {
            Event::Keys(keys) => match revocation::record_issued_jti(
                cfg,
                x.parent_local.as_str(),
                jti,
                x.exp,
                keys.len(),
                now,
            ) {
                Some(w) => SubagentNext::Ask(Action::Put(w), SubagentState::Noting(x)),
                None => SubagentNext::End(Ok(x)),
            },
            _ => SubagentNext::End(Ok(x)),
        },
        SubagentState::Noting(x) => SubagentNext::End(Ok(x)),
    }
}

// ------------------------------------------------------------------ laws

/// A naming token whose identifier stands already gets no token: nothing more
/// is asked.
pub proof fn law_replay_ends(
    cfg: Config,
    keyset: KeySet,
    r: ReqView,
    jti: Seq<char>,
    now: u64,
    q: TokenRequest,
    next: TokenNext,
)
    requires
        token_goes_on(
            cfg,
            keyset,
            r,
            jti,
            now,
            TokenState::Guard(q),
            Event::Fresh(false),
            next,
        ),
    ensures
        token_ends(next, agent::replayed()),
{
}

/// A token comes out only of a record that says that its agent is active.
pub proof fn law_only_active_agents_get_tokens(
    cfg: Config,
    keyset: KeySet,
    r: ReqView,
    jti: Seq<char>,
    now: u64,
    q: TokenRequest,
    found: Option<Found>,
    next: TokenNext,
)
    requires
        token_goes_on(
            cfg,
            keyset,
            r,
            jti,
            now,
            TokenState::Record(q),
            Event::Record(found),
            next,
        ),
    ensures
        !(next matches TokenNext::End(Err(_))) ==> (storage::opt_found(found) matches Some(f) && (
        records::stored_agent(f.bytes) matches Some(rec) && rec.status == "active"@)),
{
}

/// Once a token is issued, the request ends with it, whatever the store does.
pub proof fn law_issued_token_is_answered(
    cfg: Config,
    keyset: KeySet,
    r: ReqView,
    jti: Seq<char>,
    now: u64,
    x: IssuedToken,
    ev: Event,
    next: TokenNext,
)
    requires
        token_goes_on(cfg, keyset, r, jti, now, TokenState::Counting(x), ev, next)
            || token_goes_on(cfg, keyset, r, jti, now, TokenState::Listing(x), ev, next)
            || token_goes_on(cfg, keyset, r, jti, now, TokenState::Noting(x), ev, next),
    ensures
        match next {
            TokenNext::End(y) => y == Ok::<IssuedToken, ApiError>(x),
            TokenNext::Ask(_, TokenState::Listing(y)) => y == x,
            TokenNext::Ask(_, TokenState::Noting(y)) => y == x,
            _ => false,
        },
{
}

/// A request for a token begins with putting down the identifier of its naming
/// token, where it has one, and else with the index of its key.
pub proof fn law_token_request_begins(
    cfg: Config,
    keyset: KeySet,
    r: ReqView,
    now: u64,
    next: TokenNext,
)
    requires
        token_begins(cfg, keyset, r, now, next),
    ensures
        agent::token_asked(cfg, keyset, r, now) matches Err(e) ==> (next matches TokenNext::End(Err(x))
            && x@ == e),
        agent::token_asked(cfg, keyset, r, now) matches Ok(ask) ==> (ask.jti matches Some(jti) ==> (
        next matches TokenNext::Ask(a, TokenState::Guard(q)) && q@ == ask && (
        a@ matches ActionView::Claim(w) && w.key == "jti:"@ + jti))),
        agent::token_asked(cfg, keyset, r, now) matches Ok(ask) ==> (ask.jti is None ==> (
        next matches TokenNext::Ask(a, TokenState::Index(q)) && q@ == ask && a@ == ActionView::Get(
            "jkt:"@ + ask.durable_jkt,
        ))),
{
}

/// A naming token that is fresh leads to the index of the durable key, the index
/// to the agent's record.
pub proof fn law_index_then_record(
    cfg: Config,
    keyset: KeySet,
    r: ReqView,
    jti: Seq<char>,
    now: u64,
    q: TokenRequest,
    found: Option<Vec<u8>>,
    first: TokenNext,
    second: TokenNext,
)
    requires
        token_goes_on(
            cfg,
            keyset,
            r,
            jti,
            now,
            TokenState::Guard(q),
            Event::Fresh(true),
            first,
        ),
        token_goes_on(
            cfg,
            keyset,
            r,
            jti,
            now,
            TokenState::Index(q),
            Event::Value(found),
            second,
        ),
    ensures
        first matches TokenNext::Ask(a, TokenState::Index(q2)) && q2 == q && a@ == ActionView::Get(
            "jkt:"@ + q@.durable_jkt,
        ),
        agent::index_entry(storage::opt_bytes(found)) matches Ok(local) ==> (
        second matches TokenNext::Ask(a, TokenState::Record(q2)) && q2 == q && a@
            == ActionView::GetAgent("agent:"@ + local)),
        found is None ==> (second matches TokenNext::End(Err(e)) && e@.status == 403 && e@.error
            == "not_enrolled"@),
{
}

/// The record of an active agent leads to a token, which is counted before it is
/// answered; a refusal is answered as it is.
pub proof fn law_record_leads_to_token(
    cfg: Config,
    keyset: KeySet,
    r: ReqView,
    jti: Seq<char>,
    now: u64,
    q: TokenRequest,
    found: Found,
    rec: records::AgentView,
    next: TokenNext,
)
    requires
        token_goes_on(
            cfg,
            keyset,
            r,
            jti,
            now,
            TokenState::Record(q),
            Event::Record(Some(found)),
            next,
        ),
        records::stored_agent(found@.bytes) == Some(rec),
        rec.status == "active"@,
    ensures
        agent::token_ps(cfg, r, rec) is Ok ==> (next matches TokenNext::Ask(a, TokenState::Counting(x))
            && a@ == ActionView::Put(x.write@) && x.exp == now + cfg.agent_token_ttl_secs
            && x.write@.key == "agent:"@ + rec.local && x.record@.local == rec.local),
        agent::token_ps(cfg, r, rec) matches Err(e) ==> (next matches TokenNext::End(Err(x)) && x@
            == e),
{
}

/// A counted token is answered, and is listed among the agent's outstanding
/// tokens first where Person Servers are told of revocations.
pub proof fn law_counted_then_noted(
    cfg: Config,
    keyset: KeySet,
    r: ReqView,
    jti: Seq<char>,
    now: u64,
    x: IssuedToken,
    ev: Event,
    keys: Vec<String>,
    counted: TokenNext,
    listed: TokenNext,
    noted: TokenNext,
)
    requires
        token_goes_on(cfg, keyset, r, jti, now, TokenState::Counting(x), ev, counted),
        token_goes_on(
            cfg,
            keyset,
            r,
            jti,
            now,
            TokenState::Listing(x),
            Event::Keys(keys),
            listed,
        ),
        token_goes_on(cfg, keyset, r, jti, now, TokenState::Noting(x), ev, noted),
    ensures
        cfg.revocation.notify_ps ==> (counted matches TokenNext::Ask(a, TokenState::Listing(y)) && y
            == x && a@ == ActionView::List(revocation::issued_prefix(x.record@.local))),
        !cfg.revocation.notify_ps ==> counted == TokenNext::End(Ok(x)),
        revocation::tracked_jti(
            cfg,
            x.record@.local,
            jti,
            x.exp,
            keys@.len() as usize,
            now,
        ) matches Some(w) ==> (listed matches TokenNext::Ask(a, TokenState::Noting(y)) && y == x && a@
            == ActionView::Put(w)),
        revocation::tracked_jti(
            cfg,
            x.record@.local,
            jti,
            x.exp,
            keys@.len() as usize,
            now,
        ) is None ==> listed == TokenNext::End(Ok(x)),
        noted == TokenNext::End(Ok(x)),
{
}

/// Until a token is issued, a failure of the store ends the request with 500.
pub proof fn law_token_store_failure(
    cfg: Config,
    keyset: KeySet,
    r: ReqView,
    jti: Seq<char>,
    now: u64,
    state: TokenState,
    e: storage::StorageError,
    next: TokenNext,
)
    requires
        state is Guard || state is Index || state is Record,
        token_goes_on(cfg, keyset, r, jti, now, state, Event::Failed(e), next),
    ensures
        next matches TokenNext::End(Err(x)) && x@.status == 500,
{
}

/// A sub-agent's token begins with the record of the parent.
pub proof fn law_subagent_request_begins(
    cfg: Config,
    keyset: KeySet,
    r: ReqView,
    now: u64,
    next: SubagentNext,
)
    requires
        subagent_begins(cfg, keyset, r, now, next),
    ensures
        agent::subagent_asked(cfg, keyset, r, now) matches Ok(ask) ==> (
        next matches SubagentNext::Ask(a, SubagentState::Parent(q)) && q@ == ask && a@
            == ActionView::Get("agent:"@ + ask.parent_local)),
        agent::subagent_asked(cfg, keyset, r, now) matches Err(e) ==> (
        next matches SubagentNext::End(Err(x)) && x@ == e),
{
}

/// A parent that was revoked gets no token for a sub-agent; another's is issued
/// where the request can be met, and is listed among the parent's tokens where
/// Person Servers are told of revocations.
pub proof fn law_parent_decides(
    cfg: Config,
    keyset: KeySet,
    jti: Seq<char>,
    now: u64,
    q: SubagentRequest,
    found: Option<Vec<u8>>,
    next: SubagentNext,
)
    requires
        subagent_goes_on(
            cfg,
            keyset,
            jti,
            now,
            SubagentState::Parent(q),
            Event::Value(found),
            next,
        ),
    ensures
        agent::inherited_claims(storage::opt_bytes(found)) matches Err(e) ==> (
        next matches SubagentNext::End(Err(x)) && x@ == e),
        agent::inherited_claims(storage::opt_bytes(found)) is Ok && agent::subagent_fault(
            cfg,
            q@,
            now,
        ) is None && cfg.revocation.notify_ps ==> (next matches SubagentNext::Ask(
            a,
            SubagentState::Listing(x),
        ) && a@ == ActionView::List(revocation::issued_prefix(q@.parent_local)) && x.exp
            <= q@.parent_exp),
        agent::inherited_claims(storage::opt_bytes(found)) is Ok && agent::subagent_fault(
            cfg,
            q@,
            now,
        ) is None && !cfg.revocation.notify_ps ==> (next matches SubagentNext::End(Ok(x)) && x.exp
            <= q@.parent_exp),
        agent::inherited_claims(storage::opt_bytes(found)) is Ok ==> (agent::subagent_fault(
            cfg,
            q@,
            now,
        ) matches Some(e) ==> (next matches SubagentNext::End(Err(x)) && x@ == e)),
{
}

/// A sub-agent's token is put down among its parent's and answered, whatever the
/// store does.
pub proof fn law_subagent_noted(
    cfg: Config,
    keyset: KeySet,
    jti: Seq<char>,
    now: u64,
    x: IssuedSubagent,
    ev: Event,
    keys: Vec<String>,
    listed: SubagentNext,
    noted: SubagentNext,
)
    requires
        subagent_goes_on(
            cfg,
            keyset,
            jti,
            now,
            SubagentState::Listing(x),
            Event::Keys(keys),
            listed,
        ),
        subagent_goes_on(cfg, keyset, jti, now, SubagentState::Noting(x), ev, noted),
    ensures
        revocation::tracked_jti(
            cfg,
            x.parent_local@,
            jti,
            x.exp,
            keys@.len() as usize,
            now,
        ) matches Some(w) ==> (listed matches SubagentNext::Ask(a, SubagentState::Noting(y)) && y == x
            && a@ == ActionView::Put(w)),
        revocation::tracked_jti(
            cfg,
            x.parent_local@,
            jti,
            x.exp,
            keys@.len() as usize,
            now,
        ) is None ==> listed == SubagentNext::End(Ok(x)),
        noted == SubagentNext::End(Ok(x)),
{
}

} // verus!
