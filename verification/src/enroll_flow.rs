//! The flow that enrolls a key.

use vstd::prelude::*;

use crate::agent;
use crate::agent::{EnrollRequest, EnrollView, Enrolled};
use crate::assertion::FederatedVerdict;
use crate::config::Config;
use crate::enrollment;
use crate::enrollment::{Authorized, AuthorizedView, Credential, CredentialView};
use crate::flow;
use crate::flow::{Action, ActionView, Event};
use crate::ident;
use crate::keys::KeySet;
use crate::problem::{ApiError, ApiErrorView, Resp};
use crate::records;
use crate::reqctx::{ReqCtx, ReqView};
use crate::storage;
use crate::storage::{Write, WriteView};
use crate::text;

verus! {

/// Where an enrollment stands.
pub enum EnrollState {
    /// The key's index is looked up.
    Lookup(EnrollRequest),
    /// A minted token is consumed.
    Minted(EnrollRequest),
    /// A pre-registration is consumed.
    Listed(EnrollRequest),
    /// An assertion is judged.
    Judging(EnrollRequest),
    /// The identifier of an accepted assertion is put down.
    Consuming(EnrollRequest, FederatedVerdict),
    /// A local part is reserved, after `taken` that others had.
    Reserving { q: EnrollRequest, by: Authorized, ps: Option<String>, taken: u32 },
    /// The agent's record is stored.
    Storing(Enrolled, Authorized),
    /// The key's index is stored.
    Indexing(Enrolled, Authorized),
}

/// How an enrollment ends.
pub enum EnrollEnd {
    /// The key was enrolled before.
    Known(Resp),
    /// The key is enrolled now.
    Granted(Enrolled, Authorized),
    /// The key of this thumbprint is not enrolled.
    Denied(String, ApiError),
    /// The request was not understood, or could not be served.
    Refused(ApiError),
}

/// What happens next.
pub enum EnrollNext {
    Ask(Action, EnrollState),
    End(EnrollEnd),
}

/// Whether a request is refused with an error.
pub open spec fn refuses(next: EnrollNext, e: ApiErrorView) -> bool {
    next matches EnrollNext::End(EnrollEnd::Refused(x)) && x@ == e
}

/// Whether an enrollment is denied with an error.
pub open spec fn denies(next: EnrollNext, q: EnrollView, e: ApiErrorView) -> bool {
    next matches EnrollNext::End(EnrollEnd::Denied(jkt, x)) && jkt@ == q.durable_jkt && x@ == e
}

/// The local parts that were drawn for an enrollment: one for each attempt to
/// reserve one, and one more.
pub open spec fn good_draws(locals: Seq<String>) -> bool {
    locals.len() == 6 && forall|i: int|
        0 <= i < locals.len() ==> ident::is_local((#[trigger] locals[i])@)
}

/// How an enrollment begins: the key may be known.
pub open spec fn enroll_begins(
    cfg: Config,
    keyset: KeySet,
    r: ReqView,
    now: u64,
    next: EnrollNext,
) -> bool {
    match agent::enroll_asked(cfg, keyset, r, now) {
        Err(e) => refuses(next, e),
        Ok(ask) => next matches EnrollNext::Ask(a, EnrollState::Lookup(q)) && q@ == ask && a@
            == ActionView::Get("jkt:"@ + ask.durable_jkt),
    }
}

/// Begins with a request to enroll a key.
pub fn begin_enroll(ctx: &ReqCtx, cfg: &Config, keyset: &KeySet, now: u64) -> (r: EnrollNext)
    ensures
        enroll_begins(*cfg, *keyset, ctx@, now, r),
{
    match agent::enroll_request(ctx, cfg, keyset, now) {
        Err(e) => EnrollNext::End(EnrollEnd::Refused(e)),
        Ok(q) => EnrollNext::Ask(
            Action::Get(records::jkt_key(q.durable_jkt.as_str())),
            EnrollState::Lookup(q),
        ),
    }
}

/// A key that is authorized gets a Person Server, and the first local part is
/// tried.
pub open spec fn authorized_next(
    cfg: Config,
    q: EnrollRequest,
    by: AuthorizedView,
    locals: Seq<String>,
    next: EnrollNext,
) -> bool {
    match enrollment::enrolled_ps(cfg, by, q@.ps) {
        Err(e) => denies(next, q@, e),
        Ok(ps) => next matches EnrollNext::Ask(
            a,
            EnrollState::Reserving { q: q2, by: by2, ps: ps2, taken },
        ) && q2 == q && by2@ == by && text::opt_view(ps2) == ps && taken == 0 && a@
            == ActionView::Claim(agent::reserving(locals[0]@)),
    }
}

fn place(cfg: &Config, q: EnrollRequest, by: Authorized, locals: &Vec<String>) -> (r: EnrollNext)
    requires
        good_draws(locals@),
    ensures
        authorized_next(*cfg, q, by@, locals@, r),
{
    match enrollment::enrollment_ps(cfg, &by, &q.ps) {
        Err(e) => EnrollNext::End(EnrollEnd::Denied(q.durable_jkt.clone(), e)),
        Ok(ps) => EnrollNext::Ask(
            Action::Claim(agent::reservation(locals[0].as_str())),
            EnrollState::Reserving { q, by, ps, taken: 0 },
        ),
    }
}

/// What an enrollment of a key that is not known needs next.
pub open spec fn credential_next(
    cfg: Config,
    q: EnrollRequest,
    locals: Seq<String>,
    next: EnrollNext,
) -> bool {
    match enrollment::credential(cfg.enrollment, q@.assertion, q@.token, q@.durable_jkt) {
        Err(e) => denies(next, q@, e),
        Ok(CredentialView::Granted(by)) => authorized_next(cfg, q, by, locals, next),
        Ok(CredentialView::Minted(key)) => next matches EnrollNext::Ask(a, s) && a@
            == ActionView::Take(key) && s == EnrollState::Minted(q),
        Ok(CredentialView::Listed(key)) => next matches EnrollNext::Ask(a, s) && a@
            == ActionView::Take(key) && s == EnrollState::Listed(q),
        Ok(CredentialView::Assertion(t)) => next matches EnrollNext::Ask(a, s) && a@
            == (ActionView::Judge { assertion: t, durable: q@.durable_jwk }) && s
            == EnrollState::Judging(q),
    }
}

fn seek_credential(cfg: &Config, q: EnrollRequest, locals: &Vec<String>) -> (r: EnrollNext)
    requires
        good_draws(locals@),
    ensures
        credential_next(*cfg, q, locals@, r),
{
    match enrollment::choose_credential(
        &cfg.enrollment,
        &q.assertion,
        &q.token,
        q.durable_jkt.as_str(),
    ) {
        Err(e) => EnrollNext::End(EnrollEnd::Denied(q.durable_jkt.clone(), e)),
        Ok(Credential::Granted(by)) => place(cfg, q, by, locals),
        Ok(Credential::Minted(key)) => EnrollNext::Ask(Action::Take(key), EnrollState::Minted(q)),
        Ok(Credential::Listed(key)) => EnrollNext::Ask(Action::Take(key), EnrollState::Listed(q)),
        Ok(Credential::Assertion(assertion)) => {
            let durable = q.durable_jwk.clone();
            EnrollNext::Ask(Action::Judge { assertion, durable }, EnrollState::Judging(q))
        },
    }
}

/// What puts the identifier of an assertion down.
pub open spec fn consumption(jti: Seq<char>, secs: u64) -> WriteView {
    WriteView {
        key: "ajti:"@ + jti,
        value: vstd::utf8::encode_utf8("1"@),
        ttl: Some(storage::millis_of(secs)),
    }
}

/// What an accepted assertion needs next: one that works once is put down.
pub open spec fn verdict_next(
    cfg: Config,
    q: EnrollRequest,
    v: FederatedVerdict,
    locals: Seq<String>,
    next: EnrollNext,
) -> bool {
    match v@.consume_jti {
        Some((jti, secs)) => next matches EnrollNext::Ask(a, s) && a@ == ActionView::Claim(
            consumption(jti, secs),
        ) && s == EnrollState::Consuming(q, v),
        None => authorized_next(cfg, q, AuthorizedView::Federated(v@), locals, next),
    }
}

fn accept_verdict(cfg: &Config, q: EnrollRequest, v: FederatedVerdict, locals: &Vec<String>) -> (r:
    EnrollNext)
    requires
        good_draws(locals@),
    ensures
        verdict_next(*cfg, q, v, locals@, r),
{
    let put = match &v.consume_jti {
        Some(once) => Some(
            Write {
                key: records::assertion_jti_key(once.0.as_str()),
                value: storage::bytes_of("1"),
                ttl: Some(storage::millis(once.1)),
            },
        ),
        None => None,
    };
    match put {
        Some(w) => EnrollNext::Ask(Action::Claim(w), EnrollState::Consuming(q, v)),
        None => place(cfg, q, Authorized::Federated(v), locals),
    }
}

/// An agent is stored under a local part: the record first, then the index of
/// its key.
pub open spec fn stores(
    cfg: Config,
    q: EnrollView,
    by: Authorized,
    ps: Option<Seq<char>>,
    local: Seq<char>,
    now: u64,
    next: EnrollNext,
) -> bool {
    next matches EnrollNext::Ask(a, EnrollState::Storing(x, by2)) && by2 == by
        && agent::enrollment_result(cfg, q, by@, ps, local, now, x) && a@ == ActionView::Put(
        agent::agent_writes(x.record@)[0],
    )
}

fn store(
    cfg: &Config,
    q: &EnrollRequest,
    by: Authorized,
    ps: Option<String>,
    local: &str,
    now: u64,
) -> (r: EnrollNext)
    requires
        ident::is_server_identifier(cfg.issuer@, cfg.insecure_dev_mode),
        ident::is_local(local@),
    ensures
        stores(*cfg, q@, by, text::opt_view(ps), local@, now, r),
{
    let x = agent::enroll(cfg, q, &by, ps, local, now);
    proof {
        assert(agent::writes_view(x.writes@).len() == 2);
        assert(agent::writes_view(x.writes@)[0] == x.writes@[0]@);
    }
    let write = x.writes[0].copy();
    EnrollNext::Ask(Action::Put(write), EnrollState::Storing(x, by))
}

/// What follows an attempt to reserve a local part: it is used where it was
/// free, and the last one that was drawn is used without a reservation.
pub open spec fn reserved_next(
    cfg: Config,
    q: EnrollRequest,
    by: Authorized,
    ps: Option<String>,
    taken: u32,
    fresh: bool,
    locals: Seq<String>,
    now: u64,
    next: EnrollNext,
) -> bool {
    let tried = if taken < 5 {
        taken as int
    } else {
        5
    };
    if fresh {
        stores(cfg, q@, by, text::opt_view(ps), locals[tried]@, now, next)
    } else if tried + 1 < 5 {
        next matches EnrollNext::Ask(a, s) && a@ == ActionView::Claim(
            agent::reserving(locals[tried + 1]@),
        ) && s == (EnrollState::Reserving { q, by, ps, taken: (tried + 1) as u32 })
    } else {
        stores(cfg, q@, by, text::opt_view(ps), locals[5]@, now, next)
    }
}

fn after_reservation(
    cfg: &Config,
    q: EnrollRequest,
    by: Authorized,
    ps: Option<String>,
    taken: u32,
    fresh: bool,
    locals: &Vec<String>,
    now: u64,
) -> (r: EnrollNext)
    requires
        ident::is_server_identifier(cfg.issuer@, cfg.insecure_dev_mode),
        good_draws(locals@),
    ensures
        reserved_next(*cfg, q, by, ps, taken, fresh, locals@, now, r),
{
    let tried: u32 = if taken < 5 {
        taken
    } else {
        5
    };
    if fresh {
        return store(cfg, &q, by, ps, locals[tried as usize].as_str(), now);
    }
    if agent::reserve_again(tried + 1) {
        let next: u32 = tried + 1;
        return EnrollNext::Ask(
            Action::Claim(agent::reservation(locals[next as usize].as_str())),
            EnrollState::Reserving { q, by, ps, taken: next },
        );
    }
    store(cfg, &q, by, ps, locals[5].as_str(), now)
}

/// What happens next with an enrollment.
pub open spec fn enroll_goes_on(
    cfg: Config,
    locals: Seq<String>,
    now: u64,
    state: EnrollState,
    ev: Event,
    next: EnrollNext,
) -> bool {
    match state {
        EnrollState::Lookup(q) => match ev {
            Event::Value(Some(b)) => match agent::known_answer(cfg, b@) {
                Ok(a) => next matches EnrollNext::End(EnrollEnd::Known(x)) && x@ == a,
                Err(e) => refuses(next, e),
            },
            Event::Value(None) => credential_next(cfg, q, locals, next),
            _ => refuses(next, flow::stopped(ev)),
        },
        EnrollState::Minted(q) => match ev {
            Event::Value(found) => match enrollment::minted_outcome(storage::opt_bytes(found)) {
                Err(e) => denies(next, q@, e),
                Ok(by) => authorized_next(cfg, q, by, locals, next),
            },
            _ => refuses(next, flow::stopped(ev)),
        },
        EnrollState::Listed(q) => match ev {
            Event::Value(found) => match enrollment::listed_outcome(
                cfg.enrollment,
                storage::opt_bytes(found),
            ) {
                Err(e) => denies(next, q@, e),
                Ok(by) => authorized_next(cfg, q, by, locals, next),
            },
            _ => refuses(next, flow::stopped(ev)),
        },
        EnrollState::Judging(q) => match ev {
            Event::Verdict(Ok(v)) => verdict_next(cfg, q, v, locals, next),
            Event::Verdict(Err(e)) => denies(next, q@, enrollment::bad_assertion(e@)),
            _ => refuses(next, flow::stopped(ev)),
        },
        EnrollState::Consuming(q, v) => match ev {
            Event::Fresh(fresh) => if fresh || v@.consume_jti is None {
                authorized_next(cfg, q, AuthorizedView::Federated(v@), locals, next)
            } else {
                denies(
                    next,
                    q@,
                    enrollment::bad_assertion("assertion jti already used (replay)"@),
                )
            },
            _ => refuses(next, flow::stopped(ev)),
        },
        EnrollState::Reserving { q, by, ps, taken } => match ev {
            Event::Fresh(fresh) => reserved_next(
                cfg,
                q,
                by,
                ps,
                taken,
                fresh,
                locals,
                now,
                next,
            ),
            _ => refuses(next, flow::stopped(ev)),
        },
        EnrollState::Storing(x, by) => match ev {
            Event::Done => next matches EnrollNext::Ask(a, s) && s == EnrollState::Indexing(x, by)
                && a@ == ActionView::Put(
                WriteView {
                    key: "jkt:"@ + x.record@.durable_jkt,
                    value: vstd::utf8::encode_utf8(x.record@.local),
                    ttl: None,
                },
            ),
            _ => refuses(next, flow::stopped(ev)),
        },
        EnrollState::Indexing(x, by) => match ev {
            Event::Done => next == EnrollNext::End(EnrollEnd::Granted(x, by)),
            _ => refuses(next, flow::stopped(ev)),
        },
    }
}

fn refuse(ev: &Event) -> (r: EnrollNext)
    ensures
        refuses(r, flow::stopped(*ev)),
{
    EnrollNext::End(EnrollEnd::Refused(flow::stop(ev)))
}

fn deny(q: EnrollRequest, e: ApiError) -> (r: EnrollNext)
    ensures
        denies(r, q@, e@),
{
    EnrollNext::End(EnrollEnd::Denied(q.durable_jkt, e))
}

fn after_lookup(cfg: &Config, q: EnrollRequest, locals: &Vec<String>, now: u64, ev: Event) -> (r:
    EnrollNext)
    requires
        ident::is_server_identifier(cfg.issuer@, cfg.insecure_dev_mode),
        good_draws(locals@),
    ensures
        enroll_goes_on(*cfg, locals@, now, EnrollState::Lookup(q), ev, r),
{
    match &ev {
        Event::Value(Some(b)) => match agent::already_enrolled(cfg, b) {
            Ok(a) => EnrollNext::End(EnrollEnd::Known(a)),
            Err(e) => EnrollNext::End(EnrollEnd::Refused(e)),
        },
        Event::Value(None) => seek_credential(cfg, q, locals),
        _ => refuse(&ev),
    }
}

/// Goes on with an enrollment. The local parts are drawn at random, and the same
/// throughout.
pub fn continue_enroll(
    cfg: &Config,
    locals: &Vec<String>,
    now: u64,
    state: EnrollState,
    ev: Event,
) -> (r: EnrollNext)
    requires
        ident::is_server_identifier(cfg.issuer@, cfg.insecure_dev_mode),
        good_draws(locals@),
    ensures
        enroll_goes_on(*cfg, locals@, now, state, ev, r),
{
    match state {
        EnrollState::Lookup(q) => after_lookup(cfg, q, locals, now, ev),
        EnrollState::Minted(q) => match &ev {
            Event::Value(found) => match enrollment::token_consumed(found) {
                Err(e) => deny(q, e),
                Ok(by) => place(cfg, q, by, locals),
            },
            _ => refuse(&ev),
        },
        EnrollState::Listed(q) => match &ev {
            Event::Value(found) => match enrollment::allowlist_consumed(&cfg.enrollment, found) {
                Err(e) => deny(q, e),
                Ok(by) => place(cfg, q, by, locals),
            },
            _ => refuse(&ev),
        },
        EnrollState::Judging(q) => match ev {
            Event::Verdict(Ok(v)) => accept_verdict(cfg, q, v, locals),
            Event::Verdict(Err(e)) => deny(q, enrollment::assertion_refused(e.as_str())),
            other => refuse(&other),
        },
        EnrollState::Consuming(q, v) => match &ev {
            Event::Fresh(fresh) => match enrollment::assertion_accepted(v, *fresh) {
                Ok(by) => place(cfg, q, by, locals),
                Err(e) => deny(q, e),
            },
            _ => refuse(&ev),
        },
        EnrollState::Reserving { q, by, ps, taken } => match &ev {
            Event::Fresh(fresh) => after_reservation(cfg, q, by, ps, taken, *fresh, locals, now),
            _ => refuse(&ev),
        },
        EnrollState::Storing(x, by) => match &ev {
            Event::Done => {
                let write = Write {
                    key: records::jkt_key(x.record.durable_jkt.as_str()),
                    value: storage::bytes_of(x.record.local.as_str()),
                    ttl: None,
                };
                EnrollNext::Ask(Action::Put(write), EnrollState::Indexing(x, by))
            },
            _ => refuse(&ev),
        },
        EnrollState::Indexing(x, by) => match &ev {
            Event::Done => EnrollNext::End(EnrollEnd::Granted(x, by)),
            _ => refuse(&ev),
        },
    }
}

// ------------------------------------------------------------------ laws

/// Enrolling a known key again gives its identity back, and consumes nothing.
pub proof fn law_enrolling_again_changes_nothing(
    cfg: Config,
    locals: Seq<String>,
    now: u64,
    q: EnrollRequest,
    b: Vec<u8>,
    next: EnrollNext,
)
    requires
        enroll_goes_on(
            cfg,
            locals,
            now,
            EnrollState::Lookup(q),
            Event::Value(Some(b)),
            next,
        ),
    ensures
        next is End,
        !(next matches EnrollNext::End(EnrollEnd::Granted(_, _))),
{
}

/// A credential that turns out bad ends the enrollment: nothing else is tried.
pub proof fn law_bad_credential_ends(
    cfg: Config,
    locals: Seq<String>,
    now: u64,
    q: EnrollRequest,
    why: String,
    next: EnrollNext,
    other: EnrollNext,
)
    requires
        enroll_goes_on(cfg, locals, now, EnrollState::Minted(q), Event::Value(None), next),
        enroll_goes_on(
            cfg,
            locals,
            now,
            EnrollState::Judging(q),
            Event::Verdict(Err(why)),
            other,
        ),
    ensures
        next matches EnrollNext::End(EnrollEnd::Denied(_, _)),
        other matches EnrollNext::End(EnrollEnd::Denied(_, _)),
{
}

/// An assertion that works once is refused the second time.
pub proof fn law_assertion_used_once(
    cfg: Config,
    locals: Seq<String>,
    now: u64,
    q: EnrollRequest,
    v: FederatedVerdict,
    next: EnrollNext,
)
    requires
        v@.consume_jti is Some,
        enroll_goes_on(
            cfg,
            locals,
            now,
            EnrollState::Consuming(q, v),
            Event::Fresh(false),
            next,
        ),
    ensures
        denies(next, q@, enrollment::bad_assertion("assertion jti already used (replay)"@)),
{
}

/// A key is granted an identity only after its record and its index are stored.
pub proof fn law_granted_is_stored(
    cfg: Config,
    locals: Seq<String>,
    now: u64,
    state: EnrollState,
    ev: Event,
    next: EnrollNext,
)
    requires
        enroll_goes_on(cfg, locals, now, state, ev, next),
    ensures
        next matches EnrollNext::End(EnrollEnd::Granted(x, by)) ==> state
            == EnrollState::Indexing(x, by) && ev is Done,
{
}

/// An enrollment begins with looking the key up by its thumbprint; a request that
/// asks for none is refused with its error.
pub proof fn law_enrollment_begins(
    cfg: Config,
    keyset: KeySet,
    r: ReqView,
    now: u64,
    next: EnrollNext,
)
    requires
        enroll_begins(cfg, keyset, r, now, next),
    ensures
        agent::enroll_asked(cfg, keyset, r, now) matches Ok(ask) ==> (next matches EnrollNext::Ask(
            a,
            EnrollState::Lookup(q),
        ) && q@ == ask && a@ == ActionView::Get("jkt:"@ + ask.durable_jkt)),
        agent::enroll_asked(cfg, keyset, r, now) matches Err(e) ==> (next matches EnrollNext::End(
            EnrollEnd::Refused(x),
        ) && x@ == e),
{
}

/// A key that is known gets its identity back.
pub proof fn law_known_key_is_answered(
    cfg: Config,
    locals: Seq<String>,
    now: u64,
    q: EnrollRequest,
    b: Vec<u8>,
    next: EnrollNext,
)
    requires
        enroll_goes_on(cfg, locals, now, EnrollState::Lookup(q), Event::Value(Some(b)), next),
    ensures
        agent::known_answer(cfg, b@) matches Ok(answer) ==> (next matches EnrollNext::End(
            EnrollEnd::Known(x),
        ) && x@ == answer),
        agent::known_answer(cfg, b@) matches Err(e) ==> (next matches EnrollNext::End(
            EnrollEnd::Refused(x),
        ) && x@ == e),
{
}

/// A key that is not known needs what its credential says: a token or a
/// pre-registration is taken from the store, so that it works once, and an
/// assertion is judged for this key. Without a credential it is denied.
pub proof fn law_credential_is_sought(
    cfg: Config,
    locals: Seq<String>,
    now: u64,
    q: EnrollRequest,
    next: EnrollNext,
)
    requires
        enroll_goes_on(cfg, locals, now, EnrollState::Lookup(q), Event::Value(None), next),
    ensures
        ({
            let c = enrollment::credential(
                cfg.enrollment,
                q@.assertion,
                q@.token,
                q@.durable_jkt,
            );
            &&& c matches Err(e) ==> (next matches EnrollNext::End(EnrollEnd::Denied(jkt, x))
                && jkt@ == q@.durable_jkt && x@ == e)
            &&& c matches Ok(CredentialView::Minted(key)) ==> (next matches EnrollNext::Ask(
                a,
                EnrollState::Minted(q2),
            ) && q2 == q && a@ == ActionView::Take(key))
            &&& c matches Ok(CredentialView::Listed(key)) ==> (next matches EnrollNext::Ask(
                a,
                EnrollState::Listed(q2),
            ) && q2 == q && a@ == ActionView::Take(key))
            &&& c matches Ok(CredentialView::Assertion(t)) ==> (next matches EnrollNext::Ask(
                a,
                EnrollState::Judging(q2),
            ) && q2 == q && a@ == (ActionView::Judge { assertion: t, durable: q@.durable_jwk }))
            &&& c matches Ok(CredentialView::Granted(by)) ==> authorized_next(
                cfg,
                q,
                by,
                locals,
                next,
            )
        }),
{
}

/// A key that is authorized is given its Person Server, and the first local part
/// that was drawn is reserved for it; where its Person Server cannot be, it is
/// denied.
pub proof fn law_authorized_key_is_placed(
    cfg: Config,
    q: EnrollRequest,
    by: AuthorizedView,
    locals: Seq<String>,
    next: EnrollNext,
)
    requires
        authorized_next(cfg, q, by, locals, next),
    ensures
        enrollment::enrolled_ps(cfg, by, q@.ps) matches Ok(ps) ==> (next matches EnrollNext::Ask(
            a,
            EnrollState::Reserving { q: q2, by: by2, ps: ps2, taken },
        ) && q2 == q && by2@ == by && text::opt_view(ps2) == ps && taken == 0 && (
        a@ matches ActionView::Claim(w) && w.key == "agent:"@ + locals[0]@ && w.ttl == Some(30000u64))),
        enrollment::enrolled_ps(cfg, by, q@.ps) matches Err(e) ==> (next matches EnrollNext::End(
            EnrollEnd::Denied(jkt, x),
        ) && jkt@ == q@.durable_jkt && x@ == e),
{
}

/// What the consumed credential admits goes on, and what it does not is denied.
pub proof fn law_consumed_credential(
    cfg: Config,
    locals: Seq<String>,
    now: u64,
    q: EnrollRequest,
    found: Option<Vec<u8>>,
    minted: EnrollNext,
    listed: EnrollNext,
)
    requires
        enroll_goes_on(cfg, locals, now, EnrollState::Minted(q), Event::Value(found), minted),
        enroll_goes_on(cfg, locals, now, EnrollState::Listed(q), Event::Value(found), listed),
    ensures
        enrollment::minted_outcome(storage::opt_bytes(found)) matches Ok(by) ==> authorized_next(
            cfg,
            q,
            by,
            locals,
            minted,
        ),
        enrollment::minted_outcome(storage::opt_bytes(found)) matches Err(e) ==> (
        minted matches EnrollNext::End(EnrollEnd::Denied(jkt, x)) && jkt@ == q@.durable_jkt && x@
            == e),
        enrollment::listed_outcome(cfg.enrollment, storage::opt_bytes(found)) matches Ok(by)
            ==> authorized_next(cfg, q, by, locals, listed),
        enrollment::listed_outcome(cfg.enrollment, storage::opt_bytes(found)) matches Err(e) ==> (
        listed matches EnrollNext::End(EnrollEnd::Denied(jkt, x)) && jkt@ == q@.durable_jkt && x@
            == e),
{
}

/// An accepted assertion that works once has its identifier put down for its
/// time, in milliseconds, before it admits; one that does not admits at once.
pub proof fn law_accepted_assertion_goes_on(
    cfg: Config,
    locals: Seq<String>,
    now: u64,
    q: EnrollRequest,
    v: FederatedVerdict,
    next: EnrollNext,
)
    requires
        enroll_goes_on(cfg, locals, now, EnrollState::Judging(q), Event::Verdict(Ok(v)), next),
    ensures
        v@.consume_jti matches Some((jti, secs)) ==> (next matches EnrollNext::Ask(
            a,
            EnrollState::Consuming(q2, v2),
        ) && q2 == q && v2 == v && (a@ matches ActionView::Claim(w) && w.key == "ajti:"@ + jti && (
        secs <= u64::MAX / 1000 ==> (w.ttl matches Some(ms) && ms == 1000 * secs)))),
        v@.consume_jti is None ==> authorized_next(
            cfg,
            q,
            AuthorizedView::Federated(v@),
            locals,
            next,
        ),
{
}

/// An assertion whose identifier was put down just now admits; one whose
/// identifier stood there already does not.
pub proof fn law_consumed_assertion(
    cfg: Config,
    locals: Seq<String>,
    now: u64,
    q: EnrollRequest,
    v: FederatedVerdict,
    fresh: bool,
    next: EnrollNext,
)
    requires
        v@.consume_jti is Some,
        enroll_goes_on(cfg, locals, now, EnrollState::Consuming(q, v), Event::Fresh(fresh), next),
    ensures
        fresh ==> authorized_next(cfg, q, AuthorizedView::Federated(v@), locals, next),
        !fresh ==> (next matches EnrollNext::End(EnrollEnd::Denied(jkt, x)) && jkt@ == q@.durable_jkt
            && x@.status == 403),
{
}

/// A reserved local part is used; one that is taken makes way for the next, and
/// after the fifth the sixth is used without a reservation.
pub proof fn law_reserved_local_part(
    cfg: Config,
    locals: Seq<String>,
    now: u64,
    q: EnrollRequest,
    by: Authorized,
    ps: Option<String>,
    taken: u32,
    fresh: bool,
    next: EnrollNext,
)
    requires
        taken < 5,
        enroll_goes_on(
            cfg,
            locals,
            now,
            EnrollState::Reserving { q, by, ps, taken },
            Event::Fresh(fresh),
            next,
        ),
    ensures
        fresh ==> (next matches EnrollNext::Ask(a, EnrollState::Storing(x, by2)) && by2 == by
            && x.record@.local == locals[taken as int]@ && x.record@.durable_jkt == q@.durable_jkt
            && x.record@.ps == text::opt_view(ps) && (a@ matches ActionView::Put(w) && w.key
            == "agent:"@ + locals[taken as int]@ && w.value == records::stored(
            records::agent_json(x.record@),
        ) && w.ttl is None)),
        !fresh && taken < 4 ==> (next matches EnrollNext::Ask(
            a,
            EnrollState::Reserving { q: q2, by: by2, ps: ps2, taken: t2 },
        ) && q2 == q && by2 == by && ps2 == ps && t2 == taken + 1 && (a@ matches ActionView::Claim(w)
            && w.key == "agent:"@ + locals[taken + 1]@)),
        !fresh && taken == 4 ==> (next matches EnrollNext::Ask(a, EnrollState::Storing(x, by2)) && by2
            == by && x.record@.local == locals[5]@),
{
}

/// An enrollment is granted once the record and then the index of the key are
/// stored.
pub proof fn law_record_then_index(
    cfg: Config,
    locals: Seq<String>,
    now: u64,
    x: Enrolled,
    by: Authorized,
    first: EnrollNext,
    second: EnrollNext,
)
    requires
        enroll_goes_on(cfg, locals, now, EnrollState::Storing(x, by), Event::Done, first),
        enroll_goes_on(cfg, locals, now, EnrollState::Indexing(x, by), Event::Done, second),
    ensures
        first matches EnrollNext::Ask(a, EnrollState::Indexing(x2, by2)) && x2 == x && by2 == by && (
        a@ matches ActionView::Put(w) && w.key == "jkt:"@ + x.record@.durable_jkt && w.value
            == vstd::utf8::encode_utf8(x.record@.local) && w.ttl is None),
        second == EnrollNext::End(EnrollEnd::Granted(x, by)),
{
}

/// Where the store fails, nothing is granted, and the failure is told with 500.
pub proof fn law_store_failure_stops(
    cfg: Config,
    locals: Seq<String>,
    now: u64,
    state: EnrollState,
    e: storage::StorageError,
    next: EnrollNext,
)
    requires
        enroll_goes_on(cfg, locals, now, state, Event::Failed(e), next),
    ensures
        next matches EnrollNext::End(EnrollEnd::Refused(x)) && x@.status == 500 && x@.detail
            == "storage error: "@ + e.0@,
{
}

} // verus!
