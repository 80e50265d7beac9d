//! The flow that delivers an event.

use vstd::prelude::*;

use crate::config::Config;
use crate::events;
use crate::events::{Delivered, EventRequest, EventView};
use crate::flow;
use crate::flow::{Action, ActionView, Event};
use crate::jwk::{Jwk, JwkView};
use crate::problem;
use crate::problem::{ApiError, ApiErrorView};
use crate::records;
use crate::records::{SubscriptionRecord, SubscriptionView};
use crate::reqctx::{ReqCtx, ReqView};
use crate::storage;
use crate::storage::{Found, FoundView};

verus! {

/// Where the delivery of an event stands.
pub enum DeliveryState {
    /// The resource's key is looked up.
    Key(EventRequest),
    /// The resource's key is fetched, since the cached one did not do.
    FreshKey(EventRequest, ApiError),
    /// The subscription is looked up.
    Subscription(EventRequest),
    /// A use of the subscription is counted.
    Counting(EventRequest, SubscriptionRecord),
    /// The event is put into the inbox.
    Pushing(Delivered, String),
    /// The keys of a used up subscription are deleted, after `done` of them.
    Cleaning(Delivered, String, usize),
}

/// What happens next. At the end stands who the event went to, and the answer.
pub enum DeliveryNext {
    Ask(Action, DeliveryState),
    End(Result<(Delivered, String), ApiError>),
}

/// Whether a delivery ends in an error.
pub open spec fn fails(next: DeliveryNext, e: ApiErrorView) -> bool {
    next matches DeliveryNext::End(Err(x)) && x@ == e
}

/// How a delivery begins: with the key that the event must be signed with.
pub open spec fn delivery_begins(cfg: Config, r: ReqView, now: u64, next: DeliveryNext) -> bool {
    match events::event_asked(cfg, r, now) {
        Err(e) => fails(next, e),
        Ok(ask) => next matches DeliveryNext::Ask(a, DeliveryState::Key(q)) && q@ == ask && a@
            == (ActionView::FindKey {
            iss: ask.claims.iss,
            dwk: ask.claims.dwk,
            kid: ask.kid,
            fresh: false,
        }),
    }
}

fn find_key(q: &EventRequest, fresh: bool) -> (r: Action)
    ensures
        r@ == (ActionView::FindKey {
            iss: q@.claims.iss,
            dwk: q@.claims.dwk,
            kid: q@.kid,
            fresh,
        }),
{
    Action::FindKey {
        iss: q.claims.iss.clone(),
        dwk: q.claims.dwk.clone(),
        kid: q.kid.clone(),
        fresh,
    }
}

/// Begins with a request that delivers an event.
pub fn begin_delivery(ctx: &ReqCtx, cfg: &Config, now: u64) -> (r: DeliveryNext)
    ensures
        delivery_begins(*cfg, ctx@, now, r),
{
    match events::event_request(ctx, cfg, now) {
        Err(e) => DeliveryNext::End(Err(e)),
        Ok(q) => DeliveryNext::Ask(find_key(&q, false), DeliveryState::Key(q)),
    }
}

/// A verified event: its subscription is looked up.
pub open spec fn asks_subscription(next: DeliveryNext, q: EventRequest) -> bool {
    next matches DeliveryNext::Ask(a, s) && a@ == ActionView::GetSubscription("sub:"@ + q@.claims.eid) && s
        == DeliveryState::Subscription(q)
}

fn look_up_subscription(q: EventRequest) -> (r: DeliveryNext)
    ensures
        asks_subscription(r, q),
{
    DeliveryNext::Ask(
        Action::GetSubscription(records::subscription_key(q.claims.eid.as_str())),
        DeliveryState::Subscription(q),
    )
}

/// What the key of a resource makes of an event. A cached key that does not do
/// is fetched once more.
pub open spec fn key_next(q: EventRequest, key: JwkView, cached: bool, next: DeliveryNext) -> bool {
    match events::event_fault(q@, key) {
        None => asks_subscription(next, q),
        Some(e) => if cached {
            next matches DeliveryNext::Ask(a, DeliveryState::FreshKey(q2, first)) && q2 == q
                && first@ == e && a@ == (ActionView::FindKey {
                iss: q@.claims.iss,
                dwk: q@.claims.dwk,
                kid: q@.kid,
                fresh: true,
            })
        } else {
            fails(next, e)
        },
    }
}

fn after_key(q: EventRequest, key: &Jwk, cached: bool) -> (r: DeliveryNext)
    ensures
        key_next(q, key@, cached, r),
{
    match events::verify_event(&q, key) {
        Ok(_) => look_up_subscription(q),
        Err(e) => if cached {
            DeliveryNext::Ask(find_key(&q, true), DeliveryState::FreshKey(q, e))
        } else {
            DeliveryNext::End(Err(e))
        },
    }
}

/// An event is put into the inbox of the subscriber.
pub open spec fn pushes(
    cfg: Config,
    r: ReqView,
    q: EventView,
    sub: SubscriptionView,
    left: Option<u64>,
    now: u64,
    next: DeliveryNext,
) -> bool {
    next matches DeliveryNext::Ask(a, DeliveryState::Pushing(d, agent)) && events::delivery(
        r,
        q,
        sub,
        left,
        now,
        d,
    ) && agent@ == sub.agent_id && a@ == (ActionView::Push {
        key: d.inbox@,
        value: d.item@,
        max: cfg.events.max_pending_per_agent,
    })
}

fn push(
    ctx: &ReqCtx,
    cfg: &Config,
    q: &EventRequest,
    sub: SubscriptionRecord,
    left: Option<u64>,
    now: u64,
) -> (r: DeliveryNext)
    ensures
        pushes(*cfg, ctx@, q@, sub@, left, now, r),
{
    let d = events::deliver_event(ctx, q, &sub, left, now);
    let action = Action::Push {
        key: d.inbox.clone(),
        value: storage::copy_bytes(d.item.as_slice()),
        max: cfg.events.max_pending_per_agent,
    };
    DeliveryNext::Ask(action, DeliveryState::Pushing(d, sub.agent_id))
}

/// What a subscription makes of an event: where its uses are limited, this one
/// is counted before anything is recorded.
pub open spec fn subscription_next(
    cfg: Config,
    r: ReqView,
    q: EventRequest,
    found: Option<FoundView>,
    now: u64,
    next: DeliveryNext,
) -> bool {
    match events::subscription_of(q@.claims, found) {
        Err(e) => fails(next, e),
        Ok(sub) => if sub.max_uses is Some {
            next matches DeliveryNext::Ask(a, DeliveryState::Counting(q2, sub2)) && q2 == q
                && sub2@ == sub && a@ == ActionView::Count("subuses:"@ + q@.claims.eid)
        } else {
            pushes(cfg, r, q@, sub, None, now, next)
        },
    }
}

fn after_subscription(
    ctx: &ReqCtx,
    cfg: &Config,
    q: EventRequest,
    found: &Option<Found>,
    now: u64,
) -> (r: DeliveryNext)
    ensures
        subscription_next(*cfg, ctx@, q, storage::opt_found(*found), now, r),
{
    match events::event_subscription(&q.claims, found) {
        Err(e) => DeliveryNext::End(Err(e)),
        Ok(sub) => if sub.max_uses.is_some() {
            DeliveryNext::Ask(
                Action::Count(records::sub_uses_key(q.claims.eid.as_str())),
                DeliveryState::Counting(q, sub),
            )
        } else {
            push(ctx, cfg, &q, sub, None, now)
        },
    }
}

/// What is left to be done of a recorded event: the keys of a used up
/// subscription are deleted one by one; that this works is not waited for.
pub open spec fn cleaning_next(d: Delivered, agent: String, done: nat, next: DeliveryNext) -> bool {
    if done < d.gone@.len() {
        next matches DeliveryNext::Ask(a, s) && a@ == ActionView::Delete(d.gone@[done as int]@)
            && s == DeliveryState::Cleaning(d, agent, (done + 1) as usize)
    } else {
        next == DeliveryNext::End(Ok((d, agent)))
    }
}

fn clean(d: Delivered, agent: String, done: usize) -> (r: DeliveryNext)
    ensures
        cleaning_next(d, agent, done as nat, r),
{
    if done < d.gone.len() {
        let key = d.gone[done].clone();
        DeliveryNext::Ask(Action::Delete(key), DeliveryState::Cleaning(d, agent, done + 1))
    } else {
        DeliveryNext::End(Ok((d, agent)))
    }
}

/// What happens next with a delivery.
pub open spec fn delivery_goes_on(
    cfg: Config,
    r: ReqView,
    now: u64,
    state: DeliveryState,
    ev: Event,
    next: DeliveryNext,
) -> bool {
    match state {
        DeliveryState::Key(q) => match ev {
            Event::Key(Ok((key, cached))) => key_next(q, key@, cached, next),
            Event::Key(Err(e)) => fails(next, problem::refused(e@)),
            _ => fails(next, flow::stopped(ev)),
        },
        DeliveryState::FreshKey(q, first) => match ev {
            Event::Key(Ok((key, cached))) => key_next(q, key@, false, next),
            Event::Key(Err(e)) => next == DeliveryNext::End(Err(first)),
            _ => fails(next, flow::stopped(ev)),
        },
        DeliveryState::Subscription(q) => match ev {
            Event::Record(found) => subscription_next(
                cfg,
                r,
                q,
                storage::opt_found(found),
                now,
                next,
            ),
            _ => fails(next, flow::stopped(ev)),
        },
        DeliveryState::Counting(q, sub) => match ev {
            Event::Counted(used) => match events::uses_left(sub.max_uses, used) {
                Err(e) => fails(next, e),
                Ok(left) => pushes(cfg, r, q@, sub@, left, now, next),
            },
            _ => fails(next, flow::stopped(ev)),
        },
        DeliveryState::Pushing(d, agent) => match ev {
            Event::Done => cleaning_next(d, agent, 0, next),
            _ => fails(next, flow::stopped(ev)),
        },
        DeliveryState::Cleaning(d, agent, done) => cleaning_next(d, agent, done as nat, next),
    }
}

/// Goes on with a delivery.
pub fn continue_delivery(
    ctx: &ReqCtx,
    cfg: &Config,
    now: u64,
    state: DeliveryState,
    ev: Event,
) -> (r: DeliveryNext)
    ensures
        delivery_goes_on(*cfg, ctx@, now, state, ev, r),
{
    match state {
        DeliveryState::Key(q) => match ev {
            Event::Key(Ok((key, cached))) => after_key(q, &key, cached),
            Event::Key(Err(e)) => DeliveryNext::End(Err(ApiError::from_sig_error(e))),
            other => DeliveryNext::End(Err(flow::stop(&other))),
        },
        DeliveryState::FreshKey(q, first) => match ev {
            Event::Key(Ok((key, _))) => after_key(q, &key, false),
            Event::Key(Err(_)) => DeliveryNext::End(Err(first)),
            other => DeliveryNext::End(Err(flow::stop(&other))),
        },
        DeliveryState::Subscription(q) => match &ev {
            Event::Record(found) => after_subscription(ctx, cfg, q, found, now),
            _ => DeliveryNext::End(Err(flow::stop(&ev))),
        },
        DeliveryState::Counting(q, sub) => match &ev {
            Event::Counted(used) => match events::count_use(sub.max_uses, *used) {
                Err(e) => DeliveryNext::End(Err(e)),
                Ok(left) => push(ctx, cfg, &q, sub, left, now),
            },
            _ => DeliveryNext::End(Err(flow::stop(&ev))),
        },
        DeliveryState::Pushing(d, agent) => match &ev {
            Event::Done => clean(d, agent, 0),
            _ => DeliveryNext::End(Err(flow::stop(&ev))),
        },
        DeliveryState::Cleaning(d, agent, done) => clean(d, agent, done),
    }
}

// ------------------------------------------------------------------ laws

/// A delivery is answered with success only after the event was put into the
/// inbox.
pub proof fn law_recorded_before_answered(
    cfg: Config,
    r: ReqView,
    now: u64,
    state: DeliveryState,
    ev: Event,
    next: DeliveryNext,
)
    requires
        delivery_goes_on(cfg, r, now, state, ev, next),
    ensures
        next matches DeliveryNext::End(Ok((d, agent))) ==> match state {
            DeliveryState::Pushing(d2, _) => d2 == d && ev is Done,
            DeliveryState::Cleaning(d2, _, _) => d2 == d,
            _ => false,
        },
        next matches DeliveryNext::Ask(_, DeliveryState::Cleaning(d, _, _)) ==> match state {
            DeliveryState::Pushing(d2, _) => d2 == d && ev is Done,
            DeliveryState::Cleaning(d2, _, _) => d2 == d,
            _ => false,
        },
{
}

/// Nothing is counted, and nothing recorded, of an event whose token and request
/// do not both hold under a key of the resource.
pub proof fn law_only_verified_events_go_on(
    cfg: Config,
    r: ReqView,
    now: u64,
    q: EventRequest,
    key: Jwk,
    cached: bool,
    next: DeliveryNext,
)
    requires
        delivery_goes_on(
            cfg,
            r,
            now,
            DeliveryState::Key(q),
            Event::Key(Ok((key, cached))),
            next,
        ),
    ensures
        next matches DeliveryNext::Ask(_, DeliveryState::Subscription(_)) ==> events::event_fault(
            q@,
            key@,
        ) is None,
        !(next matches DeliveryNext::Ask(_, DeliveryState::Counting(_, _))),
        !(next matches DeliveryNext::Ask(_, DeliveryState::Pushing(_, _))),
{
}

/// A use beyond the limit records nothing.
pub proof fn law_used_up_records_nothing(
    cfg: Config,
    r: ReqView,
    now: u64,
    q: EventRequest,
    sub: SubscriptionRecord,
    used: i64,
    next: DeliveryNext,
)
    requires
        sub.max_uses matches Some(max) && used > max,
        delivery_goes_on(
            cfg,
            r,
            now,
            DeliveryState::Counting(q, sub),
            Event::Counted(used),
            next,
        ),
    ensures
        fails(next, events::used_up()),
{
}

/// A delivery begins with the key that the event's token names, cached or not.
pub proof fn law_delivery_begins(cfg: Config, r: ReqView, now: u64, next: DeliveryNext)
    requires
        delivery_begins(cfg, r, now, next),
    ensures
        events::event_asked(cfg, r, now) matches Ok(ask) ==> (next matches DeliveryNext::Ask(
            a,
            DeliveryState::Key(q),
        ) && q@ == ask && a@ == (ActionView::FindKey {
            iss: ask.claims.iss,
            dwk: ask.claims.dwk,
            kid: ask.kid,
            fresh: false,
        })),
        events::event_asked(cfg, r, now) matches Err(e) ==> (next matches DeliveryNext::End(Err(x))
            && x@ == e),
{
}

/// An event that holds under the key leads to its subscription. One that does not
/// hold under a cached key is tried with a fetched one, once; then it fails.
pub proof fn law_key_decides(
    cfg: Config,
    r: ReqView,
    now: u64,
    q: EventRequest,
    key: Jwk,
    cached: bool,
    next: DeliveryNext,
)
    requires
        delivery_goes_on(
            cfg,
            r,
            now,
            DeliveryState::Key(q),
            Event::Key(Ok((key, cached))),
            next,
        ),
    ensures
        events::event_fault(q@, key@) is None ==> (next matches DeliveryNext::Ask(
            a,
            DeliveryState::Subscription(q2),
        ) && q2 == q && a@ == ActionView::GetSubscription("sub:"@ + q@.claims.eid)),
        events::event_fault(q@, key@) matches Some(e) ==> (cached ==> (
        next matches DeliveryNext::Ask(a, DeliveryState::FreshKey(q2, first)) && q2 == q && first@
            == e && a@ == (ActionView::FindKey {
            iss: q@.claims.iss,
            dwk: q@.claims.dwk,
            kid: q@.kid,
            fresh: true,
        }))),
        events::event_fault(q@, key@) matches Some(e) ==> (!cached ==> (
        next matches DeliveryNext::End(Err(x)) && x@ == e)),
{
}

/// A fetched key decides; where none can be fetched, what the cached key said
/// stands.
pub proof fn law_fetched_key_decides(
    cfg: Config,
    r: ReqView,
    now: u64,
    q: EventRequest,
    first: ApiError,
    key: Jwk,
    cached: bool,
    e: crate::sig::SigError,
    next: DeliveryNext,
    other: DeliveryNext,
)
    requires
        delivery_goes_on(
            cfg,
            r,
            now,
            DeliveryState::FreshKey(q, first),
            Event::Key(Ok((key, cached))),
            next,
        ),
        delivery_goes_on(
            cfg,
            r,
            now,
            DeliveryState::FreshKey(q, first),
            Event::Key(Err(e)),
            other,
        ),
    ensures
        events::event_fault(q@, key@) is None ==> (next matches DeliveryNext::Ask(
            a,
            DeliveryState::Subscription(q2),
        ) && q2 == q && a@ == ActionView::GetSubscription("sub:"@ + q@.claims.eid)),
        events::event_fault(q@, key@) matches Some(f) ==> (next matches DeliveryNext::End(Err(x)) && x@
            == f),
        other == DeliveryNext::End(Err(first)),
{
}

/// A subscription with limited uses is counted before the event is put into the
/// inbox; another takes the event at once, and keeps the newest that may wait.
pub proof fn law_subscription_decides(
    cfg: Config,
    r: ReqView,
    now: u64,
    q: EventRequest,
    found: Option<Found>,
    sub: SubscriptionView,
    next: DeliveryNext,
)
    requires
        delivery_goes_on(
            cfg,
            r,
            now,
            DeliveryState::Subscription(q),
            Event::Record(found),
            next,
        ),
        events::subscription_of(q@.claims, storage::opt_found(found)) == Ok::<
            SubscriptionView,
            ApiErrorView,
        >(sub),
    ensures
        sub.max_uses is Some ==> (next matches DeliveryNext::Ask(a, DeliveryState::Counting(q2, sub2))
            && q2 == q && sub2@ == sub && a@ == ActionView::Count("subuses:"@ + q@.claims.eid)),
        sub.max_uses is None ==> (next matches DeliveryNext::Ask(a, DeliveryState::Pushing(d, agent))
            && agent@ == sub.agent_id && events::delivery(r, q@, sub, None, now, d) && a@ == (
        ActionView::Push { key: d.inbox@, value: d.item@, max: cfg.events.max_pending_per_agent })),
{
}

/// A counted use that is within the limit puts the event into the inbox.
pub proof fn law_counted_use(
    cfg: Config,
    r: ReqView,
    now: u64,
    q: EventRequest,
    sub: SubscriptionRecord,
    used: i64,
    next: DeliveryNext,
)
    requires
        delivery_goes_on(
            cfg,
            r,
            now,
            DeliveryState::Counting(q, sub),
            Event::Counted(used),
            next,
        ),
    ensures
        events::uses_left(sub.max_uses, used) matches Ok(left) ==> (next matches DeliveryNext::Ask(
            a,
            DeliveryState::Pushing(d, agent),
        ) && agent@ == sub@.agent_id && events::delivery(r, q@, sub@, left, now, d) && a@ == (
        ActionView::Push { key: d.inbox@, value: d.item@, max: cfg.events.max_pending_per_agent })),
        events::uses_left(sub.max_uses, used) matches Err(e) ==> (next matches DeliveryNext::End(
            Err(x),
        ) && x@ == e),
{
}

/// After an event was recorded the keys of a used up subscription are deleted one
/// by one, and the delivery succeeds.
pub proof fn law_recorded_then_cleaned(
    cfg: Config,
    r: ReqView,
    now: u64,
    d: Delivered,
    agent: String,
    done: usize,
    ev: Event,
    first: DeliveryNext,
    next: DeliveryNext,
)
    requires
        delivery_goes_on(cfg, r, now, DeliveryState::Pushing(d, agent), Event::Done, first),
        delivery_goes_on(cfg, r, now, DeliveryState::Cleaning(d, agent, done), ev, next),
    ensures
        d.gone@.len() == 0 ==> first == DeliveryNext::End(Ok((d, agent))),
        d.gone@.len() > 0 ==> (first matches DeliveryNext::Ask(a, s) && a@ == ActionView::Delete(
            d.gone@[0]@,
        ) && s == DeliveryState::Cleaning(d, agent, 1)),
        done >= d.gone@.len() ==> next == DeliveryNext::End(Ok((d, agent))),
        done < d.gone@.len() ==> (next matches DeliveryNext::Ask(a, s) && a@ == ActionView::Delete(
            d.gone@[done as int]@,
        ) && s == DeliveryState::Cleaning(d, agent, (done + 1) as usize)),
{
}

/// Until an event is recorded, a failure of the store ends the delivery with 500.
pub proof fn law_delivery_store_failure(
    cfg: Config,
    r: ReqView,
    now: u64,
    state: DeliveryState,
    e: storage::StorageError,
    next: DeliveryNext,
)
    requires
        !(state is Cleaning),
        delivery_goes_on(cfg, r, now, state, Event::Failed(e), next),
    ensures
        next matches DeliveryNext::End(Err(x)) && x@.status == 500,
{
}

} // verus!
