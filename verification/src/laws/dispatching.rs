//! Dispatch: who gets an action, with what, and from when it counts as running.

use crate::daemon::agent;
use crate::daemon::agent::DispatchedAction;
use crate::daemon::dispatch;
use crate::daemon::dispatch::{
    claim, claimed_by, finish_dispatch, now_ms, plan_dispatch, undo_dispatch, Claim, DispatchPlan,
    ReadyDispatch,
};
use crate::daemon::paths::{bare_fid_text, path_of_fid, restore_temp_path};
use crate::daemon::pending::PendingPaths;
use crate::daemon::recovery::remaining_grace;
use crate::daemon::xattr_store::{XattrNamespace, XattrResult};
use crate::laws::records;
use crate::laws::reports;
use crate::llapi::lifecycle::EndStatus;
use crate::model::action::ArStateView;
use crate::model::{ActionKind, AgentId, BackendObject, Cookie, Span, Timestamp};
use crate::scheduler::strategy::Assignment;
use crate::store::action_store::ActionStore;
use crate::store::error::StoreResult;
use vstd::prelude::*;

verus! {

// ---------------------------------------------------------------------------
// Time
// ---------------------------------------------------------------------------

/// A time in milliseconds is the time itself, to within the millisecond that has
/// begun, for every time from the epoch on that fits. A time before the epoch is the
/// epoch, and a time that does not fit is the last one that does.
pub proof fn lemma_milliseconds(now: Timestamp, ms: u64)
    requires
        call_ensures(now_ms, (now,), ms),
    ensures
        0 <= now.nanos && now.nanos < (u64::MAX + 1) * 1_000_000 ==> ms * 1_000_000 <= now.nanos < (
        ms + 1) * 1_000_000,
        now.nanos < 0 ==> ms == 0,
        now.nanos >= (u64::MAX + 1) * 1_000_000 ==> ms == u64::MAX,
{
}

/// Later is never earlier in milliseconds.
pub proof fn lemma_milliseconds_in_order(a: Timestamp, b: Timestamp, x: u64, y: u64)
    requires
        call_ensures(now_ms, (a,), x),
        call_ensures(now_ms, (b,), y),
        a.nanos <= b.nanos,
    ensures
        x <= y,
{
}

/// What is left of a grace period and what has passed of it make up the whole, until
/// it is over. A start in the future counts as just now.
pub proof fn lemma_grace_adds_up(now: Timestamp, started_ms: u64, grace: Span, left: Span)
    requires
        call_ensures(remaining_grace, (now, started_ms, grace), left),
    ensures
        ({
            let passed: int = now.nanos - started_ms * 1_000_000;
            &&& 0 <= passed <= grace.nanos ==> left.nanos + passed == grace.nanos
            &&& passed < 0 ==> left.nanos == grace.nanos
            &&& passed > grace.nanos ==> left.nanos == 0
        }),
{
}

// ---------------------------------------------------------------------------
// Plans
// ---------------------------------------------------------------------------

/// An assignment is dispatched exactly if its agent is connected; the plan is for that
/// action, that agent and that action's own file. The object is read first for the
/// actions that need one, in the namespace that is configured, and for no other.
pub proof fn lemma_plan_call(
    mount: &str,
    live: bool,
    ns: Option<XattrNamespace>,
    connected: bool,
    a: Assignment,
    r: Option<DispatchPlan>,
    file: String,
)
    requires
        call_ensures(plan_dispatch, (mount, live, ns, connected, a), r),
        call_ensures(path_of_fid, (mount, live, a.action.fid), file),
    ensures
        r is Some <==> connected,
        r matches Some(p) ==> {
            &&& p.action == a.action
            &&& p.agent == a.agent
            &&& p.primary_path@ == file@
            &&& p.live == live
            &&& match a.action.kind {
                ActionKind::Restore => p.read == ns,
                ActionKind::Remove => p.read == ns,
                ActionKind::Archive => p.read is None,
                ActionKind::Cancel => p.read is None,
            }
        },
{
}

// ---------------------------------------------------------------------------
// Claims
// ---------------------------------------------------------------------------

/// A claimed action counts as running on the agent of the plan from then on: the
/// store has it as started by that agent, at that time to the millisecond, and as it
/// was otherwise; and its file and kind are pending.
pub proof fn lemma_claimed_is_started<S: ActionStore>(
    store: &mut S,
    pending: &mut PendingPaths,
    plan: DispatchPlan,
    found: XattrResult<Option<BackendObject>>,
    notify: bool,
    now: Timestamp,
    r: Claim,
    x: u64,
)
    requires
        call_ensures(claim::<S>, (store, pending, plan, found, notify, now), r),
        r is Ready,
    ensures
        ({
            let k = plan.action.cookie.0;
            let before = old(store).records();
            let after = final(store).records();
            &&& before.contains_key(k)
            &&& records::unfinished(before[k].state)
            &&& records::touched(before, after, k)
            &&& after[k].state is Started
            &&& after[k].state->Started_agent == plan.agent@
            &&& after[k].action == before[k].action
            &&& after[k].progress == before[k].progress
            &&& after[k].created_at == before[k].created_at
            &&& 0 <= now.nanos && now.nanos < (u64::MAX + 1) * 1_000_000 ==> {
                let s = after[k].state->Started_since_unix_ms;
                s * 1_000_000 <= now.nanos < (s + 1) * 1_000_000
            }
            &&& final(pending)@.contains_key(k)
            &&& final(pending)@[k] == (plan.primary_path@, plan.action.kind)
            &&& x != k ==> (final(pending)@.contains_key(x) <==> old(pending)@.contains_key(x))
            &&& x != k && old(pending)@.contains_key(x) ==> final(pending)@[x] == old(pending)@[x]
        }),
{
    let k = plan.action.cookie.0;
    let before = store.records();
    let after = final(store).records();
    dispatch::lemma_moved(before, after, plan.action.cookie, dispatch::started_state(
        plan.agent@,
        now,
    ));
    assert(after.dom() =~= before.dom());
}

/// An action that was claimed just now has its whole grace period before it, to
/// within a millisecond.
pub proof fn lemma_claimed_has_its_grace<S: ActionStore>(
    store: &mut S,
    pending: &mut PendingPaths,
    plan: DispatchPlan,
    found: XattrResult<Option<BackendObject>>,
    notify: bool,
    now: Timestamp,
    r: Claim,
    grace: Span,
    left: Span,
)
    requires
        call_ensures(claim::<S>, (store, pending, plan, found, notify, now), r),
        r is Ready,
        0 <= now.nanos,
        now.nanos < (u64::MAX + 1) * 1_000_000,
        final(store).records()[plan.action.cookie.0].state is Started,
        call_ensures(
            remaining_grace,
            (
                now,
                final(store).records()[plan.action.cookie.0].state->Started_since_unix_ms,
                grace,
            ),
            left,
        ),
    ensures
        left.nanos <= grace.nanos,
        left.nanos + 1_000_000 > grace.nanos,
{
    lemma_claimed_is_started(store, pending, plan, found, notify, now, r, 0);
}

/// What a claim makes ready is the plan's action, for the plan's agent, on the plan's
/// file. A restore writes into a place of its own on a real mount, and into the file
/// otherwise; nothing else writes. An archive on a real mount, and nothing else, asks
/// for the file's real path. A restore or a removal comes with the object that was
/// found, and nothing else does.
pub proof fn lemma_ready_call<S: ActionStore>(
    store: &mut S,
    pending: &mut PendingPaths,
    plan: DispatchPlan,
    found: XattrResult<Option<BackendObject>>,
    notify: bool,
    now: Timestamp,
    r: Claim,
    place: String,
    name: String,
)
    requires
        call_ensures(claim::<S>, (store, pending, plan, found, notify, now), r),
        call_ensures(restore_temp_path, (plan.action.cookie,), place),
        call_ensures(bare_fid_text, (plan.action.fid,), name),
    ensures
        r matches Claim::Ready(d) ==> {
            &&& d.action == plan.action
            &&& d.agent == plan.agent
            &&& d.primary_path@ == plan.primary_path@
            &&& d.write_path is Some <==> plan.action.kind == ActionKind::Restore
            &&& d.write_path matches Some(p) ==> p@ == (if plan.live {
                place@
            } else {
                plan.primary_path@
            })
            &&& d.resolve is Some <==> plan.action.kind == ActionKind::Archive && plan.live
            &&& d.resolve matches Some(p) ==> p@ == name@
            &&& match plan.action.kind {
                ActionKind::Restore => d.existing is Some && found is Ok && found->Ok_0 == d.existing,
                ActionKind::Remove => d.existing is Some && found is Ok && found->Ok_0 == d.existing,
                _ => d.existing is None,
            }
        },
{
}

/// An action that needs no object is never refused for want of one. One that needs
/// an object is refused exactly if none was to be had: with `ENODATA` if there is
/// none or nowhere to look, with `EIO` if it could not be read. The action is then
/// over with that code, the kernel hears of it if it listens, and nothing is pending
/// that was not.
pub proof fn lemma_refused_call<S: ActionStore>(
    store: &mut S,
    pending: &mut PendingPaths,
    plan: DispatchPlan,
    found: XattrResult<Option<BackendObject>>,
    notify: bool,
    now: Timestamp,
    r: Claim,
)
    requires
        call_ensures(claim::<S>, (store, pending, plan, found, notify, now), r),
    ensures
        ({
            let needs = plan.action.kind == ActionKind::Restore || plan.action.kind
                == ActionKind::Remove;
            let have = plan.read is Some && found matches Ok(Some(_));
            &&& r is Refused <==> needs && !have
            &&& r matches Claim::Refused { rc, stored, completion } ==> {
                &&& rc == (if plan.read is Some && found is Err {
                    5i32
                } else {
                    61i32
                })
                &&& final(pending)@ == old(pending)@
                &&& (stored matches Err(e) ==> !(e@ is Backend)) ==> reports::ended_in(
                    old(store).records(),
                    final(store).records(),
                    stored,
                    plan.action.cookie,
                    ArStateView::Failed { rc },
                )
                &&& completion is Some <==> notify
                &&& completion matches Some(c) ==> c.cookie == plan.action.cookie && c.kind
                    == plan.action.kind && c.status == EndStatus::Failed(rc) && c.total_bytes == 0
                    && c.restore_temp_path is None
            }
        }),
{
    match r {
        Claim::Refused { rc, stored, completion } => {
            if stored matches Err(e) ==> !(e@ is Backend) {
                reports::lemma_ended_in(
                    store.records(),
                    final(store).records(),
                    stored,
                    plan.action.cookie,
                    ArStateView::Failed { rc },
                );
            }
        },
        _ => {},
    }
}

/// An action that waits and whose object, if it needs one, was found is claimed,
/// unless the store fails. An action that is over or not known is not, and nothing
/// changes.
pub proof fn lemma_claim_is_owed<S: ActionStore>(
    store: &mut S,
    pending: &mut PendingPaths,
    plan: DispatchPlan,
    found: XattrResult<Option<BackendObject>>,
    notify: bool,
    now: Timestamp,
    r: Claim,
)
    requires
        call_ensures(claim::<S>, (store, pending, plan, found, notify, now), r),
        !(r is Refused),
        r matches Claim::NotClaimed(e) ==> !(e@ is Backend),
    ensures
        ({
            let k = plan.action.cookie.0;
            let before = old(store).records();
            &&& r is Ready <==> before.contains_key(k) && records::unfinished(before[k].state)
            &&& !(r is Ready) ==> final(store).records() == before && final(pending)@ == old(
                pending,
            )@
        }),
{
    let before = store.records();
    let after = final(store).records();
    match r {
        Claim::Ready(_) => {
            dispatch::lemma_moved(
                before,
                after,
                plan.action.cookie,
                dispatch::started_state(plan.agent@, now),
            );
        },
        Claim::NotClaimed(e) => {
            let answer: StoreResult<()> = Err(e);
            reports::lemma_ended_in(
                before,
                after,
                answer,
                plan.action.cookie,
                dispatch::started_state(plan.agent@, now),
            );
        },
        _ => {},
    }
}

// ---------------------------------------------------------------------------
// Sending
// ---------------------------------------------------------------------------

/// What is sent is what was made ready, and the real path if it was asked for and
/// found.
pub proof fn lemma_sent_call(d: ReadyDispatch, path: Option<String>, r: DispatchedAction)
    requires
        call_ensures(finish_dispatch, (d, path), r),
    ensures
        r@.action == d.action@,
        r@.primary_path == d.primary_path@,
        r.write_path is Some <==> d.write_path is Some,
        r.write_path matches Some(p) ==> p@ == d.write_path->0@,
        r.existing is Some <==> d.existing is Some,
        r.existing matches Some(o) ==> o@ == d.existing->0@,
        r.lustre_path is Some <==> d.resolve is Some && path is Some,
        r.lustre_path matches Some(p) ==> p@ == path->0@,
{
}

/// A dispatch that is undone lets a running action wait again and takes it, and no
/// other, off what is pending.
pub proof fn lemma_undone_waits<S: ActionStore>(
    store: &mut S,
    pending: &mut PendingPaths,
    cookie: Cookie,
    r: StoreResult<()>,
    x: u64,
)
    requires
        call_ensures(undo_dispatch::<S>, (store, pending, cookie), r),
        r matches Err(e) ==> !(e@ is Backend),
    ensures
        reports::ended_in(
            old(store).records(),
            final(store).records(),
            r,
            cookie,
            ArStateView::Waiting,
        ),
        !final(pending)@.contains_key(cookie.0),
        x != cookie.0 ==> (final(pending)@.contains_key(x) <==> old(pending)@.contains_key(x)),
        x != cookie.0 && old(pending)@.contains_key(x) ==> final(pending)@[x] == old(pending)@[x],
{
    reports::lemma_ended_in(
        store.records(),
        final(store).records(),
        r,
        cookie,
        ArStateView::Waiting,
    );
}

/// An action is an agent's to cancel exactly while it is started and names that agent.
pub proof fn lemma_claimed_by_call<S: ActionStore>(
    store: &S,
    who: &AgentId,
    cookie: Cookie,
    r: StoreResult<bool>,
)
    requires
        call_ensures(claimed_by::<S>, (store, who, cookie), r),
    ensures
        match r {
            Ok(b) => b <==> store.records().contains_key(cookie.0) && (match store.records()[cookie.0].state {
                ArStateView::Started { agent, .. } => agent == who@,
                _ => false,
            }),
            Err(e) => e@ is Backend && !store.reliable(),
        },
{
}

/// What an agent has just claimed is its own to cancel, and nobody else's.
pub proof fn lemma_claimed_is_own<S: ActionStore>(
    store: &mut S,
    pending: &mut PendingPaths,
    plan: DispatchPlan,
    found: XattrResult<Option<BackendObject>>,
    notify: bool,
    now: Timestamp,
    r: Claim,
    after: &S,
    who: &AgentId,
    own: StoreResult<bool>,
)
    requires
        call_ensures(claim::<S>, (store, pending, plan, found, notify, now), r),
        r is Ready,
        *after == *final(store),
        call_ensures(claimed_by::<S>, (after, who, plan.action.cookie), own),
        own is Ok,
    ensures
        own->Ok_0 <==> who@ == plan.agent@,
{
    lemma_claimed_is_started(store, pending, plan, found, notify, now, r, 0);
}

} // verus!
