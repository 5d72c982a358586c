//! When the store's backend fails: what is done all the same, and what is left alone.

use crate::daemon::dispatch;
use crate::daemon::dispatch::{claim, handle_terminal, undo_dispatch, Claim, DispatchPlan};
use crate::daemon::ingest;
use crate::daemon::ingest::{ingest_batch, BatchOutcome};
use crate::daemon::disconnect;
use crate::daemon::disconnect::{reassign, Reassignment};
use crate::daemon::agent::ActionStatus;
use crate::daemon::pending::PendingPaths;
use crate::daemon::recovery;
use crate::daemon::recovery::Watch;
use crate::daemon::status::{apply_status, StatusEffect};
use crate::daemon::xattr_store::XattrResult;
use crate::laws::records;
use crate::laws::reports;
use crate::llapi::lifecycle::{EndStatus, ReceivedAction};
use crate::model::action::ArStateView;
use crate::model::{ActionKind, AgentId, ArState, BackendObject, Cookie, Timestamp};
use crate::scheduler::strategy::Scheduler;
use crate::store::action_store;
use crate::store::action_store::{ActionStore, Records, StoreOp};
use crate::store::error::StoreResult;
use vstd::prelude::*;

verus! {

/// Whatever the store answers, no record but that one has changed, and that one is as it
/// was or in the new state; an action that was over is as it was.
pub open spec fn at_most(
    before: Records,
    after: Records,
    cookie: Cookie,
    state: ArStateView,
) -> bool {
    let k = cookie.0;
    &&& records::touched(before, after, k)
    &&& before.contains_key(k) ==> {
        &&& after[k].action == before[k].action
        &&& after[k].progress == before[k].progress
        &&& after[k].created_at == before[k].created_at
        &&& after[k].state == before[k].state || (records::unfinished(before[k].state)
            && after[k].state == state)
    }
}

/// A state change that was asked for touches at most that record.
proof fn lemma_at_most(
    before: Records,
    after: Records,
    stored: StoreResult<()>,
    cookie: Cookie,
    state: ArStateView,
)
    requires
        dispatch::moved(before, after, stored, cookie, state),
    ensures
        at_most(before, after, cookie, state),
{
    let now = choose|now: Timestamp| #[trigger]
        action_store::attempted(
            before,
            after,
            stored,
            StoreOp::Transition { cookie: cookie.0, new: state, now },
        );
    let op = StoreOp::Transition { cookie: cookie.0, new: state, now };
    assert(action_store::attempted(before, after, stored, op));
    assert(action_store::apply(before, op).dom() =~= before.dom());
}

/// The kernel hears how an action ended whatever the store answered: success with the
/// bytes, `EIO` if the object could not be recorded, or the mover's own code; with the
/// kind that is pending, and none other.
pub proof fn lemma_kernel_hears_anyway<S: ActionStore>(
    store: &mut S,
    pending: &mut PendingPaths,
    report: ActionStatus,
    notify: bool,
    write_failed: bool,
    temp_exists: bool,
    r: StatusEffect,
)
    requires
        call_ensures(
            apply_status::<S>,
            (store, pending, report, notify, write_failed, temp_exists),
            r,
        ),
        !(report@ is Progress),
    ensures
        r.completion is Some <==> notify,
        r.discard is Some <==> notify && report@ is Failed,
        r.completion matches Some(c) ==> {
            let cookie = if report@ is Failed {
                report@->Failed_cookie
            } else {
                report@->Completed_cookie
            };
            let known = old(pending)@.contains_key(cookie.0);
            let good = report@ is Completed && !write_failed;
            &&& c.cookie == cookie
            &&& c.kind == (if known {
                old(pending)@[cookie.0].1
            } else {
                ActionKind::Archive
            })
            &&& good ==> c.status == EndStatus::Success && c.total_bytes
                == report@->Completed_total_bytes
            &&& !good ==> c.total_bytes == 0 && c.restore_temp_path is None
            &&& report@ is Completed && write_failed ==> c.status == EndStatus::Failed(5)
            &&& report@ is Failed ==> c.status == EndStatus::Failed(report@->Failed_errno)
            &&& good ==> (c.restore_temp_path is Some <==> c.kind == ActionKind::Restore
                && temp_exists)
        },
{
}

/// A report changes at most the record it is about, whatever the store answers; and an
/// action that has ended is no longer pending even so.
pub proof fn lemma_report_touches_one<S: ActionStore>(
    store: &mut S,
    pending: &mut PendingPaths,
    report: ActionStatus,
    notify: bool,
    write_failed: bool,
    temp_exists: bool,
    r: StatusEffect,
)
    requires
        call_ensures(
            apply_status::<S>,
            (store, pending, report, notify, write_failed, temp_exists),
            r,
        ),
        !(report@ is Progress),
    ensures
        ({
            let cookie = if report@ is Failed {
                report@->Failed_cookie
            } else {
                report@->Completed_cookie
            };
            &&& !final(pending)@.contains_key(cookie.0)
            &&& at_most(
                old(store).records(),
                final(store).records(),
                cookie,
                if report@ is Failed {
                    ArStateView::Failed { rc: report@->Failed_errno }
                } else if write_failed {
                    ArStateView::Failed { rc: 5 }
                } else {
                    ArStateView::Succeed { rc: 0 }
                },
            )
        }),
{
    let before = store.records();
    let after = final(store).records();
    if report@ is Failed {
        lemma_at_most(
            before,
            after,
            r.stored,
            report@->Failed_cookie,
            ArStateView::Failed { rc: report@->Failed_errno },
        );
    } else if write_failed {
        lemma_at_most(
            before,
            after,
            r.stored,
            report@->Completed_cookie,
            ArStateView::Failed { rc: 5 },
        );
    } else {
        lemma_at_most(
            before,
            after,
            r.stored,
            report@->Completed_cookie,
            ArStateView::Succeed { rc: 0 },
        );
    }
}

/// A claim that the store did not take leaves nothing pending, and no other record
/// changed; the action itself is as it was or counts as running.
pub proof fn lemma_not_claimed<S: ActionStore>(
    store: &mut S,
    pending: &mut PendingPaths,
    plan: DispatchPlan,
    found: XattrResult<Option<BackendObject>>,
    notify: bool,
    now: Timestamp,
    r: Claim,
)
    requires
        call_ensures(claim::<S>, (store, pending, plan, found, notify, now), r),
        !(r is Ready),
    ensures
        final(pending)@ == old(pending)@,
        r is NotClaimed ==> ({
            let before = old(store).records();
            let after = final(store).records();
            let k = plan.action.cookie.0;
            &&& records::touched(before, after, k)
            &&& before.contains_key(k) && after[k].state != before[k].state ==> after[k].state
                is Started && after[k].state->Started_agent == plan.agent@
        }),
        r matches Claim::Refused { rc, .. } ==> at_most(
            old(store).records(),
            final(store).records(),
            plan.action.cookie,
            ArStateView::Failed { rc },
        ),
        r matches Claim::NotClaimed(e) ==> (old(store).reliable() ==> !(e@ is Backend)),
{
    let before = store.records();
    let after = final(store).records();
    match r {
        Claim::NotClaimed(e) => {
            let answer: StoreResult<()> = Err(e);
            lemma_at_most(
                before,
                after,
                answer,
                plan.action.cookie,
                dispatch::started_state(plan.agent@, now),
            );
        },
        Claim::Refused { rc, stored, .. } => {
            lemma_at_most(before, after, stored, plan.action.cookie, ArStateView::Failed { rc });
        },
        _ => {},
    }
}

/// A dispatch that is undone is no longer pending, whatever the store answers.
pub proof fn lemma_undone_anyway<S: ActionStore>(
    store: &mut S,
    pending: &mut PendingPaths,
    cookie: Cookie,
    r: StoreResult<()>,
)
    requires
        call_ensures(undo_dispatch::<S>, (store, pending, cookie), r),
    ensures
        !final(pending)@.contains_key(cookie.0),
        at_most(old(store).records(), final(store).records(), cookie, ArStateView::Waiting),
{
    lemma_at_most(store.records(), final(store).records(), r, cookie, ArStateView::Waiting);
}

/// The end of an action is put on record as any change of state is.
pub proof fn lemma_end_on_record<S: ActionStore>(
    store: &mut S,
    cookie: Cookie,
    state: ArState,
    r: StoreResult<()>,
)
    requires
        call_ensures(handle_terminal::<S>, (store, cookie, state), r),
    ensures
        at_most(old(store).records(), final(store).records(), cookie, state@),
        (r matches Err(e) ==> !(e@ is Backend)) ==> reports::ended_in(
            old(store).records(),
            final(store).records(),
            r,
            cookie,
            state@,
        ),
{
    lemma_at_most(store.records(), final(store).records(), r, cookie, state@);
    if r matches Err(e) ==> !(e@ is Backend) {
        reports::lemma_ended_in(
            store.records(),
            final(store).records(),
            r,
            cookie,
            state@,
        );
    }
}

/// A request that the store did not take is not queued, and no other record changes.
pub proof fn lemma_not_taken_in<S: ActionStore, Q: Scheduler>(
    store: &mut S,
    queue: &mut Q,
    received: ReceivedAction,
    now: Timestamp,
    r: StoreResult<()>,
    kind: ActionKind,
    x: u64,
)
    requires
        call_ensures(ingest::ingest::<S, Q>, (store, queue, received, now), r),
        r is Err,
    ensures
        final(queue).waiting() == old(queue).waiting(),
        final(queue).queued(kind) == old(queue).queued(kind),
        x != received.cookie.0 ==> (final(store).records().contains_key(x) <==> old(
            store,
        ).records().contains_key(x)),
        old(store).records().contains_key(x) ==> final(store).records().contains_key(x)
            && final(store).records()[x] == old(store).records()[x],
{
    let op = StoreOp::Insert { rec: ingest::fresh_record(received@.action, now) };
    let before = old(store).records();
    assert(final(store).records() == before || final(store).records() == action_store::apply(
        before,
        op,
    ));
}

/// A batch keeps every record that was there, and says truly whether the backend failed
/// on any of it.
pub proof fn lemma_batch_keeps<S: ActionStore, Q: Scheduler>(
    store: &mut S,
    queue: &mut Q,
    batch: Vec<ReceivedAction>,
    r: BatchOutcome,
    k: u64,
)
    requires
        call_ensures(ingest_batch::<S, Q>, (store, queue, batch), r),
    ensures
        old(store).records().contains_key(k) ==> final(store).records().contains_key(k)
            && final(store).records()[k] == old(store).records()[k],
        r.backend_failed <==> exists|i: int|
            0 <= i < r.refused@.len() && (#[trigger] r.refused@[i]).1@ is Backend,
        old(store).reliable() ==> !r.backend_failed,
        final(store).records().contains_key(k) && !old(store).records().contains_key(k)
            ==> exists|i: int|
            0 <= i < batch@.len() && (#[trigger] batch@[i]).cookie.0 == k
                && final(store).records()[k].action == batch@[i]@.action
                && final(store).records()[k].state is Waiting
                && final(store).records()[k].progress.offset == 0
                && final(store).records()[k].progress.length == 0
                && final(store).records()[k].created_at == final(store).records()[k].updated_at,
{
    let m0 = store.records();
    let after = final(store).records();
    let all = ingest::batch_actions(batch@);
    let took = choose|took: Seq<bool>| #[trigger]
        ingest::taken_in(m0, after, *old(queue), *final(queue), all, took, r);
    assert(ingest::taken_in(m0, after, *old(queue), *final(queue), all, took, r));
    if after.contains_key(k) && !m0.contains_key(k) {
        assert(ingest::recorded_from(after, all, k));
        let i = choose|i: int|
            0 <= i < all.len() && (#[trigger] all[i]).cookie.0 == k && after[k]
                == ingest::fresh_record(all[i], after[k].created_at);
        assert(all[i] == batch@[i]@.action);
        assert(batch@[i].cookie.0 == k);
    }
}

/// Taking back changes only records under a claim that was watched and stands, whatever
/// the store answers; and only what waits again is queued.
pub proof fn lemma_taking_back_is_contained<S: ActionStore, Q: Scheduler>(
    store: &mut S,
    queue: &mut Q,
    who: &AgentId,
    watches: Vec<Watch>,
    r: Reassignment,
    k: u64,
    i: int,
)
    requires
        call_ensures(reassign::<S, Q>, (store, queue, who, watches), r),
        old(store).records().contains_key(k),
    ensures
        ({
            let before = old(store).records();
            let after = final(store).records();
            let held = exists|i: int|
                0 <= i < watches@.len() && (#[trigger] watches@[i])@.action.cookie.0 == k
                    && before[k].state == (ArStateView::Started {
                    agent: who@,
                    since_unix_ms: watches@[i]@.since_unix_ms,
                });
            &&& after.contains_key(k)
            &&& after[k].action == before[k].action && after[k].progress == before[k].progress
            &&& !held ==> after[k] == before[k]
            &&& after[k].state == before[k].state || after[k].state is Waiting
        }),
        0 <= i < r.failures@.len() ==> r.failures@[i].1@ is Backend,
{
    let m = store.records();
    let after = final(store).records();
    let views = recovery::watch_views(watches@);
    let took = choose|took: Seq<bool>| #[trigger]
        disconnect::reassigned(m, after, *old(queue), *final(queue), who@, views, took, r);
    assert(disconnect::reassigned(m, after, *old(queue), *final(queue), who@, views, took, r));
    assert(after.dom().contains(k) <==> m.dom().contains(k));
    let held = exists|i: int|
        0 <= i < watches@.len() && (#[trigger] watches@[i])@.action.cookie.0 == k && m[k].state == (
        ArStateView::Started { agent: who@, since_unix_ms: watches@[i]@.since_unix_ms });
    if !held {
        if disconnect::given_back(views, took, k) {
            let j = choose|j: int|
                0 <= j < views.len() && #[trigger] took[j] && views[j].action.cookie.0 == k;
            assert(disconnect::still_held(m, who@, views[j]));
            assert(views[j] == watches@[j]@);
        }
        if disconnect::claim_stands(m, who@, views, k) {
            let j = choose|j: int|
                0 <= j < views.len() && (#[trigger] views[j]).action.cookie.0 == k
                    && disconnect::still_held(m, who@, views[j]);
            assert(views[j] == watches@[j]@);
        }
    }
}

} // verus!
