//! Reports: what the store, the kernel and the file get of what a mover says.

use crate::daemon::agent::ActionStatus;
use crate::daemon::dispatch;
use crate::daemon::dispatch::{Claim, DispatchPlan};
use crate::daemon::pending::PendingPaths;
use crate::daemon::status;
use crate::daemon::status::{
    apply_status, failed_completion, object_target, ActionCompletion, StatusEffect,
};
use crate::daemon::xattr_store::{XattrNamespace, XattrResult};
use crate::laws::records;
use crate::llapi::lifecycle::EndStatus;
use crate::model::action::ArStateView;
use crate::model::{ActionKind, BackendObject, Cookie, Extent, Timestamp};
use crate::store::action_store;
use crate::store::action_store::{ActionStore, Records, StoreOp};
use crate::store::error::StoreResult;
use vstd::prelude::*;

verus! {

/// The action of that cookie ended in that state, as far as it was not over before:
/// nothing but its state changes, and no other record does. What was over or is not
/// known stays as it was, and the store's answer says so.
pub open spec fn ended_in(
    before: Records,
    after: Records,
    stored: StoreResult<()>,
    cookie: Cookie,
    state: ArStateView,
) -> bool {
    let k = cookie.0;
    if before.contains_key(k) && records::unfinished(before[k].state) {
        &&& stored is Ok
        &&& records::touched(before, after, k)
        &&& after[k].state == state
        &&& after[k].action == before[k].action
        &&& after[k].progress == before[k].progress
        &&& after[k].created_at == before[k].created_at
    } else {
        &&& stored is Err
        &&& after == before
    }
}

/// From a state change that was asked for to what became of it.
pub(crate) proof fn lemma_ended_in(
    before: Records,
    after: Records,
    stored: StoreResult<()>,
    cookie: Cookie,
    state: ArStateView,
)
    requires
        dispatch::moved(before, after, stored, cookie, state),
        stored matches Err(e) ==> !(e@ is Backend),
    ensures
        ended_in(before, after, stored, cookie, state),
{
    let now = choose|now: Timestamp| #[trigger]
        action_store::attempted(
            before,
            after,
            stored,
            StoreOp::Transition { cookie: cookie.0, new: state, now },
        );
    assert(action_store::attempted(
        before,
        after,
        stored,
        StoreOp::Transition { cookie: cookie.0, new: state, now },
    ));
    if stored is Ok {
        assert(after.dom() =~= before.dom());
    }
}

/// A mover that finished has succeeded, however many bytes it moved and whether or
/// not it made an object, if nothing had to be recorded on the file or that went
/// well: the action is over with code 0, and the kernel hears of success and of that
/// many bytes.
pub proof fn lemma_completed_is_success<S: ActionStore>(
    store: &mut S,
    pending: &mut PendingPaths,
    report: ActionStatus,
    notify: bool,
    temp_exists: bool,
    r: StatusEffect,
)
    requires
        call_ensures(apply_status::<S>, (store, pending, report, notify, false, temp_exists), r),
        report@ is Completed,
        r.stored matches Err(e) ==> !(e@ is Backend),
    ensures
        ({
            let cookie = report@->Completed_cookie;
            let known = old(pending)@.contains_key(cookie.0);
            &&& ended_in(
                old(store).records(),
                final(store).records(),
                r.stored,
                cookie,
                ArStateView::Succeed { rc: 0 },
            )
            &&& r.completion is Some <==> notify
            &&& r.discard is None
            &&& r.completion matches Some(c) ==> {
                &&& c.cookie == cookie
                &&& c.status == EndStatus::Success
                &&& c.total_bytes == report@->Completed_total_bytes
                &&& known ==> c.kind == old(pending)@[cookie.0].1
                &&& !known ==> c.kind == ActionKind::Archive
                &&& c.restore_temp_path is Some <==> c.kind == ActionKind::Restore && temp_exists
            }
        }),
{
    lemma_ended_in(
        store.records(),
        final(store).records(),
        r.stored,
        report@->Completed_cookie,
        ArStateView::Succeed { rc: 0 },
    );
}

/// A mover that finished has failed if its object could not be recorded, with
/// `EIO`: nobody hears of success, and no bytes are reported.
pub proof fn lemma_unrecorded_is_failure<S: ActionStore>(
    store: &mut S,
    pending: &mut PendingPaths,
    report: ActionStatus,
    notify: bool,
    temp_exists: bool,
    r: StatusEffect,
)
    requires
        call_ensures(apply_status::<S>, (store, pending, report, notify, true, temp_exists), r),
        report@ is Completed,
        r.stored matches Err(e) ==> !(e@ is Backend),
    ensures
        ended_in(
            old(store).records(),
            final(store).records(),
            r.stored,
            report@->Completed_cookie,
            ArStateView::Failed { rc: 5 },
        ),
        r.completion is Some <==> notify,
        r.discard is None,
        r.completion matches Some(c) ==> c.cookie == report@->Completed_cookie && c.status
            == EndStatus::Failed(5) && c.total_bytes == 0 && c.restore_temp_path is None,
{
    lemma_ended_in(
        store.records(),
        final(store).records(),
        r.stored,
        report@->Completed_cookie,
        ArStateView::Failed { rc: 5 },
    );
}

/// A mover that failed has failed with its own code, for the store and for the kernel
/// alike, whatever else is the case; what it left behind of a restore is discarded.
pub proof fn lemma_failed_is_failure<S: ActionStore>(
    store: &mut S,
    pending: &mut PendingPaths,
    report: ActionStatus,
    notify: bool,
    write_failed: bool,
    temp_exists: bool,
    r: StatusEffect,
)
    requires
        call_ensures(
            apply_status::<S>,
            (store, pending, report, notify, write_failed, temp_exists),
            r,
        ),
        report@ is Failed,
        r.stored matches Err(e) ==> !(e@ is Backend),
    ensures
        ({
            let cookie = report@->Failed_cookie;
            let rc = report@->Failed_errno;
            let known = old(pending)@.contains_key(cookie.0);
            &&& ended_in(
                old(store).records(),
                final(store).records(),
                r.stored,
                cookie,
                ArStateView::Failed { rc },
            )
            &&& r.completion is Some <==> notify
            &&& r.discard is Some <==> notify
            &&& r.completion matches Some(c) ==> {
                &&& c.cookie == cookie
                &&& c.status == EndStatus::Failed(rc)
                &&& c.total_bytes == 0
                &&& known ==> c.kind == old(pending)@[cookie.0].1
                &&& !known ==> c.kind == ActionKind::Archive
                &&& c.restore_temp_path is None
            }
        }),
{
    lemma_ended_in(
        store.records(),
        final(store).records(),
        r.stored,
        report@->Failed_cookie,
        ArStateView::Failed { rc: report@->Failed_errno },
    );
}

/// Progress moves the record's progress to the bytes reported, and nothing else:
/// the action goes on, nobody is told, and it stays pending. Bytes that would go back
/// are refused.
pub proof fn lemma_progress_is_recorded<S: ActionStore>(
    store: &mut S,
    pending: &mut PendingPaths,
    report: ActionStatus,
    notify: bool,
    write_failed: bool,
    temp_exists: bool,
    r: StatusEffect,
)
    requires
        call_ensures(
            apply_status::<S>,
            (store, pending, report, notify, write_failed, temp_exists),
            r,
        ),
        report@ is Progress,
        r.stored matches Err(e) ==> !(e@ is Backend),
    ensures
        ({
            let k = report@->Progress_cookie.0;
            let bytes = report@->bytes_advanced;
            let before = old(store).records();
            let after = final(store).records();
            &&& r.completion is None
            &&& r.discard is None
            &&& final(pending)@ == old(pending)@
            &&& r.stored is Ok <==> before.contains_key(k) && before[k].progress.offset <= bytes
            &&& r.stored is Ok ==> records::touched(before, after, k)
                && after[k].progress.offset == bytes && after[k].progress.length == 0
                && after[k].state == before[k].state && after[k].action == before[k].action
                && after[k].created_at == before[k].created_at
            &&& r.stored is Err ==> after == before
        }),
{
    let before = store.records();
    let after = final(store).records();
    let k = report@->Progress_cookie.0;
    let e = Extent { offset: report@->bytes_advanced, length: 0 };
    assert(status::advanced(before, after, r.stored, report@->Progress_cookie, e));
    let now = choose|now: Timestamp| #[trigger]
        action_store::attempted(
            before,
            after,
            r.stored,
            StoreOp::Progress { cookie: k, extent: e, now },
        );
    assert(action_store::attempted(
        before,
        after,
        r.stored,
        StoreOp::Progress { cookie: k, extent: e, now },
    ));
    if r.stored is Ok {
        assert(after.dom() =~= before.dom());
    }
}

/// A report that ends an action takes it, and no other, off what is pending.
pub proof fn lemma_ended_is_not_pending<S: ActionStore>(
    store: &mut S,
    pending: &mut PendingPaths,
    report: ActionStatus,
    notify: bool,
    write_failed: bool,
    temp_exists: bool,
    r: StatusEffect,
    x: u64,
)
    requires
        call_ensures(
            apply_status::<S>,
            (store, pending, report, notify, write_failed, temp_exists),
            r,
        ),
        !(report@ is Progress),
    ensures
        ({
            let k = if report@ is Completed {
                report@->Completed_cookie.0
            } else {
                report@->Failed_cookie.0
            };
            &&& !final(pending)@.contains_key(k)
            &&& x != k ==> (final(pending)@.contains_key(x) <==> old(pending)@.contains_key(x))
            &&& x != k && old(pending)@.contains_key(x) ==> final(pending)@[x] == old(pending)@[x]
        }),
{
}

/// The place that a failed restore is discarded from, and that a finished one is taken
/// from, is the place where the mover of that action was sent to write.
pub proof fn lemma_restore_place<S: ActionStore>(
    store: &mut S,
    pending: &mut PendingPaths,
    report: ActionStatus,
    notify: bool,
    write_failed: bool,
    temp_exists: bool,
    r: StatusEffect,
    place: String,
)
    requires
        call_ensures(
            apply_status::<S>,
            (store, pending, report, notify, write_failed, temp_exists),
            r,
        ),
        report@ is Failed ==> call_ensures(
            crate::daemon::paths::restore_temp_path,
            (report@->Failed_cookie,),
            place,
        ),
        report@ is Completed ==> call_ensures(
            crate::daemon::paths::restore_temp_path,
            (report@->Completed_cookie,),
            place,
        ),
    ensures
        r.discard matches Some(p) ==> p@ == place@,
        r.completion matches Some(c) ==> (c.restore_temp_path matches Some(p) ==> p@ == place@),
{
}

/// A finished action with an object has its object recorded on the file that is
/// pending for it, in whichever namespace objects are recorded. Where none is, or the
/// action is not pending, or the report brings no object, nothing is recorded.
pub proof fn lemma_object_goes_to_its_file(
    pending: &PendingPaths,
    ns: Option<XattrNamespace>,
    report: &ActionStatus,
    r: Option<String>,
)
    requires
        call_ensures(object_target, (pending, ns, report), r),
    ensures
        r is Some <==> ns is Some && report@ is Completed && report@->Completed_result is Some
            && pending@.contains_key(report@->Completed_cookie.0),
        r matches Some(path) ==> path@ == pending@[report@->Completed_cookie.0].0,
{
}

/// Which namespace is configured does not decide where an object goes.
pub proof fn lemma_target_is_the_same_in_both(
    pending: &PendingPaths,
    report: &ActionStatus,
    trusted: Option<String>,
    user: Option<String>,
)
    requires
        call_ensures(object_target, (pending, Some(XattrNamespace::Trusted), report), trusted),
        call_ensures(object_target, (pending, Some(XattrNamespace::User), report), user),
    ensures
        trusted is Some <==> user is Some,
        trusted is Some ==> trusted->0@ == user->0@,
{
}

/// The object of an action is recorded on the very file that its mover was sent to:
/// after a claim, the report of that action has the claim's file as its target.
pub proof fn lemma_object_of_a_claim<S: ActionStore>(
    store: &mut S,
    pending: &mut PendingPaths,
    plan: DispatchPlan,
    found: XattrResult<Option<BackendObject>>,
    notify: bool,
    now: Timestamp,
    claimed: Claim,
    later: &PendingPaths,
    ns: XattrNamespace,
    report: &ActionStatus,
    target: Option<String>,
)
    requires
        call_ensures(dispatch::claim::<S>, (store, pending, plan, found, notify, now), claimed),
        claimed is Ready,
        *later == *final(pending),
        report@ is Completed,
        report@->Completed_cookie == plan.action.cookie,
        report@->Completed_result is Some,
        call_ensures(object_target, (later, Some(ns), report), target),
    ensures
        target matches Some(p) && p@ == plan.primary_path@,
{
}

/// The kernel hears of everything up to the bytes that were moved.
pub proof fn lemma_kernel_extent(c: &ActionCompletion, e: Extent)
    requires
        call_ensures(ActionCompletion::extent, (c,), e),
    ensures
        e.offset == c.total_bytes,
        e.length == 0,
{
}

/// A failure is announced under its own cookie, kind and code, with nothing moved and
/// nothing to hand over.
pub proof fn lemma_failure_is_announced(
    cookie: Cookie,
    kind: ActionKind,
    rc: i32,
    c: ActionCompletion,
)
    requires
        call_ensures(failed_completion, (cookie, kind, rc), c),
    ensures
        c.cookie == cookie,
        c.kind == kind,
        c.status == EndStatus::Failed(rc),
        c.total_bytes == 0,
        c.restore_temp_path is None,
{
}

/// A report is about one action, and ends it unless it is on progress.
pub proof fn lemma_report_parts(report: &ActionStatus, cookie: Cookie, over: bool)
    requires
        call_ensures(ActionStatus::cookie, (report,), cookie),
        call_ensures(ActionStatus::is_terminal, (report,), over),
    ensures
        match *report {
            ActionStatus::Progress { cookie: c, .. } => cookie == c && !over,
            ActionStatus::Completed { cookie: c, .. } => cookie == c && over,
            ActionStatus::Failed { cookie: c, .. } => cookie == c && over,
        },
{
}

} // verus!
