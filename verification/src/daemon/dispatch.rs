//! Handing one assigned action to its agent.
//!
//! The work outside is done between the steps: reading the file's attributes,
//! asking the filesystem for the file's real path, and sending to the agent.

use crate::daemon::agent;
use crate::daemon::agent::{DispatchedAction, DispatchedView};
use crate::daemon::paths;
use crate::daemon::pending::{Pending, PendingPaths};
use crate::daemon::status;
use crate::daemon::status::ActionCompletion;
use crate::daemon::xattr_store;
use crate::daemon::xattr_store::{Attrs, XattrNamespace, XattrResult, ENODATA};
use crate::model::action::{ActionRecordView, ActionView, ArStateView};
use crate::model::backend;
use crate::model::backend::BackendObjectView;
use crate::model::time::NANOS_PER_MILLI;
use crate::model::{Action, ActionKind, AgentId, ArState, BackendObject, Cookie, Timestamp};
use crate::scheduler::strategy::Assignment;
use crate::store::action_store;
use crate::store::action_store::{ActionStore, Records, StoreOp};
use crate::store::error::{StoreError, StoreResult};
use vstd::prelude::*;

verus! {

/// `EIO`.
pub const EIO: i32 = 5;

/// A state change was asked of a store; `r` was returned and the records are now
/// `after`.
pub open spec fn moved(
    before: Records,
    after: Records,
    r: StoreResult<()>,
    cookie: Cookie,
    new: ArStateView,
) -> bool {
    exists|now: Timestamp| #[trigger]
        action_store::attempted(
            before,
            after,
            r,
            StoreOp::Transition { cookie: cookie.0, new, now },
        )
}

/// Milliseconds since the epoch, within what a `u64` holds.
pub open spec fn unix_ms(now: Timestamp) -> u64 {
    let ms: int = if now.nanos >= 0 {
        now.nanos as int / 1_000_000
    } else {
        0
    };
    if ms > u64::MAX {
        u64::MAX
    } else {
        ms as u64
    }
}

/// Milliseconds since the epoch, within what a `u64` holds.
pub fn now_ms(now: Timestamp) -> (r: u64)
    ensures
        r == unix_ms(now),
{
    let ms: u128 = now.since_epoch().nanos / NANOS_PER_MILLI;
    if ms > u64::MAX as u128 {
        u64::MAX
    } else {
        ms as u64
    }
}

/// The object is looked up before these are dispatched.
pub open spec fn needs_object(kind: ActionKind) -> bool {
    kind == ActionKind::Restore || kind == ActionKind::Remove
}

/// The first decisions on an assignment.
#[derive(Debug, PartialEq, Eq)]
pub struct DispatchPlan {
    /// The action.
    pub action: Action,
    /// Who gets it.
    pub agent: AgentId,
    /// The action's file.
    pub primary_path: String,
    /// Whether the mount is a real one.
    pub live: bool,
    /// Read the archived object from the file's attributes first, in that
    /// namespace.
    pub read: Option<XattrNamespace>,
}

/// Begin a dispatch. An assignment to an agent that has gone is dropped.
pub fn plan_dispatch(
    mount: &str,
    live: bool,
    ns: Option<XattrNamespace>,
    connected: bool,
    assignment: Assignment,
) -> (r: Option<DispatchPlan>)
    ensures
        match r {
            Some(p) => {
                &&& connected
                &&& p.action == assignment.action
                &&& p.agent == assignment.agent
                &&& p.primary_path@ == paths::fid_path(mount@, live, assignment.action.fid)
                &&& p.live == live
                &&& p.read == (if needs_object(assignment.action.kind) {
                    ns
                } else {
                    None
                })
            },
            None => !connected,
        },
{
    if !connected {
        return None;
    }
    let primary_path = paths::path_of_fid(mount, live, assignment.action.fid);
    let read = match assignment.action.kind {
        ActionKind::Restore => ns,
        ActionKind::Remove => ns,
        _ => None,
    };
    Some(
        DispatchPlan {
            action: assignment.action,
            agent: assignment.agent,
            primary_path,
            live,
            read,
        },
    )
}

/// An action that the store has as `Started`, ready for its agent.
#[derive(Debug, PartialEq, Eq)]
pub struct ReadyDispatch {
    /// The action.
    pub action: Action,
    /// Who gets it.
    pub agent: AgentId,
    /// The action's file.
    pub primary_path: String,
    /// Where the agent writes on `Restore`.
    pub write_path: Option<String>,
    /// The archived object.
    pub existing: Option<BackendObject>,
    /// Ask the filesystem for the real path of that FID before sending.
    pub resolve: Option<String>,
}

/// How claiming an action went.
#[derive(Debug, PartialEq, Eq)]
pub enum Claim {
    /// The object could not be had; the action fails with that code, and the
    /// store answered so.
    Refused {
        /// Error code.
        rc: i32,
        /// The store's answer.
        stored: StoreResult<()>,
        /// What to tell the kernel.
        completion: Option<ActionCompletion>,
    },
    /// The store did not accept the action as started.
    NotClaimed(StoreError),
    /// The action may be sent.
    Ready(ReadyDispatch),
}

/// Why an action fails before it is claimed: it needs an object, and there is no
/// namespace to look for it, or it is not there, or it could not be read.
pub open spec fn object_refusal(
    kind: ActionKind,
    read: Option<XattrNamespace>,
    found: XattrResult<Option<BackendObject>>,
) -> Option<i32> {
    if !needs_object(kind) {
        None
    } else {
        match (read, found) {
            (None, _) => Some(ENODATA),
            (Some(_), Ok(Some(_))) => None,
            (Some(_), Ok(None)) => Some(ENODATA),
            (Some(_), Err(_)) => Some(EIO),
        }
    }
}

/// The state that a claim asks for.
pub open spec fn started_state(agent: Seq<char>, now: Timestamp) -> ArStateView {
    ArStateView::Started { agent, since_unix_ms: unix_ms(now) }
}

/// Where a restore writes: into a place of its own on a real mount, because a
/// write to the released file would wait for this very restore.
pub open spec fn write_target(a: ActionView, live: bool, primary: Seq<char>) -> Option<Seq<char>> {
    if a.kind == ActionKind::Restore {
        Some(
            if live {
                paths::temp_path(a.cookie)
            } else {
                primary
            },
        )
    } else {
        None
    }
}

/// The FID whose real path the agent wants to know: only an archive on a real mount
/// needs it.
pub open spec fn path_wanted(a: ActionView, live: bool) -> Option<Seq<char>> {
    if live && a.kind == ActionKind::Archive {
        Some(paths::bare_fid(a.fid))
    } else {
        None
    }
}

/// What a claim of `plan` makes ready.
pub open spec fn made_ready(
    plan: DispatchPlan,
    found: XattrResult<Option<BackendObject>>,
    d: ReadyDispatch,
) -> bool {
    &&& d.action == plan.action
    &&& d.agent == plan.agent
    &&& d.primary_path == plan.primary_path
    &&& agent::text_opt(d.write_path) == write_target(
        plan.action@,
        plan.live,
        plan.primary_path@,
    )
    &&& d.existing == (if needs_object(plan.action.kind) {
        found->Ok_0
    } else {
        None
    })
    &&& agent::text_opt(d.resolve) == path_wanted(plan.action@, plan.live)
}

/// Claim the action for its agent. `found` is what the file's attributes hold; it
/// does not matter when the plan asks for no reading. The store is told first,
/// so that nothing is ever sent that the store does not have as `Started`. A
/// restore or a removal whose object cannot be had is not sent: it fails, and the
/// kernel is told so if `notify` says that one listens.
pub fn claim<S: ActionStore>(
    store: &mut S,
    pending: &mut PendingPaths,
    plan: DispatchPlan,
    found: XattrResult<Option<BackendObject>>,
    notify: bool,
    now: Timestamp,
) -> (r: Claim)
    requires
        action_store::keyed(old(store).records()),
    ensures
        action_store::keyed(final(store).records()),
        final(store).reliable() == old(store).reliable(),
        match object_refusal(plan.action.kind, plan.read, found) {
            Some(rc) => {
                &&& r matches Claim::Refused { rc: c, stored, completion } && c == rc && moved(
                    old(store).records(),
                    final(store).records(),
                    stored,
                    plan.action.cookie,
                    ArStateView::Failed { rc },
                ) && (old(store).reliable() ==> !action_store::backend_failed(stored))
                    && status::completion_opt(completion) == (if notify {
                    Some(status::failure_notice(plan.action.cookie, plan.action.kind, rc))
                } else {
                    None
                })
                &&& final(pending)@ == old(pending)@
            },
            None => match r {
                Claim::Refused { .. } => false,
                Claim::NotClaimed(e) => {
                    &&& moved(
                        old(store).records(),
                        final(store).records(),
                        Err(e),
                        plan.action.cookie,
                        started_state(plan.agent@, now),
                    )
                    &&& final(pending)@ == old(pending)@
                    &&& old(store).reliable() ==> !(e@ is Backend)
                },
                Claim::Ready(d) => {
                    &&& moved(
                        old(store).records(),
                        final(store).records(),
                        Ok(()),
                        plan.action.cookie,
                        started_state(plan.agent@, now),
                    )
                    &&& final(pending)@ == old(pending)@.insert(
                        plan.action.cookie.0,
                        (plan.primary_path@, plan.action.kind),
                    )
                    &&& made_ready(plan, found, d)
                },
            },
        },
{
    let cookie = plan.action.cookie;
    let existing = match look_up(plan.action.kind, plan.read, found) {
        Ok(o) => o,
        Err(rc) => {
            let stored = handle_terminal(store, cookie, ArState::Failed { rc });
            let completion = if notify {
                Some(status::failed_completion(cookie, plan.action.kind, rc))
            } else {
                None
            };
            return Claim::Refused { rc, stored, completion };
        },
    };
    let state = ArState::Started { agent: plan.agent.clone(), since_unix_ms: now_ms(now) };
    let ghost before = store.records();
    let ghost new = state@;
    let res = store.transition(cookie, state);
    proof {
        assert(new == started_state(plan.agent@, now));
        if res is Ok {
            lemma_accepted(before, store.records(), res, cookie, new);
        }
    }
    if let Err(e) = res {
        return Claim::NotClaimed(e);
    }
    let write_path = match plan.action.kind {
        ActionKind::Restore => if plan.live {
            Some(paths::restore_temp_path(cookie))
        } else {
            Some(plan.primary_path.clone())
        },
        _ => None,
    };
    pending.insert(cookie, plan.primary_path.clone(), plan.action.kind);
    let resolve = match plan.action.kind {
        ActionKind::Archive if plan.live => Some(paths::bare_fid_text(plan.action.fid)),
        _ => None,
    };
    Claim::Ready(
        ReadyDispatch {
            action: plan.action,
            agent: plan.agent,
            primary_path: plan.primary_path,
            write_path,
            existing,
            resolve,
        },
    )
}

/// The object that an action comes with, or why the action fails.
fn look_up(
    kind: ActionKind,
    read: Option<XattrNamespace>,
    found: XattrResult<Option<BackendObject>>,
) -> (r: Result<Option<BackendObject>, i32>)
    ensures
        match object_refusal(kind, read, found) {
            Some(rc) => r matches Err(c) && c == rc,
            None => r matches Ok(o) && o == (if needs_object(kind) {
                found->Ok_0
            } else {
                None
            }),
        },
{
    match kind {
        ActionKind::Archive => Ok(None),
        ActionKind::Cancel => Ok(None),
        _ => match read {
            None => Err(ENODATA),
            Some(_) => match found {
                Ok(Some(o)) => Ok(Some(o)),
                Ok(None) => Err(ENODATA),
                Err(_) => Err(EIO),
            },
        },
    }
}

/// A state change that was accepted, whichever way the answer is written.
proof fn lemma_accepted(
    before: Records,
    after: Records,
    r: StoreResult<()>,
    cookie: Cookie,
    new: ArStateView,
)
    requires
        r is Ok,
        moved(before, after, r, cookie, new),
    ensures
        moved(before, after, Ok(()), cookie, new),
{
    let now = choose|now: Timestamp| #[trigger]
        action_store::attempted(
            before,
            after,
            r,
            StoreOp::Transition { cookie: cookie.0, new, now },
        );
    let plain: StoreResult<()> = Ok(());
    assert(action_store::attempted(
        before,
        after,
        plain,
        StoreOp::Transition { cookie: cookie.0, new, now },
    ));
}

/// Tell the store how an action ended.
pub fn handle_terminal<S: ActionStore>(store: &mut S, cookie: Cookie, new: ArState) -> (r:
    StoreResult<()>)
    requires
        action_store::keyed(old(store).records()),
    ensures
        action_store::keyed(final(store).records()),
        final(store).reliable() == old(store).reliable(),
        moved(old(store).records(), final(store).records(), r, cookie, new@),
        old(store).reliable() ==> !action_store::backend_failed(r),
{
    store.transition(cookie, new)
}

/// What is sent to the agent. A real path counts only where it was asked for.
pub fn finish_dispatch(d: ReadyDispatch, real_path: Option<String>) -> (r: DispatchedAction)
    ensures
        r@ == (DispatchedView {
            action: d.action@,
            primary_path: d.primary_path@,
            write_path: agent::text_opt(d.write_path),
            existing: backend::object_opt_view(d.existing),
            lustre_path: if d.resolve is Some {
                agent::text_opt(real_path)
            } else {
                None
            },
        }),
{
    let lustre_path = match d.resolve {
        Some(_) => real_path,
        None => None,
    };
    DispatchedAction {
        action: d.action,
        primary_path: d.primary_path,
        write_path: d.write_path,
        existing: d.existing,
        lustre_path,
    }
}

/// The agent could not be reached: let the action wait again.
pub fn undo_dispatch<S: ActionStore>(
    store: &mut S,
    pending: &mut PendingPaths,
    cookie: Cookie,
) -> (r: StoreResult<()>)
    requires
        action_store::keyed(old(store).records()),
    ensures
        action_store::keyed(final(store).records()),
        final(store).reliable() == old(store).reliable(),
        moved(old(store).records(), final(store).records(), r, cookie, ArStateView::Waiting),
        old(store).reliable() ==> !action_store::backend_failed(r),
        final(pending)@ == old(pending)@.remove(cookie.0),
{
    let r = store.transition(cookie, ArState::Waiting);
    pending.remove(cookie);
    r
}

/// Whether an action can be cancelled through that agent: the agent has claimed it
/// and it is not over.
pub fn claimed_by<S: ActionStore>(store: &S, agent: &AgentId, cookie: Cookie) -> (r: StoreResult<
    bool,
>)
    requires
        action_store::keyed(store.records()),
    ensures
        match r {
            Ok(b) => b == (store.records().contains_key(cookie.0) && action_store::run_by(agent@)(
                store.records()[cookie.0],
            )),
            Err(_) => action_store::backend_failed(r) && !store.reliable(),
        },
{
    match store.get(cookie) {
        Ok(Some(rec)) => match &rec.state {
            ArState::Started { agent: owner, .. } => Ok(owner.same_as(agent)),
            _ => Ok(false),
        },
        Ok(None) => Ok(false),
        Err(e) => Err(e),
    }
}

// ---------------------------------------------------------------------------
// Laws
// ---------------------------------------------------------------------------

/// A state change that the store accepted touches the state and the time of that
/// one record, which had not finished.
pub proof fn lemma_moved(before: Records, after: Records, cookie: Cookie, new: ArStateView)
    requires
        moved(before, after, Ok(()), cookie, new),
    ensures
        before.contains_key(cookie.0),
        !before[cookie.0].state.terminal(),
        after.dom() == before.dom(),
        after[cookie.0].state == new,
        after[cookie.0].action == before[cookie.0].action,
        after[cookie.0].progress == before[cookie.0].progress,
        after[cookie.0].created_at == before[cookie.0].created_at,
        forall|k: u64| k != cookie.0 && before.contains_key(k) ==> #[trigger] after[k] == before[k],
{
    let r: StoreResult<()> = Ok(());
    let now = choose|now: Timestamp| #[trigger]
        action_store::attempted(
            before,
            after,
            r,
            StoreOp::Transition { cookie: cookie.0, new, now },
        );
    assert(action_store::attempted(
        before,
        after,
        r,
        StoreOp::Transition { cookie: cookie.0, new, now },
    ));
    assert(after.dom() =~= before.dom());
}

/// An action that has finished is never claimed again, whatever the attributes
/// say.
pub proof fn lemma_finished_not_claimed(
    before: Records,
    after: Records,
    cookie: Cookie,
    agent: Seq<char>,
    now: Timestamp,
)
    requires
        before.contains_key(cookie.0) ==> before[cookie.0].state.terminal(),
    ensures
        !moved(before, after, Ok(()), cookie, started_state(agent, now)),
{
    if moved(before, after, Ok(()), cookie, started_state(agent, now)) {
        lemma_moved(before, after, cookie, started_state(agent, now));
    }
}

/// A claim that is undone leaves the action waiting, with everything but the
/// time of the last change as it was, and nothing pending that was not pending
/// before.
pub proof fn lemma_undo_dispatch(
    m0: Records,
    m1: Records,
    m2: Records,
    p0: Pending,
    cookie: Cookie,
    agent: Seq<char>,
    now: Timestamp,
    entry: (Seq<char>, ActionKind),
)
    requires
        m0.contains_key(cookie.0),
        m0[cookie.0].state is Waiting,
        !p0.contains_key(cookie.0),
        moved(m0, m1, Ok(()), cookie, started_state(agent, now)),
        moved(m1, m2, Ok(()), cookie, ArStateView::Waiting),
    ensures
        m2 == m0.insert(
            cookie.0,
            ActionRecordView { updated_at: m2[cookie.0].updated_at, ..m0[cookie.0] },
        ),
        p0.insert(cookie.0, entry).remove(cookie.0) == p0,
{
    lemma_moved(m0, m1, cookie, started_state(agent, now));
    lemma_moved(m1, m2, cookie, ArStateView::Waiting);
    assert(m2[cookie.0] == (ActionRecordView {
        updated_at: m2[cookie.0].updated_at,
        ..m0[cookie.0]
    }));
    assert(m2 =~= m0.insert(cookie.0, m2[cookie.0])) by {
        assert forall|k: u64| k != cookie.0 && m0.contains_key(k) implies m2[k] == m0[k] by {
            assert(m1[k] == m0[k]);
        }
    }
    assert(p0.insert(cookie.0, entry).remove(cookie.0) =~= p0);
}

/// `found` is what reading the attributes `m` of a file answers.
pub open spec fn read_as(
    path: Seq<char>,
    m: Attrs,
    ns: XattrNamespace,
    found: XattrResult<Option<BackendObject>>,
) -> bool {
    match xattr_store::stored(path, m, ns) {
        Ok(o) => found matches Ok(x) && backend::object_opt_view(x) == o,
        Err(e) => found matches Err(x) && x@ == e,
    }
}

/// What was archived can be restored and removed: once an object is recorded on a
/// file, the file's actions are not refused, and their agent gets that object.
pub proof fn lemma_archived_is_found(
    path: Seq<char>,
    m: Attrs,
    ns: XattrNamespace,
    obj: BackendObjectView,
    plan: DispatchPlan,
    found: XattrResult<Option<BackendObject>>,
    d: ReadyDispatch,
)
    requires
        obj.hash.len() == 32,
        needs_object(plan.action.kind),
        plan.read == Some(ns),
        read_as(path, xattr_store::written(m, ns, obj), ns, found),
    ensures
        object_refusal(plan.action.kind, plan.read, found) is None,
        made_ready(plan, found, d) ==> backend::object_opt_view(d.existing) == Some(obj),
{
    xattr_store::lemma_write_then_read(path, m, ns, obj);
}

/// A restore or a removal of a file that was never archived fails with `ENODATA`;
/// one of a file with some of the attributes only fails with `EIO`.
pub proof fn lemma_never_archived(
    path: Seq<char>,
    m: Attrs,
    ns: XattrNamespace,
    found: XattrResult<Option<BackendObject>>,
    kind: ActionKind,
)
    requires
        needs_object(kind),
        read_as(path, m, ns, found),
    ensures
        xattr_store::missing_names(m, ns).len() == 3 ==> object_refusal(kind, Some(ns), found)
            == Some(ENODATA),
        1 <= xattr_store::missing_names(m, ns).len() <= 2 ==> object_refusal(kind, Some(ns), found)
            == Some(EIO),
{
}

/// Once the attributes are cleared, a restore or a removal fails with `ENODATA`.
pub proof fn lemma_cleared_is_not_found(
    path: Seq<char>,
    m: Attrs,
    ns: XattrNamespace,
    found: XattrResult<Option<BackendObject>>,
    kind: ActionKind,
)
    requires
        needs_object(kind),
        read_as(path, xattr_store::cleared(m, ns), ns, found),
    ensures
        object_refusal(kind, Some(ns), found) == Some(ENODATA),
{
    xattr_store::lemma_clear_then_read(path, m, ns);
}

/// Without a namespace nothing is recorded on files, so that every restore and
/// every removal fails with `ENODATA`, and no other action fails.
pub proof fn lemma_without_namespace(
    kind: ActionKind,
    found: XattrResult<Option<BackendObject>>,
)
    ensures
        object_refusal(kind, None, found) == (if needs_object(kind) {
            Some(ENODATA)
        } else {
            None
        }),
{
}

/// A restore or a removal reaches its agent with an object, or not at all.
pub proof fn lemma_sent_with_object(
    plan: DispatchPlan,
    found: XattrResult<Option<BackendObject>>,
    d: ReadyDispatch,
)
    requires
        object_refusal(plan.action.kind, plan.read, found) is None,
        made_ready(plan, found, d),
    ensures
        d.existing is Some <==> needs_object(plan.action.kind),
{
}

} // verus!
