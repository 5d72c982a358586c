//! What the daemon makes of an agent's report.

use crate::daemon::agent;
use crate::daemon::agent::{ActionStatus, ActionStatusView};
use crate::daemon::dispatch;
use crate::daemon::dispatch::EIO;
use crate::daemon::paths;
use crate::daemon::pending::{Pending, PendingPaths};
use crate::daemon::xattr_store::XattrNamespace;
use crate::llapi::lifecycle::EndStatus;
use crate::model::action::ArStateView;
use crate::model::{ActionKind, ArState, Cookie, Extent, Timestamp};
use crate::store::action_store;
use crate::store::action_store::{ActionStore, Records, StoreOp};
use crate::store::error::StoreResult;
use vstd::prelude::*;

verus! {

/// What the kernel is told about a finished action.
#[derive(Debug, PartialEq, Eq)]
pub struct ActionCompletion {
    /// The action.
    pub cookie: Cookie,
    /// How it went.
    pub status: EndStatus,
    /// Bytes moved.
    pub total_bytes: u64,
    /// What it did.
    pub kind: ActionKind,
    /// Restored bytes that still have to be handed over.
    pub restore_temp_path: Option<String>,
}

/// Model of [`ActionCompletion`].
#[verifier::ext_equal]
pub struct CompletionView {
    pub cookie: Cookie,
    pub status: EndStatus,
    pub total_bytes: u64,
    pub kind: ActionKind,
    pub restore_temp_path: Option<Seq<char>>,
}

impl View for ActionCompletion {
    type V = CompletionView;

    open spec fn view(&self) -> CompletionView {
        CompletionView {
            cookie: self.cookie,
            status: self.status,
            total_bytes: self.total_bytes,
            kind: self.kind,
            restore_temp_path: agent::text_opt(self.restore_temp_path),
        }
    }
}

impl ActionCompletion {
    /// The extent reported to the kernel: everything up to the bytes moved.
    pub fn extent(&self) -> (r: Extent)
        ensures
            r == (Extent { offset: self.total_bytes, length: 0 }),
    {
        Extent::new(self.total_bytes, 0)
    }
}

/// The file on which a report's object has to be recorded, before the report is
/// acted upon.
pub open spec fn record_target(
    pending: Pending,
    ns: Option<XattrNamespace>,
    status: ActionStatusView,
) -> Option<Seq<char>> {
    match status {
        ActionStatusView::Completed { cookie, result: Some(_), .. } => if ns is Some
            && pending.contains_key(cookie.0) {
            Some(pending[cookie.0].0)
        } else {
            None
        },
        _ => None,
    }
}

/// The file on which a report's object has to be recorded. It is known for the
/// actions that are pending.
pub fn object_target(
    pending: &PendingPaths,
    ns: Option<XattrNamespace>,
    status: &ActionStatus,
) -> (r: Option<String>)
    ensures
        agent::text_opt(r) == record_target(pending@, ns, status@),
{
    match status {
        ActionStatus::Completed { cookie, result: Some(_), .. } => match ns {
            Some(_) => match pending.get(*cookie) {
                Some(entry) => Some(entry.0),
                None => None,
            },
            None => None,
        },
        _ => None,
    }
}

/// The state a report leads to; progress changes none.
pub open spec fn next_state(status: ActionStatusView, write_failed: bool) -> Option<ArStateView> {
    match status {
        ActionStatusView::Progress { .. } => None,
        ActionStatusView::Completed { .. } => Some(
            if write_failed {
                ArStateView::Failed { rc: EIO }
            } else {
                ArStateView::Succeed { rc: 0 }
            },
        ),
        ActionStatusView::Failed { errno, .. } => Some(ArStateView::Failed { rc: errno }),
    }
}

/// Kind of a pending action; one that is not pending counts as `Archive`.
pub open spec fn kind_of(pending: Pending, cookie: Cookie) -> ActionKind {
    if pending.contains_key(cookie.0) {
        pending[cookie.0].1
    } else {
        ActionKind::Archive
    }
}

/// What the kernel is told of an action that failed.
pub open spec fn failure_notice(cookie: Cookie, kind: ActionKind, rc: i32) -> CompletionView {
    CompletionView {
        cookie,
        status: EndStatus::Failed(rc),
        total_bytes: 0,
        kind,
        restore_temp_path: None,
    }
}

/// What the kernel is told of an action that failed.
pub fn failed_completion(cookie: Cookie, kind: ActionKind, rc: i32) -> (r: ActionCompletion)
    ensures
        r@ == failure_notice(cookie, kind, rc),
{
    ActionCompletion {
        cookie,
        status: EndStatus::Failed(rc),
        total_bytes: 0,
        kind,
        restore_temp_path: None,
    }
}

/// What the kernel is told. An action whose object could not be recorded has
/// failed.
pub open spec fn announced(
    pending: Pending,
    status: ActionStatusView,
    write_failed: bool,
    temp_exists: bool,
) -> Option<CompletionView> {
    match status {
        ActionStatusView::Progress { .. } => None,
        ActionStatusView::Completed { cookie, total_bytes, .. } => Some(
            if write_failed {
                failure_notice(cookie, kind_of(pending, cookie), EIO)
            } else {
                CompletionView {
                    cookie,
                    status: EndStatus::Success,
                    total_bytes,
                    kind: kind_of(pending, cookie),
                    restore_temp_path: if kind_of(pending, cookie) == ActionKind::Restore
                        && temp_exists {
                        Some(paths::temp_path(cookie))
                    } else {
                        None
                    },
                }
            },
        ),
        ActionStatusView::Failed { cookie, errno, .. } => Some(
            failure_notice(cookie, kind_of(pending, cookie), errno),
        ),
    }
}

/// What a report leads to outside the daemon's own state.
#[derive(Debug, PartialEq, Eq)]
pub struct StatusEffect {
    /// The store's answer.
    pub stored: StoreResult<()>,
    /// What to tell the kernel.
    pub completion: Option<ActionCompletion>,
    /// A file to delete, if it is there.
    pub discard: Option<String>,
}

/// The model of what to tell the kernel.
pub open spec fn completion_opt(c: Option<ActionCompletion>) -> Option<CompletionView> {
    match c {
        Some(x) => Some(x@),
        None => None,
    }
}

/// A progress update was asked of a store; `r` was returned and the records are
/// now `after`.
pub open spec fn advanced(
    before: Records,
    after: Records,
    r: StoreResult<()>,
    cookie: Cookie,
    extent: Extent,
) -> bool {
    exists|now: Timestamp| #[trigger]
        action_store::attempted(
            before,
            after,
            r,
            StoreOp::Progress { cookie: cookie.0, extent, now },
        )
}

/// Act on a report. `notify` says whether a kernel listens, `write_failed` that
/// the report's object could not be recorded on its file, and `temp_exists` that
/// there are restored bytes in the action's own place.
pub fn apply_status<S: ActionStore>(
    store: &mut S,
    pending: &mut PendingPaths,
    status: ActionStatus,
    notify: bool,
    write_failed: bool,
    temp_exists: bool,
) -> (r: StatusEffect)
    requires
        action_store::keyed(old(store).records()),
    ensures
        action_store::keyed(final(store).records()),
        final(store).reliable() == old(store).reliable(),
        old(store).reliable() ==> !action_store::backend_failed(r.stored),
        match status@ {
            ActionStatusView::Progress { cookie, bytes_advanced } => advanced(
                old(store).records(),
                final(store).records(),
                r.stored,
                cookie,
                Extent { offset: bytes_advanced, length: 0 },
            ),
            _ => dispatch::moved(
                old(store).records(),
                final(store).records(),
                r.stored,
                status@.cookie(),
                next_state(status@, write_failed)->0,
            ),
        },
        final(pending)@ == (if status@.terminal() {
            old(pending)@.remove(status@.cookie().0)
        } else {
            old(pending)@
        }),
        completion_opt(r.completion) == (if notify {
            announced(old(pending)@, status@, write_failed, temp_exists)
        } else {
            None
        }),
        agent::text_opt(r.discard) == (if notify && status@ is Failed {
            Some(paths::temp_path(status@.cookie()))
        } else {
            None
        }),
{
    match status {
        ActionStatus::Progress { cookie, bytes_advanced } => {
            let stored = store.update_progress(cookie, Extent::new(bytes_advanced, 0));
            StatusEffect { stored, completion: None, discard: None }
        },
        ActionStatus::Completed { cookie, total_bytes, result: _ } => {
            let kind = known_kind(pending.remove(cookie));
            if write_failed {
                let stored = dispatch::handle_terminal(store, cookie, ArState::Failed { rc: EIO });
                let completion = if notify {
                    Some(failed_completion(cookie, kind, EIO))
                } else {
                    None
                };
                return StatusEffect { stored, completion, discard: None };
            }
            let stored = dispatch::handle_terminal(store, cookie, ArState::Succeed { rc: 0 });
            if !notify {
                return StatusEffect { stored, completion: None, discard: None };
            }
            let restore_temp_path = match kind {
                ActionKind::Restore if temp_exists => Some(paths::restore_temp_path(cookie)),
                _ => None,
            };
            let completion = ActionCompletion {
                cookie,
                status: EndStatus::Success,
                total_bytes,
                kind,
                restore_temp_path,
            };
            StatusEffect { stored, completion: Some(completion), discard: None }
        },
        ActionStatus::Failed { cookie, errno, reason: _ } => {
            let kind = known_kind(pending.remove(cookie));
            let stored = dispatch::handle_terminal(store, cookie, ArState::Failed { rc: errno });
            if !notify {
                return StatusEffect { stored, completion: None, discard: None };
            }
            let completion = failed_completion(cookie, kind, errno);
            StatusEffect {
                stored,
                completion: Some(completion),
                discard: Some(paths::restore_temp_path(cookie)),
            }
        },
    }
}

/// A kind, or `Archive` when it is not known.
fn known_kind(kind: Option<ActionKind>) -> (r: ActionKind)
    ensures
        r == (match kind {
            Some(k) => k,
            None => ActionKind::Archive,
        }),
{
    match kind {
        Some(k) => k,
        None => ActionKind::Archive,
    }
}

// ---------------------------------------------------------------------------
// Laws
// ---------------------------------------------------------------------------

/// Store and kernel hear the same of an action: both that it is over or neither,
/// success of both or of neither, and the same error code.
pub proof fn lemma_kernel_hears_what_is_stored(
    pending: Pending,
    status: ActionStatusView,
    write_failed: bool,
    temp_exists: bool,
)
    ensures
        announced(pending, status, write_failed, temp_exists) is Some <==> next_state(
            status,
            write_failed,
        ) is Some,
        announced(pending, status, write_failed, temp_exists) matches Some(c) ==> {
            &&& c.cookie == status.cookie()
            &&& match c.status {
                EndStatus::Success => next_state(status, write_failed) == Some(
                    ArStateView::Succeed { rc: 0 },
                ),
                EndStatus::Failed(rc) => next_state(status, write_failed) == Some(
                    ArStateView::Failed { rc },
                ),
                EndStatus::Cancelled => false,
            }
        },
{
}

/// Success is never stored, and never told to the kernel, for an action whose
/// object could not be recorded.
pub proof fn lemma_unrecorded_is_not_success(
    pending: Pending,
    status: ActionStatusView,
    temp_exists: bool,
)
    ensures
        next_state(status, true) != Some(ArStateView::Succeed { rc: 0 }),
        announced(pending, status, true, temp_exists) matches Some(c) ==> c.status
            != EndStatus::Success,
{
}

/// A report that ends an action leads to a state that nothing leaves; another
/// report leads to no state.
pub proof fn lemma_terminal_reports(status: ActionStatusView, write_failed: bool)
    ensures
        status.terminal() ==> next_state(status, write_failed) is Some && next_state(
            status,
            write_failed,
        )->0.terminal(),
        !status.terminal() ==> next_state(status, write_failed) is None,
{
}

} // verus!
