//! An agent inside the daemon's own process: what its mover is told, and what it
//! reports.

use crate::daemon::agent;
use crate::daemon::agent::{ActionStatus, ActionStatusView, DispatchedAction};
use crate::model::backend;
use crate::model::payload;
use crate::model::{BackendObject, Cookie};
use crate::sdk::ctx::{ActionCtx, ActionCtxBuilder};
use crate::sdk::error::MoverResult;
use crate::sdk::progress::ProgressEvent;
use tokio_util::sync::CancellationToken;
use vstd::prelude::*;

verus! {

/// What the mover is told about a dispatched action.
pub fn build_ctx<P>(d: &DispatchedAction, progress: P, cancel: CancellationToken) -> (r: ActionCtx<
    P,
>)
    ensures
        r.cookie == d@.action.cookie,
        r.fid == d@.action.fid,
        r.archive_id == d@.action.archive_id,
        r.kind == d@.action.kind,
        r.extent == d@.action.extent,
        r.primary_path@ == d@.primary_path,
        agent::text_opt(r.write_path) == d@.write_path,
        backend::object_opt_view(r.existing) == d@.existing,
        agent::text_opt(r.lustre_path) == d@.lustre_path,
        payload::bytes_of(r.hint) == d@.action.data,
        r.progress == progress,
        r.cancel == cancel,
{
    let mut b = ActionCtxBuilder::new().cookie(d.action.cookie).fid(d.action.fid).archive_id(
        d.action.archive_id,
    ).kind(d.action.kind).extent(d.action.extent).primary_path(d.primary_path.clone()).hint(
        d.action.data.clone(),
    ).progress(progress).cancel(cancel);
    if let Some(p) = &d.write_path {
        b = b.write_path(p.clone());
    }
    if let Some(o) = &d.existing {
        b = b.existing(o.clone());
    }
    if let Some(p) = &d.lustre_path {
        b = b.lustre_path(p.clone());
    }
    b.build()
}

/// The report of a progress event.
pub fn progress_report(ev: ProgressEvent) -> (r: ActionStatus)
    ensures
        r@ == (ActionStatusView::Progress {
            cookie: ev.cookie,
            bytes_advanced: ev.bytes_advanced,
        }),
{
    ActionStatus::Progress { cookie: ev.cookie, bytes_advanced: ev.bytes_advanced }
}

/// The last report of an action.
pub fn terminal_report(
    cookie: Cookie,
    total_bytes: u64,
    result: MoverResult<Option<BackendObject>>,
) -> (r: ActionStatus)
    ensures
        r@ == (match result {
            Ok(o) => ActionStatusView::Completed {
                cookie,
                total_bytes,
                result: backend::object_opt_view(o),
            },
            Err(e) => ActionStatusView::Failed {
                cookie,
                errno: e@.errno(),
                reason: e@.message(),
            },
        }),
{
    match result {
        Ok(o) => ActionStatus::Completed { cookie, total_bytes, result: o },
        Err(e) => agent::failed_from_error(cookie, &e),
    }
}

} // verus!
