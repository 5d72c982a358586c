//! How a plugin answers the daemon: the handshake, what to do with each message,
//! and the reports it sends back.

use crate::model::backend;
use crate::model::payload;
use crate::model::{ActionKind, ArchiveId, BackendObject, Cookie, Extent, Fid};
use crate::proto;
use crate::proto::{
    ActionItem, Hello, StatusMsg, StatusMsgView, ToPlugin, Welcome,
};
use crate::sdk::ctx::{ActionCtx, ActionCtxBuilder};
use crate::sdk::error::{MoverError, MoverErrorView, MoverResult};
use crate::sdk::progress::{ProgressConfig, ProgressEvent};
use crate::text;
use bytes::Bytes;
use tokio_util::sync::CancellationToken;
use vstd::prelude::*;

verus! {

/// Version reported to the daemon.
pub const VERSION: &'static str = "0.1.0";

/// `EINVAL`.
pub const EINVAL: i32 = 22;

/// How a plugin presents itself and how much it buffers.
#[derive(Debug)]
pub struct RunConfig {
    /// The plugin's identity.
    pub agent_id: String,
    /// Archives this plugin is willing to serve.
    pub archive_ids: Vec<ArchiveId>,
    /// The plugin's own version.
    pub version: String,
    /// When to report progress.
    pub progress: ProgressConfig,
    /// Capacity of the inbound queue.
    pub action_buffer: usize,
    /// Capacity of the outbound queue.
    pub status_buffer: usize,
}

/// The numbers of a list of archives.
pub open spec fn archive_numbers(s: Seq<ArchiveId>) -> Seq<u32> {
    s.map_values(|a: ArchiveId| a.0)
}

impl RunConfig {
    /// Defaults for everything but identity and archives.
    pub fn new(agent_id: &str, archive_ids: Vec<ArchiveId>) -> (r: RunConfig)
        ensures
            r.agent_id@ == agent_id@,
            r.archive_ids == archive_ids,
            r.version@ == VERSION@,
            r.progress.bytes_threshold == 64 * 1024 * 1024,
            r.progress.time_threshold.nanos == 5_000_000_000,
            r.action_buffer == 64,
            r.status_buffer == 256,
    {
        RunConfig {
            agent_id: agent_id.to_owned(),
            archive_ids,
            version: VERSION.to_owned(),
            progress: ProgressConfig::defaults(),
            action_buffer: 64,
            status_buffer: 256,
        }
    }

    /// The first message to the daemon.
    pub fn hello(&self) -> (r: Hello)
        ensures
            r.agent_id@ == self.agent_id@,
            r.archive_ids@ == archive_numbers(self.archive_ids@),
            r.version@ == self.version@,
    {
        let mut ids: Vec<u32> = Vec::new();
        let mut i: usize = 0;
        while i < self.archive_ids.len()
            invariant
                i <= self.archive_ids@.len(),
                ids@ == archive_numbers(self.archive_ids@.take(i as int)),
            decreases self.archive_ids.len() - i,
        {
            ids.push(self.archive_ids[i].0);
            proof {
                assert(ids@ =~= archive_numbers(self.archive_ids@.take(i + 1)));
            }
            i = i + 1;
        }
        proof {
            assert(self.archive_ids@.take(i as int) =~= self.archive_ids@);
        }
        Hello { agent_id: self.agent_id.clone(), archive_ids: ids, version: self.version.clone() }
    }
}

/// Why a handshake failed.
#[derive(Debug, PartialEq, Eq)]
pub enum HandshakeError {
    /// The daemon's first message was something else.
    HandshakeFailed(ToPlugin),
    /// The daemon closed the stream first.
    NoWelcome,
}

/// The daemon's first message must be `Welcome`.
pub fn expect_welcome(first: Option<ToPlugin>) -> (r: Result<Welcome, HandshakeError>)
    ensures
        r == (match first {
            Some(ToPlugin::Welcome(w)) => Ok::<Welcome, HandshakeError>(w),
            Some(other) => Err(HandshakeError::HandshakeFailed(other)),
            None => Err(HandshakeError::NoWelcome),
        }),
{
    match first {
        Some(ToPlugin::Welcome(w)) => Ok(w),
        Some(other) => Err(HandshakeError::HandshakeFailed(other)),
        None => Err(HandshakeError::NoWelcome),
    }
}

/// The work in a later message; a second `Welcome` and an empty message hold
/// none.
pub fn action_of(msg: ToPlugin) -> (r: Option<ActionItem>)
    ensures
        r == (match msg {
            ToPlugin::Action(a) => Some(a),
            _ => None,
        }),
{
    match msg {
        ToPlugin::Action(a) => Some(a),
        _ => None,
    }
}

/// What to do with one item.
#[derive(Debug, PartialEq, Eq)]
pub enum ItemPlan {
    /// Trip the token of that action, if it is still running.
    Cancel(Cookie),
    /// Report that failure; no mover is called.
    Refuse(StatusMsg),
    /// Run the mover for that kind and extent.
    Run {
        /// The action.
        cookie: Cookie,
        /// Which mover method.
        kind: ActionKind,
        /// The byte range.
        extent: Extent,
    },
}

/// A report that an action failed before it began.
pub open spec fn refused(cookie: u64, errno: i32) -> StatusMsgView {
    StatusMsgView { cookie, bytes_advanced: 0, completed: true, errno, result: None }
}

/// Decide what to do with one item: cancel, run, or refuse an unknown kind with
/// `EINVAL`.
pub fn handle_action_item(item: &ActionItem) -> (r: ItemPlan)
    ensures
        match proto::number_kind(item@.kind) {
            Some(ActionKind::Cancel) => r == ItemPlan::Cancel(Cookie(item@.cookie)),
            Some(kind) => r == (ItemPlan::Run {
                cookie: Cookie(item@.cookie),
                kind,
                extent: Extent { offset: item@.offset, length: item@.length },
            }),
            None => r matches ItemPlan::Refuse(s) && s@ == refused(item@.cookie, EINVAL),
        },
{
    match proto::kind_from_number(item.kind) {
        Some(ActionKind::Cancel) => ItemPlan::Cancel(Cookie(item.cookie)),
        Some(kind) => ItemPlan::Run {
            cookie: Cookie(item.cookie),
            kind,
            extent: Extent { offset: item.offset, length: item.length },
        },
        None => ItemPlan::Refuse(
            StatusMsg {
                cookie: item.cookie,
                bytes_advanced: 0,
                completed: true,
                errno: EINVAL,
                result: None,
            },
        ),
    }
}

/// Which mover method to call, and with what.
#[derive(Debug, PartialEq, Eq)]
pub enum MoverCall {
    /// Move the file into the backend.
    Archive,
    /// Bring the object back into the file.
    Restore(BackendObject),
    /// Delete the object from the backend.
    Remove(BackendObject),
}

/// The error for an action that needs an archived object and has none.
pub open spec fn missing_object(what: Seq<char>, cookie: Cookie) -> MoverErrorView {
    MoverErrorView::Other(
        what + " for "@ + text::hex0x(cookie.0 as nat) + " missing existing BackendObject"@,
    )
}

/// Build the error for an action that needs an archived object and has none.
fn no_object(what: &str, cookie: Cookie) -> (e: MoverError)
    ensures
        e@ == missing_object(what@, cookie),
{
    let mut s = what.to_owned();
    s.append(" for ");
    text::push_hex0x(&mut s, cookie.0);
    s.append(" missing existing BackendObject");
    MoverError::Other(s)
}

/// Choose the mover method. Restore and Remove need the archived object; Cancel
/// is not the mover's business.
pub fn mover_call(kind: ActionKind, cookie: Cookie, existing: Option<BackendObject>) -> (r:
    MoverResult<MoverCall>)
    ensures
        match (kind, existing) {
            (ActionKind::Archive, _) => r == Ok::<MoverCall, MoverError>(MoverCall::Archive),
            (ActionKind::Restore, Some(o)) => r == Ok::<MoverCall, MoverError>(
                MoverCall::Restore(o),
            ),
            (ActionKind::Remove, Some(o)) => r == Ok::<MoverCall, MoverError>(MoverCall::Remove(o)),
            (ActionKind::Restore, None) => r matches Err(e) && e@ == missing_object(
                "restore"@,
                cookie,
            ),
            (ActionKind::Remove, None) => r matches Err(e) && e@ == missing_object(
                "remove"@,
                cookie,
            ),
            (ActionKind::Cancel, _) => r matches Err(e) && e@ == MoverErrorView::Other(
                "Cancel routed to mover (daemon bug)"@,
            ),
        },
{
    match (kind, existing) {
        (ActionKind::Archive, _) => Ok(MoverCall::Archive),
        (ActionKind::Restore, Some(o)) => Ok(MoverCall::Restore(o)),
        (ActionKind::Remove, Some(o)) => Ok(MoverCall::Remove(o)),
        (ActionKind::Restore, None) => Err(no_object("restore", cookie)),
        (ActionKind::Remove, None) => Err(no_object("remove", cookie)),
        (ActionKind::Cancel, _) => Err(
            MoverError::Other("Cancel routed to mover (daemon bug)".to_owned()),
        ),
    }
}

/// The report of a progress event.
pub fn progress_status(ev: ProgressEvent) -> (r: StatusMsg)
    ensures
        r@ == (StatusMsgView {
            cookie: ev.cookie.0,
            bytes_advanced: ev.bytes_advanced,
            completed: false,
            errno: 0,
            result: None,
        }),
{
    StatusMsg {
        cookie: ev.cookie.0,
        bytes_advanced: ev.bytes_advanced,
        completed: false,
        errno: 0,
        result: None,
    }
}

/// The last report of an action: its object and errno 0 on success, the error's
/// errno otherwise.
pub open spec fn terminal_report(
    cookie: Cookie,
    total: u64,
    result: MoverResult<Option<BackendObject>>,
) -> StatusMsgView {
    match result {
        Ok(o) => StatusMsgView {
            cookie: cookie.0,
            bytes_advanced: total,
            completed: true,
            errno: 0,
            result: match o {
                Some(b) => Some(proto::object_msg(b@)),
                None => None,
            },
        },
        Err(e) => StatusMsgView {
            cookie: cookie.0,
            bytes_advanced: total,
            completed: true,
            errno: e@.errno(),
            result: None,
        },
    }
}

/// Build the last report of an action.
pub fn terminal_status(
    cookie: Cookie,
    total: u64,
    result: MoverResult<Option<BackendObject>>,
) -> (r: StatusMsg)
    ensures
        r@ == terminal_report(cookie, total, result),
{
    match result {
        Ok(o) => StatusMsg {
            cookie: cookie.0,
            bytes_advanced: total,
            completed: true,
            errno: 0,
            result: match o {
                Some(b) => Some(proto::backend_obj_to_proto(b)),
                None => None,
            },
        },
        Err(e) => StatusMsg {
            cookie: cookie.0,
            bytes_advanced: total,
            completed: true,
            errno: e.errno(),
            result: None,
        },
    }
}

/// What the mover is told about an item. An empty write path stands for none, and
/// so does an empty real path.
pub fn build_ctx_from_proto<P>(
    item: &ActionItem,
    kind: ActionKind,
    extent: Extent,
    progress: P,
    cancel: CancellationToken,
) -> (r: ActionCtx<P>)
    ensures
        r.cookie == Cookie(item@.cookie),
        r.fid == (Fid { seq: item@.fid_seq, oid: item@.fid_oid, ver: item@.fid_ver }),
        r.archive_id == ArchiveId(item@.archive_id),
        r.kind == kind,
        r.extent == extent,
        r.primary_path@ == item@.primary_path,
        match r.write_path {
            Some(p) => p@ == item@.write_path && item@.write_path.len() > 0,
            None => item@.write_path.len() == 0,
        },
        backend::object_opt_view(r.existing) == (match item@.existing {
            Some(m) => Some(proto::msg_object(m)),
            None => None,
        }),
        match r.lustre_path {
            Some(p) => p@ == item@.lustre_path && item@.lustre_path.len() > 0,
            None => item@.lustre_path.len() == 0,
        },
        payload::bytes_of(r.hint) == item@.data,
        r.progress == progress,
        r.cancel == cancel,
{
    let fid = Fid { seq: item.fid_seq, oid: item.fid_oid, ver: item.fid_ver };
    let mut b = ActionCtxBuilder::new().cookie(Cookie(item.cookie)).fid(fid).archive_id(
        ArchiveId(item.archive_id),
    ).kind(kind).extent(extent).primary_path(item.primary_path.clone()).hint(
        Bytes::copy_from_slice(item.data.as_slice()),
    ).progress(progress).cancel(cancel);
    if !item.write_path.as_str().is_empty() {
        b = b.write_path(item.write_path.clone());
    }
    if !item.lustre_path.as_str().is_empty() {
        b = b.lustre_path(item.lustre_path.clone());
    }
    if let Some(m) = &item.existing {
        b = b.existing(proto::proto_to_backend_obj(m.clone()));
    }
    b.build()
}

} // verus!
