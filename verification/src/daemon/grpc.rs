//! The daemon's side of a plugin connection: the handshake, and the messages in
//! both directions.

use crate::daemon::agent::{ActionStatus, ActionStatusView, DispatchedAction, DispatchedView};
use crate::model::payload;
use crate::model::{ActionKind, AgentId, ArchiveId, BackendObject, Cookie, Extent, Fid};
use crate::proto;
use crate::proto::{
    ActionItem, ActionItemView, FromPlugin, Hello, ObjectMsg, StatusMsg, StatusMsgView, ToPlugin,
    Welcome,
};
use crate::sdk::error::MoverResult;
use crate::sdk::run;
use crate::text;
use vstd::prelude::*;

verus! {

// ---------------------------------------------------------------------------
// Handshake
// ---------------------------------------------------------------------------

/// Why a connection is refused.
#[derive(Debug, PartialEq, Eq)]
pub enum HelloError {
    /// The first message was something else.
    NotHello(FromPlugin),
    /// The plugin closed the stream first.
    Closed,
}

impl HelloError {
    /// Text of the error, given the message that came instead as text.
    pub fn message(&self, got: &str) -> (r: String)
        ensures
            r@ == (match *self {
                HelloError::NotHello(_) => "first message must be Hello; got "@ + got@,
                HelloError::Closed => "stream closed before Hello"@,
            }),
    {
        match self {
            HelloError::NotHello(_) => {
                let mut out = "first message must be Hello; got ".to_owned();
                out.append(got);
                out
            },
            HelloError::Closed => "stream closed before Hello".to_owned(),
        }
    }
}

/// A plugin's first message must be `Hello`.
pub fn expect_hello(first: Option<FromPlugin>) -> (r: Result<Hello, HelloError>)
    ensures
        r == (match first {
            Some(FromPlugin::Hello(h)) => Ok::<Hello, HelloError>(h),
            Some(other) => Err(HelloError::NotHello(other)),
            None => Err(HelloError::Closed),
        }),
{
    match first {
        Some(FromPlugin::Hello(h)) => Ok(h),
        Some(other) => Err(HelloError::NotHello(other)),
        None => Err(HelloError::Closed),
    }
}

/// Who a plugin says it is, and which archives it serves.
pub fn agent_of_hello(h: &Hello) -> (r: (AgentId, Vec<ArchiveId>))
    ensures
        r.0@ == h.agent_id@,
        run::archive_numbers(r.1@) == h.archive_ids@,
{
    let mut archives: Vec<ArchiveId> = Vec::new();
    let mut i: usize = 0;
    while i < h.archive_ids.len()
        invariant
            i <= h.archive_ids@.len(),
            run::archive_numbers(archives@) == h.archive_ids@.take(i as int),
        decreases h.archive_ids.len() - i,
    {
        let ghost before = run::archive_numbers(archives@);
        archives.push(ArchiveId(h.archive_ids[i]));
        proof {
            assert(run::archive_numbers(archives@) =~= before.push(h.archive_ids@[i as int]));
            assert(run::archive_numbers(archives@) =~= h.archive_ids@.take(i + 1));
        }
        i = i + 1;
    }
    proof {
        assert(h.archive_ids@.take(i as int) =~= h.archive_ids@);
    }
    (AgentId::new(h.agent_id.as_str()), archives)
}

/// The answer to `Hello`: the number of the session, for the logs.
pub fn welcome(session: u64) -> (r: ToPlugin)
    ensures
        r matches ToPlugin::Welcome(w) && w.session_id@ == "session-"@ + text::dec(session as nat),
{
    let mut session_id = "session-".to_owned();
    text::push_dec(&mut session_id, session as u128);
    ToPlugin::Welcome(Welcome { session_id })
}

// ---------------------------------------------------------------------------
// To the plugin
// ---------------------------------------------------------------------------

/// The message of a dispatched action.
pub open spec fn item_of(d: DispatchedView) -> ActionItemView {
    ActionItemView {
        cookie: d.action.cookie.0,
        archive_id: d.action.archive_id.0,
        kind: proto::kind_number(d.action.kind),
        primary_path: d.primary_path,
        write_path: match d.write_path {
            Some(p) => p,
            None => Seq::empty(),
        },
        offset: d.action.extent.offset,
        length: d.action.extent.length,
        data: d.action.data,
        existing: match d.existing {
            Some(o) => Some(proto::object_msg(o)),
            None => None,
        },
        fid_seq: d.action.fid.seq,
        fid_oid: d.action.fid.oid,
        fid_ver: d.action.fid.ver,
        lustre_path: match d.lustre_path {
            Some(p) => p,
            None => Seq::empty(),
        },
    }
}

/// The message of a dispatched action.
pub fn dispatched_to_proto(d: DispatchedAction) -> (r: ActionItem)
    ensures
        r@ == item_of(d@),
{
    let write_path = match d.write_path {
        Some(p) => p,
        None => empty_text(),
    };
    let lustre_path = match d.lustre_path {
        Some(p) => p,
        None => empty_text(),
    };
    let existing: Option<ObjectMsg> = match d.existing {
        Some(o) => Some(proto::backend_obj_to_proto(o)),
        None => None,
    };
    ActionItem {
        cookie: d.action.cookie.0,
        archive_id: d.action.archive_id.0,
        kind: proto::kind_to_number(d.action.kind),
        primary_path: d.primary_path,
        write_path,
        offset: d.action.extent.offset,
        length: d.action.extent.length,
        data: payload::bytes_to_vec(&d.action.data),
        existing,
        fid_seq: d.action.fid.seq,
        fid_oid: d.action.fid.oid,
        fid_ver: d.action.fid.ver,
        lustre_path,
    }
}

/// The empty text.
fn empty_text() -> (r: String)
    ensures
        r@ == Seq::<char>::empty(),
{
    let r = String::new();
    proof {
        assert(r@ =~= Seq::<char>::empty());
    }
    r
}

/// The message that cancels an action: a cookie, and nothing else.
pub open spec fn cancel_view(cookie: Cookie) -> ActionItemView {
    ActionItemView {
        cookie: cookie.0,
        archive_id: 0,
        kind: proto::KIND_CANCEL,
        primary_path: Seq::empty(),
        write_path: Seq::empty(),
        offset: 0,
        length: 0,
        data: Seq::empty(),
        existing: None,
        fid_seq: 0,
        fid_oid: 0,
        fid_ver: 0,
        lustre_path: Seq::empty(),
    }
}

/// The message that cancels an action.
pub fn cancel_item(cookie: Cookie) -> (r: ActionItem)
    ensures
        r@ == cancel_view(cookie),
{
    let data: Vec<u8> = Vec::new();
    proof {
        assert(data@ =~= Seq::<u8>::empty());
    }
    ActionItem {
        cookie: cookie.0,
        archive_id: 0,
        kind: proto::KIND_CANCEL,
        primary_path: empty_text(),
        write_path: empty_text(),
        offset: 0,
        length: 0,
        data,
        existing: None,
        fid_seq: 0,
        fid_oid: 0,
        fid_ver: 0,
        lustre_path: empty_text(),
    }
}

// ---------------------------------------------------------------------------
// From the plugin
// ---------------------------------------------------------------------------

/// The report of a message.
pub open spec fn status_of(s: StatusMsgView) -> ActionStatusView {
    let cookie = Cookie(s.cookie);
    if !s.completed {
        ActionStatusView::Progress { cookie, bytes_advanced: s.bytes_advanced }
    } else if s.errno == 0 {
        ActionStatusView::Completed {
            cookie,
            total_bytes: s.bytes_advanced,
            result: match s.result {
                Some(m) => Some(proto::msg_object(m)),
                None => None,
            },
        }
    } else {
        ActionStatusView::Failed {
            cookie,
            errno: s.errno,
            reason: "plugin reported errno "@ + text::dec_int(s.errno as int),
        }
    }
}

/// The report of a message.
pub fn proto_to_status(s: StatusMsg) -> (r: ActionStatus)
    ensures
        r@ == status_of(s@),
{
    let cookie = Cookie(s.cookie);
    if !s.completed {
        return ActionStatus::Progress { cookie, bytes_advanced: s.bytes_advanced };
    }
    if s.errno == 0 {
        let result: Option<BackendObject> = match s.result {
            Some(m) => Some(proto::proto_to_backend_obj(m)),
            None => None,
        };
        ActionStatus::Completed { cookie, total_bytes: s.bytes_advanced, result }
    } else {
        let mut reason = "plugin reported errno ".to_owned();
        text::push_dec_int(&mut reason, s.errno as i64);
        ActionStatus::Failed { cookie, errno: s.errno, reason }
    }
}

/// The report in a later message; a second `Hello` and an empty message hold
/// none.
pub fn report_of(msg: FromPlugin) -> (r: Option<ActionStatus>)
    ensures
        match msg {
            FromPlugin::Status(s) => r matches Some(x) && x@ == status_of(s@),
            _ => r is None,
        },
{
    match msg {
        FromPlugin::Status(s) => Some(proto_to_status(s)),
        _ => None,
    }
}

// ---------------------------------------------------------------------------
// Laws
// ---------------------------------------------------------------------------

/// What the daemon dispatches is what the plugin sees: the same action, file, paths,
/// bytes and object. A path that is not there comes as the empty text.
pub proof fn lemma_dispatch_reaches_plugin(d: DispatchedView)
    requires
        d.existing matches Some(o) ==> o.hash.len() == 32,
    ensures
        ({
            let m = item_of(d);
            &&& proto::number_kind(m.kind) == Some(d.action.kind)
            &&& Cookie(m.cookie) == d.action.cookie
            &&& ArchiveId(m.archive_id) == d.action.archive_id
            &&& (Extent { offset: m.offset, length: m.length }) == d.action.extent
            &&& m.data == d.action.data
            &&& (Fid { seq: m.fid_seq, oid: m.fid_oid, ver: m.fid_ver }) == d.action.fid
            &&& m.primary_path == d.primary_path
            &&& d.write_path matches Some(p) ==> m.write_path == p
            &&& m.write_path.len() == 0 <==> (d.write_path matches Some(p) ==> p.len() == 0)
            &&& d.lustre_path matches Some(p) ==> m.lustre_path == p
            &&& m.lustre_path.len() == 0 <==> (d.lustre_path matches Some(p) ==> p.len() == 0)
            &&& (match m.existing {
                Some(x) => Some(proto::msg_object(x)),
                None => None,
            }) == d.existing
        }),
{
    proto::lemma_kind_number_round_trip(d.action.kind);
    match d.existing {
        Some(o) => {
            proto::lemma_object_round_trip(o);
        },
        None => {},
    }
}

/// A cancel message is taken as one.
pub proof fn lemma_cancel_reaches_plugin(cookie: Cookie)
    ensures
        proto::number_kind(cancel_view(cookie).kind) == Some(ActionKind::Cancel),
        Cookie(cancel_view(cookie).cookie) == cookie,
{
}

/// What a mover achieved is what the daemon hears: success with the same object,
/// or failure with the same errno. (A failure with errno 0 cannot be told from a
/// success.)
pub proof fn lemma_result_reaches_daemon(
    cookie: Cookie,
    total: u64,
    result: MoverResult<Option<BackendObject>>,
)
    requires
        result matches Err(e) ==> e@.errno() != 0,
    ensures
        match result {
            Ok(o) => status_of(run::terminal_report(cookie, total, result))
                == (ActionStatusView::Completed {
                cookie,
                total_bytes: total,
                result: crate::model::backend::object_opt_view(o),
            }),
            Err(e) => status_of(run::terminal_report(cookie, total, result))
                matches ActionStatusView::Failed { cookie: c, errno, .. } && c == cookie && errno
                == e@.errno(),
        },
{
    match result {
        Ok(Some(o)) => {
            proto::lemma_object_round_trip(o@);
        },
        _ => {},
    }
}

/// A report is terminal exactly if it says so.
pub proof fn lemma_report_is_terminal(s: StatusMsgView)
    ensures
        status_of(s).terminal() <==> s.completed,
        status_of(s).cookie() == Cookie(s.cookie),
{
}

} // verus!
