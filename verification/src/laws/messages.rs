//! Messages: what one side says is what the other side hears, and a mover in another
//! process is told the same as one in the daemon's own.

use crate::daemon::agent::{failed_from_error, ActionStatus, DispatchedAction};
use crate::daemon::grpc::{
    agent_of_hello, cancel_item, dispatched_to_proto, expect_hello, proto_to_status, report_of,
    welcome, HelloError,
};
use crate::daemon::inproc;
use crate::daemon::inproc::{build_ctx, progress_report};
use crate::model::payload;
use crate::model::{ActionKind, AgentId, ArchiveId, BackendObject, Cookie, Extent};
use crate::proto;
use crate::proto::{
    ActionItem, FromPlugin, Hello, ObjectMsg, StatusMsg, ToPlugin, Welcome,
};
use crate::sdk::ctx;
use crate::sdk::ctx::{cancel_outcome, ActionCtx};
use crate::sdk::error::{MoverError, MoverErrorView, MoverResult};
use crate::sdk::inflight::InFlight;
use crate::sdk::progress::{ProgressConfig, ProgressEvent, ProgressReporter};
use crate::sdk::run;
use crate::sdk::run::{
    action_of, build_ctx_from_proto, expect_welcome, handle_action_item, mover_call,
    progress_status, terminal_status, HandshakeError, ItemPlan, MoverCall, RunConfig,
};
use crate::model::time::Span;
use crate::text;
use tokio_util::sync::CancellationToken;
use vstd::prelude::*;

verus! {

// ---------------------------------------------------------------------------
// To the mover
// ---------------------------------------------------------------------------

/// A path and what is told of it: an empty path is as good as none.
pub open spec fn path_told(sent: Option<String>, told: Option<String>) -> bool {
    &&& told is Some <==> sent is Some && sent->0@.len() > 0
    &&& told is Some ==> told->0@ == sent->0@
}

/// A dispatched action that is sent to a plugin is run there, unless it cancels, and
/// the plugin's mover is told of that action: the same cookie, file, archive, kind and
/// range, the same paths, object and hint.
pub proof fn lemma_plugin_is_told<P>(
    d: DispatchedAction,
    item: ActionItem,
    plan: ItemPlan,
    progress: P,
    cancel: CancellationToken,
    c: ActionCtx<P>,
)
    requires
        call_ensures(dispatched_to_proto, (d,), item),
        call_ensures(handle_action_item, (&item,), plan),
        plan is Run,
        call_ensures(
            build_ctx_from_proto::<P>,
            (&item, plan->kind, plan->extent, progress, cancel),
            c,
        ),
    ensures
        d.action.kind != ActionKind::Cancel,
        c.cookie == d.action.cookie,
        c.fid == d.action.fid,
        c.archive_id == d.action.archive_id,
        c.kind == d.action.kind,
        c.extent == d.action.extent,
        c.primary_path@ == d.primary_path@,
        path_told(d.write_path, c.write_path),
        path_told(d.lustre_path, c.lustre_path),
        c.existing is Some <==> d.existing is Some,
        c.existing is Some ==> c.existing->0@ == d.existing->0@,
        payload::bytes_of(c.hint) == payload::bytes_of(d.action.data),
        c.progress == progress,
        c.cancel == cancel,
        plan->Run_cookie == d.action.cookie,
{
    proto::lemma_kind_number_round_trip(d.action.kind);
    match d.existing {
        Some(o) => {
            proto::lemma_object_round_trip(o@);
        },
        None => {},
    }
}

/// A dispatched action that does not cancel is run by the plugin it is sent to.
pub proof fn lemma_plugin_runs(d: DispatchedAction, item: ActionItem, plan: ItemPlan)
    requires
        call_ensures(dispatched_to_proto, (d,), item),
        call_ensures(handle_action_item, (&item,), plan),
    ensures
        d.action.kind != ActionKind::Cancel ==> plan == (ItemPlan::Run {
            cookie: d.action.cookie,
            kind: d.action.kind,
            extent: d.action.extent,
        }),
        d.action.kind == ActionKind::Cancel ==> plan == ItemPlan::Cancel(d.action.cookie),
{
    proto::lemma_kind_number_round_trip(d.action.kind);
}

/// A mover in the daemon's own process is told what was dispatched.
pub proof fn lemma_own_mover_is_told<P>(
    d: &DispatchedAction,
    progress: P,
    cancel: CancellationToken,
    c: ActionCtx<P>,
)
    requires
        call_ensures(build_ctx::<P>, (d, progress, cancel), c),
    ensures
        c.cookie == d.action.cookie,
        c.fid == d.action.fid,
        c.archive_id == d.action.archive_id,
        c.kind == d.action.kind,
        c.extent == d.action.extent,
        c.primary_path@ == d.primary_path@,
        c.write_path is Some <==> d.write_path is Some,
        c.write_path is Some ==> c.write_path->0@ == d.write_path->0@,
        c.lustre_path is Some <==> d.lustre_path is Some,
        c.lustre_path is Some ==> c.lustre_path->0@ == d.lustre_path->0@,
        c.existing is Some <==> d.existing is Some,
        c.existing is Some ==> c.existing->0@ == d.existing->0@,
        payload::bytes_of(c.hint) == payload::bytes_of(d.action.data),
        c.progress == progress,
        c.cancel == cancel,
{
}

/// A message that cancels cancels that action at the plugin, whatever the cookie.
pub proof fn lemma_cancel_arrives(cookie: Cookie, item: ActionItem, plan: ItemPlan)
    requires
        call_ensures(cancel_item, (cookie,), item),
        call_ensures(handle_action_item, (&item,), plan),
    ensures
        plan == ItemPlan::Cancel(cookie),
{
}

/// An item of a kind that is not known is refused with `EINVAL`, and the daemon hears
/// of that failure, for that action.
pub proof fn lemma_unknown_kind_is_refused(item: &ActionItem, plan: ItemPlan, heard: ActionStatus)
    requires
        call_ensures(handle_action_item, (item,), plan),
        item.kind < 1 || item.kind > 4,
        plan is Refuse ==> call_ensures(proto_to_status, (plan->Refuse_0,), heard),
    ensures
        plan is Refuse,
        heard@ is Failed,
        heard@->Failed_cookie == Cookie(item.cookie),
        heard@->Failed_errno == 22,
{
}

/// The numbers of the kinds, in both directions.
pub proof fn lemma_kind_numbers(k: ActionKind, n: i32, back: Option<ActionKind>)
    requires
        call_ensures(proto::kind_to_number, (k,), n),
        call_ensures(proto::kind_from_number, (n,), back),
    ensures
        back == Some(k),
        1 <= n <= 4,
        k == ActionKind::Archive <==> n == 1,
        k == ActionKind::Restore <==> n == 2,
        k == ActionKind::Remove <==> n == 3,
        k == ActionKind::Cancel <==> n == 4,
{
    proto::lemma_kind_number_round_trip(k);
}

/// A number that no kind has is no kind.
pub proof fn lemma_no_other_kind(n: i32, k: Option<ActionKind>)
    requires
        call_ensures(proto::kind_from_number, (n,), k),
    ensures
        k is Some <==> 1 <= n <= 4,
{
}

/// An object that is sent arrives as it was.
pub proof fn lemma_object_arrives(o: BackendObject, m: ObjectMsg, back: BackendObject)
    requires
        call_ensures(proto::backend_obj_to_proto, (o,), m),
        call_ensures(proto::proto_to_backend_obj, (m,), back),
    ensures
        back@ == o@,
        m.uuid@ == o.uuid@,
        m.url@ == o.url@,
        m.hash@ == o.hash@,
{
    proto::lemma_object_round_trip(o@);
}

/// A hash of another length is cut, or filled up with zeros.
pub proof fn lemma_received_hash(h: &[u8], r: [u8; 32], i: int)
    requires
        call_ensures(proto::hash_from_proto, (h,), r),
        0 <= i < 32,
    ensures
        i < h@.len() ==> r@[i] == h@[i],
        i >= h@.len() ==> r@[i] == 0,
{
}

/// Which mover method is called follows from the kind: an archive needs nothing, a
/// restore and a removal get the object they come with and are refused without one,
/// and nothing else is the mover's business.
pub proof fn lemma_mover_call(
    kind: ActionKind,
    cookie: Cookie,
    existing: Option<BackendObject>,
    r: MoverResult<MoverCall>,
)
    requires
        call_ensures(mover_call, (kind, cookie, existing), r),
    ensures
        r is Ok <==> kind == ActionKind::Archive || (existing is Some && kind
            != ActionKind::Cancel),
        r matches Ok(c) ==> match c {
            MoverCall::Archive => kind == ActionKind::Archive,
            MoverCall::Restore(o) => kind == ActionKind::Restore && existing == Some(o),
            MoverCall::Remove(o) => kind == ActionKind::Remove && existing == Some(o),
        },
        r matches Err(e) ==> e@.errno() == 5,
{
}

// ---------------------------------------------------------------------------
// From the mover
// ---------------------------------------------------------------------------

/// What the daemon hears of a mover's end is the same whether the mover runs in a
/// plugin or in the daemon's own process: success with the same bytes and object, or
/// failure with the same code.
pub proof fn lemma_end_is_heard(
    cookie: Cookie,
    total: u64,
    result: MoverResult<Option<BackendObject>>,
    sent: StatusMsg,
    heard: ActionStatus,
    own: ActionStatus,
)
    requires
        result matches Err(e) ==> e@.errno() != 0,
        call_ensures(terminal_status, (cookie, total, result), sent),
        call_ensures(proto_to_status, (sent,), heard),
        call_ensures(inproc::terminal_report, (cookie, total, result), own),
    ensures
        match result {
            Ok(o) => {
                &&& heard@ is Completed && own@ == heard@
                &&& heard@->Completed_cookie == cookie
                &&& heard@->total_bytes == total
                &&& heard@->result is Some <==> o is Some
                &&& o is Some ==> heard@->result->0 == o->0@
            },
            Err(e) => {
                &&& heard@ is Failed && own@ is Failed
                &&& heard@->Failed_cookie == cookie && own@->Failed_cookie == cookie
                &&& heard@->Failed_errno == e@.errno() && own@->Failed_errno == e@.errno()
                &&& own@->reason == e@.message()
            },
        },
{
    match result {
        Ok(Some(o)) => {
            proto::lemma_object_round_trip(o@);
        },
        _ => {},
    }
}

/// What the daemon hears of progress is the same either way: those bytes, of that
/// action.
pub proof fn lemma_progress_is_heard(
    ev: ProgressEvent,
    sent: StatusMsg,
    heard: ActionStatus,
    own: ActionStatus,
)
    requires
        call_ensures(progress_status, (ev,), sent),
        call_ensures(proto_to_status, (sent,), heard),
        call_ensures(progress_report, (ev,), own),
    ensures
        heard@ is Progress,
        heard@->Progress_cookie == ev.cookie,
        heard@->bytes_advanced == ev.bytes_advanced,
        own@ == heard@,
{
}

/// A later message of a plugin is heard exactly if it is a report.
pub proof fn lemma_only_reports_are_heard(
    msg: FromPlugin,
    heard: Option<ActionStatus>,
    report: ActionStatus,
)
    requires
        call_ensures(report_of, (msg,), heard),
        msg is Status ==> call_ensures(proto_to_status, (msg->Status_0,), report),
    ensures
        heard is Some <==> msg is Status,
        heard is Some ==> heard->0@ == report@,
{
}

/// A report says over, and how, exactly as the message does: not over with the bytes
/// so far, over with code 0 and the bytes in all, or over with another code.
pub proof fn lemma_report_as_sent(s: StatusMsg, heard: ActionStatus)
    requires
        call_ensures(proto_to_status, (s,), heard),
    ensures
        heard@.cookie() == Cookie(s.cookie),
        !s.completed ==> heard@ is Progress && heard@->bytes_advanced == s.bytes_advanced,
        s.completed && s.errno == 0 ==> heard@ is Completed && heard@->total_bytes
            == s.bytes_advanced && (heard@->result is Some <==> s.result is Some),
        s.completed && s.errno != 0 ==> heard@ is Failed && heard@->Failed_errno == s.errno,
{
}

/// A failed mover is reported under its action, with its code and its words.
pub proof fn lemma_failure_report(cookie: Cookie, e: &MoverError, r: ActionStatus, words: String)
    requires
        call_ensures(failed_from_error, (cookie, e), r),
        call_ensures(MoverError::to_string, (e,), words),
    ensures
        r@ is Failed,
        r@->Failed_cookie == cookie,
        r@->Failed_errno == e@.errno(),
        r@->reason == words@,
{
}

/// The code of a mover's failure: its own if the backend names one, `ECANCELED` if it
/// was cancelled, `EAGAIN` if it may be tried again, and `EIO` otherwise.
pub proof fn lemma_mover_codes(e: &MoverError, rc: i32)
    requires
        call_ensures(MoverError::errno, (e,), rc),
    ensures
        match *e {
            MoverError::Cancelled => rc == 125,
            MoverError::Backend { errno, .. } => rc == errno,
            MoverError::Transient(_) => rc == 11,
            MoverError::Integrity(_) => rc == 5,
            MoverError::Other(_) => rc == 5,
        },
{
}

/// The words of a mover's failure end in what the mover said.
pub proof fn lemma_mover_words(e: &MoverError, words: String)
    requires
        call_ensures(MoverError::to_string, (e,), words),
    ensures
        match *e {
            MoverError::Cancelled => words@ == "transfer cancelled by caller"@,
            MoverError::Backend { errno, reason } => {
                let head = "backend errno "@ + text::dec_int(errno as int) + ": "@;
                &&& words@.len() == head.len() + reason@.len()
                &&& words@.take(head.len() as int) == head
                &&& words@.skip(head.len() as int) == reason@
            },
            MoverError::Transient(s) => words@ == "transient backend failure: "@ + s@,
            MoverError::Integrity(s) => words@ == "integrity check failed: "@ + s@,
            MoverError::Other(s) => words@ == s@,
        },
{
    match *e {
        MoverError::Backend { errno, reason } => {
            let head = "backend errno "@ + text::dec_int(errno as int) + ": "@;
            assert(words@ =~= head + reason@);
            assert(words@.take(head.len() as int) =~= head);
            assert(words@.skip(head.len() as int) =~= reason@);
        },
        _ => {},
    }
}

// ---------------------------------------------------------------------------
// Handshake
// ---------------------------------------------------------------------------

/// A plugin that says hello is known to the daemon by its own id, and for the archives
/// it serves, in their order.
pub proof fn lemma_hello_is_understood(
    cfg: &RunConfig,
    h: Hello,
    got: Result<Hello, HelloError>,
    who: (AgentId, Vec<ArchiveId>),
    i: int,
)
    requires
        call_ensures(RunConfig::hello, (cfg,), h),
        call_ensures(expect_hello, (Some(FromPlugin::Hello(h)),), got),
        got is Ok ==> call_ensures(agent_of_hello, (&got->Ok_0,), who),
    ensures
        got is Ok,
        who.0@ == cfg.agent_id@,
        who.1@.len() == cfg.archive_ids@.len(),
        0 <= i < who.1@.len() ==> who.1@[i] == cfg.archive_ids@[i],
        h.version@ == cfg.version@,
{
    let a = run::archive_numbers(who.1@);
    let b = run::archive_numbers(cfg.archive_ids@);
    assert(a.len() == who.1@.len());
    assert(b.len() == cfg.archive_ids@.len());
    assert(a == b);
    if 0 <= i < who.1@.len() {
        assert(a[i] == who.1@[i].0);
        assert(b[i] == cfg.archive_ids@[i].0);
    }
}

/// A plugin is let in exactly if it says hello first.
pub proof fn lemma_hello_comes_first(first: Option<FromPlugin>, r: Result<Hello, HelloError>)
    requires
        call_ensures(expect_hello, (first,), r),
    ensures
        r is Ok <==> first is Some && first->0 is Hello,
        r is Ok ==> r->Ok_0 == first->0->Hello_0,
        first is None ==> r == Err::<Hello, HelloError>(HelloError::Closed),
        first is Some && !(first->0 is Hello) ==> r == Err::<Hello, HelloError>(
            HelloError::NotHello(first->0),
        ),
{
}

/// What is said of a plugin that was not let in.
pub proof fn lemma_hello_words(e: &HelloError, got: &str, words: String)
    requires
        call_ensures(HelloError::message, (e, got), words),
    ensures
        e is Closed ==> words@ == "stream closed before Hello"@,
        e is NotHello ==> words@ == "first message must be Hello; got "@ + got@,
{
}

/// The daemon's welcome is taken as one, and carries the number of the session.
pub proof fn lemma_welcome_is_understood(
    session: u64,
    first: ToPlugin,
    r: Result<Welcome, HandshakeError>,
)
    requires
        call_ensures(welcome, (session,), first),
        call_ensures(expect_welcome, (Some(first),), r),
    ensures
        r is Ok,
        ({
            let id = r->Ok_0.session_id@;
            &&& id.len() > 8
            &&& id.take(8) == "session-"@
            &&& text::parse_uint(id.skip(8), 10, u64::MAX as nat) == Some(session as nat)
        }),
{
    reveal_strlit("session-");
    text::lemma_parse_numeral(session as nat, 10, u64::MAX as nat);
    text::lemma_numeral_digits(session as nat, 10);
    let id = r->Ok_0.session_id@;
    assert(id.take(8) =~= "session-"@);
    assert(id.skip(8) =~= text::dec(session as nat));
}

/// A plugin goes on exactly if it was welcomed first.
pub proof fn lemma_welcome_comes_first(
    first: Option<ToPlugin>,
    r: Result<Welcome, HandshakeError>,
)
    requires
        call_ensures(expect_welcome, (first,), r),
    ensures
        r is Ok <==> first is Some && first->0 is Welcome,
        r is Ok ==> r->Ok_0 == first->0->Welcome_0,
        first is None ==> r == Err::<Welcome, HandshakeError>(HandshakeError::NoWelcome),
        first is Some && !(first->0 is Welcome) ==> r == Err::<Welcome, HandshakeError>(
            HandshakeError::HandshakeFailed(first->0),
        ),
{
}

/// A later message of the daemon is work exactly if it is an action.
pub proof fn lemma_only_actions_are_work(msg: ToPlugin, r: Option<ActionItem>)
    requires
        call_ensures(action_of, (msg,), r),
    ensures
        r is Some <==> msg is Action,
        r is Some ==> r->0 == msg->Action_0,
{
}

/// How a plugin presents itself unless it says otherwise.
pub proof fn lemma_run_config(id: &str, archives: Vec<ArchiveId>, r: RunConfig)
    requires
        call_ensures(RunConfig::new, (id, archives), r),
    ensures
        r.agent_id@ == id@,
        r.archive_ids@ == archives@,
        r.version@ == "0.1.0"@,
        r.progress.bytes_threshold == 67_108_864,
        r.progress.time_threshold.nanos == 5_000_000_000,
        r.action_buffer == 64,
        r.status_buffer == 256,
{
}

// ---------------------------------------------------------------------------
// Running actions
// ---------------------------------------------------------------------------

/// An action that was begun can be cancelled until it is over: cancelling trips the
/// token it was begun with, and no other action's.
pub proof fn lemma_begun_can_be_cancelled(
    a: &mut InFlight,
    b: &mut InFlight,
    cookie: Cookie,
    token: CancellationToken,
    r: bool,
    x: u64,
)
    requires
        call_ensures(InFlight::begin, (a, cookie), token),
        *old(b) == *final(a),
        call_ensures(InFlight::cancel, (b, cookie), r),
    ensures
        r,
        !ctx::tripped(token),
        final(b)@.contains_key(cookie.0),
        final(b)@[cookie.0] == ctx::after_cancel(token),
        ctx::tripped(final(b)@[cookie.0]),
        x != cookie.0 ==> (final(b)@.contains_key(x) <==> old(a)@.contains_key(x)),
        x != cookie.0 && old(a)@.contains_key(x) ==> final(b)@[x] == old(a)@[x],
{
}

/// An action that is over, or never began, cannot be cancelled; nothing happens.
pub proof fn lemma_ended_cannot_be_cancelled(
    a: &mut InFlight,
    b: &mut InFlight,
    cookie: Cookie,
    done: (),
    r: bool,
    x: u64,
)
    requires
        call_ensures(InFlight::end, (a, cookie), done),
        *old(b) == *final(a),
        call_ensures(InFlight::cancel, (b, cookie), r),
    ensures
        !r,
        final(b)@ == old(b)@,
        x != cookie.0 ==> (final(a)@.contains_key(x) <==> old(a)@.contains_key(x)),
        x != cookie.0 && old(a)@.contains_key(x) ==> final(a)@[x] == old(a)@[x],
{
}

/// The number of running actions goes up by one with an action that begins, and back
/// with its end.
pub proof fn lemma_running_count(
    a: &mut InFlight,
    b: &mut InFlight,
    cookie: Cookie,
    token: CancellationToken,
    done: (),
    before: &InFlight,
    between: &InFlight,
    after: &InFlight,
    n: usize,
    m: usize,
    l: usize,
    idle: bool,
)
    requires
        old(a)@.dom().finite(),
        !old(a)@.contains_key(cookie.0),
        *before == *old(a),
        call_ensures(InFlight::begin, (a, cookie), token),
        *between == *final(a),
        *old(b) == *final(a),
        call_ensures(InFlight::end, (b, cookie), done),
        *after == *final(b),
        call_ensures(InFlight::len, (before,), n),
        call_ensures(InFlight::len, (between,), m),
        call_ensures(InFlight::len, (after,), l),
        call_ensures(InFlight::is_empty, (after,), idle),
    ensures
        m == n + 1,
        l == n,
        idle <==> n == 0,
{
    assert(final(b)@ =~= a@);
}

/// A mover goes on exactly while it is not cancelled.
pub proof fn lemma_cancel_outcome(cancelled: bool, r: MoverResult<()>)
    requires
        call_ensures(cancel_outcome, (cancelled,), r),
    ensures
        r is Err <==> cancelled,
        r matches Err(e) ==> e@ == MoverErrorView::Cancelled,
{
}

// ---------------------------------------------------------------------------
// Progress
// ---------------------------------------------------------------------------

/// A reporter counts from nothing, for its action, from when it was made.
pub proof fn lemma_new_reporter(
    cookie: Cookie,
    extent: Extent,
    config: ProgressConfig,
    now: Span,
    r: ProgressReporter,
    total: u64,
    whose: Cookie,
)
    requires
        call_ensures(ProgressReporter::new, (cookie, extent, config, now), r),
        call_ensures(ProgressReporter::total_advanced, (&r,), total),
        call_ensures(ProgressReporter::cookie, (&r,), whose),
    ensures
        total == 0,
        whose == cookie,
        r@.extent == extent,
        r@.config == config,
        r@.pending == 0,
        r@.last_emit == now,
{
}

/// An advance adds its bytes to the count, and reports the count in all exactly if
/// enough bytes have come together since the last report, or enough time has passed.
/// A report starts both anew; without one, bytes and time go on adding up.
pub proof fn lemma_advance_call(
    p: &mut ProgressReporter,
    bytes: u64,
    now: Span,
    r: Option<ProgressEvent>,
)
    requires
        old(p)@.pending <= old(p)@.total,
        old(p)@.total + bytes <= u64::MAX,
        call_ensures(ProgressReporter::advance, (p, bytes, now), r),
    ensures
        ({
            let v = old(p)@;
            let w = final(p)@;
            let enough = v.pending + bytes >= v.config.bytes_threshold;
            let late = now.nanos - v.last_emit.nanos >= v.config.time_threshold.nanos || v.config.time_threshold.nanos
                == 0;
            &&& r is Some <==> enough || late
            &&& r matches Some(e) ==> e.cookie == v.cookie && e.bytes_advanced == v.total + bytes
                && e.extent == v.extent
            &&& w.total == v.total + bytes
            &&& w.cookie == v.cookie && w.extent == v.extent && w.config == v.config
            &&& r is Some ==> w.pending == 0 && w.last_emit == now
            &&& r is None ==> w.pending == v.pending + bytes && w.last_emit == v.last_emit
        }),
{
}

/// The last report is of everything that was counted.
pub proof fn lemma_flush_call(p: &mut ProgressReporter, now: Span, r: ProgressEvent)
    requires
        call_ensures(ProgressReporter::flush, (p, now), r),
    ensures
        r.cookie == old(p)@.cookie,
        r.bytes_advanced == old(p)@.total,
        r.extent == old(p)@.extent,
        final(p)@.total == old(p)@.total,
        final(p)@.cookie == old(p)@.cookie,
        final(p)@.extent == old(p)@.extent,
        final(p)@.config == old(p)@.config,
        final(p)@.pending == 0,
        final(p)@.last_emit == now,
{
}

/// A message that cancels names the action and nothing else.
pub proof fn lemma_cancel_is_bare(cookie: Cookie, item: ActionItem)
    requires
        call_ensures(cancel_item, (cookie,), item),
    ensures
        item.cookie == cookie.0,
        item.kind == 4,
        item.archive_id == 0 && item.offset == 0 && item.length == 0,
        item.fid_seq == 0 && item.fid_oid == 0 && item.fid_ver == 0,
        item@.primary_path.len() == 0 && item@.write_path.len() == 0 && item@.lustre_path.len() == 0,
        item@.data.len() == 0 && item@.existing is None,
{
}

/// A plugin's failure is sent as an end with the code and nothing stored, and the daemon
/// hears the code in words.
pub proof fn lemma_failure_is_heard(
    cookie: Cookie,
    total: u64,
    e: MoverError,
    sent: StatusMsg,
    heard: ActionStatus,
)
    requires
        e@.errno() != 0,
        call_ensures(
            terminal_status,
            (cookie, total, Err::<Option<BackendObject>, MoverError>(e)),
            sent,
        ),
        call_ensures(proto_to_status, (sent,), heard),
    ensures
        sent.cookie == cookie.0 && sent.completed && sent.bytes_advanced == total,
        sent.errno == e@.errno(),
        sent.result is None,
        heard@ is Failed,
        heard@->reason == "plugin reported errno "@ + text::dec_int(e@.errno() as int),
{
}

/// A success is sent as an end without a code, with the bytes and the object.
pub proof fn lemma_success_is_sent(
    cookie: Cookie,
    total: u64,
    o: Option<BackendObject>,
    sent: StatusMsg,
)
    requires
        call_ensures(terminal_status, (cookie, total, Ok::<Option<BackendObject>, MoverError>(o)), sent),
    ensures
        sent.cookie == cookie.0 && sent.completed && sent.bytes_advanced == total,
        sent.errno == 0,
        sent.result is Some <==> o is Some,
{
}

/// Without thresholds of its own, a reporter reports at 64 MiB and after five seconds.
pub proof fn lemma_usual_reporter(cookie: Cookie, extent: Extent, now: Span, r: ProgressReporter)
    requires
        call_ensures(ProgressReporter::with_defaults, (cookie, extent, now), r),
    ensures
        r@.cookie == cookie,
        r@.extent == extent,
        r@.config.bytes_threshold == 0x400_0000,
        r@.config.time_threshold.nanos == 5 * 1_000_000_000,
        r@.pending == 0 && r@.total == 0,
        r@.last_emit == now,
{
}

/// At first nothing runs.
pub proof fn lemma_nothing_runs(f: InFlight, k: u64)
    requires
        call_ensures(InFlight::new, (), f),
    ensures
        !f@.contains_key(k),
        f@.len() == 0,
{
}

} // verus!
