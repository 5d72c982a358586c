//! Values: what the small types hold, what they are called, and what errors say.

use bytes::Bytes;
use crate::ctl::hash::{check_hash32, HexError};
use crate::daemon::error::{DaemonError, DaemonErrorView};
use crate::daemon::pending::PendingPaths;
use crate::daemon::xattr_store;
use crate::daemon::xattr_store::{XattrError, XattrErrorView};
use crate::llapi::error::{HsmError, HsmErrorView};
use crate::llapi::lifecycle::{EndStatus, HasCookieLifecycle};
use crate::llapi::mock::{MockCompletion, MockCopytool, MockOutcome};
use crate::model::payload;
use crate::model::{
    Action, ActionKind, ActionRecord, AgentId, ArState, ArchiveId, BackendObject, Cookie,
    Extent, Fid, HsmErrno, Timestamp,
};
use crate::sdk::ctx::{ActionCtx, ActionCtxBuilder};
use crate::store::error::{StoreError, StoreErrorView};
use crate::text;
use crate::uapi::conv::ConvError;
use tokio_util::sync::CancellationToken;
use vstd::prelude::*;

verus! {

// ---------------------------------------------------------------------------
// Numbers with a name
// ---------------------------------------------------------------------------

/// A wrapped number is the number.
pub proof fn lemma_wrapped(
    v: u64,
    c: Cookie,
    back: u64,
    w: u32,
    a: ArchiveId,
    number: u32,
    e: i32,
    h: HsmErrno,
    raw: i32,
)
    requires
        call_ensures(Cookie::new, (v,), c),
        call_ensures(Cookie::get, (c,), back),
        call_ensures(ArchiveId::new, (w,), a),
        call_ensures(ArchiveId::get, (a,), number),
        call_ensures(HsmErrno::new, (e,), h),
        call_ensures(HsmErrno::get, (h,), raw),
    ensures
        back == v && c.0 == v,
        number == w && a.0 == w,
        raw == e && h.0 == e,
{
}

/// A cookie is written in hexadecimal and an archive in decimal.
pub proof fn lemma_written_numbers(c: &Cookie, x: String, a: &ArchiveId, y: String)
    requires
        call_ensures(Cookie::to_string, (c,), x),
        call_ensures(ArchiveId::to_string, (a,), y),
    ensures
        x@ == text::hex0x(c.0 as nat),
        y@ == text::dec(a.0 as nat),
{
}

/// Zero is success, and nothing else is.
pub proof fn lemma_errno(v: i32, h: HsmErrno, good: HsmErrno, b: bool, s: String)
    requires
        call_ensures(HsmErrno::new, (v,), h),
        call_ensures(HsmErrno::ok, (), good),
        call_ensures(HsmErrno::is_ok, (h,), b),
        call_ensures(HsmErrno::to_string, (&h,), s),
    ensures
        good.0 == 0,
        b <==> v == 0,
        b <==> h == good,
        v == 0 ==> s@ == "OK"@,
        v != 0 ==> s@ == "errno="@ + text::dec_int(v as int),
{
}

/// An id is its text, and two are the same exactly if their texts are.
pub proof fn lemma_agent_id(t: &str, u: &str, a: AgentId, b: AgentId, s: &str, w: String, same: bool)
    requires
        call_ensures(AgentId::new, (t,), a),
        call_ensures(AgentId::new, (u,), b),
        call_ensures(AgentId::as_str, (&a,), s),
        call_ensures(AgentId::to_string, (&a,), w),
        call_ensures(AgentId::same_as, (&a, &b), same),
    ensures
        a@ == t@,
        s@ == t@,
        w@ == t@,
        same <==> t@ == u@,
{
}

/// The whole file is everything from its start on, and no other extent is.
pub proof fn lemma_extent(offset: u64, length: u64, e: Extent, all: Extent, b: bool)
    requires
        call_ensures(Extent::new, (offset, length), e),
        call_ensures(Extent::whole, (), all),
        call_ensures(Extent::is_whole_file, (&e,), b),
    ensures
        e.offset == offset && e.length == length,
        all.offset == 0 && all.length == u64::MAX,
        b <==> offset == 0 && length == u64::MAX,
{
}

// ---------------------------------------------------------------------------
// States and records
// ---------------------------------------------------------------------------

/// An action is over exactly if it is neither waiting nor running.
pub proof fn lemma_is_over(s: &ArState, b: bool)
    requires
        call_ensures(ArState::is_terminal, (s,), b),
    ensures
        b <==> !(s@ is Waiting) && !(s@ is Started),
{
}

/// A state is described by its name and all it holds.
pub proof fn lemma_state_described(s: &ArState, d: String)
    requires
        call_ensures(ArState::debug, (s,), d),
    ensures
        s@ is Waiting ==> d@ == "Waiting"@,
        s@ is Canceled ==> d@ == "Canceled"@,
        s@ is Succeed ==> d@ == "Succeed { rc: "@ + text::dec_int(s@->Succeed_rc as int) + " }"@,
        s@ is Failed ==> d@ == "Failed { rc: "@ + text::dec_int(s@->Failed_rc as int) + " }"@,
        s@ is Started ==> d@ == "Started { agent: AgentId("@ + text::debug_text(s@->agent)
            + "), since_unix_ms: "@ + text::dec(s@->since_unix_ms as nat) + " }"@,
{
}

/// A new record holds its action, waits, has got nowhere, and is as old as it is new.
pub proof fn lemma_new_record(a: Action, now: Timestamp, r: ActionRecord)
    requires
        call_ensures(ActionRecord::new, (a, now), r),
    ensures
        r@.action == a@,
        r@.state is Waiting,
        r@.progress.offset == 0 && r@.progress.length == 0,
        r@.created_at == now && r@.updated_at == now,
{
}

/// A copy is what it was copied from.
pub proof fn lemma_copies(
    a: &Action,
    b: Action,
    r: &ActionRecord,
    s: ActionRecord,
    x: &ArState,
    y: ArState,
    o: &BackendObject,
    p: BackendObject,
    i: &AgentId,
    j: AgentId,
)
    requires
        call_ensures(<Action as Clone>::clone, (a,), b),
        call_ensures(<ActionRecord as Clone>::clone, (r,), s),
        call_ensures(<ArState as Clone>::clone, (x,), y),
        call_ensures(<BackendObject as Clone>::clone, (o,), p),
        call_ensures(<AgentId as Clone>::clone, (i,), j),
    ensures
        b.cookie == a.cookie && b.fid == a.fid && b.dfid == a.dfid && b.archive_id == a.archive_id
            && b.kind == a.kind && b.extent == a.extent && b.gid == a.gid && b@.data == a@.data,
        s@.action == r@.action && s@.state == r@.state && s.progress == r.progress && s.created_at
            == r.created_at && s.updated_at == r.updated_at,
        y@ == x@,
        p.uuid@ == o.uuid@ && p.hash@ == o.hash@ && p.url@ == o.url@,
        j@ == i@,
{
    assert(b@ == a@);
    assert(s@ == r@);
}

// ---------------------------------------------------------------------------
// What errors say
// ---------------------------------------------------------------------------

/// A refusal of the store names the cookie, and what stands against it.
pub proof fn lemma_store_words(e: &StoreError, s: String)
    requires
        call_ensures(StoreError::to_string, (e,), s),
    ensures
        match e@ {
            StoreErrorView::DuplicateCookie(c) => s@ == "cookie "@ + text::hex0x(c.0 as nat)
                + " already present in store"@,
            StoreErrorView::UnknownCookie(c) => s@ == "cookie "@ + text::hex0x(c.0 as nat)
                + " not found in store"@,
            StoreErrorView::ProgressRegression { cookie, have, got } => s@
                == "progress would regress for cookie "@ + text::hex0x(cookie.0 as nat) + ": have "@
                + ("Extent { offset: "@ + text::dec(have.offset as nat) + ", length: "@ + text::dec(
                have.length as nat,
            ) + " }"@) + ", got "@ + ("Extent { offset: "@ + text::dec(got.offset as nat)
                + ", length: "@ + text::dec(got.length as nat) + " }"@),
            StoreErrorView::TerminalTransition { cookie, from } => s@ == "cookie "@ + text::hex0x(
                cookie.0 as nat,
            ) + " cannot transition out of terminal state "@ + from.debug(),
            StoreErrorView::Backend(m) => s@ == "backend error: "@ + m,
        },
{
}

/// A failure of the copytool names the operation and the errno.
pub proof fn lemma_hsm_words(e: &HsmError, s: String)
    requires
        call_ensures(HsmError::to_string, (e,), s),
    ensures
        match e@ {
            HsmErrorView::Register { mount, errno } => s@ == "copytool registration on "@ + mount
                + " failed: errno "@ + text::dec_int(errno as int),
            HsmErrorView::Recv(n) => s@ == "copytool recv failed: errno "@ + text::dec_int(n as int),
            HsmErrorView::Begin(n) => s@ == "hsm_action_begin failed: errno "@ + text::dec_int(
                n as int,
            ),
            HsmErrorView::End(n) => s@ == "hsm_action_end failed: errno "@ + text::dec_int(n as int),
            HsmErrorView::Progress(n) => s@ == "hsm_action_progress failed: errno "@
                + text::dec_int(n as int),
            HsmErrorView::MalformedActionList { reason } => s@ == "malformed hsm_action_list: "@
                + reason,
            HsmErrorView::UnknownActionKind(v) => s@ == "unknown wire action kind "@ + text::dec(
                v as nat,
            ),
            HsmErrorView::UnknownCookie(c) => s@ == "no in-flight action for cookie "@
                + text::hex0x(c as nat),
            HsmErrorView::EmptyArchiveList => s@ == "register requires at least one archive id"@,
        },
{
}

/// The daemon says where a failure came from, and then what was said there.
pub proof fn lemma_daemon_words(e: &DaemonError, s: String, below: String)
    requires
        call_ensures(DaemonError::to_string, (e,), s),
        *e is Store ==> call_ensures(StoreError::to_string, (&(*e)->Store_0,), below),
        *e is Hsm ==> call_ensures(HsmError::to_string, (&(*e)->Hsm_0,), below),
    ensures
        *e is Store ==> s@ == "store error: "@ + below@,
        *e is Hsm ==> s@ == "hsm error: "@ + below@,
        match e@ {
            DaemonErrorView::ChannelClosed(t) => s@ == "channel closed: "@ + t,
            DaemonErrorView::NoCapableAgent(a) => s@ == "no agent registered for archive_id "@
                + text::dec(a as nat),
            DaemonErrorView::Io(t) => s@ == "io error: "@ + t,
            _ => true,
        },
{
}

/// A failure with attributes names the file, and what is wrong there.
pub proof fn lemma_attribute_words(e: &XattrError, s: String)
    requires
        call_ensures(XattrError::to_string, (e,), s),
    ensures
        match e@ {
            XattrErrorView::Io { op, path, source } => s@ == "xattr "@ + op + " on "@ + path + ": "@
                + source,
            XattrErrorView::BadHash { path, reason } => s@ == "hash xattr on "@ + path
                + " is not 32 bytes of hex: "@ + reason,
            XattrErrorView::BadUtf8 { name, path } => s@ == "xattr "@ + name + " on "@ + path
                + " is not valid UTF-8"@,
            XattrErrorView::Partial { path, present, missing } => s@ == "partial xattr set on "@
                + path + ": "@ + text::dec(present as nat) + " present, missing ["@
                + xattr_store::quoted(missing) + "]"@,
        },
{
}

/// Quoted names stand one behind the other with a comma between each two.
pub proof fn lemma_quoted(names: Seq<Seq<char>>, more: Seq<char>)
    ensures
        names.len() == 0 ==> xattr_store::quoted(names).len() == 0,
        names.len() == 0 ==> xattr_store::quoted(names.push(more)) == text::debug_text(more),
        names.len() > 0 ==> xattr_store::quoted(names.push(more)) == xattr_store::quoted(names)
            + ", "@ + text::debug_text(more),
{
    assert(names.push(more).drop_last() =~= names);
}

/// A text that is not hexadecimal is said to be so with the character and its place, or
/// its length.
pub proof fn lemma_hex_words(e: &HexError, s: String)
    requires
        call_ensures(HexError::to_string, (e,), s),
    ensures
        match *e {
            HexError::InvalidCharacter { c, index } => s@ == "Invalid character "@
                + crate::ctl::hash::char_text(c) + " at position "@ + text::dec(index as nat),
            HexError::OddLength => s@ == "Odd number of digits"@,
            HexError::InvalidLength => s@ == "Invalid string length"@,
        },
{
}

/// Only what decodes to 32 bytes is a hash, and it is those bytes; anything else is
/// refused with the reason.
pub proof fn lemma_check_hash(
    d: Result<Vec<u8>, HexError>,
    n: usize,
    r: Result<[u8; 32], String>,
    said: String,
)
    requires
        call_ensures(check_hash32, (d, n), r),
        d is Err ==> call_ensures(HexError::to_string, (&d->Err_0,), said),
    ensures
        r is Ok <==> d is Ok && d->Ok_0@.len() == 32,
        r is Ok ==> r->Ok_0@ == d->Ok_0@,
        d is Err ==> r->Err_0@ == "invalid hex: "@ + said@,
        d is Ok && d->Ok_0@.len() != 32 ==> r->Err_0@ == "expected 32 bytes (64 hex chars), got "@
            + text::dec((n / 2) as nat) + " bytes"@,
{
}

// ---------------------------------------------------------------------------
// Pending paths
// ---------------------------------------------------------------------------

/// What was put in is found, as it was put in last; nothing else changes.
pub proof fn lemma_pending_insert(
    p: &mut PendingPaths,
    cookie: Cookie,
    path: String,
    kind: ActionKind,
    other: Cookie,
    found: Option<(String, ActionKind)>,
    was: Option<(String, ActionKind)>,
    now: Option<(String, ActionKind)>,
)
    requires
        call_ensures(PendingPaths::insert, (p, cookie, path, kind), ()),
        call_ensures(PendingPaths::get, (final(p), cookie), found),
        call_ensures(PendingPaths::get, (old(p), other), was),
        call_ensures(PendingPaths::get, (final(p), other), now),
    ensures
        found is Some && (found->0).0@ == path@ && (found->0).1 == kind,
        other.0 != cookie.0 ==> (was is Some <==> now is Some),
        other.0 != cookie.0 && was is Some ==> (was->0).0@ == (now->0).0@ && (was->0).1 == (now->0).1,
{
}

/// What is taken out is gone, and the kind it had is handed out; nothing else changes.
pub proof fn lemma_pending_remove(
    p: &mut PendingPaths,
    cookie: Cookie,
    r: Option<ActionKind>,
    before: Option<(String, ActionKind)>,
    after: Option<(String, ActionKind)>,
    other: Cookie,
    was: Option<(String, ActionKind)>,
    now: Option<(String, ActionKind)>,
)
    requires
        call_ensures(PendingPaths::remove, (p, cookie), r),
        call_ensures(PendingPaths::get, (old(p), cookie), before),
        call_ensures(PendingPaths::get, (final(p), cookie), after),
        call_ensures(PendingPaths::get, (old(p), other), was),
        call_ensures(PendingPaths::get, (final(p), other), now),
    ensures
        after is None,
        r is Some <==> before is Some,
        r is Some ==> r->0 == (before->0).1,
        other.0 != cookie.0 ==> (was is Some <==> now is Some),
        other.0 != cookie.0 && was is Some ==> (was->0).0@ == (now->0).0@ && (was->0).1 == (now->0).1,
{
}

/// At first nothing is pending.
pub proof fn lemma_pending_new(p: PendingPaths, cookie: Cookie, r: Option<(String, ActionKind)>)
    requires
        call_ensures(PendingPaths::new, (), p),
        call_ensures(PendingPaths::get, (&p, cookie), r),
    ensures
        r is None,
{
}

// ---------------------------------------------------------------------------
// Contexts
// ---------------------------------------------------------------------------

/// Without anything but what it must have, a context is for the whole file, with no
/// paths, no object, no hint, and not cancelled.
pub proof fn lemma_bare_context<P>(
    cookie: Cookie,
    fid: Fid,
    archive: ArchiveId,
    kind: ActionKind,
    progress: P,
    b0: ActionCtxBuilder<P>,
    b1: ActionCtxBuilder<P>,
    b2: ActionCtxBuilder<P>,
    b3: ActionCtxBuilder<P>,
    b4: ActionCtxBuilder<P>,
    b5: ActionCtxBuilder<P>,
    r: ActionCtx<P>,
)
    requires
        call_ensures(ActionCtxBuilder::<P>::new, (), b0),
        call_ensures(ActionCtxBuilder::<P>::cookie, (b0, cookie), b1),
        call_ensures(ActionCtxBuilder::<P>::fid, (b1, fid), b2),
        call_ensures(ActionCtxBuilder::<P>::archive_id, (b2, archive), b3),
        call_ensures(ActionCtxBuilder::<P>::kind, (b3, kind), b4),
        call_ensures(ActionCtxBuilder::<P>::progress, (b4, progress), b5),
        call_ensures(ActionCtxBuilder::<P>::build, (b5,), r),
    ensures
        r.cookie == cookie && r.fid == fid && r.archive_id == archive && r.kind == kind,
        r.progress == progress,
        r.extent.offset == 0 && r.extent.length == u64::MAX,
        r.primary_path@.len() == 0,
        r.write_path is None && r.existing is None && r.lustre_path is None,
        payload::bytes_of(r.hint).len() == 0,
        !crate::sdk::ctx::tripped(r.cancel),
{
}

/// What is set is what the context holds, and setting one thing leaves the others as
/// they were.
pub proof fn lemma_set_context<P>(
    b: ActionCtxBuilder<P>,
    extent: Extent,
    primary: String,
    write: String,
    object: BackendObject,
    below: String,
    hint: Bytes,
    token: CancellationToken,
    b1: ActionCtxBuilder<P>,
    b2: ActionCtxBuilder<P>,
    b3: ActionCtxBuilder<P>,
    b4: ActionCtxBuilder<P>,
    b5: ActionCtxBuilder<P>,
    b6: ActionCtxBuilder<P>,
    b7: ActionCtxBuilder<P>,
    plain: ActionCtx<P>,
    r: ActionCtx<P>,
)
    requires
        call_ensures(ActionCtxBuilder::<P>::extent, (b, extent), b1),
        call_ensures(ActionCtxBuilder::<P>::primary_path, (b1, primary), b2),
        call_ensures(ActionCtxBuilder::<P>::write_path, (b2, write), b3),
        call_ensures(ActionCtxBuilder::<P>::existing, (b3, object), b4),
        call_ensures(ActionCtxBuilder::<P>::lustre_path, (b4, below), b5),
        call_ensures(ActionCtxBuilder::<P>::hint, (b5, hint), b6),
        call_ensures(ActionCtxBuilder::<P>::cancel, (b6, token), b7),
        call_ensures(ActionCtxBuilder::<P>::build, (b7,), r),
        call_ensures(ActionCtxBuilder::<P>::build, (b,), plain),
    ensures
        r.extent == extent,
        r.primary_path@ == primary@,
        r.write_path == Some(write),
        r.existing == Some(object),
        r.lustre_path == Some(below),
        payload::bytes_of(r.hint) == payload::bytes_of(hint),
        r.cancel == token,
        r.cookie == plain.cookie && r.fid == plain.fid && r.archive_id == plain.archive_id && r.kind
            == plain.kind && r.progress == plain.progress,
{
}

// ---------------------------------------------------------------------------
// The copytool in memory
// ---------------------------------------------------------------------------

/// A new copytool has nothing to hand out, nothing in flight, and has seen nothing.
pub proof fn lemma_new_copytool(c: MockCopytool, k: u64)
    requires
        call_ensures(MockCopytool::new, (), c),
    ensures
        c@.pending.len() == 0,
        !c@.in_flight.contains_key(k),
        c@.progress_log.len() == 0,
        c@.completions.len() == 0,
{
}

/// A simple request is for the file itself, without a group and without data.
pub proof fn lemma_simple_request(
    c: &mut MockCopytool,
    cookie: Cookie,
    fid: Fid,
    archive: ArchiveId,
    kind: ActionKind,
    extent: Extent,
)
    requires
        call_ensures(MockCopytool::enqueue_simple, (c, cookie, fid, archive, kind, extent), ()),
    ensures
        final(c)@.pending.len() == old(c)@.pending.len() + 1,
        final(c)@.pending.drop_last() == old(c)@.pending,
        ({
            let a = final(c)@.pending.last().action;
            &&& a.cookie == cookie && a.fid == fid && a.dfid == fid && a.archive_id == archive
            &&& a.kind == kind && a.extent == extent && a.gid == 0 && a.data.len() == 0
        }),
        final(c)@.pending.last().fsname == "mock"@,
        final(c)@.in_flight == old(c)@.in_flight,
        final(c)@.progress_log == old(c)@.progress_log,
        final(c)@.completions == old(c)@.completions,
{
    assert(final(c)@.pending.drop_last() =~= old(c)@.pending);
}

/// Ending an action in flight completes it as it was ended, once; ending any other is
/// refused and changes nothing.
pub proof fn lemma_end_once(
    c: &mut MockCopytool,
    cookie: Cookie,
    e: Extent,
    status: EndStatus,
    r: crate::llapi::error::Result<()>,
)
    requires
        call_ensures(<MockCopytool as HasCookieLifecycle>::cookie_end, (c, cookie, e, status), r),
    ensures
        r is Ok <==> old(c)@.in_flight.contains_key(cookie.0),
        r is Ok ==> {
            &&& final(c)@.completions.len() == old(c)@.completions.len() + 1
            &&& final(c)@.completions.drop_last() == old(c)@.completions
            &&& final(c)@.completions.last().cookie == cookie
            &&& final(c)@.completions.last().extent == e
            &&& final(c)@.completions.last().outcome == MockOutcome::Ended(status)
        },
        r is Err ==> final(c)@ == old(c)@ && r->Err_0@ == HsmErrorView::UnknownCookie(cookie.0),
        !final(c)@.in_flight.contains_key(cookie.0),
{
    if r is Ok {
        assert(final(c)@.completions.drop_last() =~= old(c)@.completions);
    }
}

/// What is in flight is listed, each cookie once, and so is what was reported and what is
/// over.
pub proof fn lemma_what_is_seen(
    c: &MockCopytool,
    flying: Vec<Cookie>,
    log: &[(Cookie, Extent)],
    over: &[MockCompletion],
    k: u64,
)
    requires
        call_ensures(MockCopytool::in_flight_cookies, (c,), flying),
        call_ensures(MockCopytool::progress_log, (c,), log),
        call_ensures(MockCopytool::completions, (c,), over),
    ensures
        flying@.contains(Cookie(k)) <==> c@.in_flight.contains_key(k),
        flying@.no_duplicates(),
        log@ == c@.progress_log,
        over@ == c@.completions,
{
}

/// A wire number that is no action's is an unknown kind of that number.
pub proof fn lemma_unknown_number(e: ConvError, h: HsmError)
    requires
        call_ensures(<HsmError as From<ConvError>>::from, (e,), h),
    ensures
        h@ == HsmErrorView::UnknownActionKind(e->UnknownCopytoolAction_0),
{
}

/// A failure of the store or of the copytool is the daemon's failure, as it is.
pub proof fn lemma_daemon_failure(s: StoreError, h: HsmError, a: DaemonError, b: DaemonError)
    requires
        call_ensures(<DaemonError as From<StoreError>>::from, (s,), a),
        call_ensures(<DaemonError as From<HsmError>>::from, (h,), b),
    ensures
        a@ == DaemonErrorView::Store(s@),
        b@ == DaemonErrorView::Hsm(h@),
{
}

/// A builder is asked for in either way, with nothing set.
pub proof fn lemma_builders<P>(a: ActionCtxBuilder<P>, b: ActionCtxBuilder<P>)
    requires
        call_ensures(ActionCtxBuilder::<P>::new, (), a),
        call_ensures(ActionCtx::<P>::builder, (), b),
    ensures
        a == b,
        b.cookie is None && b.fid is None && b.archive_id is None && b.kind is None,
        b.extent is None && b.primary_path is None && b.write_path is None && b.existing is None,
        b.lustre_path is None && b.hint is None && b.progress is None && b.cancel is None,
{
}

/// A reading is so many nanoseconds from the epoch, which is at none.
pub proof fn lemma_reading(n: i128, t: Timestamp, epoch: Timestamp)
    requires
        call_ensures(Timestamp::from_nanos, (n,), t),
        call_ensures(Timestamp::unix_epoch, (), epoch),
    ensures
        t.nanos == n,
        epoch.nanos == 0,
{
}

} // verus!
