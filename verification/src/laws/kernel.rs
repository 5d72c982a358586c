//! The kernel's side: requests as they are read, and outcomes as they are reported.

use crate::llapi::error::{HsmErrorView, Result};
use crate::llapi::layout;
use crate::llapi::layout::ListHead;
use crate::llapi::lifecycle;
use crate::llapi::lifecycle::{EndStatus, HasCookieLifecycle, ReceivedAction, ReceivedView};
use crate::llapi::live;
use crate::llapi::live::{
    action_fd_outcome, begin_outcome, end_outcome, progress_outcome, recv_outcome, register_args,
    register_outcome,
};
use crate::llapi::mock::{MockCopytool, MockOutcome};
use crate::llapi::wire;
use crate::llapi::wire::{align_up, build_hsm_action_item, parse_action_list};
use crate::model::action::ActionView;
use crate::model::{Action, ActionKind, ArchiveId, Cookie, Extent, Fid};
use crate::text;
use crate::uapi::conv;
use crate::uapi::conv::{
    action_kind_from_wire, action_kind_to_wire, cookie_from_wire, cookie_to_wire, extent_from_sys,
    extent_to_sys, fid_from_sys, fid_to_sys, ConvError,
};
use crate::uapi::sys::{hsm_action_item, hsm_extent, lu_fid, HAI_SIZE, HAL_SIZE};
use vstd::prelude::*;

verus! {

// ---------------------------------------------------------------------------
// Records of the interface
// ---------------------------------------------------------------------------

/// A file identifier, an extent and a cookie go over the interface field by field, in
/// both directions.
pub proof fn lemma_records_convert(
    f: Fid,
    s: lu_fid,
    g: Fid,
    e: Extent,
    x: hsm_extent,
    d: Extent,
    c: Cookie,
    n: u64,
    b: Cookie,
)
    requires
        call_ensures(fid_to_sys, (f,), s),
        call_ensures(fid_from_sys, (s,), g),
        call_ensures(extent_to_sys, (e,), x),
        call_ensures(extent_from_sys, (x,), d),
        call_ensures(cookie_to_wire, (c,), n),
        call_ensures(cookie_from_wire, (n,), b),
    ensures
        s.f_seq == f.seq && s.f_oid == f.oid && s.f_ver == f.ver,
        g == f,
        x.offset == e.offset && x.length == e.length,
        d == e,
        n == c.0,
        b == c,
{
}

/// The numbers of the kinds on the interface, in both directions; no other number is a
/// kind.
pub proof fn lemma_kinds_convert(
    k: ActionKind,
    n: u32,
    v: u32,
    r: core::result::Result<ActionKind, ConvError>,
)
    requires
        call_ensures(action_kind_to_wire, (k,), n),
        call_ensures(action_kind_from_wire, (v,), r),
    ensures
        k == ActionKind::Archive <==> n == 20,
        k == ActionKind::Restore <==> n == 21,
        k == ActionKind::Remove <==> n == 22,
        k == ActionKind::Cancel <==> n == 23,
        20 <= n <= 23,
        v == n ==> r == Ok::<ActionKind, ConvError>(k),
        r is Ok <==> 20 <= v <= 23,
        r is Err ==> r == Err::<ActionKind, ConvError>(ConvError::UnknownCopytoolAction(v)),
{
}

// ---------------------------------------------------------------------------
// Reading requests
// ---------------------------------------------------------------------------

/// A list that was laid out is read as what was laid out: every request, in order,
/// with all that it carries.
pub proof fn lemma_list_is_read(
    b: &[u8],
    h: ListHead,
    fsname: Seq<char>,
    actions: Seq<ActionView>,
    r: Result<Vec<ReceivedAction>>,
    i: int,
)
    requires
        layout::fits(h, fsname, actions),
        b@ == layout::list_bytes(h, fsname, actions),
        call_ensures(parse_action_list, (b,), r),
    ensures
        r is Ok,
        r->Ok_0@.len() == actions.len(),
        0 <= i < actions.len() ==> r->Ok_0@[i]@.action == actions[i] && r->Ok_0@[i]@.fsname
            == fsname,
{
    layout::lemma_list_round_trip(h, fsname, actions);
    let v = lifecycle::received_views(r->Ok_0@);
    assert(v.len() == r->Ok_0@.len());
    if 0 <= i < actions.len() {
        assert(v[i] == r->Ok_0@[i]@);
    }
}

/// What is read has as many requests as the list says, all for the archive that the
/// list is for.
proof fn lemma_items_read(
    b: Seq<u8>,
    at: int,
    i: int,
    count: int,
    archive: ArchiveId,
    fsname: Seq<char>,
)
    ensures
        wire::parse_items(b, at, i, count, archive, fsname) matches Ok(s) ==> {
            &&& s.len() == (if i < count {
                count - i
            } else {
                0
            })
            &&& forall|j: int|
                0 <= j < s.len() ==> (#[trigger] s[j]).action.archive_id == archive && s[j].fsname
                    == fsname
            &&& i < count ==> at + 72 <= b.len()
        },
    decreases count - i,
{
    if i < count && at + HAI_SIZE <= b.len() {
        let h = wire::item_at(b, at);
        lemma_items_read(
            b,
            at + wire::aligned(h.hai_len as int, 8),
            i + 1,
            count,
            archive,
            fsname,
        );
        if wire::parse_items(b, at, i, count, archive, fsname) is Ok {
            let s = wire::parse_items(b, at, i, count, archive, fsname)->Ok_0;
            let rest = wire::parse_items(
                b,
                at + wire::aligned(h.hai_len as int, 8),
                i + 1,
                count,
                archive,
                fsname,
            )->Ok_0;
            assert forall|j: int| 0 <= j < s.len() implies (#[trigger] s[j]).action.archive_id
                == archive && s[j].fsname == fsname by {
                if j > 0 {
                    assert(s[j] == rest[j - 1]);
                }
            }
        }
    }
}

/// A list is read as a whole or not at all: as many requests as it says, for the
/// archive and the filesystem it names. A list that is too short for its fixed part,
/// or whose name does not end, is refused.
pub proof fn lemma_read_or_refused(b: &[u8], r: Result<Vec<ReceivedAction>>, i: int)
    requires
        call_ensures(parse_action_list, (b,), r),
    ensures
        b@.len() < 32 ==> r is Err,
        (forall|j: int| 32 <= j < b@.len() ==> #[trigger] b@[j] != 0) ==> r is Err,
        r matches Ok(v) ==> {
            &&& v@.len() == wire::le(b@, 4, 4)
            &&& 0 <= i < v@.len() ==> v@[i].archive_id.0 == wire::le(b@, 24, 4) as u32
        },
        r matches Err(e) ==> e@ is MalformedActionList || e@ is UnknownActionKind,
{
    let nul = wire::nul_at(b@, HAL_SIZE as int);
    lemma_nul(b@, HAL_SIZE as int);
    let name = b@.subrange(HAL_SIZE as int, nul);
    let at = HAL_SIZE + wire::aligned(nul - HAL_SIZE + 1, 8);
    let count = wire::le(b@, 4, 4) as int;
    let archive = ArchiveId(wire::le(b@, 24, 4) as u32);
    let fsname = vstd::utf8::decode_utf8(name);
    lemma_items_read(b@, at, 0, count, archive, fsname);
    lemma_items_error(b@, at, 0, count, archive, fsname);
    match r {
        Ok(v) => {
            let s = lifecycle::received_views(v@);
            assert(s.len() == v@.len());
            if 0 <= i < v@.len() {
                assert(s[i] == v@[i]@);
            }
        },
        Err(_) => {},
    }
}

/// The first NUL is one, and none comes before it.
proof fn lemma_nul(b: Seq<u8>, at: int)
    requires
        0 <= at,
    ensures
        wire::nul_at(b, at) < b.len() ==> at <= wire::nul_at(b, at) && b[wire::nul_at(b, at)] == 0,
    decreases b.len() - at,
{
    if at < b.len() && b[at] != 0 {
        lemma_nul(b, at + 1);
    }
}

/// What a bad item is answered with.
proof fn lemma_items_error(
    b: Seq<u8>,
    at: int,
    i: int,
    count: int,
    archive: ArchiveId,
    fsname: Seq<char>,
)
    ensures
        wire::parse_items(b, at, i, count, archive, fsname) matches Err(e)
            ==> e is MalformedActionList || e is UnknownActionKind,
    decreases count - i,
{
    if i < count && at + HAI_SIZE <= b.len() {
        let h = wire::item_at(b, at);
        lemma_items_error(
            b,
            at + wire::aligned(h.hai_len as int, 8),
            i + 1,
            count,
            archive,
            fsname,
        );
    }
}

/// The first item of what is left decides whether the rest is read: one that does not
/// fit, that is shorter than its fixed part, or whose kind is none, refuses the list.
pub proof fn lemma_bad_item(
    b: Seq<u8>,
    at: int,
    i: int,
    count: int,
    archive: ArchiveId,
    fsname: Seq<char>,
)
    requires
        0 <= i < count,
        0 <= at,
    ensures
        ({
            let r = wire::parse_items(b, at, i, count, archive, fsname);
            let len = wire::le(b, at, 4) as u32;
            let kind = wire::le(b, at + 4, 4) as u32;
            &&& at + 72 > b.len() ==> r is Err && r->Err_0 is MalformedActionList
            &&& at + 72 <= b.len() && (len < 72 || at + len > b.len()) ==> r is Err
                && r->Err_0 is MalformedActionList
            &&& at + 72 <= b.len() && 72 <= len && at + len <= b.len() && !(20 <= kind <= 23) ==> r
                is Err && r->Err_0 == HsmErrorView::UnknownActionKind(kind)
        }),
{
}

/// Rounding up gives the next multiple, and nothing if there is nothing to round.
pub proof fn lemma_rounding(value: usize, to: usize, r: usize)
    requires
        to > 0,
        call_ensures(align_up, (value, to), r),
    ensures
        r as int % to as int == 0,
        value <= r < value + to,
        value as int % to as int == 0 ==> r == value,
{
    if value as int % to as int == 0 {
        let t = to as int;
        let q = value as int / t;
        let p = r as int / t;
        vstd::arithmetic::div_mod::lemma_fundamental_div_mod(value as int, t);
        vstd::arithmetic::div_mod::lemma_fundamental_div_mod(r as int, t);
        assert(p == q) by (nonlinear_arith)
            requires
                t > 0,
                t * q <= t * p < t * q + t,
        ;
    }
}

/// The fixed part that begins an action carries all of the action but its data, and
/// is as long as it says.
pub proof fn lemma_begin_item(a: &ReceivedAction, r: hsm_action_item, kind: u32)
    requires
        call_ensures(build_hsm_action_item, (a,), r),
        call_ensures(action_kind_to_wire, (a.kind,), kind),
    ensures
        r.hai_len == 72,
        r.hai_action == kind,
        r.hai_cookie == a.cookie.0,
        r.hai_gid == a.gid,
        r.hai_fid.f_seq == a.fid.seq && r.hai_fid.f_oid == a.fid.oid && r.hai_fid.f_ver
            == a.fid.ver,
        r.hai_dfid.f_seq == a.dfid.seq && r.hai_dfid.f_oid == a.dfid.oid && r.hai_dfid.f_ver
            == a.dfid.ver,
        r.hai_extent.offset == a.extent.offset && r.hai_extent.length == a.extent.length,
{
}

/// The action of a request is what was requested.
pub proof fn lemma_action_of_request(a: ReceivedAction, r: Action)
    requires
        call_ensures(ReceivedAction::into_action, (a,), r),
    ensures
        r.cookie == a.cookie,
        r.fid == a.fid,
        r.dfid == a.dfid,
        r.archive_id == a.archive_id,
        r.kind == a.kind,
        r.extent == a.extent,
        r.gid == a.gid,
        r@.data == a@.action.data,
{
}

// ---------------------------------------------------------------------------
// Outcomes
// ---------------------------------------------------------------------------

/// The code of an outcome: none on success, its own on failure, `ECANCELED` when
/// cancelled.
pub proof fn lemma_end_codes(s: EndStatus, rc: i32)
    requires
        call_ensures(EndStatus::errno, (s,), rc),
    ensures
        s is Success ==> rc == 0,
        s is Cancelled ==> rc == 125,
        s matches EndStatus::Failed(n) ==> rc == n,
{
}

/// An archive's number goes to the kernel with its bits.
pub proof fn lemma_archive_bits(x: u32)
    ensures
        x <= i32::MAX ==> live::c_int(x) == x,
        x > i32::MAX ==> live::c_int(x) == x - 0x1_0000_0000,
{
}

/// What a copytool registers with: all archives that are asked for, in order. No
/// archive at all, and a mount point that is no C string, are refused.
pub proof fn lemma_register_args(
    mount: &str,
    archives: &[ArchiveId],
    r: Result<Vec<i32>>,
    i: int,
)
    requires
        call_ensures(register_args, (mount, archives), r),
    ensures
        r is Ok <==> archives@.len() > 0 && !mount@.contains('\0'),
        archives@.len() == 0 ==> r is Err && r->Err_0@ is EmptyArchiveList,
        archives@.len() > 0 && mount@.contains('\0') ==> r is Err && r->Err_0@
            == (HsmErrorView::Register { mount: mount@, errno: 22 }),
        r is Ok ==> r->Ok_0@.len() == archives@.len(),
        r is Ok && 0 <= i < archives@.len() && archives@[i].0 <= i32::MAX ==> r->Ok_0@[i]
            == archives@[i].0,
{
    if r is Ok {
        assert(live::c_ints(archives@).len() == archives@.len());
    }
}

/// A negative answer of the kernel is an error with that code; an answer without what
/// was asked for is an error too; any other is success.
pub proof fn lemma_kernel_answers(
    mount: &str,
    rc: i32,
    handle: bool,
    registered: Result<()>,
    received: Result<()>,
    begun: Result<()>,
    advanced: Result<()>,
    ended: Result<()>,
)
    requires
        rc > i32::MIN,
        call_ensures(register_outcome, (mount, rc, handle), registered),
        call_ensures(recv_outcome, (rc, handle), received),
        call_ensures(begin_outcome, (rc, handle), begun),
        call_ensures(progress_outcome, (rc,), advanced),
        call_ensures(end_outcome, (rc,), ended),
    ensures
        registered is Ok <==> rc >= 0 && handle,
        received is Ok <==> rc >= 0 && handle,
        begun is Ok <==> rc >= 0 && handle,
        advanced is Ok <==> rc >= 0,
        ended is Ok <==> rc >= 0,
        rc < 0 ==> {
            &&& registered->Err_0@ is Register && registered->Err_0@->Register_errno + rc == 0
                && registered->Err_0@->mount == mount@
            &&& received->Err_0@ is Recv && received->Err_0@->Recv_0 + rc == 0
            &&& begun->Err_0@ is Begin && begun->Err_0@->Begin_0 + rc == 0
            &&& advanced->Err_0@ is Progress && advanced->Err_0@->Progress_0 + rc == 0
            &&& ended->Err_0@ is End && ended->Err_0@->End_0 + rc == 0
        },
        rc >= 0 && !handle ==> {
            &&& registered->Err_0@ == (HsmErrorView::Register { mount: mount@, errno: 22 })
            &&& received->Err_0@ is MalformedActionList
            &&& begun->Err_0@ == HsmErrorView::Begin(22)
        },
{
}

/// A descriptor is handed on as it is; a negative one is an error with that code.
pub proof fn lemma_descriptor(fd: i32, r: Result<i32>)
    requires
        fd > i32::MIN,
        call_ensures(action_fd_outcome, (fd,), r),
    ensures
        fd >= 0 ==> r is Ok && r->Ok_0 == fd,
        fd < 0 ==> r is Err && r->Err_0@ is Begin && r->Err_0@->Begin_0 + fd == 0,
{
}

// ---------------------------------------------------------------------------
// The copytool in memory
// ---------------------------------------------------------------------------

/// What is enqueued is received, in order and once.
pub proof fn lemma_mock_receives(
    a: &mut MockCopytool,
    b: &mut MockCopytool,
    x: ReceivedAction,
    done: (),
    r: Result<Vec<ReceivedAction>>,
)
    requires
        call_ensures(MockCopytool::enqueue, (a, x), done),
        *old(b) == *final(a),
        call_ensures(MockCopytool::recv, (b,), r),
    ensures
        r is Ok,
        lifecycle::received_views(r->Ok_0@) == old(a)@.pending.push(x@),
        final(b)@.pending.len() == 0,
        final(b)@.in_flight == old(a)@.in_flight,
        final(b)@.progress_log == old(a)@.progress_log,
        final(b)@.completions == old(a)@.completions,
{
}

/// An action that is begun and ended has completed once, as it was ended; what was in
/// flight besides still is.
pub proof fn lemma_mock_completes(
    before: MockCopytool,
    begun: MockCopytool,
    after: MockCopytool,
    cookie: Cookie,
    e: Extent,
    s: EndStatus,
    r: Result<()>,
    x: u64,
)
    requires
        !before@.in_flight.contains_key(cookie.0),
        begun@ == before@.begun(cookie),
        MockCopytool::ended(begun, after, cookie, e, s, r),
    ensures
        r is Ok,
        after@.completions.len() == before@.completions.len() + 1,
        after@.completions.last().cookie == cookie,
        after@.completions.last().extent == e,
        after@.completions.last().outcome == MockOutcome::Ended(s),
        after@.completions.drop_last() == before@.completions,
        !after@.in_flight.contains_key(cookie.0),
        x != cookie.0 ==> (after@.in_flight.contains_key(x) <==> before@.in_flight.contains_key(x)),
        after@.pending == before@.pending,
        after@.progress_log == before@.progress_log,
{
    assert(after@.completions.drop_last() =~= before@.completions);
}

/// Progress on an action in flight is logged and remembered, unless it goes back; on
/// any other action it is refused. A refused update changes nothing.
pub proof fn lemma_mock_progress(
    before: MockCopytool,
    after: MockCopytool,
    cookie: Cookie,
    e: Extent,
    r: Result<()>,
)
    requires
        MockCopytool::progressed(before, after, cookie, e, r),
    ensures
        r is Ok <==> before@.in_flight.contains_key(cookie.0) && before@.in_flight[cookie.0].offset
            <= e.offset,
        r is Ok ==> after@.progress_log == before@.progress_log.push((cookie, e))
            && after@.in_flight == before@.in_flight.insert(cookie.0, e),
        r is Err ==> after@ == before@,
        r is Err && before@.in_flight.contains_key(cookie.0) ==> r->Err_0@
            == HsmErrorView::Progress(22),
        r is Err && !before@.in_flight.contains_key(cookie.0) ==> r->Err_0@
            == HsmErrorView::UnknownCookie(cookie.0),
        after@.pending == before@.pending,
        after@.completions == before@.completions,
{
}

/// An action that is given up has completed as abandoned, with nothing reported.
pub proof fn lemma_mock_abandon(before: MockCopytool, after: MockCopytool, cookie: Cookie)
    requires
        MockCopytool::abandoned(before, after, cookie),
    ensures
        before@.in_flight.contains_key(cookie.0) ==> {
            &&& after@.completions.len() == before@.completions.len() + 1
            &&& after@.completions.last().cookie == cookie
            &&& after@.completions.last().outcome == MockOutcome::Abandoned
            &&& after@.completions.last().extent.offset == 0
            &&& after@.completions.last().extent.length == 0
            &&& !after@.in_flight.contains_key(cookie.0)
        },
        !before@.in_flight.contains_key(cookie.0) ==> after@ == before@,
        after@.pending == before@.pending,
        after@.progress_log == before@.progress_log,
{
}

// ---------------------------------------------------------------------------
// Why a list is refused
// ---------------------------------------------------------------------------

/// Where the first NUL is.
proof fn lemma_nul_is_at(b: Seq<u8>, at: int, n: int)
    requires
        0 <= at <= n <= b.len(),
        forall|j: int| at <= j < n ==> #[trigger] b[j] != 0,
        n < b.len() ==> b[n] == 0,
    ensures
        wire::nul_at(b, at) == n,
    decreases n - at,
{
    if at < n {
        lemma_nul_is_at(b, at + 1, n);
    }
}

/// A list that cannot be read at all is refused with the reason: how short it is, in how
/// many bytes its name does not end, or that its name is no text.
pub proof fn lemma_list_reasons(b: &[u8], r: Result<Vec<ReceivedAction>>, n: int)
    requires
        call_ensures(parse_action_list, (b,), r),
        b@.len() >= 32 ==> 32 <= n <= b@.len(),
        forall|j: int| 32 <= j < n ==> #[trigger] b@[j] != 0,
        n < b@.len() ==> b@[n] == 0,
    ensures
        b@.len() < 32 ==> r is Err && r->Err_0@ == (HsmErrorView::MalformedActionList {
            reason: "buffer ("@ + text::dec(b@.len())
                + " B) shorter than fixed hsm_action_list prefix"@,
        }),
        b@.len() >= 32 && n == b@.len() ==> r is Err && r->Err_0@
            == (HsmErrorView::MalformedActionList {
            reason: "hal_fsname has no NUL terminator within "@ + text::dec(
                (b@.len() - 32) as nat,
            ) + " bytes"@,
        }),
        b@.len() >= 32 && n < b@.len() && !vstd::utf8::valid_utf8(b@.subrange(32, n)) ==> r is Err
            && r->Err_0@ == (HsmErrorView::MalformedActionList {
            reason: "hal_fsname is not utf-8: "@ + text::utf8_error_text(b@.subrange(32, n)),
        }),
{
    if b@.len() >= 32 {
        lemma_nul_is_at(b@, 32, n);
    }
}

/// An item that does not fit is refused with its number, and with where it begins or how
/// long it claims to be.
pub proof fn lemma_item_reasons(
    b: Seq<u8>,
    at: int,
    i: int,
    count: int,
    archive: ArchiveId,
    fsname: Seq<char>,
)
    requires
        0 <= i < count,
        0 <= at,
    ensures
        ({
            let r = wire::parse_items(b, at, i, count, archive, fsname);
            let len = wire::le(b, at, 4) as u32;
            &&& at + 72 > b.len() ==> r->Err_0 == (HsmErrorView::MalformedActionList {
                reason: "hai #"@ + text::dec(i as nat) + " prefix exceeds buffer ("@ + text::dec(
                    at as nat,
                ) + " > "@ + text::dec(b.len()) + ")"@,
            })
            &&& at + 72 <= b.len() && (len < 72 || at + len > b.len()) ==> r->Err_0 == (
            HsmErrorView::MalformedActionList {
                reason: "hai #"@ + text::dec(i as nat) + " hai_len="@ + text::dec(len as nat)
                    + " invalid"@,
            })
        }),
{
}

/// What is read from an item that fits, and from what is left.
proof fn lemma_item_step(
    b: Seq<u8>,
    at: int,
    i: int,
    count: int,
    archive: ArchiveId,
    fsname: Seq<char>,
    m: int,
    kind: ActionKind,
)
    requires
        0 <= i < count,
        at + 72 <= b.len(),
        72 <= wire::item_at(b, at).hai_len,
        at + wire::item_at(b, at).hai_len <= b.len(),
        conv::wire_kind(wire::item_at(b, at).hai_action) == Some(kind),
        m % 8 == 0,
        wire::item_at(b, at).hai_len <= m < wire::item_at(b, at).hai_len + 8,
    ensures
        wire::parse_items(b, at, i, count, archive, fsname) == (match wire::parse_items(
            b,
            at + m,
            i + 1,
            count,
            archive,
            fsname,
        ) {
            Ok(rest) => Ok::<Seq<ReceivedView>, HsmErrorView>(
                seq![wire::received_at(b, at, archive, fsname, kind)] + rest,
            ),
            Err(e) => Err(e),
        }),
{
    let n: int = wire::item_at(b, at).hai_len as int;
    wire::lemma_aligned(n, 8);
    let w: int = wire::aligned(n, 8);
    assert(w == m) by {
        assert(w % 8 == 0 && m % 8 == 0 && n <= w < n + 8 && n <= m < n + 8);
    }
}

/// An item that fits is one request, made of the item's own fields, and what is left is
/// read from the next multiple of eight bytes on.
pub proof fn lemma_good_item(
    b: Seq<u8>,
    at: int,
    i: int,
    count: int,
    archive: ArchiveId,
    fsname: Seq<char>,
    m: int,
    kind: ActionKind,
)
    requires
        0 <= i < count,
        at + 72 <= b.len(),
        72 <= wire::item_at(b, at).hai_len,
        at + wire::item_at(b, at).hai_len <= b.len(),
        conv::wire_kind(wire::item_at(b, at).hai_action) == Some(kind),
        m % 8 == 0,
        wire::item_at(b, at).hai_len <= m < wire::item_at(b, at).hai_len + 8,
    ensures
        ({
            let r = wire::parse_items(b, at, i, count, archive, fsname);
            let rest = wire::parse_items(b, at + m, i + 1, count, archive, fsname);
            let h = wire::item_at(b, at);
            &&& r is Ok <==> rest is Ok
            &&& r is Err ==> r->Err_0 == rest->Err_0
            &&& r is Ok ==> {
                let x = r->Ok_0[0];
                &&& r->Ok_0.len() == rest->Ok_0.len() + 1
                &&& r->Ok_0.drop_first() == rest->Ok_0
                &&& x.fsname == fsname
                &&& x.action.archive_id == archive
                &&& x.action.kind == kind
                &&& x.action.data == b.subrange(at + 72, at + h.hai_len)
                &&& x.action.fid.seq == h.hai_fid.f_seq && x.action.fid.oid == h.hai_fid.f_oid
                    && x.action.fid.ver == h.hai_fid.f_ver
                &&& x.action.dfid.seq == h.hai_dfid.f_seq && x.action.dfid.oid == h.hai_dfid.f_oid
                    && x.action.dfid.ver == h.hai_dfid.f_ver
                &&& x.action.extent.offset == h.hai_extent.offset && x.action.extent.length
                    == h.hai_extent.length
                &&& x.action.cookie.0 == h.hai_cookie
                &&& x.action.gid == h.hai_gid
            }
        }),
{
    lemma_item_step(b, at, i, count, archive, fsname, m, kind);
    let r = wire::parse_items(b, at, i, count, archive, fsname);
    let rest = wire::parse_items(b, at + m, i + 1, count, archive, fsname);
    if r is Ok {
        assert(r->Ok_0.drop_first() =~= rest->Ok_0);
    }
}

/// The fields of an item by their places.
pub proof fn lemma_item_places(b: Seq<u8>, at: int)
    ensures
        ({
            let h = wire::item_at(b, at);
            &&& h.hai_len == wire::le(b, at, 4) as u32
            &&& h.hai_action == wire::le(b, at + 4, 4) as u32
            &&& h.hai_fid == wire::fid_at(b, at + 8)
            &&& h.hai_dfid == wire::fid_at(b, at + 24)
            &&& h.hai_extent.offset == wire::le(b, at + 40, 8) as u64
            &&& h.hai_extent.length == wire::le(b, at + 48, 8) as u64
            &&& h.hai_cookie == wire::le(b, at + 56, 8) as u64
            &&& h.hai_gid == wire::le(b, at + 64, 8) as u64
        }),
        wire::fid_at(b, at).f_seq == wire::le(b, at, 8) as u64,
        wire::fid_at(b, at).f_oid == wire::le(b, at + 8, 4) as u32,
        wire::fid_at(b, at).f_ver == wire::le(b, at + 12, 4) as u32,
{
}

/// Numbers are little endian: the first byte counts least, and each byte 256 times what
/// the one before it does.
pub proof fn lemma_little_endian(b: Seq<u8>, at: int, n: nat)
    ensures
        wire::le(b, at, 1) == b[at],
        n > 0 ==> wire::le(b, at, n) % 256 == b[at],
        n > 0 ==> wire::le(b, at, n) / 256 == wire::le(b, at + 1, (n - 1) as nat),
{
    reveal_with_fuel(wire::le, 2);
}

} // verus!
