//! Settings, and actions from a file.

use crate::daemon::config::{
    default_mode, default_mountpoint, DaemonConfig, HsmdConfig, LogCfg, LogFormat, Mode, XattrNs,
};
use crate::daemon::control;
use crate::daemon::mock_actions;
use crate::daemon::mock_actions::{mock_action, new_lines, MockAction, NewLines};
use crate::daemon::xattr_store::XattrNamespace;
use crate::llapi::lifecycle::ReceivedAction;
use crate::model::time::{Span, Timestamp};
use crate::text;
use vstd::prelude::*;

verus! {

// ---------------------------------------------------------------------------
// Settings
// ---------------------------------------------------------------------------

/// The daemon runs as its file says: as often, with as many at once, on that mount, in
/// that namespace, on files of a real mount exactly if it is live, and with that grace.
pub proof fn lemma_settings(c: &HsmdConfig, d: DaemonConfig, tick: Span, grace: Span)
    requires
        call_ensures(HsmdConfig::to_daemon_config, (c,), d),
        call_ensures(Span::from_millis, (c.scheduler.tick_interval_ms,), tick),
        call_ensures(Span::from_millis, (c.scheduler.grace_ms,), grace),
    ensures
        d.tick_interval == tick,
        d.recovery_grace_period == grace,
        d.max_per_tick == c.scheduler.max_per_tick,
        d.mountpoint@ == c.mountpoint@,
        c.xattr.namespace == XattrNs::Trusted ==> d.xattr_namespace == Some(
            XattrNamespace::Trusted,
        ),
        c.xattr.namespace == XattrNs::User ==> d.xattr_namespace == Some(XattrNamespace::User),
        c.mode == Mode::Live <==> d.use_lustre_fid_path,
{
}

/// A file that says nothing gives the settings that the daemon has without a file, but
/// for the namespace: with a file there always is one, and it is the trusted one.
pub proof fn lemma_silent_file(c: HsmdConfig, d: DaemonConfig, e: DaemonConfig)
    requires
        call_ensures(HsmdConfig::defaults, (), c),
        call_ensures(HsmdConfig::to_daemon_config, (&c,), d),
        call_ensures(DaemonConfig::default, (), e),
    ensures
        d.tick_interval == e.tick_interval,
        d.max_per_tick == e.max_per_tick,
        d.mountpoint@ == e.mountpoint@,
        d.use_lustre_fid_path == e.use_lustre_fid_path,
        d.recovery_grace_period == e.recovery_grace_period,
        d.xattr_namespace == Some(XattrNamespace::Trusted),
        e.xattr_namespace is None,
        d.tick_interval.nanos == 50_000_000,
        d.recovery_grace_period.nanos == 600_000_000_000,
        d.max_per_tick == 32,
        d.mountpoint@ == "/mnt/lustre"@,
{
}

/// What a file says of the log goes before what the environment says, and that before
/// the usual.
pub proof fn lemma_log_filter(c: &LogCfg, environment: Option<String>, r: String)
    requires
        call_ensures(LogCfg::effective_filter, (c, environment), r),
    ensures
        c.filter is Some ==> r@ == c.filter->0@,
        c.filter is None && environment is Some ==> r@ == environment->0@,
        c.filter is None && environment is None ==> r@ == "info"@,
{
}

/// The usual mode and mount point are those of a file that says nothing.
pub proof fn lemma_usual(c: HsmdConfig, m: Mode, p: String)
    requires
        call_ensures(HsmdConfig::defaults, (), c),
        call_ensures(default_mode, (), m),
        call_ensures(default_mountpoint, (), p),
    ensures
        c.mode == m,
        c.mountpoint@ == p@,
        c.store_path is None,
        c.mock_actions_file is None,
        c.log.filter is None,
        c.log.format == LogFormat::Pretty,
        c.transport.socket_path@ == crate::ctl::args::DEFAULT_SOCKET@,
{
}

// ---------------------------------------------------------------------------
// Lengths of time
// ---------------------------------------------------------------------------

/// A second is a thousand milliseconds, and a millisecond a million nanoseconds.
pub proof fn lemma_units(s: u64, ms: u64, n: u128, a: Span, b: Span, c: Span)
    requires
        call_ensures(Span::from_secs, (s,), a),
        call_ensures(Span::from_millis, (ms,), b),
        call_ensures(Span::from_nanos, (n,), c),
    ensures
        ms == 1000 * s ==> a == b,
        n == 1_000_000 * ms ==> b == c,
        c.nanos == n,
{
}

/// What is taken away and what is left make up the whole; more than the whole cannot
/// be taken away.
pub proof fn lemma_less(a: Span, b: Span, r: Span)
    requires
        call_ensures(Span::saturating_sub, (a, b), r),
    ensures
        b.nanos <= a.nanos ==> r.nanos + b.nanos == a.nanos,
        b.nanos > a.nanos ==> r.nanos == 0,
{
}

/// A clock that is after the epoch reads how far after, one that is before it how far
/// before, and one that is out of range the last reading.
pub proof fn lemma_clock(after: bool, n: u128, t: Timestamp, since: Span)
    requires
        call_ensures(Timestamp::from_clock, (after, n), t),
        call_ensures(Timestamp::since_epoch, (t,), since),
    ensures
        n <= i128::MAX && after ==> t.nanos == n && since.nanos == n,
        n <= i128::MAX && !after ==> t.nanos + n == 0 && since.nanos == 0,
        n > i128::MAX ==> t.nanos == i128::MAX,
{
}

// ---------------------------------------------------------------------------
// Actions from a file
// ---------------------------------------------------------------------------

/// An entry asks for what it says: that action on that file in that archive, on so
/// many bytes from the start, or on the whole file where it names none. A kind that is
/// no word for one is refused by name.
pub proof fn lemma_entry(a: &MockAction, r: Result<ReceivedAction, String>, word: &'static str)
    requires
        call_ensures(mock_action, (a,), r),
        r is Ok ==> call_ensures(control::encode_kind, (r->Ok_0.kind,), word),
    ensures
        r is Ok <==> a.kind@ == "archive"@ || a.kind@ == "restore"@ || a.kind@ == "remove"@
            || a.kind@ == "cancel"@,
        r is Ok ==> {
            let x = r->Ok_0;
            &&& word@ == a.kind@
            &&& x.cookie.0 == a.cookie
            &&& x.fid.seq == a.fid_seq && x.fid.oid == a.fid_oid && x.fid.ver == a.fid_ver
            &&& x.dfid == x.fid
            &&& x.archive_id.0 == a.archive_id
            &&& x.extent.offset == 0
            &&& (a.length is None || a.length == Some(0u64)) ==> x.extent.length == u64::MAX
            &&& a.length matches Some(n) ==> (n > 0 ==> x.extent.length == n)
            &&& x.gid == 0
            &&& x@.action.data.len() == 0
            &&& x.fsname@ == "mock"@
        },
        r is Err ==> r->Err_0@ == "unknown kind "@ + text::debug_text(a.kind@),
{
    reveal_strlit("archive");
    reveal_strlit("restore");
    reveal_strlit("remove");
    reveal_strlit("cancel");
}

/// Polling a file gives every entry once: an entry is new exactly if it comes after
/// those that were counted before.
pub proof fn lemma_polls(
    content: &str,
    first: NewLines,
    seen: usize,
    second: NewLines,
    i: int,
)
    requires
        call_ensures(new_lines, (content, 0usize), first),
        call_ensures(new_lines, (content, seen), second),
    ensures
        first.lines@.len() == first.total,
        second.total == first.total,
        seen >= first.total ==> second.lines@.len() == 0,
        seen < first.total ==> second.lines@.len() == first.total - seen,
        seen < first.total && 0 <= i < second.lines@.len() ==> second.lines@[i]@
            == first.lines@[seen + i]@,
{
    let e = mock_actions::entries(content@);
    assert(text::views(first.lines@).len() == first.lines@.len());
    assert(text::views(second.lines@).len() == second.lines@.len());
    if 0 < e.len() {
        assert(e.skip(0) =~= e);
    }
    if seen < first.total && 0 <= i < second.lines@.len() {
        assert(text::views(second.lines@)[i] == second.lines@[i]@);
        assert(text::views(first.lines@)[seen + i] == first.lines@[seen + i]@);
    }
}

/// A namespace of the file is the namespace of that name in the store.
pub proof fn lemma_namespace(n: XattrNs, r: XattrNamespace)
    requires
        call_ensures(<XattrNamespace as From<XattrNs>>::from, (n,), r),
    ensures
        r == XattrNamespace::User <==> n == XattrNs::User,
        r == XattrNamespace::Trusted <==> n == XattrNs::Trusted,
{
}

} // verus!
