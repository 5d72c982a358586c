//! Picking up where a stopped daemon left off.

use crate::daemon::dispatch;
use crate::model::action::{ActionRecordView, ActionView, ArStateView};
use crate::model::{Action, ActionKind, ArState, Cookie, Span, Timestamp};
use crate::scheduler::strategy;
use crate::scheduler::strategy::Scheduler;
use crate::store::action_store;
use crate::store::action_store::{ActionStore, Records};
use crate::store::error::{StoreError, StoreResult};
use vstd::prelude::*;

verus! {

/// An action that some agent was running when the daemon stopped. The agent may
/// still come back with it.
#[derive(Debug, PartialEq, Eq)]
pub struct Watch {
    /// The action.
    pub action: Action,
    /// When it was started (millis since UNIX epoch).
    pub since_unix_ms: u64,
}

/// Model of [`Watch`].
#[verifier::ext_equal]
pub struct WatchView {
    pub action: ActionView,
    pub since_unix_ms: u64,
}

impl View for Watch {
    type V = WatchView;

    open spec fn view(&self) -> WatchView {
        WatchView { action: self.action@, since_unix_ms: self.since_unix_ms }
    }
}

/// The models of a list of watches.
pub open spec fn watch_views(s: Seq<Watch>) -> Seq<WatchView> {
    s.map_values(|w: Watch| w@)
}

/// Records in a state that nothing leaves.
pub open spec fn finished() -> spec_fn(ActionRecordView) -> bool {
    |r: ActionRecordView| r.state.terminal()
}

/// Records that have not finished.
pub open spec fn unfinished() -> spec_fn(ActionRecordView) -> bool {
    |r: ActionRecordView| !r.state.terminal()
}

/// The actions of the waiting records of a list.
pub open spec fn waiting_actions(s: Seq<ActionRecordView>) -> Seq<ActionView> {
    s.filter(action_store::waiting()).map_values(|r: ActionRecordView| r.action)
}

/// What to watch of the started records of a list.
pub open spec fn started_watches(s: Seq<ActionRecordView>) -> Seq<WatchView> {
    s.filter(action_store::started()).map_values(
        |r: ActionRecordView|
            WatchView {
                action: r.action,
                since_unix_ms: match r.state {
                    ArStateView::Started { since_unix_ms, .. } => since_unix_ms,
                    _ => 0,
                },
            },
    )
}

/// What was found after a restart.
#[derive(Debug, PartialEq, Eq)]
pub struct Recovery {
    /// Number of actions queued again.
    pub requeued: usize,
    /// Actions that were running.
    pub watches: Vec<Watch>,
    /// Number of finished actions.
    pub cleaned: usize,
    /// The finished actions that the store could not delete, and why.
    pub failures: Vec<(Cookie, StoreError)>,
}

/// Some finished record of the list has that cookie.
spec fn dropped(s: Seq<ActionRecordView>, k: u64) -> bool {
    exists|j: int|
        0 <= j < s.len() && (#[trigger] s[j]).action.cookie.0 == k && s[j].state.terminal()
}

/// `m` is `m0` without the finished records of the list, but for those whose
/// deletion failed.
spec fn swept(
    m0: Records,
    m: Records,
    s: Seq<ActionRecordView>,
    failures: Seq<(Cookie, StoreError)>,
) -> bool {
    &&& forall|k: u64| #[trigger] m.contains_key(k) ==> m0.contains_key(k) && m[k] == m0[k]
    &&& forall|k: u64| #[trigger] m0.contains_key(k) && !dropped(s, k) ==> m.contains_key(k)
    &&& forall|k: u64| #[trigger] m.contains_key(k) && dropped(s, k) ==> failed_on(failures, k)
    &&& forall|i: int|
        0 <= i < failures.len() ==> (#[trigger] failures[i]).1@ is Backend && dropped(
            s,
            failures[i].0.0,
        )
}

/// That cookie is among the failures.
pub open spec fn failed_on(failures: Seq<(Cookie, StoreError)>, k: u64) -> bool {
    exists|i: int| 0 <= i < failures.len() && (#[trigger] failures[i]).0.0 == k
}

/// What becomes of the records: those that have not finished stay as they were, and
/// of the others only those stay whose deletion failed.
pub open spec fn tidied(
    before: Records,
    after: Records,
    failures: Seq<(Cookie, StoreError)>,
) -> bool {
    &&& forall|k: u64| #[trigger]
        after.contains_key(k) ==> before.contains_key(k) && after[k] == before[k] && (
        before[k].state.terminal() ==> failed_on(failures, k))
    &&& forall|k: u64| #[trigger]
        before.contains_key(k) && !before[k].state.terminal() ==> after.contains_key(k)
    &&& forall|i: int|
        0 <= i < failures.len() ==> {
            let k = (#[trigger] failures[i]).0.0;
            &&& failures[i].1@ is Backend
            &&& before.contains_key(k)
            &&& before[k].state.terminal()
        }
}

/// What replaying the records in the order `all` comes to. The waiting actions are
/// queued in that order, behind what waited before.
pub open spec fn replayed<Q: Scheduler>(
    all: Seq<ActionRecordView>,
    before: Q,
    after: Q,
    r: Recovery,
) -> bool {
    &&& after.waiting() == before.waiting().add(waiting_actions(all).to_multiset())
    &&& forall|k: ActionKind| #[trigger]
        after.queued(k) == before.queued(k) + waiting_actions(all).filter(strategy::of_kind(k))
    &&& watch_views(r.watches@) == started_watches(all)
    &&& r.requeued == all.filter(action_store::waiting()).len()
    &&& r.cleaned == all.filter(finished()).len()
    &&& r.requeued + r.watches@.len() + r.cleaned == all.len()
}

/// Replay what the store holds. Waiting actions are queued again, finished ones
/// are deleted, and running ones are handed out to be watched. Nothing happens
/// when the store cannot be read.
pub fn recover<S: ActionStore, Q: Scheduler>(store: &mut S, queue: &mut Q) -> (r: StoreResult<
    Recovery,
>)
    requires
        action_store::keyed(old(store).records()),
        old(queue).valid(),
    ensures
        action_store::keyed(final(store).records()),
        final(store).reliable() == old(store).reliable(),
        final(queue).valid(),
        match r {
            Ok(rec) => {
                &&& exists|all: Seq<ActionRecordView>| #[trigger]
                    action_store::lists(all, old(store).records()) && replayed(
                        all,
                        *old(queue),
                        *final(queue),
                        rec,
                    )
                &&& tidied(old(store).records(), final(store).records(), rec.failures@)
                &&& rec.failures@.len() == 0 ==> final(store).records() == action_store::selected(
                    old(store).records(),
                    unfinished(),
                )
                &&& old(store).reliable() ==> rec.failures@.len() == 0
            },
            Err(_) => {
                &&& action_store::backend_failed(r)
                &&& !old(store).reliable()
                &&& final(store).records() == old(store).records()
                &&& *final(queue) == *old(queue)
            },
        },
{
    let records = match store.load_all() {
        Ok(v) => v,
        Err(e) => {
            return Err(e);
        },
    };
    let ghost m0 = store.records();
    let ghost q0 = *queue;
    let ghost reliable = store.reliable();
    let ghost all = action_store::record_views(records@);
    let mut requeued: usize = 0;
    let mut cleaned: usize = 0;
    let mut watches: Vec<Watch> = Vec::new();
    let mut failures: Vec<(Cookie, StoreError)> = Vec::new();
    let mut i: usize = 0;
    proof {
        lemma_replay_nothing(all.take(0));
        let none = waiting_actions(all.take(0));
        none.to_multiset_ensures();
        assert(q0.waiting() =~= q0.waiting().add(none.to_multiset()));
        assert forall|k: ActionKind| #[trigger]
            queue.queued(k) == q0.queued(k) + none.filter(strategy::of_kind(k)) by {
            reveal(Seq::filter);
            assert(q0.queued(k) + none.filter(strategy::of_kind(k)) =~= q0.queued(k));
        }
        assert(watch_views(watches@) =~= started_watches(all.take(0)));
    }
    while i < records.len()
        invariant
            i <= records@.len(),
            all == action_store::record_views(records@),
            action_store::keyed(store.records()),
            queue.valid(),
            store.reliable() == reliable,
            reliable ==> failures@.len() == 0,
            action_store::lists(all, m0),
            swept(m0, store.records(), all.take(i as int), failures@),
            queue.waiting() == q0.waiting().add(
                waiting_actions(all.take(i as int)).to_multiset(),
            ),
            forall|k: ActionKind| #[trigger]
                queue.queued(k) == q0.queued(k) + waiting_actions(all.take(i as int)).filter(
                    strategy::of_kind(k),
                ),
            watch_views(watches@) == started_watches(all.take(i as int)),
            requeued == all.take(i as int).filter(action_store::waiting()).len(),
            cleaned == all.take(i as int).filter(finished()).len(),
            requeued + watches@.len() + cleaned == i,
        decreases records.len() - i,
    {
        let rec = &records[i];
        let cookie = rec.action.cookie;
        let ghost s = all.take(i as int);
        let ghost t = all.take(i + 1);
        let ghost before = store.records();
        proof {
            assert(all[i as int] == rec@);
            assert(t.drop_last() =~= s);
            assert(t.last() == rec@);
            lemma_replay_one(t);
        }
        match &rec.state {
            ArState::Waiting => {
                queue.enqueue(rec.action.clone());
                requeued = requeued + 1;
                proof {
                    waiting_actions(s).to_multiset_ensures();
                    assert(queue.waiting() =~= q0.waiting().add(waiting_actions(t).to_multiset()));
                    assert forall|k: ActionKind| #[trigger]
                        queue.queued(k) == q0.queued(k) + waiting_actions(t).filter(
                            strategy::of_kind(k),
                        ) by {
                        strategy::lemma_of_kind_push(waiting_actions(s), rec@.action, k);
                        assert(queue.queued(k) =~= q0.queued(k) + waiting_actions(t).filter(
                            strategy::of_kind(k),
                        ));
                    }
                    lemma_kept(m0, before, s, t, failures@);
                }
            },
            ArState::Started { since_unix_ms, .. } => {
                let w = Watch { action: rec.action.clone(), since_unix_ms: *since_unix_ms };
                let ghost w0 = watches@;
                watches.push(w);
                proof {
                    assert(watch_views(watches@) =~= watch_views(w0).push(w@));
                    lemma_kept(m0, before, s, t, failures@);
                }
            },
            _ => {
                let ghost f0 = failures@;
                match store.delete(cookie) {
                    Ok(_) => {
                        proof {
                            lemma_dropped(m0, before, store.records(), s, t, f0);
                        }
                    },
                    Err(e) => {
                        failures.push((cookie, e));
                        proof {
                            lemma_not_dropped(m0, before, store.records(), s, t, f0, e);
                        }
                    },
                }
                cleaned = cleaned + 1;
            },
        }
        i = i + 1;
    }
    proof {
        assert(all.take(i as int) =~= all);
        lemma_all_swept(m0, store.records(), all, failures@);
    }
    Ok(Recovery { requeued, watches, cleaned, failures })
}

/// Nothing to replay.
pub(crate) proof fn lemma_replay_nothing(s: Seq<ActionRecordView>)
    requires
        s.len() == 0,
    ensures
        waiting_actions(s) == Seq::<ActionView>::empty(),
        started_watches(s) == Seq::<WatchView>::empty(),
        s.filter(action_store::waiting()).len() == 0,
        s.filter(finished()).len() == 0,
{
    reveal(Seq::filter);
    assert(waiting_actions(s) =~= Seq::<ActionView>::empty());
    assert(started_watches(s) =~= Seq::<WatchView>::empty());
}

/// Every record falls under exactly one of the three.
pub(crate) proof fn lemma_replay_one(t: Seq<ActionRecordView>)
    requires
        t.len() > 0,
    ensures
        ({
            let s = t.drop_last();
            let r = t.last();
            let w = action_store::waiting();
            let f = finished();
            match r.state {
                ArStateView::Waiting => {
                    &&& waiting_actions(t) == waiting_actions(s).push(r.action)
                    &&& started_watches(t) == started_watches(s)
                    &&& t.filter(w).len() == s.filter(w).len() + 1
                    &&& t.filter(f).len() == s.filter(f).len()
                },
                ArStateView::Started { since_unix_ms, .. } => {
                    &&& waiting_actions(t) == waiting_actions(s)
                    &&& started_watches(t) == started_watches(s).push(
                        WatchView { action: r.action, since_unix_ms },
                    )
                    &&& t.filter(w).len() == s.filter(w).len()
                    &&& t.filter(f).len() == s.filter(f).len()
                },
                _ => {
                    &&& waiting_actions(t) == waiting_actions(s)
                    &&& started_watches(t) == started_watches(s)
                    &&& t.filter(w).len() == s.filter(w).len()
                    &&& t.filter(f).len() == s.filter(f).len() + 1
                },
            }
        }),
{
    reveal(Seq::filter);
    let s = t.drop_last();
    match t.last().state {
        ArStateView::Waiting => {
            assert(waiting_actions(t) =~= waiting_actions(s).push(t.last().action));
        },
        ArStateView::Started { since_unix_ms, .. } => {
            assert(started_watches(t) =~= started_watches(s).push(
                WatchView { action: t.last().action, since_unix_ms },
            ));
        },
        _ => {},
    }
}

/// What one more record adds to what is dropped.
proof fn lemma_dropped_one(s: Seq<ActionRecordView>, t: Seq<ActionRecordView>)
    requires
        t.len() > 0,
        s == t.drop_last(),
    ensures
        forall|k: u64| #[trigger]
            dropped(t, k) <==> dropped(s, k) || (t.last().state.terminal()
                && t.last().action.cookie.0 == k),
{
    assert forall|k: u64| #[trigger]
        dropped(t, k) <==> dropped(s, k) || (t.last().state.terminal()
            && t.last().action.cookie.0 == k) by {
        if dropped(s, k) {
            let j = choose|j: int|
                0 <= j < s.len() && (#[trigger] s[j]).action.cookie.0 == k && s[j].state.terminal();
            assert(t[j] == s[j]);
        }
        if dropped(t, k) {
            let j = choose|j: int|
                0 <= j < t.len() && (#[trigger] t[j]).action.cookie.0 == k && t[j].state.terminal();
            if j < s.len() {
                assert(t[j] == s[j]);
            }
        }
        if t.last().state.terminal() && t.last().action.cookie.0 == k {
            assert(t[t.len() - 1].action.cookie.0 == k);
        }
    }
}

/// An unfinished record does not change what is dropped.
proof fn lemma_kept(
    m0: Records,
    m: Records,
    s: Seq<ActionRecordView>,
    t: Seq<ActionRecordView>,
    failures: Seq<(Cookie, StoreError)>,
)
    requires
        t.len() > 0,
        s == t.drop_last(),
        !t.last().state.terminal(),
        swept(m0, m, s, failures),
    ensures
        swept(m0, m, t, failures),
{
    lemma_dropped_one(s, t);
}

/// A finished record is dropped.
proof fn lemma_dropped(
    m0: Records,
    before: Records,
    after: Records,
    s: Seq<ActionRecordView>,
    t: Seq<ActionRecordView>,
    failures: Seq<(Cookie, StoreError)>,
)
    requires
        t.len() > 0,
        s == t.drop_last(),
        t.last().state.terminal(),
        swept(m0, before, s, failures),
        after == before.remove(t.last().action.cookie.0),
    ensures
        swept(m0, after, t, failures),
{
    lemma_dropped_one(s, t);
}

/// A finished record could not be deleted, as far as the store knows.
proof fn lemma_not_dropped(
    m0: Records,
    before: Records,
    after: Records,
    s: Seq<ActionRecordView>,
    t: Seq<ActionRecordView>,
    failures: Seq<(Cookie, StoreError)>,
    e: StoreError,
)
    requires
        t.len() > 0,
        s == t.drop_last(),
        t.last().state.terminal(),
        swept(m0, before, s, failures),
        e@ is Backend,
        after == before || after == before.remove(t.last().action.cookie.0),
    ensures
        swept(m0, after, t, failures.push((t.last().action.cookie, e))),
{
    lemma_dropped_one(s, t);
    let more = failures.push((t.last().action.cookie, e));
    assert forall|k: u64| #[trigger] after.contains_key(k) && dropped(t, k) implies failed_on(
        more,
        k,
    ) by {
        if dropped(s, k) {
            assert(before.contains_key(k));
            let i = choose|i: int| 0 <= i < failures.len() && (#[trigger] failures[i]).0.0 == k;
            assert(more[i] == failures[i]);
        } else {
            assert(more[failures.len() as int].0.0 == k);
        }
    }
    assert forall|i: int| 0 <= i < more.len() implies (#[trigger] more[i]).1@ is Backend && dropped(
        t,
        more[i].0.0,
    ) by {
        if i < failures.len() {
            assert(more[i] == failures[i]);
        }
    }
}

/// When every record has been seen, the finished ones are gone, but for those
/// whose deletion failed.
proof fn lemma_all_swept(
    m0: Records,
    m: Records,
    all: Seq<ActionRecordView>,
    failures: Seq<(Cookie, StoreError)>,
)
    requires
        action_store::lists(all, m0),
        swept(m0, m, all, failures),
    ensures
        tidied(m0, m, failures),
        failures.len() == 0 ==> m == action_store::selected(m0, unfinished()),
{
    assert forall|k: u64| #[trigger] m0.contains_key(k) implies dropped(all, k)
        == m0[k].state.terminal() by {
        let j = choose|j: int| 0 <= j < all.len() && (#[trigger] all[j]).action.cookie.0 == k;
        assert(m0[k] == all[j]);
        if dropped(all, k) {
            let x = choose|x: int|
                0 <= x < all.len() && (#[trigger] all[x]).action.cookie.0 == k
                    && all[x].state.terminal();
            assert(m0[k] == all[x]);
        }
    }
    assert forall|i: int| 0 <= i < failures.len() implies {
        let k = (#[trigger] failures[i]).0.0;
        &&& m0.contains_key(k)
        &&& m0[k].state.terminal()
    } by {
        let k = failures[i].0.0;
        assert(dropped(all, k));
        let x = choose|x: int|
            0 <= x < all.len() && (#[trigger] all[x]).action.cookie.0 == k
                && all[x].state.terminal();
        assert(m0.contains_key(all[x].action.cookie.0));
    }
    if failures.len() == 0 {
        let want = action_store::selected(m0, unfinished());
        assert(m =~= want);
    }
}

/// How much of the grace period is left.
pub open spec fn grace_left(now: Timestamp, started_ms: u64, grace: Span) -> int {
    let running: int = now.nanos - started_ms * 1_000_000;
    let elapsed: int = if running > 0 {
        running
    } else {
        0
    };
    if elapsed >= grace.nanos {
        0
    } else {
        grace.nanos - elapsed
    }
}

/// How long to wait before an action that was running is taken from its agent. A
/// start in the future counts as just now.
pub fn remaining_grace(now: Timestamp, started_ms: u64, grace: Span) -> (r: Span)
    ensures
        r.nanos == grace_left(now, started_ms, grace),
{
    let started: i128 = (started_ms as i128) * 1_000_000;
    let elapsed: u128 = if now.nanos > started {
        (now.nanos - started) as u128
    } else {
        0
    };
    grace.saturating_sub(Span::from_nanos(elapsed))
}

/// What became of a watched action.
#[derive(Debug, PartialEq, Eq)]
pub enum Expiry {
    /// It was still running and waits again; that is what the store answered.
    Requeued(StoreResult<()>),
    /// It is no longer running: its agent came back, or it is gone.
    Settled,
    /// The store could not be read.
    Unknown(StoreError),
}

/// The grace period of a watched action is over. If it still counts as running it
/// waits again and is queued again.
pub fn grace_expired<S: ActionStore, Q: Scheduler>(
    store: &mut S,
    queue: &mut Q,
    action: Action,
) -> (r: Expiry)
    requires
        action_store::keyed(old(store).records()),
        old(queue).valid(),
    ensures
        action_store::keyed(final(store).records()),
        final(store).reliable() == old(store).reliable(),
        final(queue).valid(),
        ({
            let m = old(store).records();
            let running = m.contains_key(action@.cookie.0) && m[action@.cookie.0].state is Started;
            match r {
                Expiry::Requeued(stored) => {
                    &&& running
                    &&& dispatch::moved(
                        m,
                        final(store).records(),
                        stored,
                        action@.cookie,
                        ArStateView::Waiting,
                    )
                    &&& old(store).reliable() ==> !action_store::backend_failed(stored)
                    &&& final(queue).waiting() == old(queue).waiting().insert(action@)
                    &&& forall|k: ActionKind| #[trigger]
                        final(queue).queued(k) == (if k == action@.kind {
                            old(queue).queued(k).push(action@)
                        } else {
                            old(queue).queued(k)
                        })
                },
                Expiry::Settled => {
                    &&& !running
                    &&& final(store).records() == m
                    &&& *final(queue) == *old(queue)
                },
                Expiry::Unknown(e) => {
                    &&& e@ is Backend
                    &&& !old(store).reliable()
                    &&& final(store).records() == m
                    &&& *final(queue) == *old(queue)
                },
            }
        }),
{
    let cookie = action.cookie;
    let running = match store.get(cookie) {
        Ok(Some(rec)) => match rec.state {
            ArState::Started { .. } => true,
            _ => false,
        },
        Ok(None) => false,
        Err(e) => {
            return Expiry::Unknown(e);
        },
    };
    if running {
        let stored = store.transition(cookie, ArState::Waiting);
        queue.enqueue(action);
        Expiry::Requeued(stored)
    } else {
        Expiry::Settled
    }
}

// ---------------------------------------------------------------------------
// Laws
// ---------------------------------------------------------------------------

/// The wait is never longer than the grace period, and over once the action has
/// been running for that long.
pub proof fn lemma_grace_bounds(now: Timestamp, started_ms: u64, grace: Span)
    ensures
        0 <= grace_left(now, started_ms, grace) <= grace.nanos,
        now.nanos - started_ms * 1_000_000 >= grace.nanos ==> grace_left(now, started_ms, grace)
            == 0,
        now.nanos <= started_ms * 1_000_000 ==> grace_left(now, started_ms, grace) == grace.nanos,
{
}

/// Asking later never gives a longer wait.
pub proof fn lemma_grace_shrinks(now: Timestamp, later: Timestamp, started_ms: u64, grace: Span)
    requires
        now.nanos <= later.nanos,
    ensures
        grace_left(later, started_ms, grace) <= grace_left(now, started_ms, grace),
{
}

/// Recovering again, with nothing done in between, finds no finished action: what
/// was kept the first time is kept the second time.
pub proof fn lemma_recovery_is_stable(m: Records)
    ensures
        action_store::selected(action_store::selected(m, unfinished()), unfinished())
            == action_store::selected(m, unfinished()),
{
    let once = action_store::selected(m, unfinished());
    assert(action_store::selected(once, unfinished()) =~= once);
}

} // verus!
