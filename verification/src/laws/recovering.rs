//! Taking in, recovering and taking back: every action waits once, runs once, or is
//! over.

use crate::daemon::disconnect;
use crate::daemon::disconnect::{agent_lost, reassign, running_on, Reassignment};
use crate::daemon::ingest;
use crate::daemon::ingest::{ingest_batch, BatchOutcome};
use crate::daemon::recovery;
use crate::daemon::recovery::{grace_expired, recover, Expiry, Recovery, Watch};
use crate::laws::records;
use crate::laws::reports;
use crate::llapi::lifecycle::ReceivedAction;
use crate::model::action::{ActionRecordView, ActionView, ArStateView};
use crate::model::{Action, ActionKind, AgentId, Timestamp};
use crate::scheduler::agent;
use crate::scheduler::agent::AgentRegistry;
use crate::scheduler::strategy::Scheduler;
use crate::store::action_store;
use crate::store::action_store::{ActionStore, Records};
use crate::store::error::{StoreErrorView, StoreResult};
use vstd::prelude::*;

verus! {

// ---------------------------------------------------------------------------
// Taking in
// ---------------------------------------------------------------------------

/// One request is taken in exactly if its cookie is new: then it is on record as it
/// came, waiting, without progress, and queued behind those of its kind. A request of
/// a known cookie changes nothing.
pub proof fn lemma_ingest_call<S: ActionStore, Q: Scheduler>(
    store: &mut S,
    queue: &mut Q,
    received: ReceivedAction,
    now: Timestamp,
    r: StoreResult<()>,
    kind: ActionKind,
    x: u64,
)
    requires
        call_ensures(ingest::ingest::<S, Q>, (store, queue, received, now), r),
        r matches Err(e) ==> !(e@ is Backend),
    ensures
        ({
            let k = received.cookie.0;
            let before = old(store).records();
            let after = final(store).records();
            let rec = after[k];
            &&& r is Ok <==> !before.contains_key(k)
            &&& r is Ok ==> {
                &&& after.contains_key(k)
                &&& rec.action == received@.action
                &&& rec.state is Waiting
                &&& rec.progress.offset == 0 && rec.progress.length == 0
                &&& rec.created_at == now && rec.updated_at == now
                &&& x != k ==> (after.contains_key(x) <==> before.contains_key(x))
                &&& x != k && before.contains_key(x) ==> after[x] == before[x]
                &&& final(queue).waiting() == old(queue).waiting().insert(received@.action)
                &&& final(queue).queued(kind) == (if kind == received.kind {
                    old(queue).queued(kind).push(received@.action)
                } else {
                    old(queue).queued(kind)
                })
            }
            &&& r matches Err(e) ==> {
                &&& e@ == StoreErrorView::DuplicateCookie(received.cookie)
                &&& after == before
                &&& final(queue).waiting() == old(queue).waiting()
                &&& final(queue).queued(kind) == old(queue).queued(kind)
            }
        }),
{
}

/// What a batch brings in it brings in parts as well: first what the first part brings,
/// then what the rest brings that was not known by then.
pub proof fn lemma_batch_in_parts(known: Set<u64>, a: Seq<ActionView>, b: Seq<ActionView>)
    ensures
        ingest::admitted(known, a + b) == ingest::admitted(known, a) + ingest::admitted(
            known.union(ingest::cookies_of(ingest::admitted(known, a))),
            b,
        ),
    decreases b.len(),
{
    let first = ingest::admitted(known, a);
    let now = known.union(ingest::cookies_of(first));
    if b.len() == 0 {
        assert(a + b =~= a);
        assert(first + ingest::admitted(now, b) =~= first);
    } else {
        let init = b.drop_last();
        let x = b.last();
        lemma_batch_in_parts(known, a, init);
        assert((a + b).drop_last() =~= a + init);
        assert((a + b).last() == x);
        let rest = ingest::admitted(now, init);
        assert(ingest::holds_cookie(first + rest, x.cookie) <==> ingest::holds_cookie(
            first,
            x.cookie,
        ) || ingest::holds_cookie(rest, x.cookie)) by {
            if ingest::holds_cookie(first, x.cookie) {
                let i = choose|i: int|
                    0 <= i < first.len() && (#[trigger] first[i]).cookie == x.cookie;
                assert((first + rest)[i] == first[i]);
            }
            if ingest::holds_cookie(rest, x.cookie) {
                let i = choose|i: int| 0 <= i < rest.len() && (#[trigger] rest[i]).cookie == x.cookie;
                assert((first + rest)[first.len() + i] == rest[i]);
            }
            if ingest::holds_cookie(first + rest, x.cookie) {
                let i = choose|i: int|
                    0 <= i < (first + rest).len() && (#[trigger] (first + rest)[i]).cookie
                        == x.cookie;
                if i < first.len() {
                    assert((first + rest)[i] == first[i]);
                } else {
                    assert((first + rest)[i] == rest[i - first.len()]);
                }
            }
        }
        assert(now.contains(x.cookie.0) <==> known.contains(x.cookie.0) || ingest::holds_cookie(
            first,
            x.cookie,
        )) by {
            assert(crate::model::Cookie(x.cookie.0) == x.cookie);
        }
        assert(ingest::admitted(known, a + b) =~= first + ingest::admitted(now, b));
    }
}

/// A request is brought in if its cookie is not known, and not otherwise.
pub proof fn lemma_batch_of_one(known: Set<u64>, a: ActionView)
    ensures
        known.contains(a.cookie.0) ==> ingest::admitted(known, seq![a]).len() == 0,
        !known.contains(a.cookie.0) ==> ingest::admitted(known, seq![a]) == seq![a],
{
    assert(seq![a].drop_last() =~= Seq::<ActionView>::empty());
    let none = ingest::admitted(known, Seq::<ActionView>::empty());
    assert(none =~= Seq::<ActionView>::empty());
    assert(!ingest::holds_cookie(none, a.cookie));
    assert(none.push(a) =~= seq![a]);
}

/// The request at `i` is the first in the batch with its cookie, and the cookie is new.
pub open spec fn fresh_at(batch: Seq<ActionView>, known: Set<u64>, i: int) -> bool {
    &&& 0 <= i < batch.len()
    &&& !known.contains(batch[i].cookie.0)
    &&& forall|j: int| 0 <= j < i ==> (#[trigger] batch[j]).cookie != batch[i].cookie
}

/// What is brought in, told by the places of the batch.
proof fn lemma_admitted_places(known: Set<u64>, batch: Seq<ActionView>)
    ensures
        forall|i: int| #[trigger]
            fresh_at(batch, known, i) ==> ingest::admitted(known, batch).contains(batch[i]),
        forall|a: ActionView| #[trigger]
            ingest::admitted(known, batch).contains(a) ==> exists|i: int| #[trigger]
                fresh_at(batch, known, i) && batch[i] == a,
        ingest::admitted(known, batch).no_duplicates(),
    decreases batch.len(),
{
    let out = ingest::admitted(known, batch);
    if batch.len() == 0 {
        assert(out =~= Seq::<ActionView>::empty());
    } else {
        let init = batch.drop_last();
        let x = batch.last();
        let n = init.len() as int;
        let rest = ingest::admitted(known, init);
        lemma_admitted_places(known, init);
        assert forall|i: int| 0 <= i < n implies #[trigger] batch[i] == init[i] by {}
        assert(batch[n] == x);
        // The earlier places are fresh in both or in neither.
        assert forall|i: int| 0 <= i < n implies (#[trigger] fresh_at(batch, known, i) <==> fresh_at(
            init,
            known,
            i,
        )) by {
            assert(batch[i] == init[i]);
            assert forall|j: int| 0 <= j < i implies #[trigger] batch[j] == init[j] by {}
        }
        let taken = !(known.contains(x.cookie.0) || ingest::holds_cookie(rest, x.cookie));
        assert(fresh_at(batch, known, n) <==> taken) by {
            if ingest::holds_cookie(rest, x.cookie) {
                let p = choose|p: int| 0 <= p < rest.len() && (#[trigger] rest[p]).cookie == x.cookie;
                assert(rest.contains(rest[p]));
                let i = choose|i: int| #[trigger] fresh_at(init, known, i) && init[i] == rest[p];
                assert(batch[i] == init[i]);
                assert(!fresh_at(batch, known, n));
            } else if !known.contains(x.cookie.0) {
                assert forall|j: int| 0 <= j < n implies (#[trigger] batch[j]).cookie != x.cookie by {
                    if batch[j].cookie == x.cookie {
                        let f = lemma_first_place(init, known, j);
                        assert(rest.contains(init[f]));
                        let p = choose|p: int| 0 <= p < rest.len() && rest[p] == init[f];
                        assert(rest[p].cookie == x.cookie);
                    }
                }
            }
        }
        assert forall|i: int| #[trigger] fresh_at(batch, known, i) implies out.contains(batch[i]) by {
            if i < n {
                assert(fresh_at(init, known, i));
                let p = choose|p: int| 0 <= p < rest.len() && rest[p] == init[i];
                assert(out[p] == rest[p]);
            } else {
                assert(out[rest.len() as int] == x);
            }
        }
        assert forall|a: ActionView| #[trigger] out.contains(a) implies exists|i: int| #[trigger]
            fresh_at(batch, known, i) && batch[i] == a by {
            let p = choose|p: int| 0 <= p < out.len() && out[p] == a;
            if p < rest.len() {
                assert(rest[p] == a);
                assert(rest.contains(a));
                let i = choose|i: int| #[trigger] fresh_at(init, known, i) && init[i] == a;
                assert(fresh_at(batch, known, i));
                assert(batch[i] == a);
            } else {
                assert(fresh_at(batch, known, n));
                assert(batch[n] == a);
            }
        }
        assert(out.no_duplicates()) by {
            if taken {
                assert forall|i: int, j: int| 0 <= i < out.len() && 0 <= j < out.len() && i != j
                    implies out[i] != out[j] by {
                    if i < rest.len() && j < rest.len() {
                        assert(out[i] == rest[i] && out[j] == rest[j]);
                    } else if i < rest.len() {
                        assert(out[i] == rest[i]);
                        assert(rest[i].cookie != x.cookie);
                    } else {
                        assert(out[j] == rest[j]);
                        assert(rest[j].cookie != x.cookie);
                    }
                }
            }
        }
    }
}

/// The first place of a cookie that is new.
proof fn lemma_first_place(batch: Seq<ActionView>, known: Set<u64>, k: int) -> (i: int)
    requires
        0 <= k < batch.len(),
        !known.contains(batch[k].cookie.0),
    ensures
        fresh_at(batch, known, i),
        batch[i].cookie == batch[k].cookie,
    decreases k,
{
    if exists|j: int| 0 <= j < k && (#[trigger] batch[j]).cookie == batch[k].cookie {
        let j = choose|j: int| 0 <= j < k && (#[trigger] batch[j]).cookie == batch[k].cookie;
        lemma_first_place(batch, known, j)
    } else {
        k
    }
}

/// Of a batch, exactly the requests with new cookies are taken in, each cookie once:
/// the first request with the cookie is on record, waiting and without progress, and
/// waits in the queue once more than before. Nothing else is recorded or queued, and
/// what was there before stays as it was.
pub proof fn lemma_batch_call<S: ActionStore, Q: Scheduler>(
    store: &mut S,
    queue: &mut Q,
    batch: Vec<ReceivedAction>,
    r: BatchOutcome,
    a: ActionView,
    k: u64,
)
    requires
        call_ensures(ingest_batch::<S, Q>, (store, queue, batch), r),
        !r.backend_failed,
    ensures
        ({
            let known = old(store).records().dom();
            let all = ingest::batch_actions(batch@);
            let after = final(store).records();
            let taken = exists|i: int| #[trigger] fresh_at(all, known, i) && all[i] == a;
            &&& final(queue).waiting().count(a) == old(queue).waiting().count(a) + (if taken {
                1nat
            } else {
                0
            })
            &&& taken ==> after.contains_key(a.cookie.0) && after[a.cookie.0].action == a
                && after[a.cookie.0].state is Waiting && after[a.cookie.0].progress.offset == 0
            &&& known.contains(k) ==> after.contains_key(k) && after[k] == old(store).records()[k]
            &&& after.contains_key(k) && !known.contains(k) ==> exists|i: int| #[trigger]
                fresh_at(all, known, i) && all[i].cookie.0 == k
        }),
{
    let m0 = store.records();
    let known = m0.dom();
    let all = ingest::batch_actions(batch@);
    let out = ingest::admitted(known, all);
    lemma_admitted_places(known, all);
    let took = choose|took: Seq<bool>| #[trigger]
        ingest::taken_in(
            m0,
            final(store).records(),
            *old(queue),
            *final(queue),
            all,
            took,
            r,
        );
    assert(ingest::taken_in(
        m0,
        final(store).records(),
        *old(queue),
        *final(queue),
        all,
        took,
        r,
    ));
    out.to_multiset_ensures();
    out.lemma_multiset_has_no_duplicates();
    let taken = exists|i: int| #[trigger] fresh_at(all, known, i) && all[i] == a;
    if taken {
        let i = choose|i: int| #[trigger] fresh_at(all, known, i) && all[i] == a;
        assert(out.contains(a));
        let p = choose|p: int| 0 <= p < out.len() && out[p] == a;
        assert(out[p].cookie.0 == a.cookie.0);
        assert(ingest::holds_cookie(out, crate::model::Cookie(a.cookie.0)));
        assert(ingest::cookies_of(out).contains(a.cookie.0));
        assert(final(store).records().dom().contains(a.cookie.0));
    } else {
        assert(!out.contains(a));
    }
    let after = final(store).records();
    if known.contains(k) {
        assert(m0.contains_key(k));
        assert(after.dom().contains(k));
    }
    if after.contains_key(k) && !known.contains(k) {
        assert(after.dom().contains(k));
        assert(ingest::cookies_of(out).contains(k));
        let p = choose|p: int| 0 <= p < out.len() && (#[trigger] out[p]).cookie
            == crate::model::Cookie(k);
        assert(out.contains(out[p]));
        let i = choose|i: int| #[trigger] fresh_at(all, known, i) && all[i] == out[p];
        assert(all[i].cookie.0 == k);
    }
}

// ---------------------------------------------------------------------------
// Recovering
// ---------------------------------------------------------------------------

/// The actions of records that are listed are listed, and no action twice.
proof fn lemma_waiting_listed(all: Seq<ActionRecordView>, m: action_store::Records)
    requires
        action_store::lists(all, m),
    ensures
        recovery::waiting_actions(all).no_duplicates(),
        forall|a: ActionView| #[trigger]
            recovery::waiting_actions(all).contains(a) <==> m.contains_key(a.cookie.0)
                && m[a.cookie.0].action == a && m[a.cookie.0].state is Waiting,
{
    let p = action_store::waiting();
    let f = all.filter(p);
    let w = recovery::waiting_actions(all);
    action_store::lemma_lists_selected(all, m, p);
    let sel = action_store::selected(m, p);
    assert(w.len() == f.len());
    assert forall|i: int| 0 <= i < w.len() implies #[trigger] w[i] == f[i].action by {}
    assert forall|i: int, j: int| 0 <= i < w.len() && 0 <= j < w.len() && i != j implies w[i]
        != w[j] by {
        assert(f[i].action.cookie != f[j].action.cookie);
    }
    assert forall|a: ActionView| #[trigger] w.contains(a) <==> m.contains_key(a.cookie.0)
        && m[a.cookie.0].action == a && m[a.cookie.0].state is Waiting by {
        if w.contains(a) {
            let i = choose|i: int| 0 <= i < w.len() && w[i] == a;
            assert(sel.contains_key(f[i].action.cookie.0));
            assert(sel[f[i].action.cookie.0] == f[i]);
        }
        if m.contains_key(a.cookie.0) && m[a.cookie.0].action == a && m[a.cookie.0].state is Waiting {
            assert(p(m[a.cookie.0]));
            assert(sel.contains_key(a.cookie.0));
            let i = choose|i: int|
                0 <= i < f.len() && (#[trigger] f[i]).action.cookie.0 == a.cookie.0;
            assert(sel[f[i].action.cookie.0] == f[i]);
            assert(w[i] == a);
        }
    }
}

/// Some watch is on that action, since that time.
pub open spec fn on_watch(watches: Seq<Watch>, a: ActionView, since: u64) -> bool {
    exists|i: int|
        0 <= i < watches.len() && (#[trigger] watches[i]).action@ == a && watches[i].since_unix_ms
            == since
}

/// The started records of a listing are on watch, each since its start, and nothing
/// else is.
proof fn lemma_started_watched(
    all: Seq<ActionRecordView>,
    m: action_store::Records,
    watches: Seq<Watch>,
    a: ActionView,
    since: u64,
)
    requires
        action_store::lists(all, m),
        recovery::watch_views(watches) == recovery::started_watches(all),
    ensures
        on_watch(watches, a, since) <==> m.contains_key(a.cookie.0) && m[a.cookie.0].action == a
            && m[a.cookie.0].state is Started && m[a.cookie.0].state->Started_since_unix_ms
            == since,
{
    let p = action_store::started();
    let f = all.filter(p);
    let v = recovery::started_watches(all);
    action_store::lemma_lists_selected(all, m, p);
    let sel = action_store::selected(m, p);
    assert(v.len() == f.len());
    assert(recovery::watch_views(watches).len() == watches.len());
    assert forall|i: int| 0 <= i < watches.len() implies (#[trigger] watches[i])@ == v[i] && v[i].action
        == f[i].action && f[i].state is Started && v[i].since_unix_ms
        == f[i].state->Started_since_unix_ms && m.contains_key(f[i].action.cookie.0)
        && m[f[i].action.cookie.0] == f[i] by {
        assert(recovery::watch_views(watches)[i] == watches[i]@);
        assert(sel.contains_key(f[i].action.cookie.0));
        assert(sel[f[i].action.cookie.0] == f[i]);
    }
    if on_watch(watches, a, since) {
        let i = choose|i: int|
            0 <= i < watches.len() && (#[trigger] watches[i]).action@ == a
                && watches[i].since_unix_ms == since;
        assert(watches[i]@.action == a);
    }
    if m.contains_key(a.cookie.0) && m[a.cookie.0].action == a && m[a.cookie.0].state is Started
        && m[a.cookie.0].state->Started_since_unix_ms == since {
        assert(p(m[a.cookie.0]));
        assert(sel.contains_key(a.cookie.0));
        let i = choose|i: int| 0 <= i < f.len() && (#[trigger] f[i]).action.cookie.0 == a.cookie.0;
        assert(sel[f[i].action.cookie.0] == f[i]);
        assert(watches[i]@.action == a);
    }
}

/// After a restart, every action that waited waits in the queue once more, every
/// action that ran is watched since its start, and every action that was over is
/// forgotten. Nothing else is queued, watched or forgotten; what is kept is as it was.
pub proof fn lemma_recover_call<S: ActionStore, Q: Scheduler>(
    store: &mut S,
    queue: &mut Q,
    r: StoreResult<Recovery>,
    a: ActionView,
    since: u64,
    k: u64,
)
    requires
        call_ensures(recover::<S, Q>, (store, queue), r),
        r is Ok,
        r->Ok_0.failures@.len() == 0,
    ensures
        ({
            let m = old(store).records();
            let after = final(store).records();
            let rec = m[a.cookie.0];
            let there = m.contains_key(a.cookie.0) && rec.action == a;
            &&& final(queue).waiting().count(a) == old(queue).waiting().count(a) + (if there
                && rec.state is Waiting {
                1nat
            } else {
                0
            })
            &&& on_watch(r->Ok_0.watches@, a, since) <==> there && rec.state is Started
                && rec.state->Started_since_unix_ms == since
            &&& after.contains_key(k) <==> m.contains_key(k) && records::unfinished(m[k].state)
            &&& after.contains_key(k) ==> after[k] == m[k]
        }),
{
    let m = store.records();
    let rec = r->Ok_0;
    let all = choose|all: Seq<ActionRecordView>| #[trigger]
        action_store::lists(all, m) && recovery::replayed(all, *old(queue), *final(queue), rec);
    assert(action_store::lists(all, m) && recovery::replayed(
        all,
        *old(queue),
        *final(queue),
        rec,
    ));
    lemma_waiting_listed(all, m);
    let w = recovery::waiting_actions(all);
    w.to_multiset_ensures();
    w.lemma_multiset_has_no_duplicates();
    lemma_started_watched(all, m, rec.watches@, a, since);
    assert(w.contains(a) <==> w.to_multiset().contains(a));
}

/// The counts of a recovery are the counts of the records: so many were queued, so many
/// are watched, so many were over.
pub proof fn lemma_recover_counts<S: ActionStore, Q: Scheduler>(
    store: &mut S,
    queue: &mut Q,
    r: StoreResult<Recovery>,
)
    requires
        call_ensures(recover::<S, Q>, (store, queue), r),
    ensures
        r matches Ok(x) ==> {
            let m = old(store).records();
            &&& x.requeued == action_store::selected(
                m,
                |y: ActionRecordView| y.state is Waiting,
            ).len()
            &&& x.watches@.len() == action_store::selected(
                m,
                |y: ActionRecordView| y.state is Started,
            ).len()
            &&& x.requeued + x.watches@.len() + x.cleaned == m.len()
        },
        r matches Err(e) ==> e@ is Backend && final(store).records() == old(store).records()
            && final(queue).waiting() == old(queue).waiting(),
        old(store).reliable() ==> r is Ok && r->Ok_0.failures@.len() == 0,
{
    if r is Ok {
        let m = store.records();
        let rec = r->Ok_0;
        let all = choose|all: Seq<ActionRecordView>| #[trigger]
            action_store::lists(all, m) && recovery::replayed(
                all,
                *old(queue),
                *final(queue),
                rec,
            );
        assert(action_store::lists(all, m) && recovery::replayed(
            all,
            *old(queue),
            *final(queue),
            rec,
        ));
        let w = |y: ActionRecordView| y.state is Waiting;
        let t = |y: ActionRecordView| y.state is Started;
        assert(w =~= action_store::waiting());
        assert(t =~= action_store::started());
        action_store::lemma_lists_selected(all, m, w);
        action_store::lemma_lists_selected(all, m, t);
        action_store::lemma_lists_len(all.filter(w), action_store::selected(m, w));
        action_store::lemma_lists_len(all.filter(t), action_store::selected(m, t));
        action_store::lemma_lists_len(all, m);
        assert(recovery::watch_views(rec.watches@).len() == rec.watches@.len());
        assert(recovery::started_watches(all).len() == all.filter(t).len());
    }
}

/// When its grace period is over, a watched action that still runs waits again, on
/// record and in the queue; one that does not is left alone.
pub proof fn lemma_expiry_call<S: ActionStore, Q: Scheduler>(
    store: &mut S,
    queue: &mut Q,
    action: Action,
    r: Expiry,
    kind: ActionKind,
)
    requires
        call_ensures(grace_expired::<S, Q>, (store, queue, action), r),
        old(store).reliable(),
    ensures
        ({
            let k = action.cookie.0;
            let before = old(store).records();
            let after = final(store).records();
            let runs = before.contains_key(k) && before[k].state is Started;
            &&& runs <==> r is Requeued
            &&& !runs ==> r is Settled
            &&& runs ==> {
                &&& r->Requeued_0 is Ok
                &&& records::touched(before, after, k)
                &&& after[k].state is Waiting
                &&& after[k].action == before[k].action
                &&& after[k].progress == before[k].progress
                &&& final(queue).waiting() == old(queue).waiting().insert(action@)
                &&& final(queue).queued(kind) == (if kind == action.kind {
                    old(queue).queued(kind).push(action@)
                } else {
                    old(queue).queued(kind)
                })
            }
            &&& !runs ==> after == before && final(queue).waiting() == old(queue).waiting()
                && final(queue).queued(kind) == old(queue).queued(kind)
        }),
{
    match r {
        Expiry::Requeued(stored) => {
            reports::lemma_ended_in(
                store.records(),
                final(store).records(),
                stored,
                action@.cookie,
                ArStateView::Waiting,
            );
        },
        _ => {},
    }
}

// ---------------------------------------------------------------------------
// Taking back
// ---------------------------------------------------------------------------

/// What an agent runs is on watch, each action since its start, and nothing else is.
pub proof fn lemma_running_call<S: ActionStore>(
    store: &S,
    who: &AgentId,
    r: StoreResult<Vec<Watch>>,
    a: ActionView,
    since: u64,
)
    requires
        call_ensures(running_on::<S>, (store, who), r),
        r is Ok,
    ensures
        ({
            let m = store.records();
            let rec = m[a.cookie.0];
            on_watch(r->Ok_0@, a, since) <==> m.contains_key(a.cookie.0) && rec.action == a && (
            match rec.state {
                ArStateView::Started { agent, since_unix_ms } => agent == who@ && since_unix_ms
                    == since,
                _ => false,
            })
        }),
{
    let m = store.records();
    let mine = action_store::selected(m, action_store::run_by(who@));
    let all = choose|all: Seq<ActionRecordView>| #[trigger]
        action_store::lists(all, mine) && recovery::watch_views(r->Ok_0@)
            == recovery::started_watches(all);
    assert(action_store::lists(all, mine));
    lemma_started_watched(all, mine, r->Ok_0@, a, since);
}

/// A lost agent is no longer registered, and everybody else is as before; what it ran
/// is on watch; and nothing has changed hands.
pub proof fn lemma_lost_call<S: ActionStore, Q: Scheduler>(
    store: &S,
    queue: &mut Q,
    registry: &mut AgentRegistry,
    who: &AgentId,
    r: StoreResult<Vec<Watch>>,
    other: agent::AgentInfoView,
    a: ActionView,
    since: u64,
)
    requires
        call_ensures(agent_lost::<S, Q>, (store, queue, registry, who), r),
        agent::distinct_ids(old(registry)@),
    ensures
        forall|i: int| 0 <= i < final(registry)@.len() ==> (#[trigger] final(registry)@[i]).id
            != who@,
        other.id != who@ ==> (final(registry)@.contains(other) <==> old(registry)@.contains(other)),
        final(queue).waiting() == old(queue).waiting(),
        r is Ok ==> (on_watch(r->Ok_0@, a, since) <==> store.records().contains_key(a.cookie.0)
            && store.records()[a.cookie.0].action == a && (match store.records()[a.cookie.0].state {
            ArStateView::Started { agent, since_unix_ms } => agent == who@ && since_unix_ms
                == since,
            _ => false,
        })),
{
    let before = registry@;
    let after = final(registry)@;
    agent::lemma_unregister_removes(before, who@);
    agent::lemma_position(after, who@);
    if r is Ok {
        let m = store.records();
        let mine = action_store::selected(m, action_store::run_by(who@));
        let all = choose|all: Seq<ActionRecordView>| #[trigger]
            action_store::lists(all, mine) && recovery::watch_views(r->Ok_0@)
                == recovery::started_watches(all);
        assert(action_store::lists(all, mine));
        lemma_started_watched(all, mine, r->Ok_0@, a, since);
    }
}

/// What a lost agent still runs at the end of the grace period waits again and is
/// queued once more; every other action stays where it is.
pub proof fn lemma_taken_back<S: ActionStore, Q: Scheduler>(
    seen: &S,
    who: &AgentId,
    running: StoreResult<Vec<Watch>>,
    store: &mut S,
    queue: &mut Q,
    r: Reassignment,
    k: u64,
)
    requires
        call_ensures(running_on::<S>, (seen, who), running),
        running is Ok,
        seen.records() == old(store).records(),
        old(store).reliable(),
        call_ensures(reassign::<S, Q>, (store, queue, who, running->Ok_0), r),
    ensures
        ({
            let before = old(store).records();
            let after = final(store).records();
            let mine = before.contains_key(k) && (match before[k].state {
                ArStateView::Started { agent, .. } => agent == who@,
                _ => false,
            });
            &&& r.failures@.len() == 0
            &&& r.requeued == running->Ok_0@.len()
            &&& after.contains_key(k) <==> before.contains_key(k)
            &&& mine ==> after[k].state is Waiting && after[k].action == before[k].action
                && after[k].progress == before[k].progress
            &&& before.contains_key(k) && !mine ==> after[k] == before[k]
        }),
{
    let m = store.records();
    let w = running->Ok_0@;
    let mine = action_store::selected(m, action_store::run_by(who@));
    let all = choose|all: Seq<ActionRecordView>| #[trigger]
        action_store::lists(all, mine) && recovery::watch_views(w) == recovery::started_watches(all);
    assert(action_store::lists(all, mine));
    let took = choose|took: Seq<bool>| #[trigger]
        disconnect::reassigned(
            m,
            final(store).records(),
            *old(queue),
            *final(queue),
            who@,
            recovery::watch_views(w),
            took,
            r,
        );
    disconnect::lemma_lost_work_waits_again(
        m,
        final(store).records(),
        *old(queue),
        *final(queue),
        who@,
        all,
        took,
        r,
    );
    assert(final(store).records().dom().contains(k) <==> m.dom().contains(k));
    assert(recovery::watch_views(w).len() == w.len());
    assert forall|i: int| 0 <= i < all.len() implies (#[trigger] all[i]).state is Started by {
        assert(mine.contains_key(all[i].action.cookie.0));
    }
    disconnect::lemma_each_watched(all);
}

/// How often an action was given back: once if a watch that took it is on its cookie.
proof fn lemma_freed_once(
    m: Records,
    agent: Seq<char>,
    watches: Seq<recovery::WatchView>,
    took: Seq<bool>,
    k: u64,
)
    requires
        action_store::keyed(m),
        m.contains_key(k),
        took.len() == watches.len(),
        forall|i: int|
            0 <= i < took.len() && #[trigger] took[i] ==> disconnect::still_held(
                m,
                agent,
                watches[i],
            ),
        forall|i: int, j: int|
            0 <= i < j < took.len() && #[trigger] took[i] && #[trigger] took[j]
                ==> watches[i].action.cookie != watches[j].action.cookie,
    ensures
        disconnect::freed(m, watches, took).to_multiset().count(m[k].action) == if disconnect::given_back(
            watches,
            took,
            k,
        ) {
            1nat
        } else {
            0
        },
    decreases watches.len(),
{
    let a = m[k].action;
    if watches.len() == 0 {
        Seq::<ActionView>::empty().to_multiset_ensures();
    } else {
        let w = watches.drop_last();
        let t = took.drop_last();
        assert forall|i: int| 0 <= i < t.len() && #[trigger] t[i] implies disconnect::still_held(
            m,
            agent,
            w[i],
        ) by {
            assert(took[i]);
        }
        assert forall|i: int, j: int|
            0 <= i < j < t.len() && #[trigger] t[i] && #[trigger] t[j] implies w[i].action.cookie
            != w[j].action.cookie by {
            assert(took[i] && took[j]);
        }
        lemma_freed_once(m, agent, w, t, k);
        let rest = disconnect::freed(m, w, t);
        let last = watches.last().action.cookie.0;
        if disconnect::given_back(w, t, k) {
            let i = choose|i: int| 0 <= i < w.len() && #[trigger] t[i] && w[i].action.cookie.0 == k;
            assert(took[i] && watches[i].action.cookie.0 == k);
        }
        if took.last() {
            assert(took[took.len() - 1]);
            rest.to_multiset_ensures();
            assert(disconnect::still_held(m, agent, watches[watches.len() - 1]));
            assert(m[last].action.cookie.0 == last);
            if last == k {
                assert(disconnect::given_back(watches, took, k));
                assert(!disconnect::given_back(w, t, k)) by {
                    if disconnect::given_back(w, t, k) {
                        let i = choose|i: int|
                            0 <= i < w.len() && #[trigger] t[i] && w[i].action.cookie.0 == k;
                        assert(took[i] && took[took.len() - 1]);
                        assert(watches[i].action.cookie.0 == watches.last().action.cookie.0);
                    }
                }
            } else {
                assert(m[k].action.cookie.0 == k);
                assert(a != m[last].action);
            }
        }
        if disconnect::given_back(watches, took, k) && !disconnect::given_back(w, t, k) {
            let i = choose|i: int|
                0 <= i < watches.len() && #[trigger] took[i] && watches[i].action.cookie.0 == k;
            if i < w.len() {
                assert(t[i] && w[i].action.cookie.0 == k);
            }
        }
    }
}

/// However old the watches are: an action that still runs under the claim that is watched
/// waits again, on record and once more in the queue. An action that is over by now, or
/// that somebody else runs, or that was claimed anew, is left alone, on record and in the
/// queue.
pub proof fn lemma_reassign_call<S: ActionStore, Q: Scheduler>(
    store: &mut S,
    queue: &mut Q,
    who: &AgentId,
    watches: Vec<Watch>,
    r: Reassignment,
    k: u64,
)
    requires
        call_ensures(reassign::<S, Q>, (store, queue, who, watches), r),
        action_store::keyed(old(store).records()),
        old(store).reliable(),
        old(store).records().contains_key(k),
    ensures
        ({
            let before = old(store).records();
            let after = final(store).records();
            let a = before[k].action;
            let held = exists|i: int|
                0 <= i < watches@.len() && (#[trigger] watches@[i])@.action.cookie.0 == k
                    && before[k].state == (ArStateView::Started {
                    agent: who@,
                    since_unix_ms: watches@[i]@.since_unix_ms,
                });
            &&& r.failures@.len() == 0
            &&& after.contains_key(k)
            &&& after[k].action == a
            &&& after[k].progress == before[k].progress
            &&& after[k].created_at == before[k].created_at
            &&& held ==> after[k].state is Waiting
            &&& !held ==> after[k] == before[k]
            &&& final(queue).waiting().count(a) == old(queue).waiting().count(a) + if held {
                1nat
            } else {
                0
            }
        }),
{
    let m = store.records();
    let after = final(store).records();
    let views = recovery::watch_views(watches@);
    let took = choose|took: Seq<bool>| #[trigger]
        disconnect::reassigned(m, after, *old(queue), *final(queue), who@, views, took, r);
    assert(disconnect::reassigned(m, after, *old(queue), *final(queue), who@, views, took, r));
    lemma_freed_once(m, who@, views, took, k);
    assert(views.len() == watches@.len());
    assert(after.dom().contains(k) <==> m.dom().contains(k));
    let held = exists|i: int|
        0 <= i < watches@.len() && (#[trigger] watches@[i])@.action.cookie.0 == k && m[k].state == (
        ArStateView::Started { agent: who@, since_unix_ms: watches@[i]@.since_unix_ms });
    if held {
        let i = choose|i: int|
            0 <= i < watches@.len() && (#[trigger] watches@[i])@.action.cookie.0 == k && m[k].state
                == (ArStateView::Started { agent: who@, since_unix_ms: watches@[i]@.since_unix_ms });
        assert(views[i] == watches@[i]@);
        assert(disconnect::still_held(m, who@, views[i]));
        assert(disconnect::given_back(views, took, k));
    } else {
        if disconnect::given_back(views, took, k) {
            let i = choose|i: int|
                0 <= i < views.len() && #[trigger] took[i] && views[i].action.cookie.0 == k;
            assert(disconnect::still_held(m, who@, views[i]));
            assert(views[i] == watches@[i]@);
        }
    }
}

/// What is queued again is queued behind what waited, and the count is the number of
/// actions that it adds.
pub proof fn lemma_reassign_queue<S: ActionStore, Q: Scheduler>(
    store: &mut S,
    queue: &mut Q,
    who: &AgentId,
    watches: Vec<Watch>,
    r: Reassignment,
    kind: ActionKind,
)
    requires
        call_ensures(reassign::<S, Q>, (store, queue, who, watches), r),
    ensures
        final(queue).waiting().len() == old(queue).waiting().len() + r.requeued,
        final(queue).queued(kind).len() >= old(queue).queued(kind).len(),
        final(queue).queued(kind).take(old(queue).queued(kind).len() as int) == old(queue).queued(
            kind,
        ),
{
    let m = store.records();
    let views = recovery::watch_views(watches@);
    let took = choose|took: Seq<bool>| #[trigger]
        disconnect::reassigned(
            m,
            final(store).records(),
            *old(queue),
            *final(queue),
            who@,
            views,
            took,
            r,
        );
    let back = disconnect::freed(m, views, took);
    back.to_multiset_ensures();
    assert(final(queue).queued(kind).take(old(queue).queued(kind).len() as int) =~= old(
        queue,
    ).queued(kind));
}

/// When the store cannot say whether a watched action still runs, nothing is done.
pub proof fn lemma_expiry_unknown<S: ActionStore, Q: Scheduler>(
    store: &mut S,
    queue: &mut Q,
    action: Action,
    r: Expiry,
    kind: ActionKind,
)
    requires
        call_ensures(grace_expired::<S, Q>, (store, queue, action), r),
        r is Unknown,
    ensures
        r->Unknown_0@ is Backend,
        final(store).records() == old(store).records(),
        final(queue).waiting() == old(queue).waiting(),
        final(queue).queued(kind) == old(queue).queued(kind),
{
}

/// A recovery names every record it could not delete, and how the store failed on it.
pub proof fn lemma_recover_failures<S: ActionStore, Q: Scheduler>(
    store: &mut S,
    queue: &mut Q,
    r: StoreResult<Recovery>,
    i: int,
    k: u64,
)
    requires
        call_ensures(recover::<S, Q>, (store, queue), r),
        r is Ok,
    ensures
        0 <= i < r->Ok_0.failures@.len() ==> r->Ok_0.failures@[i].1@ is Backend,
        final(store).records().contains_key(k) && !records::unfinished(
            final(store).records()[k].state,
        ) ==> exists|j: int|
            0 <= j < r->Ok_0.failures@.len() && (#[trigger] r->Ok_0.failures@[j]).0.0 == k,
        final(store).records().contains_key(k) ==> old(store).records().contains_key(k)
            && final(store).records()[k] == old(store).records()[k],
{
    if final(store).records().contains_key(k) && !records::unfinished(
        final(store).records()[k].state,
    ) {
        let f = r->Ok_0.failures@;
        assert(recovery::failed_on(f, k));
        let j = choose|j: int| 0 <= j < f.len() && (#[trigger] f[j]).0.0 == k;
        assert(f[j].0.0 == k);
    }
}

/// The requests that were not taken, by their places.
proof fn lemma_chosen_places(batch: Seq<ActionView>, took: Seq<bool>, want: bool)
    requires
        took.len() == batch.len(),
    ensures
        forall|i: int|
            0 <= i < batch.len() && #[trigger] took[i] == want ==> ingest::chosen(
                batch,
                took,
                want,
            ).contains(batch[i]),
        forall|j: int|
            0 <= j < ingest::chosen(batch, took, want).len() ==> exists|i: int|
                0 <= i < batch.len() && #[trigger] took[i] == want && batch[i]
                    == #[trigger] ingest::chosen(batch, took, want)[j],
    decreases batch.len(),
{
    if batch.len() > 0 {
        let b = batch.drop_last();
        let t = took.drop_last();
        lemma_chosen_places(b, t, want);
        let rest = ingest::chosen(b, t, want);
        let all = ingest::chosen(batch, took, want);
        let n = batch.len() - 1;
        assert forall|i: int| 0 <= i < batch.len() && #[trigger] took[i] == want implies all.contains(
            batch[i],
        ) by {
            if i < n {
                assert(t[i] == want);
                assert(rest.contains(b[i]));
                let p = choose|p: int| 0 <= p < rest.len() && rest[p] == b[i];
                assert(all[p] == b[i]);
            } else {
                assert(all[all.len() - 1] == batch[i]);
            }
        }
        assert forall|j: int| 0 <= j < all.len() implies exists|i: int|
            0 <= i < batch.len() && #[trigger] took[i] == want && batch[i] == #[trigger] all[j] by {
            if j < rest.len() {
                assert(all[j] == rest[j]);
                let i = choose|i: int|
                    0 <= i < b.len() && #[trigger] t[i] == want && b[i] == rest[j];
                assert(took[i] == want && batch[i] == all[j]);
            } else {
                assert(took[n] == want && batch[n] == all[j]);
            }
        }
    }
}

/// Every request of a batch is queued or reported as refused. A request whose cookie is
/// on record is reported, and nothing is reported that was not asked for; unless the
/// backend failed, what is reported is that its cookie is on record already.
pub proof fn lemma_batch_refused<S: ActionStore, Q: Scheduler>(
    store: &mut S,
    queue: &mut Q,
    batch: Vec<ReceivedAction>,
    r: BatchOutcome,
    i: int,
    j: int,
)
    requires
        call_ensures(ingest_batch::<S, Q>, (store, queue, batch), r),
    ensures
        final(queue).waiting().len() + r.refused@.len() == old(queue).waiting().len() + batch@.len(),
        0 <= i < batch@.len() && old(store).records().contains_key(batch@[i].cookie.0)
            ==> exists|m: int|
            0 <= m < r.refused@.len() && (#[trigger] r.refused@[m]).0 == batch@[i].cookie,
        0 <= j < r.refused@.len() ==> exists|m: int|
            0 <= m < batch@.len() && (#[trigger] batch@[m]).cookie == r.refused@[j].0,
        0 <= j < r.refused@.len() ==> r.refused@[j].1@ is Backend || r.refused@[j].1@
            == StoreErrorView::DuplicateCookie(r.refused@[j].0),
{
    let m0 = store.records();
    let all = ingest::batch_actions(batch@);
    let took = choose|took: Seq<bool>| #[trigger]
        ingest::taken_in(
            m0,
            final(store).records(),
            *old(queue),
            *final(queue),
            all,
            took,
            r,
        );
    assert(ingest::taken_in(
        m0,
        final(store).records(),
        *old(queue),
        *final(queue),
        all,
        took,
        r,
    ));
    let yes = ingest::chosen(all, took, true);
    let no = ingest::chosen(all, took, false);
    yes.to_multiset_ensures();
    lemma_chosen_places(all, took, false);
    let named = ingest::reported(r.refused@);
    assert(named.len() == no.len());
    assert(all.len() == batch@.len());
    if 0 <= i < batch@.len() && m0.contains_key(batch@[i].cookie.0) {
        assert(all[i].cookie == batch@[i].cookie);
        assert(took[i] == false) by {
            if took[i] {
                assert(!m0.contains_key(all[i].cookie.0));
            }
        }
        assert(no.contains(all[i]));
        let m = choose|m: int| 0 <= m < no.len() && no[m] == all[i];
        assert(named[m] == ingest::cookie_list(no)[m]);
        assert(r.refused@[m].0 == batch@[i].cookie);
    }
    if 0 <= j < r.refused@.len() {
        assert(named[j] == ingest::cookie_list(no)[j]);
        assert(named[j] == r.refused@[j].0);
        let m = choose|m: int|
            0 <= m < all.len() && #[trigger] took[m] == false && all[m] == #[trigger] no[j];
        assert(batch@[m].cookie == all[m].cookie);
    }
}

} // verus!
