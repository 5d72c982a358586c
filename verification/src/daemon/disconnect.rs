//! An agent that disconnects: what it was running goes to others.
//!
//! The agent leaves the registry at once, and what it was running is watched. It may
//! still come back and finish its actions. Once the grace period is over, those that
//! it has not finished wait again.

use crate::daemon::dispatch;
use crate::daemon::recovery;
use crate::daemon::recovery::{Watch, WatchView};
use crate::model::action::{ActionRecordView, ActionView, ArStateView};
use crate::model::{ActionKind, ActionRecord, AgentId, ArState, Cookie, Timestamp};
use crate::scheduler::agent;
use crate::scheduler::agent::AgentRegistry;
use crate::scheduler::strategy;
use crate::scheduler::strategy::Scheduler;
use crate::store::action_store;
use crate::store::action_store::{ActionStore, Records, StoreOp};
use crate::store::error::{StoreError, StoreResult};
use vstd::prelude::*;

verus! {

// ---------------------------------------------------------------------------
// The agent is gone
// ---------------------------------------------------------------------------

/// Take a lost agent off the registry, tell the scheduler, and hand out what the
/// agent was running. No action changes hands yet.
pub fn agent_lost<S: ActionStore, Q: Scheduler>(
    store: &S,
    queue: &mut Q,
    registry: &mut AgentRegistry,
    lost: &AgentId,
) -> (r: StoreResult<Vec<Watch>>)
    requires
        action_store::keyed(store.records()),
        old(queue).valid(),
    ensures
        final(queue).valid(),
        final(queue).waiting() == old(queue).waiting(),
        forall|k: ActionKind| #[trigger] final(queue).queued(k) == old(queue).queued(k),
        final(registry)@ == agent::unregistered(old(registry)@, lost@),
        old(registry).wf() ==> final(registry).wf(),
        match r {
            Ok(v) => exists|all: Seq<ActionRecordView>| #[trigger]
                action_store::lists(
                    all,
                    action_store::selected(store.records(), action_store::run_by(lost@)),
                ) && recovery::watch_views(v@) == recovery::started_watches(all),
            Err(_) => action_store::backend_failed(r) && !store.reliable(),
        },
{
    let _ = registry.unregister(lost);
    queue.on_disconnect(lost);
    running_on(store, lost)
}

/// What an agent is running.
pub fn running_on<S: ActionStore>(store: &S, agent: &AgentId) -> (r: StoreResult<Vec<Watch>>)
    requires
        action_store::keyed(store.records()),
    ensures
        match r {
            Ok(v) => exists|all: Seq<ActionRecordView>| #[trigger]
                action_store::lists(
                    all,
                    action_store::selected(store.records(), action_store::run_by(agent@)),
                ) && recovery::watch_views(v@) == recovery::started_watches(all),
            Err(_) => action_store::backend_failed(r) && !store.reliable(),
        },
{
    let records = match store.list_by_agent(agent) {
        Ok(v) => v,
        Err(e) => {
            return Err(e);
        },
    };
    let ghost all = action_store::record_views(records@);
    let mut watches: Vec<Watch> = Vec::new();
    let mut i: usize = 0;
    proof {
        recovery::lemma_replay_nothing(all.take(0));
        assert(recovery::watch_views(watches@) =~= recovery::started_watches(all.take(0)));
    }
    while i < records.len()
        invariant
            i <= records@.len(),
            all == action_store::record_views(records@),
            recovery::watch_views(watches@) == recovery::started_watches(all.take(i as int)),
        decreases records.len() - i,
    {
        let rec = &records[i];
        let ghost t = all.take(i + 1);
        let ghost w0 = watches@;
        proof {
            assert(t.drop_last() =~= all.take(i as int));
            assert(t.last() == rec@);
            recovery::lemma_replay_one(t);
        }
        if let ArState::Started { since_unix_ms, .. } = &rec.state {
            let w = Watch { action: rec.action.clone(), since_unix_ms: *since_unix_ms };
            watches.push(w);
            proof {
                assert(recovery::watch_views(watches@) =~= recovery::watch_views(w0).push(w@));
            }
        }
        i = i + 1;
    }
    proof {
        assert(all.take(i as int) =~= all);
    }
    Ok(watches)
}

// ---------------------------------------------------------------------------
// The grace period is over
// ---------------------------------------------------------------------------

/// The claim that is watched still stands: the action counts as running on that
/// agent, and since the same moment.
pub open spec fn still_held(m: Records, agent: Seq<char>, w: WatchView) -> bool {
    let k = w.action.cookie.0;
    m.contains_key(k) && m[k].state == (ArStateView::Started {
        agent,
        since_unix_ms: w.since_unix_ms,
    })
}

/// `after` is `before` with the action waiting again.
pub open spec fn waits_again(before: ActionRecordView, after: ActionRecordView) -> bool {
    after == (ActionRecordView {
        state: ArStateView::Waiting,
        updated_at: after.updated_at,
        ..before
    })
}

/// Some watched claim on that cookie stands.
pub open spec fn claim_stands(
    m: Records,
    agent: Seq<char>,
    watches: Seq<WatchView>,
    k: u64,
) -> bool {
    exists|i: int|
        0 <= i < watches.len() && (#[trigger] watches[i]).action.cookie.0 == k && still_held(
            m,
            agent,
            watches[i],
        )
}

/// The action with that cookie was given back; `took` says of each watch whether its
/// action was.
pub open spec fn given_back(watches: Seq<WatchView>, took: Seq<bool>, k: u64) -> bool {
    exists|i: int| 0 <= i < watches.len() && #[trigger] took[i] && watches[i].action.cookie.0 == k
}

/// Some watch is on that cookie.
pub open spec fn watched(watches: Seq<WatchView>, k: u64) -> bool {
    exists|i: int| 0 <= i < watches.len() && (#[trigger] watches[i]).action.cookie.0 == k
}

/// The actions that were given back, in order, as the store had them.
pub open spec fn freed(m: Records, watches: Seq<WatchView>, took: Seq<bool>) -> Seq<ActionView>
    decreases watches.len(),
{
    if watches.len() == 0 {
        Seq::empty()
    } else {
        let rest = freed(m, watches.drop_last(), took.drop_last());
        if took.last() {
            rest.push(m[watches.last().action.cookie.0].action)
        } else {
            rest
        }
    }
}

/// What becomes of the records. An action is given back only if the claim on it
/// stands, and no action twice. Each whose claim stands is given back, unless the
/// store's backend failed on it; then it may wait again or still count as running.
/// No other record changes.
pub open spec fn released(
    before: Records,
    after: Records,
    agent: Seq<char>,
    watches: Seq<WatchView>,
    took: Seq<bool>,
    failures: Seq<(Cookie, StoreError)>,
) -> bool {
    &&& took.len() == watches.len()
    &&& after.dom() == before.dom()
    &&& forall|i: int| 0 <= i < took.len() && #[trigger] took[i] ==> still_held(
        before,
        agent,
        watches[i],
    )
    &&& forall|i: int, j: int|
        0 <= i < j < took.len() && #[trigger] took[i] && #[trigger] took[j]
            ==> watches[i].action.cookie != watches[j].action.cookie
    &&& forall|i: int|
        0 <= i < watches.len() && still_held(before, agent, #[trigger] watches[i]) ==> given_back(
            watches,
            took,
            watches[i].action.cookie.0,
        ) || recovery::failed_on(failures, watches[i].action.cookie.0)
    &&& forall|k: u64| #[trigger]
        before.contains_key(k) ==> (if given_back(watches, took, k) {
            waits_again(before[k], after[k])
        } else {
            after[k] == before[k] || (recovery::failed_on(failures, k) && claim_stands(
                before,
                agent,
                watches,
                k,
            ) && waits_again(before[k], after[k]))
        })
    &&& forall|i: int|
        0 <= i < failures.len() ==> (#[trigger] failures[i]).1@ is Backend && watched(
            watches,
            failures[i].0.0,
        )
}

/// What taking a lost agent's work from it came to.
#[derive(Debug, PartialEq, Eq)]
pub struct Reassignment {
    /// Number of actions queued again.
    pub requeued: usize,
    /// The actions on which the store's backend failed, and how.
    pub failures: Vec<(Cookie, StoreError)>,
}

/// The watched actions were released, and those given back were queued in order,
/// behind what waited before.
pub open spec fn reassigned<Q: Scheduler>(
    before: Records,
    after: Records,
    q0: Q,
    q: Q,
    agent: Seq<char>,
    watches: Seq<WatchView>,
    took: Seq<bool>,
    r: Reassignment,
) -> bool {
    let back = freed(before, watches, took);
    &&& released(before, after, agent, watches, took, r.failures@)
    &&& q.waiting() == q0.waiting().add(back.to_multiset())
    &&& forall|k: ActionKind| #[trigger]
        q.queued(k) == q0.queued(k) + back.filter(strategy::of_kind(k))
    &&& r.requeued == back.len()
}

/// `true` if the record is running on that agent since that moment.
fn claimed_since(rec: &ActionRecord, agent: &AgentId, since: u64) -> (r: bool)
    ensures
        r == (rec@.state == (ArStateView::Started { agent: agent@, since_unix_ms: since })),
{
    match &rec.state {
        ArState::Started { agent: a, since_unix_ms } => *since_unix_ms == since && a.same_as(agent),
        _ => false,
    }
}

/// The grace period of a lost agent is over. Of the actions that were watched, each
/// that still counts as running on that agent under the same claim waits again and is
/// queued again, in order. One that the agent has finished, or that was claimed
/// again, is left alone. A failing backend does not keep the rest from being queued.
pub fn reassign<S: ActionStore, Q: Scheduler>(
    store: &mut S,
    queue: &mut Q,
    agent: &AgentId,
    watches: Vec<Watch>,
) -> (r: Reassignment)
    requires
        action_store::keyed(old(store).records()),
        old(queue).valid(),
    ensures
        action_store::keyed(final(store).records()),
        final(store).reliable() == old(store).reliable(),
        final(queue).valid(),
        exists|took: Seq<bool>| #[trigger]
            reassigned(
                old(store).records(),
                final(store).records(),
                *old(queue),
                *final(queue),
                agent@,
                recovery::watch_views(watches@),
                took,
                r,
            ),
        old(store).reliable() ==> r.failures@.len() == 0,
{
    let ghost m0 = store.records();
    let ghost q0 = *queue;
    let ghost reliable = store.reliable();
    let ghost all = recovery::watch_views(watches@);
    let ghost mut took: Seq<bool> = Seq::empty();
    let mut requeued: usize = 0;
    let mut failures: Vec<(Cookie, StoreError)> = Vec::new();
    let mut i: usize = 0;
    proof {
        lemma_nothing_released(m0, agent@, all.take(0), took, failures@);
        lemma_nothing_queued(q0, freed(m0, all.take(0), took));
    }
    while i < watches.len()
        invariant
            i <= watches@.len(),
            all == recovery::watch_views(watches@),
            action_store::keyed(store.records()),
            queue.valid(),
            store.reliable() == reliable,
            reliable ==> failures@.len() == 0,
            released(m0, store.records(), agent@, all.take(i as int), took, failures@),
            queue.waiting() == q0.waiting().add(
                freed(m0, all.take(i as int), took).to_multiset(),
            ),
            forall|k: ActionKind| #[trigger]
                queue.queued(k) == q0.queued(k) + freed(m0, all.take(i as int), took).filter(
                    strategy::of_kind(k),
                ),
            requeued == freed(m0, all.take(i as int), took).len(),
            requeued <= i,
        decreases watches.len() - i,
    {
        let w = &watches[i];
        let cookie = w.action.cookie;
        let ghost s = all.take(i as int);
        let ghost took0 = took;
        let ghost failures0 = failures@;
        let ghost before = store.records();
        let ghost back = freed(m0, s, took0);
        proof {
            assert(all.take(i + 1) =~= s.push(w@));
            lemma_freed_one(m0, s, took0, w@);
        }
        match store.get(cookie) {
            Ok(Some(rec)) => {
                if claimed_since(&rec, agent, w.since_unix_ms) {
                    let res = store.transition(cookie, ArState::Waiting);
                    proof {
                        lemma_let_go(before, store.records(), res, cookie);
                    }
                    match res {
                        Ok(_) => {
                            queue.enqueue(rec.action);
                            requeued = requeued + 1;
                            proof {
                                took = took0.push(true);
                                lemma_released_one(
                                    m0,
                                    before,
                                    store.records(),
                                    agent@,
                                    s,
                                    took0,
                                    failures0,
                                    w@,
                                );
                                lemma_queued_back(q0, *queue, back, rec@.action);
                            }
                        },
                        Err(e) => {
                            failures.push((cookie, e));
                            proof {
                                took = took0.push(false);
                                lemma_release_failed(
                                    m0,
                                    before,
                                    store.records(),
                                    agent@,
                                    s,
                                    took0,
                                    failures0,
                                    w@,
                                    e,
                                );
                            }
                        },
                    }
                } else {
                    proof {
                        took = took0.push(false);
                        lemma_not_held(m0, before, agent@, s, took0, failures0, w@);
                    }
                }
            },
            Ok(None) => {
                proof {
                    took = took0.push(false);
                    lemma_not_held(m0, before, agent@, s, took0, failures0, w@);
                }
            },
            Err(e) => {
                failures.push((cookie, e));
                proof {
                    took = took0.push(false);
                    lemma_release_failed(
                        m0,
                        before,
                        before,
                        agent@,
                        s,
                        took0,
                        failures0,
                        w@,
                        e,
                    );
                }
            },
        }
        i = i + 1;
    }
    let r = Reassignment { requeued, failures };
    proof {
        assert(all.take(i as int) =~= all);
        assert(reassigned(m0, store.records(), q0, *queue, agent@, all, took, r));
    }
    r
}

// ---------------------------------------------------------------------------
// Steps of the proof
// ---------------------------------------------------------------------------

/// No watch, nothing released.
proof fn lemma_nothing_released(
    m: Records,
    agent: Seq<char>,
    watches: Seq<WatchView>,
    took: Seq<bool>,
    failures: Seq<(Cookie, StoreError)>,
)
    requires
        watches.len() == 0,
        took.len() == 0,
        failures.len() == 0,
    ensures
        released(m, m, agent, watches, took, failures),
        freed(m, watches, took) == Seq::<ActionView>::empty(),
{
}

/// Queueing nothing changes nothing.
proof fn lemma_nothing_queued<Q: Scheduler>(q: Q, back: Seq<ActionView>)
    requires
        back.len() == 0,
    ensures
        q.waiting() == q.waiting().add(back.to_multiset()),
        forall|k: ActionKind| #[trigger]
            q.queued(k) == q.queued(k) + back.filter(strategy::of_kind(k)),
{
    back.to_multiset_ensures();
    assert(q.waiting() =~= q.waiting().add(back.to_multiset()));
    assert forall|k: ActionKind| #[trigger]
        q.queued(k) == q.queued(k) + back.filter(strategy::of_kind(k)) by {
        reveal(Seq::filter);
        assert(q.queued(k) + back.filter(strategy::of_kind(k)) =~= q.queued(k));
    }
}

/// What one more watch adds to the actions given back.
proof fn lemma_freed_one(m: Records, s: Seq<WatchView>, took: Seq<bool>, w: WatchView)
    ensures
        freed(m, s.push(w), took.push(true)) == freed(m, s, took).push(
            m[w.action.cookie.0].action,
        ),
        freed(m, s.push(w), took.push(false)) == freed(m, s, took),
{
    assert(s.push(w).drop_last() =~= s);
    assert(took.push(true).drop_last() =~= took);
    assert(took.push(false).drop_last() =~= took);
}

/// One more action is queued behind those given back.
proof fn lemma_queued_back<Q: Scheduler>(q0: Q, q: Q, back: Seq<ActionView>, a: ActionView)
    requires
        q.waiting() == q0.waiting().add(back.to_multiset()).insert(a),
        forall|k: ActionKind| #[trigger]
            q.queued(k) == (if k == a.kind {
                (q0.queued(k) + back.filter(strategy::of_kind(k))).push(a)
            } else {
                q0.queued(k) + back.filter(strategy::of_kind(k))
            }),
    ensures
        q.waiting() == q0.waiting().add(back.push(a).to_multiset()),
        forall|k: ActionKind| #[trigger]
            q.queued(k) == q0.queued(k) + back.push(a).filter(strategy::of_kind(k)),
{
    back.to_multiset_ensures();
    assert(q.waiting() =~= q0.waiting().add(back.push(a).to_multiset()));
    assert forall|k: ActionKind| #[trigger]
        q.queued(k) == q0.queued(k) + back.push(a).filter(strategy::of_kind(k)) by {
        strategy::lemma_of_kind_push(back, a, k);
        assert(q.queued(k) =~= q0.queued(k) + back.push(a).filter(strategy::of_kind(k)));
    }
}

/// One more watch changes nothing about what the earlier ones did.
proof fn lemma_one_more(
    m: Records,
    agent: Seq<char>,
    s: Seq<WatchView>,
    took: Seq<bool>,
    w: WatchView,
    b: bool,
)
    requires
        took.len() == s.len(),
    ensures
        forall|k: u64| #[trigger]
            given_back(s.push(w), took.push(b), k) <==> given_back(s, took, k) || (b
                && w.action.cookie.0 == k),
        forall|k: u64| #[trigger]
            claim_stands(m, agent, s.push(w), k) <==> claim_stands(m, agent, s, k) || (
            w.action.cookie.0 == k && still_held(m, agent, w)),
        forall|k: u64| #[trigger]
            watched(s.push(w), k) <==> watched(s, k) || w.action.cookie.0 == k,
{
    let t = s.push(w);
    let tk = took.push(b);
    assert(t[s.len() as int] == w);
    assert(tk[s.len() as int] == b);
    assert forall|i: int| 0 <= i < s.len() implies #[trigger] t[i] == s[i] by {}
    assert forall|k: u64| #[trigger] given_back(t, tk, k) <==> given_back(s, took, k) || (b
        && w.action.cookie.0 == k) by {
        if given_back(s, took, k) {
            let i = choose|i: int|
                0 <= i < s.len() && #[trigger] took[i] && s[i].action.cookie.0 == k;
            assert(tk[i] == took[i]);
            assert(t[i] == s[i]);
        }
        if given_back(t, tk, k) {
            let i = choose|i: int| 0 <= i < t.len() && #[trigger] tk[i] && t[i].action.cookie.0 == k;
            if i < s.len() {
                assert(tk[i] == took[i]);
                assert(t[i] == s[i]);
            }
        }
    }
    assert forall|k: u64| #[trigger] claim_stands(m, agent, t, k) <==> claim_stands(
        m,
        agent,
        s,
        k,
    ) || (w.action.cookie.0 == k && still_held(m, agent, w)) by {
        if claim_stands(m, agent, s, k) {
            let i = choose|i: int|
                0 <= i < s.len() && (#[trigger] s[i]).action.cookie.0 == k && still_held(
                    m,
                    agent,
                    s[i],
                );
            assert(t[i] == s[i]);
        }
        if claim_stands(m, agent, t, k) {
            let i = choose|i: int|
                0 <= i < t.len() && (#[trigger] t[i]).action.cookie.0 == k && still_held(
                    m,
                    agent,
                    t[i],
                );
            if i < s.len() {
                assert(t[i] == s[i]);
            }
        }
    }
    assert forall|k: u64| #[trigger] watched(t, k) <==> watched(s, k) || w.action.cookie.0 == k by {
        if watched(s, k) {
            let i = choose|i: int| 0 <= i < s.len() && (#[trigger] s[i]).action.cookie.0 == k;
            assert(t[i] == s[i]);
        }
        if watched(t, k) {
            let i = choose|i: int| 0 <= i < t.len() && (#[trigger] t[i]).action.cookie.0 == k;
            if i < s.len() {
                assert(t[i] == s[i]);
            }
        }
    }
}

/// One record waits again; no other changes.
spec fn let_go(before: Records, after: Records, k: u64) -> bool {
    &&& after.dom() == before.dom()
    &&& waits_again(before[k], after[k])
    &&& forall|x: u64| x != k ==> #[trigger] after[x] == before[x]
}

/// A running action is never refused to wait again.
proof fn lemma_let_go(before: Records, after: Records, r: StoreResult<()>, cookie: Cookie)
    requires
        dispatch::moved(before, after, r, cookie, ArStateView::Waiting),
        before.contains_key(cookie.0),
        before[cookie.0].state is Started,
    ensures
        r is Ok ==> let_go(before, after, cookie.0),
        r is Err ==> action_store::backend_failed(r) && (after == before || let_go(
            before,
            after,
            cookie.0,
        )),
{
    let now = choose|now: Timestamp| #[trigger]
        action_store::attempted(
            before,
            after,
            r,
            StoreOp::Transition { cookie: cookie.0, new: ArStateView::Waiting, now },
        );
    assert(action_store::attempted(
        before,
        after,
        r,
        StoreOp::Transition { cookie: cookie.0, new: ArStateView::Waiting, now },
    ));
    if after != before {
        assert(after.dom() =~= before.dom());
        assert forall|x: u64| x != cookie.0 implies #[trigger] after[x] == before[x] by {}
    } else {
        assert(before.insert(
            cookie.0,
            ActionRecordView { state: ArStateView::Waiting, updated_at: now, ..before[cookie.0] },
        )[cookie.0].state is Waiting);
    }
}

/// A claim that stands has not been touched yet.
proof fn lemma_untouched(
    m0: Records,
    m: Records,
    agent: Seq<char>,
    s: Seq<WatchView>,
    took: Seq<bool>,
    failures: Seq<(Cookie, StoreError)>,
    w: WatchView,
)
    requires
        released(m0, m, agent, s, took, failures),
        still_held(m, agent, w),
    ensures
        m0.contains_key(w.action.cookie.0),
        m[w.action.cookie.0] == m0[w.action.cookie.0],
        still_held(m0, agent, w),
        !given_back(s, took, w.action.cookie.0),
{
    assert(m0.dom().contains(w.action.cookie.0));
    assert(m0.contains_key(w.action.cookie.0));
}

/// The action of the next watch is given back.
#[verifier::spinoff_prover]
proof fn lemma_released_one(
    m0: Records,
    before: Records,
    after: Records,
    agent: Seq<char>,
    s: Seq<WatchView>,
    took: Seq<bool>,
    failures: Seq<(Cookie, StoreError)>,
    w: WatchView,
)
    requires
        released(m0, before, agent, s, took, failures),
        still_held(before, agent, w),
        let_go(before, after, w.action.cookie.0),
    ensures
        released(m0, after, agent, s.push(w), took.push(true), failures),
        m0[w.action.cookie.0].action == before[w.action.cookie.0].action,
{
    let t = s.push(w);
    let tk = took.push(true);
    let key = w.action.cookie.0;
    lemma_untouched(m0, before, agent, s, took, failures, w);
    lemma_one_more(m0, agent, s, took, w, true);
    assert forall|i: int| 0 <= i < tk.len() && #[trigger] tk[i] implies still_held(
        m0,
        agent,
        t[i],
    ) by {
        if i < s.len() {
            assert(took[i]);
            assert(t[i] == s[i]);
        }
    }
    assert forall|i: int, j: int|
        0 <= i < j < tk.len() && #[trigger] tk[i] && #[trigger] tk[j] implies t[i].action.cookie
        != t[j].action.cookie by {
        assert(took[i]);
        assert(t[i] == s[i]);
        if j < s.len() {
            assert(took[j]);
            assert(t[j] == s[j]);
        } else if t[i].action.cookie == w.action.cookie {
            assert(given_back(s, took, key));
        }
    }
    assert forall|i: int|
        0 <= i < t.len() && still_held(m0, agent, #[trigger] t[i]) implies given_back(
        t,
        tk,
        t[i].action.cookie.0,
    ) || recovery::failed_on(failures, t[i].action.cookie.0) by {
        if i < s.len() {
            assert(t[i] == s[i]);
        }
    }
    assert forall|k: u64| #[trigger] m0.contains_key(k) implies (if given_back(t, tk, k) {
        waits_again(m0[k], after[k])
    } else {
        after[k] == m0[k] || (recovery::failed_on(failures, k) && claim_stands(m0, agent, t, k)
            && waits_again(m0[k], after[k]))
    }) by {
        if k != key {
            assert(after[k] == before[k]);
        }
    }
}

/// The next watch is on a claim that no longer stands.
#[verifier::spinoff_prover]
proof fn lemma_not_held(
    m0: Records,
    m: Records,
    agent: Seq<char>,
    s: Seq<WatchView>,
    took: Seq<bool>,
    failures: Seq<(Cookie, StoreError)>,
    w: WatchView,
)
    requires
        released(m0, m, agent, s, took, failures),
        !still_held(m, agent, w),
    ensures
        released(m0, m, agent, s.push(w), took.push(false), failures),
{
    let key = w.action.cookie.0;
    lemma_one_more(m0, agent, s, took, w, false);
    if still_held(m0, agent, w) {
        assert(m0.contains_key(key));
        assert(m0.dom().contains(key));
        assert(m.contains_key(key));
        assert(given_back(s, took, key) || recovery::failed_on(failures, key));
    }
    lemma_passed_over(m0, m, agent, s, took, failures, failures, w);
}

/// The store's backend failed on the next watch.
#[verifier::spinoff_prover]
proof fn lemma_release_failed(
    m0: Records,
    before: Records,
    after: Records,
    agent: Seq<char>,
    s: Seq<WatchView>,
    took: Seq<bool>,
    failures: Seq<(Cookie, StoreError)>,
    w: WatchView,
    e: StoreError,
)
    requires
        released(m0, before, agent, s, took, failures),
        e@ is Backend,
        after == before || (still_held(before, agent, w) && let_go(
            before,
            after,
            w.action.cookie.0,
        )),
    ensures
        released(
            m0,
            after,
            agent,
            s.push(w),
            took.push(false),
            failures.push((w.action.cookie, e)),
        ),
{
    let key = w.action.cookie.0;
    let more = failures.push((w.action.cookie, e));
    assert(more[failures.len() as int].0.0 == key);
    assert(recovery::failed_on(more, key));
    assert forall|k: u64| #[trigger] recovery::failed_on(failures, k) implies recovery::failed_on(
        more,
        k,
    ) by {
        let i = choose|i: int| 0 <= i < failures.len() && (#[trigger] failures[i]).0.0 == k;
        assert(more[i] == failures[i]);
    }
    lemma_one_more(m0, agent, s, took, w, false);
    assert forall|i: int| 0 <= i < more.len() implies (#[trigger] more[i]).1@ is Backend && (watched(
        s,
        more[i].0.0,
    ) || more[i].0.0 == key) by {
        if i < failures.len() {
            assert(more[i] == failures[i]);
        }
    }
    lemma_passed_over(m0, before, agent, s, took, failures, more, w);
    if after != before {
        lemma_untouched(m0, before, agent, s, took, failures, w);
        let t = s.push(w);
        let tk = took.push(false);
        assert forall|k: u64| #[trigger] m0.contains_key(k) implies (if given_back(t, tk, k) {
            waits_again(m0[k], after[k])
        } else {
            after[k] == m0[k] || (recovery::failed_on(more, k) && claim_stands(m0, agent, t, k)
                && waits_again(m0[k], after[k]))
        }) by {
            if k != key {
                assert(after[k] == before[k]);
            }
        }
    }
}

/// The next watch is passed over: its claim does not stand, or the backend failed on
/// it.
#[verifier::spinoff_prover]
proof fn lemma_passed_over(
    m0: Records,
    m: Records,
    agent: Seq<char>,
    s: Seq<WatchView>,
    took: Seq<bool>,
    failures: Seq<(Cookie, StoreError)>,
    more: Seq<(Cookie, StoreError)>,
    w: WatchView,
)
    requires
        released(m0, m, agent, s, took, failures),
        forall|k: u64| #[trigger]
            recovery::failed_on(failures, k) ==> recovery::failed_on(more, k),
        forall|i: int|
            0 <= i < more.len() ==> (#[trigger] more[i]).1@ is Backend && (watched(
                s,
                more[i].0.0,
            ) || more[i].0.0 == w.action.cookie.0),
        still_held(m0, agent, w) ==> given_back(s, took, w.action.cookie.0)
            || recovery::failed_on(more, w.action.cookie.0),
    ensures
        released(m0, m, agent, s.push(w), took.push(false), more),
{
    let t = s.push(w);
    let tk = took.push(false);
    lemma_one_more(m0, agent, s, took, w, false);
    assert forall|i: int| 0 <= i < tk.len() && #[trigger] tk[i] implies still_held(
        m0,
        agent,
        t[i],
    ) by {
        assert(took[i]);
        assert(t[i] == s[i]);
    }
    assert forall|i: int, j: int|
        0 <= i < j < tk.len() && #[trigger] tk[i] && #[trigger] tk[j] implies t[i].action.cookie
        != t[j].action.cookie by {
        assert(took[i] && took[j]);
        assert(t[i] == s[i] && t[j] == s[j]);
    }
    assert forall|i: int|
        0 <= i < t.len() && still_held(m0, agent, #[trigger] t[i]) implies given_back(
        t,
        tk,
        t[i].action.cookie.0,
    ) || recovery::failed_on(more, t[i].action.cookie.0) by {
        if i < s.len() {
            assert(t[i] == s[i]);
        }
    }
}

// ---------------------------------------------------------------------------
// Laws
// ---------------------------------------------------------------------------

/// If all of these are started, each is watched.
pub(crate) proof fn lemma_each_watched(all: Seq<ActionRecordView>)
    requires
        forall|i: int| 0 <= i < all.len() ==> (#[trigger] all[i]).state is Started,
    ensures
        recovery::started_watches(all).len() == all.len(),
        forall|i: int|
            0 <= i < all.len() ==> (#[trigger] recovery::started_watches(all)[i]) == (WatchView {
                action: all[i].action,
                since_unix_ms: all[i].state->Started_since_unix_ms,
            }),
    decreases all.len(),
{
    if all.len() == 0 {
        recovery::lemma_replay_nothing(all);
    } else {
        let s = all.drop_last();
        assert forall|i: int| 0 <= i < s.len() implies (#[trigger] s[i]).state is Started by {
            assert(s[i] == all[i]);
        }
        lemma_each_watched(s);
        recovery::lemma_replay_one(all);
        assert(all.last() == all[all.len() - 1]);
        assert forall|i: int| 0 <= i < all.len() implies (#[trigger] recovery::started_watches(
            all,
        )[i]) == (WatchView {
            action: all[i].action,
            since_unix_ms: all[i].state->Started_since_unix_ms,
        }) by {
            if i < s.len() {
                assert(recovery::started_watches(all)[i] == recovery::started_watches(s)[i]);
                assert(s[i] == all[i]);
            }
        }
    }
}

/// If every watched action is given back, these are the actions.
proof fn lemma_all_freed(
    m: Records,
    all: Seq<ActionRecordView>,
    watches: Seq<WatchView>,
    took: Seq<bool>,
)
    requires
        watches.len() == all.len(),
        took.len() == all.len(),
        forall|i: int| 0 <= i < all.len() ==> #[trigger] took[i],
        forall|i: int|
            0 <= i < all.len() ==> m[(#[trigger] watches[i]).action.cookie.0].action
                == all[i].action,
    ensures
        freed(m, watches, took) == all.map_values(|r: ActionRecordView| r.action),
    decreases all.len(),
{
    let actions = all.map_values(|r: ActionRecordView| r.action);
    if all.len() == 0 {
        assert(freed(m, watches, took) =~= actions);
    } else {
        let a = all.drop_last();
        let w = watches.drop_last();
        let t = took.drop_last();
        assert forall|i: int| 0 <= i < a.len() implies #[trigger] t[i] by {
            assert(t[i] == took[i]);
        }
        assert forall|i: int| 0 <= i < a.len() implies m[(#[trigger] w[i]).action.cookie.0].action
            == a[i].action by {
            assert(w[i] == watches[i]);
        }
        lemma_all_freed(m, a, w, t);
        assert(took[all.len() - 1]);
        assert(watches[all.len() - 1] == watches.last());
        assert(freed(m, watches, took) =~= actions);
    }
}

/// What a lost agent was running is dispatched anew. If the agent has done nothing
/// by the end of the grace period and the store did not fail, each action it was
/// running waits again and is queued, once, behind what waited before; every other
/// record stays as it was.
pub proof fn lemma_lost_work_waits_again<Q: Scheduler>(
    m0: Records,
    m: Records,
    q0: Q,
    q: Q,
    agent: Seq<char>,
    all: Seq<ActionRecordView>,
    took: Seq<bool>,
    r: Reassignment,
)
    requires
        action_store::lists(all, action_store::selected(m0, action_store::run_by(agent))),
        reassigned(m0, m, q0, q, agent, recovery::started_watches(all), took, r),
        r.failures@.len() == 0,
    ensures
        ({
            let actions = all.map_values(|x: ActionRecordView| x.action);
            &&& q.waiting() == q0.waiting().add(actions.to_multiset())
            &&& forall|k: ActionKind| #[trigger]
                q.queued(k) == q0.queued(k) + actions.filter(strategy::of_kind(k))
            &&& r.requeued == all.len()
        }),
        m.dom() == m0.dom(),
        forall|k: u64| #[trigger]
            m0.contains_key(k) ==> (if action_store::run_by(agent)(m0[k]) {
                waits_again(m0[k], m[k])
            } else {
                m[k] == m0[k]
            }),
{
    let watches = recovery::started_watches(all);
    let mine = action_store::selected(m0, action_store::run_by(agent));
    assert forall|i: int| 0 <= i < all.len() implies (#[trigger] all[i]).state is Started
        && m0.contains_key(all[i].action.cookie.0) && m0[all[i].action.cookie.0] == all[i]
        && all[i].state->Started_agent == agent by {
        assert(mine.contains_key(all[i].action.cookie.0));
    }
    lemma_each_watched(all);
    assert forall|i: int| 0 <= i < all.len() implies #[trigger] took[i] by {
        let k = all[i].action.cookie.0;
        assert(watches[i].action == all[i].action);
        assert(still_held(m0, agent, watches[i]));
        assert(given_back(watches, took, k));
        let j = choose|j: int|
            0 <= j < watches.len() && #[trigger] took[j] && watches[j].action.cookie.0 == k;
        assert(watches[j].action == all[j].action);
        assert(all[j].action.cookie == all[i].action.cookie);
        assert(i == j);
    }
    lemma_all_freed(m0, all, watches, took);
    assert forall|k: u64| #[trigger] m0.contains_key(k) implies (if action_store::run_by(agent)(
        m0[k],
    ) {
        waits_again(m0[k], m[k])
    } else {
        m[k] == m0[k]
    }) by {
        if action_store::run_by(agent)(m0[k]) {
            assert(mine.contains_key(k));
            let i = choose|i: int| 0 <= i < all.len() && (#[trigger] all[i]).action.cookie.0 == k;
            assert(took[i]);
            assert(watches[i].action == all[i].action);
            assert(given_back(watches, took, k));
        } else if given_back(watches, took, k) {
            let j = choose|j: int|
                0 <= j < watches.len() && #[trigger] took[j] && watches[j].action.cookie.0 == k;
            assert(watches[j].action == all[j].action);
        }
    }
}

/// Nothing is taken from an agent that came back in time: if it has finished all that
/// is watched, or runs it under a new claim, the records and the queue stay as they
/// are.
pub proof fn lemma_settled_work_stays<Q: Scheduler>(
    m0: Records,
    m: Records,
    q0: Q,
    q: Q,
    agent: Seq<char>,
    watches: Seq<WatchView>,
    took: Seq<bool>,
    r: Reassignment,
)
    requires
        reassigned(m0, m, q0, q, agent, watches, took, r),
        forall|i: int| 0 <= i < watches.len() ==> !still_held(m0, agent, #[trigger] watches[i]),
    ensures
        m == m0,
        q.waiting() == q0.waiting(),
        forall|k: ActionKind| #[trigger] q.queued(k) == q0.queued(k),
        r.requeued == 0,
{
    assert forall|i: int| 0 <= i < took.len() implies !#[trigger] took[i] by {
        assert(!still_held(m0, agent, watches[i]));
    }
    lemma_none_freed(m0, watches, took);
    lemma_nothing_queued(q0, freed(m0, watches, took));
    assert forall|k: u64| #[trigger] m0.contains_key(k) implies m[k] == m0[k] by {
        assert(!given_back(watches, took, k));
        assert(!claim_stands(m0, agent, watches, k));
    }
    assert(m =~= m0);
}

/// If no watched action is given back, there is nothing to queue.
proof fn lemma_none_freed(m: Records, watches: Seq<WatchView>, took: Seq<bool>)
    requires
        took.len() == watches.len(),
        forall|i: int| 0 <= i < took.len() ==> !#[trigger] took[i],
    ensures
        freed(m, watches, took).len() == 0,
    decreases watches.len(),
{
    if watches.len() > 0 {
        let t = took.drop_last();
        assert forall|i: int| 0 <= i < t.len() implies !#[trigger] t[i] by {
            assert(t[i] == took[i]);
        }
        assert(!took[took.len() - 1]);
        lemma_none_freed(m, watches.drop_last(), t);
    }
}

} // verus!
