//! Taking in what the kernel requests.

use crate::llapi::lifecycle;
use crate::llapi::lifecycle::{ReceivedAction, ReceivedView};
use crate::model::action::{ActionRecordView, ActionView, ArStateView};
use crate::model::{ActionKind, ActionRecord, Cookie, Extent, Timestamp};
use crate::scheduler::strategy;
use crate::scheduler::strategy::Scheduler;
use crate::store::action_store;
use crate::store::action_store::{ActionStore, Records, StoreOp};
use crate::store::error::{StoreError, StoreErrorView, StoreResult};
use vstd::prelude::*;

verus! {

/// The record of an action that has just come in.
pub open spec fn fresh_record(a: ActionView, now: Timestamp) -> ActionRecordView {
    ActionRecordView {
        action: a,
        state: ArStateView::Waiting,
        progress: Extent { offset: 0, length: 0 },
        created_at: now,
        updated_at: now,
    }
}

/// Take in one action: record it, and queue it if that worked. A cookie that is
/// already there is not queued a second time.
pub fn ingest<S: ActionStore, Q: Scheduler>(
    store: &mut S,
    queue: &mut Q,
    received: ReceivedAction,
    now: Timestamp,
) -> (r: StoreResult<()>)
    requires
        action_store::keyed(old(store).records()),
        old(queue).valid(),
    ensures
        action_store::keyed(final(store).records()),
        final(store).reliable() == old(store).reliable(),
        final(queue).valid(),
        old(store).reliable() ==> !action_store::backend_failed(r),
        action_store::attempted(
            old(store).records(),
            final(store).records(),
            r,
            StoreOp::Insert { rec: fresh_record(received@.action, now) },
        ),
        match r {
            Ok(_) => {
                &&& final(queue).waiting() == old(queue).waiting().insert(received@.action)
                &&& forall|k: ActionKind| #[trigger]
                    final(queue).queued(k) == (if k == received@.action.kind {
                        old(queue).queued(k).push(received@.action)
                    } else {
                        old(queue).queued(k)
                    })
            },
            Err(_) => *final(queue) == *old(queue),
        },
{
    let action = received.into_action();
    let rec = ActionRecord::new(action.clone(), now);
    match store.insert(rec) {
        Ok(_) => {
            queue.enqueue(action);
            Ok(())
        },
        Err(e) => Err(e),
    }
}

/// The actions of a batch that are new, each once: those whose cookie is neither
/// in the store nor earlier in the batch.
pub open spec fn admitted(known: Set<u64>, batch: Seq<ActionView>) -> Seq<ActionView>
    decreases batch.len(),
{
    if batch.len() == 0 {
        Seq::empty()
    } else {
        let rest = admitted(known, batch.drop_last());
        let a = batch.last();
        if known.contains(a.cookie.0) || holds_cookie(rest, a.cookie) {
            rest
        } else {
            rest.push(a)
        }
    }
}

/// Some action of the list has that cookie.
pub open spec fn holds_cookie(s: Seq<ActionView>, cookie: Cookie) -> bool {
    exists|i: int| 0 <= i < s.len() && (#[trigger] s[i]).cookie == cookie
}

/// The cookies of a list.
pub open spec fn cookies_of(s: Seq<ActionView>) -> Set<u64> {
    Set::new(|k: u64| holds_cookie(s, Cookie(k)))
}

/// The actions of a batch.
pub open spec fn batch_actions(s: Seq<ReceivedAction>) -> Seq<ActionView> {
    lifecycle::received_views(s).map_values(|v: ReceivedView| v.action)
}

/// `after` is `before` and a waiting record of each action in `added`.
pub open spec fn holds_admitted(before: Records, after: Records, added: Seq<ActionView>) -> bool {
    &&& after.dom() == before.dom().union(cookies_of(added))
    &&& forall|k: u64| before.contains_key(k) ==> #[trigger] after[k] == before[k]
    &&& forall|i: int|
        0 <= i < added.len() ==> after[(#[trigger] added[i]).cookie.0] == fresh_record(
            added[i],
            after[added[i].cookie.0].created_at,
        )
}

/// The actions of a batch that were taken in, in their order, or those that were
/// not: `took` says of each whether it was.
pub open spec fn chosen(batch: Seq<ActionView>, took: Seq<bool>, want: bool) -> Seq<ActionView>
    decreases batch.len(),
{
    if batch.len() == 0 {
        Seq::empty()
    } else {
        let rest = chosen(batch.drop_last(), took.drop_last(), want);
        if took.last() == want {
            rest.push(batch.last())
        } else {
            rest
        }
    }
}

/// The cookies of a list of actions.
pub open spec fn cookie_list(s: Seq<ActionView>) -> Seq<Cookie> {
    Seq::new(s.len(), |i: int| s[i].cookie)
}

/// The cookies that are reported as refused.
pub open spec fn reported(refused: Seq<(Cookie, StoreError)>) -> Seq<Cookie> {
    Seq::new(refused.len(), |i: int| refused[i].0)
}

/// Some action of the batch has been recorded under that cookie.
pub open spec fn recorded_from(after: Records, batch: Seq<ActionView>, k: u64) -> bool {
    exists|i: int|
        0 <= i < batch.len() && (#[trigger] batch[i]).cookie.0 == k && after[k] == fresh_record(
            batch[i],
            after[k].created_at,
        )
}

/// Every action of a batch was offered to the store, in order: those that `took`
/// names are on record, as waiting and without progress; the others are reported
/// with the store's reason, and only a failing backend may have recorded one of
/// them all the same. What was there before stays.
pub open spec fn offered(
    before: Records,
    after: Records,
    batch: Seq<ActionView>,
    took: Seq<bool>,
    refused: Seq<(Cookie, StoreError)>,
) -> bool {
    &&& took.len() == batch.len()
    &&& reported(refused) == cookie_list(chosen(batch, took, false))
    &&& forall|i: int|
        0 <= i < refused.len() ==> ((#[trigger] refused[i]).1@ is Backend || (refused[i].1@
            == StoreErrorView::DuplicateCookie(refused[i].0) && after.contains_key(
            refused[i].0.0,
        )))
    &&& forall|k: u64|
        before.contains_key(k) ==> #[trigger] after.contains_key(k) && after[k] == before[k]
    &&& forall|i: int|
        0 <= i < batch.len() && #[trigger] took[i] ==> {
            let k = batch[i].cookie.0;
            &&& !before.contains_key(k)
            &&& after.contains_key(k)
            &&& after[k] == fresh_record(batch[i], after[k].created_at)
        }
    &&& forall|k: u64| #[trigger]
        after.contains_key(k) ==> before.contains_key(k) || recorded_from(after, batch, k)
}

/// What a batch came to.
#[derive(Debug, PartialEq, Eq)]
pub struct BatchOutcome {
    /// The actions the store did not take, and why.
    pub refused: Vec<(Cookie, StoreError)>,
    /// Whether the store's backend failed on any of them.
    pub backend_failed: bool,
}

/// A batch was offered to the store, and what `took` names was queued in order,
/// behind what waited before. Unless the backend failed, that is what is new.
pub open spec fn taken_in<Q: Scheduler>(
    before: Records,
    after: Records,
    q0: Q,
    q: Q,
    batch: Seq<ActionView>,
    took: Seq<bool>,
    r: BatchOutcome,
) -> bool {
    let accepted = chosen(batch, took, true);
    &&& offered(before, after, batch, took, r.refused@)
    &&& r.refused@.len() + accepted.len() == batch.len()
    &&& q.waiting() == q0.waiting().add(accepted.to_multiset())
    &&& forall|k: ActionKind| #[trigger]
        q.queued(k) == q0.queued(k) + accepted.filter(strategy::of_kind(k))
    &&& !r.backend_failed ==> accepted == admitted(before.dom(), batch)
}

/// Take in a batch, in order: each action is offered to the store, and queued
/// behind the others if the store took it. A refused action does not keep the rest
/// of the batch out. Unless the store's backend fails, exactly the actions with
/// new cookies are taken in, each once.
pub fn ingest_batch<S: ActionStore, Q: Scheduler>(
    store: &mut S,
    queue: &mut Q,
    batch: Vec<ReceivedAction>,
) -> (r: BatchOutcome)
    requires
        action_store::keyed(old(store).records()),
        old(queue).valid(),
    ensures
        action_store::keyed(final(store).records()),
        final(store).reliable() == old(store).reliable(),
        final(queue).valid(),
        exists|took: Seq<bool>| #[trigger]
            taken_in(
                old(store).records(),
                final(store).records(),
                *old(queue),
                *final(queue),
                batch_actions(batch@),
                took,
                r,
            ),
        !r.backend_failed ==> holds_admitted(
            old(store).records(),
            final(store).records(),
            admitted(old(store).records().dom(), batch_actions(batch@)),
        ),
        r.backend_failed <==> exists|i: int|
            0 <= i < r.refused@.len() && (#[trigger] r.refused@[i]).1@ is Backend,
        old(store).reliable() ==> !r.backend_failed,
{
    let ghost m0 = store.records();
    let ghost q0 = *queue;
    let ghost reliable = store.reliable();
    let ghost all = batch_actions(batch@);
    let ghost mut took: Seq<bool> = Seq::empty();
    let mut refused: Vec<(Cookie, StoreError)> = Vec::new();
    let mut backend_failed = false;
    let mut i: usize = 0;
    proof {
        let none = all.take(0);
        assert(none =~= Seq::<ActionView>::empty());
        assert(cookies_of(admitted(m0.dom(), none)) =~= Set::<u64>::empty());
        assert(m0.dom().union(cookies_of(admitted(m0.dom(), none))) =~= m0.dom());
        let accepted = chosen(none, took, true);
        accepted.to_multiset_ensures();
        assert(q0.waiting().add(accepted.to_multiset()) =~= q0.waiting());
        assert forall|k: ActionKind| #[trigger]
            queue.queued(k) == q0.queued(k) + accepted.filter(strategy::of_kind(k)) by {
            reveal(Seq::filter);
            assert(q0.queued(k) + accepted.filter(strategy::of_kind(k)) =~= q0.queued(k));
        }
        assert(reported(refused@) =~= cookie_list(chosen(none, took, false)));
    }
    while i < batch.len()
        invariant
            i <= batch@.len(),
            all == batch_actions(batch@),
            action_store::keyed(store.records()),
            queue.valid(),
            store.reliable() == reliable,
            reliable ==> !backend_failed,
            offered(m0, store.records(), all.take(i as int), took, refused@),
            refused@.len() + chosen(all.take(i as int), took, true).len() == i,
            queue.waiting() == q0.waiting().add(
                chosen(all.take(i as int), took, true).to_multiset(),
            ),
            forall|k: ActionKind| #[trigger]
                queue.queued(k) == q0.queued(k) + chosen(all.take(i as int), took, true).filter(
                    strategy::of_kind(k),
                ),
            !backend_failed ==> chosen(all.take(i as int), took, true) == admitted(
                m0.dom(),
                all.take(i as int),
            ),
            !backend_failed ==> holds_admitted(
                m0,
                store.records(),
                admitted(m0.dom(), all.take(i as int)),
            ),
            backend_failed <==> exists|j: int|
                0 <= j < refused@.len() && (#[trigger] refused@[j]).1@ is Backend,
        decreases batch.len() - i,
    {
        let received = batch[i].clone();
        let cookie = received.cookie;
        let now = Timestamp::now();
        let ghost a = received@.action;
        let ghost before = store.records();
        let ghost s = all.take(i as int);
        let ghost t = all.take(i + 1);
        let ghost added = admitted(m0.dom(), s);
        let ghost accepted = chosen(s, took, true);
        let ghost took0 = took;
        let ghost refused0 = refused@;
        proof {
            assert(all[i as int] == a);
            assert(t.drop_last() =~= s);
            assert(t.last() == a);
        }
        match ingest(store, queue, received, now) {
            Ok(_) => {
                proof {
                    took = took0.push(true);
                    assert(took.drop_last() =~= took0);
                    assert(chosen(t, took, true) == accepted.push(a));
                    assert(chosen(t, took, false) == chosen(s, took0, false));
                    accepted.to_multiset_ensures();
                    assert(queue.waiting() =~= q0.waiting().add(accepted.push(a).to_multiset()));
                    lemma_queued_one(q0, *queue, accepted, a);
                    lemma_offered_taken(m0, before, store.records(), s, took0, refused@, a, now);
                    assert(s.push(a) =~= t);
                    if !backend_failed {
                        lemma_admit(m0, before, store.records(), added, a, now);
                    }
                }
            },
            Err(e) => {
                if is_backend(&e) {
                    backend_failed = true;
                }
                refused.push((cookie, e));
                proof {
                    took = took0.push(false);
                    assert(took.drop_last() =~= took0);
                    assert(chosen(t, took, true) == accepted);
                    assert(chosen(t, took, false) == chosen(s, took0, false).push(a));
                    assert(s.push(a) =~= t);
                    lemma_offered_refused(
                        m0,
                        before,
                        store.records(),
                        s,
                        took0,
                        refused0,
                        a,
                        now,
                        e,
                    );
                    assert(refused@[refused0.len() as int].1 == e);
                    assert forall|j: int| 0 <= j < refused0.len() implies #[trigger] refused@[j]
                        == refused0[j] by {}
                    if !backend_failed {
                        assert(before.contains_key(a.cookie.0));
                        lemma_known(m0, before, added, a);
                    } else if !(e@ is Backend) {
                        let j = choose|j: int|
                            0 <= j < refused0.len() && (#[trigger] refused0[j]).1@ is Backend;
                        assert(refused@[j].1@ is Backend);
                    }
                }
            },
        }
        i = i + 1;
    }
    proof {
        assert(all.take(i as int) =~= all);
    }
    let r = BatchOutcome { refused, backend_failed };
    proof {
        assert(taken_in(m0, store.records(), q0, *queue, all, took, r));
    }
    r
}

/// One more action is queued behind those of the batch.
proof fn lemma_queued_one<Q: Scheduler>(
    q0: Q,
    q: Q,
    accepted: Seq<ActionView>,
    a: ActionView,
)
    requires
        forall|k: ActionKind| #[trigger]
            q.queued(k) == (if k == a.kind {
                (q0.queued(k) + accepted.filter(strategy::of_kind(k))).push(a)
            } else {
                q0.queued(k) + accepted.filter(strategy::of_kind(k))
            }),
    ensures
        forall|k: ActionKind| #[trigger]
            q.queued(k) == q0.queued(k) + accepted.push(a).filter(strategy::of_kind(k)),
{
    assert forall|k: ActionKind| #[trigger]
        q.queued(k) == q0.queued(k) + accepted.push(a).filter(strategy::of_kind(k)) by {
        strategy::lemma_of_kind_push(accepted, a, k);
        assert(q.queued(k) =~= q0.queued(k) + accepted.push(a).filter(strategy::of_kind(k)));
    }
}

/// Records that came from part of a batch came from the batch.
proof fn lemma_recorded_more(
    before: Records,
    after: Records,
    batch: Seq<ActionView>,
    a: ActionView,
    k: u64,
)
    requires
        recorded_from(before, batch, k),
        after[k] == before[k],
    ensures
        recorded_from(after, batch.push(a), k),
{
    let i = choose|i: int|
        0 <= i < batch.len() && (#[trigger] batch[i]).cookie.0 == k && before[k] == fresh_record(
            batch[i],
            before[k].created_at,
        );
    assert(batch.push(a)[i] == batch[i]);
}

/// The next action was taken.
proof fn lemma_offered_taken(
    m0: Records,
    before: Records,
    after: Records,
    batch: Seq<ActionView>,
    took: Seq<bool>,
    refused: Seq<(Cookie, StoreError)>,
    a: ActionView,
    now: Timestamp,
)
    requires
        offered(m0, before, batch, took, refused),
        !before.contains_key(a.cookie.0),
        after == before.insert(a.cookie.0, fresh_record(a, now)),
    ensures
        offered(m0, after, batch.push(a), took.push(true), refused),
{
    let b = batch.push(a);
    let t = took.push(true);
    assert(b.drop_last() =~= batch);
    assert(t.drop_last() =~= took);
    assert(chosen(b, t, false) == chosen(batch, took, false));
    assert forall|k: u64| #[trigger] after.contains_key(k) implies m0.contains_key(k)
        || recorded_from(after, b, k) by {
        if k == a.cookie.0 {
            assert(b[batch.len() as int] == a);
        } else if !m0.contains_key(k) {
            assert(before.contains_key(k));
            lemma_recorded_more(before, after, batch, a, k);
        }
    }
    assert forall|i: int| 0 <= i < b.len() && #[trigger] t[i] implies {
        let k = b[i].cookie.0;
        &&& !m0.contains_key(k)
        &&& after.contains_key(k)
        &&& after[k] == fresh_record(b[i], after[k].created_at)
    } by {
        if i < batch.len() {
            assert(took[i]);
            assert(b[i] == batch[i]);
        } else {
            assert(b[i] == a);
            assert(m0.contains_key(a.cookie.0) ==> before.contains_key(a.cookie.0));
        }
    }
}

/// What a refused insertion does to the records: nothing, unless the backend failed
/// after it had recorded the action.
proof fn lemma_refused_insertion(
    before: Records,
    after: Records,
    a: ActionView,
    now: Timestamp,
    e: StoreError,
)
    requires
        action_store::attempted(
            before,
            after,
            Err(e),
            StoreOp::Insert { rec: fresh_record(a, now) },
        ),
    ensures
        e@ is Backend || (e@ == StoreErrorView::DuplicateCookie(a.cookie) && after == before
            && before.contains_key(a.cookie.0)),
        after == before || (!before.contains_key(a.cookie.0) && after == before.insert(
            a.cookie.0,
            fresh_record(a, now),
        )),
{
}

/// One more action is reported as refused.
proof fn lemma_reported_one(
    batch: Seq<ActionView>,
    took: Seq<bool>,
    refused: Seq<(Cookie, StoreError)>,
    a: ActionView,
    e: StoreError,
)
    requires
        reported(refused) == cookie_list(chosen(batch, took, false)),
    ensures
        reported(refused.push((a.cookie, e))) == cookie_list(
            chosen(batch.push(a), took.push(false), false),
        ),
{
    let b = batch.push(a);
    let t = took.push(false);
    let rest = chosen(batch, took, false);
    assert(b.drop_last() =~= batch);
    assert(t.drop_last() =~= took);
    assert(chosen(b, t, false) == rest.push(a));
    assert(cookie_list(rest.push(a)) =~= cookie_list(rest).push(a.cookie));
    assert(reported(refused.push((a.cookie, e))) =~= reported(refused).push(a.cookie));
}

/// Every record there is after a refused insertion was there at first, or comes from
/// the batch.
#[verifier::spinoff_prover]
proof fn lemma_recorded_one(
    m0: Records,
    before: Records,
    after: Records,
    batch: Seq<ActionView>,
    a: ActionView,
    now: Timestamp,
    k: u64,
)
    requires
        before.contains_key(k) ==> m0.contains_key(k) || recorded_from(before, batch, k),
        after == before || (!before.contains_key(a.cookie.0) && after == before.insert(
            a.cookie.0,
            fresh_record(a, now),
        )),
        after.contains_key(k),
    ensures
        m0.contains_key(k) || recorded_from(after, batch.push(a), k),
{
    if before.contains_key(k) {
        if !m0.contains_key(k) {
            assert(after[k] == before[k]);
            lemma_recorded_more(before, after, batch, a, k);
        }
    } else {
        assert(k == a.cookie.0);
        assert(after[k] == fresh_record(a, now));
        assert(batch.push(a)[batch.len() as int] == a);
        assert(after[k] == fresh_record(batch.push(a)[batch.len() as int], after[k].created_at));
    }
}

/// The next action was refused.
#[verifier::spinoff_prover]
proof fn lemma_offered_refused(
    m0: Records,
    before: Records,
    after: Records,
    batch: Seq<ActionView>,
    took: Seq<bool>,
    refused: Seq<(Cookie, StoreError)>,
    a: ActionView,
    now: Timestamp,
    e: StoreError,
)
    requires
        offered(m0, before, batch, took, refused),
        action_store::attempted(
            before,
            after,
            Err(e),
            StoreOp::Insert { rec: fresh_record(a, now) },
        ),
    ensures
        offered(m0, after, batch.push(a), took.push(false), refused.push((a.cookie, e))),
{
    let b = batch.push(a);
    let t = took.push(false);
    let r = refused.push((a.cookie, e));
    lemma_refused_insertion(before, after, a, now, e);
    lemma_reported_one(batch, took, refused, a, e);
    assert(Cookie(a.cookie.0) == a.cookie);
    assert forall|k: u64| m0.contains_key(k) implies #[trigger] after.contains_key(k) && after[k]
        == m0[k] by {
        assert(before.contains_key(k));
    }
    assert forall|i: int| 0 <= i < r.len() implies ((#[trigger] r[i]).1@ is Backend || (r[i].1@
        == StoreErrorView::DuplicateCookie(r[i].0) && after.contains_key(r[i].0.0))) by {
        if i < refused.len() {
            assert(r[i] == refused[i]);
        }
    }
    assert forall|k: u64| #[trigger] after.contains_key(k) implies m0.contains_key(k)
        || recorded_from(after, b, k) by {
        lemma_recorded_one(m0, before, after, batch, a, now, k);
    }
    assert forall|i: int| 0 <= i < b.len() && #[trigger] t[i] implies {
        let k = b[i].cookie.0;
        &&& !m0.contains_key(k)
        &&& after.contains_key(k)
        &&& after[k] == fresh_record(b[i], after[k].created_at)
    } by {
        assert(took[i]);
        assert(b[i] == batch[i]);
        assert(before.contains_key(b[i].cookie.0));
    }
}

/// `true` if the store's backend failed.
fn is_backend(e: &StoreError) -> (r: bool)
    ensures
        r == (e@ is Backend),
{
    match e {
        StoreError::Backend(_) => true,
        _ => false,
    }
}

/// A record that is there came from before or from the batch.
proof fn lemma_known(m0: Records, before: Records, added: Seq<ActionView>, a: ActionView)
    requires
        holds_admitted(m0, before, added),
    ensures
        before.contains_key(a.cookie.0) <==> m0.dom().contains(a.cookie.0) || holds_cookie(
            added,
            a.cookie,
        ),
{
    assert(before.dom().contains(a.cookie.0) <==> m0.dom().union(cookies_of(added)).contains(
        a.cookie.0,
    ));
    assert(Cookie(a.cookie.0) == a.cookie);
}

/// An action that the store took is the next one admitted.
proof fn lemma_admit(
    m0: Records,
    before: Records,
    after: Records,
    added: Seq<ActionView>,
    a: ActionView,
    now: Timestamp,
)
    requires
        holds_admitted(m0, before, added),
        action_store::refusal(before, StoreOp::Insert { rec: fresh_record(a, now) }) is None,
        after == before.insert(a.cookie.0, fresh_record(a, now)),
    ensures
        !m0.dom().contains(a.cookie.0),
        !holds_cookie(added, a.cookie),
        holds_admitted(m0, after, added.push(a)),
{
    lemma_known(m0, before, added, a);
    let more = added.push(a);
    assert forall|k: u64| cookies_of(more).contains(k) <==> cookies_of(added).contains(k) || k
        == a.cookie.0 by {
        if holds_cookie(more, Cookie(k)) {
            let i = choose|i: int| 0 <= i < more.len() && (#[trigger] more[i]).cookie == Cookie(k);
            if i < added.len() {
                assert(added[i].cookie == Cookie(k));
            }
        }
        if holds_cookie(added, Cookie(k)) {
            let i = choose|i: int|
                0 <= i < added.len() && (#[trigger] added[i]).cookie == Cookie(k);
            assert(more[i].cookie == Cookie(k));
        }
        if k == a.cookie.0 {
            assert(more[added.len() as int].cookie == Cookie(k));
        }
    }
    assert(after.dom() =~= m0.dom().union(cookies_of(more)));
    assert forall|i: int| 0 <= i < more.len() implies after[(#[trigger] more[i]).cookie.0]
        == fresh_record(more[i], after[more[i].cookie.0].created_at) by {
        if i < added.len() {
            assert(more[i] == added[i]);
            assert(added[i].cookie != a.cookie);
        }
    }
}

/// A batch of new, distinct cookies is admitted whole.
pub proof fn lemma_fresh_batch_admitted(known: Set<u64>, batch: Seq<ActionView>)
    requires
        forall|i: int| 0 <= i < batch.len() ==> !known.contains((#[trigger] batch[i]).cookie.0),
        forall|i: int, j: int|
            0 <= i < j < batch.len() ==> (#[trigger] batch[i]).cookie != (#[trigger] batch[j]).cookie,
    ensures
        admitted(known, batch) == batch,
    decreases batch.len(),
{
    if batch.len() > 0 {
        let front = batch.drop_last();
        assert forall|i: int, j: int| 0 <= i < j < front.len() implies (#[trigger] front[i]).cookie
            != (#[trigger] front[j]).cookie by {
            assert(front[i] == batch[i] && front[j] == batch[j]);
        }
        assert forall|i: int| 0 <= i < front.len() implies !known.contains(
            (#[trigger] front[i]).cookie.0,
        ) by {
            assert(front[i] == batch[i]);
        }
        lemma_fresh_batch_admitted(known, front);
        if holds_cookie(front, batch.last().cookie) {
            let i = choose|i: int|
                0 <= i < front.len() && (#[trigger] front[i]).cookie == batch.last().cookie;
            assert(batch[i].cookie == batch[batch.len() - 1].cookie);
        }
        assert(front.push(batch.last()) =~= batch);
    } else {
        assert(admitted(known, batch) =~= batch);
    }
}

/// The same batch a second time admits nothing.
pub proof fn lemma_repeated_batch(known: Set<u64>, batch: Seq<ActionView>)
    requires
        forall|i: int| 0 <= i < batch.len() ==> known.contains((#[trigger] batch[i]).cookie.0),
    ensures
        admitted(known, batch) == Seq::<ActionView>::empty(),
    decreases batch.len(),
{
    if batch.len() > 0 {
        let front = batch.drop_last();
        assert forall|i: int| 0 <= i < front.len() implies known.contains(
            (#[trigger] front[i]).cookie.0,
        ) by {
            assert(front[i] == batch[i]);
        }
        lemma_repeated_batch(known, front);
        assert(known.contains(batch[batch.len() - 1].cookie.0));
    }
}

} // verus!
