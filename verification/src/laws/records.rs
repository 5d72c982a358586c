//! Stores: what is put in is what is found, and nothing else changes.

use crate::model::action::{ActionRecordView, ArStateView};
use crate::model::{ActionRecord, AgentId, ArState, Cookie, Extent, Timestamp};
use crate::store::action_store;
use crate::store::action_store::{ActionStore, Records, StoreOp};
use crate::store::error::{StoreErrorView, StoreResult};
use vstd::prelude::*;

verus! {

/// Only the record of that cookie may have changed, and none came or went.
pub open spec fn touched(before: Records, after: Records, k: u64) -> bool {
    &&& after.dom() == before.dom()
    &&& forall|x: u64| x != k && before.contains_key(x) ==> #[trigger] after[x] == before[x]
}

/// The action is not over: it waits, or an agent runs it.
pub open spec fn unfinished(s: ArStateView) -> bool {
    s is Waiting || s is Started
}

/// A record is taken if its cookie is new, and then it is what stands under the
/// cookie. A known cookie is reported, and nothing changes.
pub proof fn lemma_insert_call<S: ActionStore>(
    store: &mut S,
    rec: ActionRecord,
    r: StoreResult<()>,
)
    requires
        call_ensures(S::insert, (store, rec), r),
        r matches Err(e) ==> !(e@ is Backend),
    ensures
        ({
            let before = old(store).records();
            let after = final(store).records();
            let k = rec@.action.cookie.0;
            &&& r is Ok <==> !before.contains_key(k)
            &&& r is Ok ==> after.dom() == before.dom().insert(k) && after[k] == rec@ && (forall|
                x: u64,
            |
                x != k && before.contains_key(x) ==> #[trigger] after[x] == before[x])
            &&& r matches Err(e) ==> after == before && e@ == StoreErrorView::DuplicateCookie(
                rec@.action.cookie,
            )
        }),
{
    let before = store.records();
    let after = final(store).records();
    if r is Ok {
        assert(after.dom() =~= before.dom().insert(rec@.action.cookie.0));
    }
}

/// The state of an action changes as asked for as long as the action is not over;
/// everything else about it stays. An action that is over keeps its state, and the
/// answer names it.
pub proof fn lemma_transition_call<S: ActionStore>(
    store: &mut S,
    cookie: Cookie,
    new: ArState,
    r: StoreResult<()>,
)
    requires
        call_ensures(S::transition, (store, cookie, new), r),
        r matches Err(e) ==> !(e@ is Backend),
    ensures
        ({
            let before = old(store).records();
            let after = final(store).records();
            let k = cookie.0;
            &&& r is Ok <==> before.contains_key(k) && unfinished(before[k].state)
            &&& r is Ok ==> touched(before, after, k) && after[k].state == new@
                && after[k].action == before[k].action && after[k].progress == before[k].progress
                && after[k].created_at == before[k].created_at
            &&& r matches Err(e) ==> after == before && (if before.contains_key(k) {
                e@ == (StoreErrorView::TerminalTransition { cookie, from: before[k].state })
            } else {
                e@ == StoreErrorView::UnknownCookie(cookie)
            })
        }),
{
    let before = store.records();
    let after = final(store).records();
    let now = choose|now: Timestamp| #[trigger]
        action_store::attempted(
            before,
            after,
            r,
            StoreOp::Transition { cookie: cookie.0, new: new@, now },
        );
    assert(action_store::attempted(
        before,
        after,
        r,
        StoreOp::Transition { cookie: cookie.0, new: new@, now },
    ));
    assert(Cookie(cookie.0) == cookie);
    if r is Ok {
        assert(after.dom() =~= before.dom());
    }
}

/// Progress is recorded as it is reported, unless it would go back; everything else
/// about the action stays. Progress that would go back is answered with both extents.
pub proof fn lemma_progress_call<S: ActionStore>(
    store: &mut S,
    cookie: Cookie,
    e: Extent,
    r: StoreResult<()>,
)
    requires
        call_ensures(S::update_progress, (store, cookie, e), r),
        r matches Err(x) ==> !(x@ is Backend),
    ensures
        ({
            let before = old(store).records();
            let after = final(store).records();
            let k = cookie.0;
            &&& r is Ok <==> before.contains_key(k) && before[k].progress.offset <= e.offset
            &&& r is Ok ==> touched(before, after, k) && after[k].progress == e && after[k].state
                == before[k].state && after[k].action == before[k].action && after[k].created_at
                == before[k].created_at
            &&& r matches Err(x) ==> after == before && (if before.contains_key(k) {
                x@ == (StoreErrorView::ProgressRegression {
                    cookie,
                    have: before[k].progress,
                    got: e,
                })
            } else {
                x@ == StoreErrorView::UnknownCookie(cookie)
            })
        }),
{
    let before = store.records();
    let after = final(store).records();
    let now = choose|now: Timestamp| #[trigger]
        action_store::attempted(
            before,
            after,
            r,
            StoreOp::Progress { cookie: cookie.0, extent: e, now },
        );
    assert(action_store::attempted(
        before,
        after,
        r,
        StoreOp::Progress { cookie: cookie.0, extent: e, now },
    ));
    assert(Cookie(cookie.0) == cookie);
    if r is Ok {
        assert(after.dom() =~= before.dom());
    }
}

/// A deleted record is gone, whether or not it was there; no other record goes.
pub proof fn lemma_delete_call<S: ActionStore>(store: &mut S, cookie: Cookie, r: StoreResult<()>)
    requires
        call_ensures(S::delete, (store, cookie), r),
        r matches Err(e) ==> !(e@ is Backend),
    ensures
        ({
            let before = old(store).records();
            let after = final(store).records();
            &&& r is Ok
            &&& !after.contains_key(cookie.0)
            &&& forall|x: u64|
                x != cookie.0 ==> (#[trigger] after.contains_key(x) <==> before.contains_key(x))
            &&& forall|x: u64|
                x != cookie.0 && before.contains_key(x) ==> #[trigger] after[x] == before[x]
        }),
{
}

/// Whatever an operation answers when the backend fails, no record but the one it is
/// about is touched.
pub proof fn lemma_backend_failure_is_contained<S: ActionStore>(
    store: &mut S,
    cookie: Cookie,
    new: ArState,
    r: StoreResult<()>,
    x: u64,
)
    requires
        call_ensures(S::transition, (store, cookie, new), r),
        x != cookie.0,
        old(store).records().contains_key(x),
    ensures
        final(store).records().contains_key(x),
        final(store).records()[x] == old(store).records()[x],
        old(store).reliable() ==> (r matches Err(e) ==> !(e@ is Backend)),
{
    let before = store.records();
    let after = final(store).records();
    let now = choose|now: Timestamp| #[trigger]
        action_store::attempted(
            before,
            after,
            r,
            StoreOp::Transition { cookie: cookie.0, new: new@, now },
        );
    assert(action_store::attempted(
        before,
        after,
        r,
        StoreOp::Transition { cookie: cookie.0, new: new@, now },
    ));
}

/// A record that was inserted is found under its cookie, as it was inserted.
pub proof fn lemma_insert_then_found<S: ActionStore>(
    store: &mut S,
    rec: ActionRecord,
    r: StoreResult<()>,
    after: &S,
    found: StoreResult<Option<ActionRecord>>,
)
    requires
        call_ensures(S::insert, (store, rec), r),
        r is Ok,
        *after == *final(store),
        call_ensures(S::get, (after, rec.action.cookie), found),
        found is Ok,
    ensures
        found matches Ok(Some(x)) && x@ == rec@,
{
}

/// A record that was deleted is not found.
pub proof fn lemma_delete_then_not_found<S: ActionStore>(
    store: &mut S,
    cookie: Cookie,
    r: StoreResult<()>,
    after: &S,
    found: StoreResult<Option<ActionRecord>>,
)
    requires
        call_ensures(S::delete, (store, cookie), r),
        r is Ok,
        *after == *final(store),
        call_ensures(S::get, (after, cookie), found),
        found is Ok,
    ensures
        found matches Ok(None),
{
}

/// `v` holds exactly the records of the store that `p` picks, each once.
pub open spec fn holds_all(
    v: Seq<ActionRecord>,
    m: Records,
    p: spec_fn(ActionRecordView) -> bool,
) -> bool {
    &&& forall|i: int|
        0 <= i < v.len() ==> {
            let rec = (#[trigger] v[i])@;
            &&& m.contains_key(rec.action.cookie.0)
            &&& m[rec.action.cookie.0] == rec
            &&& p(rec)
        }
    &&& forall|i: int, j: int|
        0 <= i < j < v.len() ==> (#[trigger] v[i])@.action.cookie != (#[trigger] v[j])@.action.cookie
    &&& forall|k: u64| #[trigger]
        m.contains_key(k) && p(m[k]) ==> exists|i: int|
            0 <= i < v.len() && (#[trigger] v[i])@.action.cookie.0 == k
}

/// From a listing by models to a listing of the records themselves.
proof fn lemma_holds_all(
    v: Seq<ActionRecord>,
    m: Records,
    chosen: Records,
    p: spec_fn(ActionRecordView) -> bool,
)
    requires
        action_store::lists(action_store::record_views(v), chosen),
        forall|k: u64| #[trigger] chosen.contains_key(k) <==> m.contains_key(k) && p(m[k]),
        forall|k: u64| #[trigger] chosen.contains_key(k) ==> chosen[k] == m[k],
    ensures
        holds_all(v, m, p),
{
    let s = action_store::record_views(v);
    assert forall|i: int| 0 <= i < v.len() implies {
        let rec = (#[trigger] v[i])@;
        &&& m.contains_key(rec.action.cookie.0)
        &&& m[rec.action.cookie.0] == rec
        &&& p(rec)
    } by {
        assert(s[i] == v[i]@);
        assert(chosen.contains_key(s[i].action.cookie.0));
    }
    assert forall|i: int, j: int| 0 <= i < j < v.len() implies (#[trigger] v[i])@.action.cookie != (
    #[trigger] v[j])@.action.cookie by {
        assert(s[i] == v[i]@ && s[j] == v[j]@);
    }
    assert forall|k: u64| #[trigger] m.contains_key(k) && p(m[k]) implies exists|i: int|
        0 <= i < v.len() && (#[trigger] v[i])@.action.cookie.0 == k by {
        assert(chosen.contains_key(k));
        let i = choose|i: int| 0 <= i < s.len() && (#[trigger] s[i]).action.cookie.0 == k;
        assert(s[i] == v[i]@);
    }
}

/// Loading everything gives every record once.
pub proof fn lemma_load_all_call<S: ActionStore>(store: &S, r: StoreResult<Vec<ActionRecord>>)
    requires
        call_ensures(S::load_all, (store,), r),
    ensures
        match r {
            Ok(v) => holds_all(v@, store.records(), |x: ActionRecordView| true),
            Err(e) => e@ is Backend && !store.reliable(),
        },
{
    if r is Ok {
        lemma_holds_all(
            r->Ok_0@,
            store.records(),
            store.records(),
            |x: ActionRecordView| true,
        );
    }
}

/// The records of an agent are those that are started and name that agent, each once;
/// a record that waits, is over, or runs elsewhere is not among them.
pub proof fn lemma_list_by_agent_call<S: ActionStore>(
    store: &S,
    agent: &AgentId,
    r: StoreResult<Vec<ActionRecord>>,
)
    requires
        call_ensures(S::list_by_agent, (store, agent), r),
    ensures
        match r {
            Ok(v) => holds_all(
                v@,
                store.records(),
                |x: ActionRecordView|
                    x.state is Started && x.state->Started_agent == agent@,
            ),
            Err(e) => e@ is Backend && !store.reliable(),
        },
{
    if r is Ok {
        let m = store.records();
        let p = |x: ActionRecordView| x.state is Started && x.state->Started_agent == agent@;
        lemma_holds_all(
            r->Ok_0@,
            m,
            action_store::selected(m, action_store::run_by(agent@)),
            p,
        );
    }
}

/// A store that answers how many records it has answers whether it has any.
pub proof fn lemma_len_and_empty<S: ActionStore>(
    store: &S,
    n: StoreResult<usize>,
    b: StoreResult<bool>,
    all: StoreResult<Vec<ActionRecord>>,
)
    requires
        call_ensures(S::len, (store,), n),
        call_ensures(S::is_empty, (store,), b),
        call_ensures(S::load_all, (store,), all),
        n is Ok,
        b is Ok,
        all is Ok,
    ensures
        n->Ok_0 == all->Ok_0@.len(),
        b->Ok_0 <==> all->Ok_0@.len() == 0,
{
    action_store::lemma_lists_len(action_store::record_views(all->Ok_0@), store.records());
}

} // verus!
