//! Queries: what a listing shows and what the counts count.

use crate::laws::records;
use crate::model::action::ActionRecordView;
use crate::model::{ActionRecord, ArState, Cookie, Extent, Timestamp};
use crate::store::action_store;
use crate::store::action_store::ActionStore;
use crate::store::error::{StoreErrorView, StoreResult};
use crate::store::mem::MemStore;
use vstd::prelude::*;

verus! {

/// The record is of the archive asked for, if one is, and in the state whose word is
/// asked for, if one is; a word that is no state's asks for none.
pub open spec fn wanted(
    word: Option<Seq<char>>,
    archive: Option<u32>,
    rec: ActionRecordView,
) -> bool {
    &&& archive is Some ==> rec.action.archive_id.0 == archive->0
    &&& word == Some("waiting"@) ==> rec.state is Waiting
    &&& word == Some("started"@) ==> rec.state is Started
    &&& word == Some("succeed"@) ==> rec.state is Succeed
    &&& word == Some("failed"@) ==> rec.state is Failed
    &&& word == Some("canceled"@) ==> rec.state is Canceled
}

/// The filter of a query is what is wanted.
proof fn lemma_wanted(word: Option<Seq<char>>, archive: Option<u32>, rec: ActionRecordView)
    ensures
        action_store::passes(word, archive)(rec) <==> wanted(word, archive, rec),
{
    action_store::lemma_state_names_distinct();
}

/// The word asked for, in small letters.
pub open spec fn word_of(filter: Option<&str>) -> Option<Seq<char>> {
    match filter {
        Some(s) => Some(action_store::lowercase(s@)),
        None => None,
    }
}

/// A query shows records of the store as they are, each wanted and each once, and no
/// more than the limit.
pub proof fn lemma_query_shows_wanted<S: ActionStore>(
    store: &S,
    filter: Option<&str>,
    archive: Option<u32>,
    limit: usize,
    r: StoreResult<Vec<ActionRecord>>,
    i: int,
    j: int,
)
    requires
        call_ensures(S::query_actions, (store, filter, archive, limit), r),
        r is Ok,
    ensures
        r->Ok_0@.len() <= limit,
        0 <= i < r->Ok_0@.len() ==> ({
            let rec = r->Ok_0@[i]@;
            &&& store.records().contains_key(rec.action.cookie.0)
            &&& store.records()[rec.action.cookie.0] == rec
            &&& wanted(word_of(filter), archive, rec)
        }),
        0 <= i < j < r->Ok_0@.len() ==> r->Ok_0@[i]@.action.cookie != r->Ok_0@[j]@.action.cookie,
{
    let v = r->Ok_0@;
    let m = store.records();
    let p = action_store::passes(word_of(filter), archive);
    let all = choose|all: Seq<ActionRecordView>| #[trigger]
        action_store::lists(all, m) && action_store::record_views(v) == action_store::first(
            all.filter(p),
            limit as int,
        );
    assert(action_store::lists(all, m));
    let f = all.filter(p);
    action_store::lemma_lists_selected(all, m, p);
    let views = action_store::record_views(v);
    assert(views.len() == v.len());
    if 0 <= i < v.len() {
        assert(views[i] == v[i]@);
        assert(f[i] == v[i]@);
        assert(action_store::selected(m, p).contains_key(f[i].action.cookie.0));
        lemma_wanted(word_of(filter), archive, v[i]@);
        if i < j < v.len() {
            assert(views[j] == v[j]@);
            assert(f[j] == v[j]@);
        }
    }
}

/// A query that does not reach its limit shows every record that is wanted.
pub proof fn lemma_query_shows_all<S: ActionStore>(
    store: &S,
    filter: Option<&str>,
    archive: Option<u32>,
    limit: usize,
    r: StoreResult<Vec<ActionRecord>>,
    k: u64,
)
    requires
        call_ensures(S::query_actions, (store, filter, archive, limit), r),
        r is Ok,
        r->Ok_0@.len() < limit,
        store.records().contains_key(k),
        wanted(word_of(filter), archive, store.records()[k]),
    ensures
        exists|i: int|
            0 <= i < r->Ok_0@.len() && (#[trigger] r->Ok_0@[i])@ == store.records()[k],
{
    let v = r->Ok_0@;
    let m = store.records();
    let p = action_store::passes(word_of(filter), archive);
    let all = choose|all: Seq<ActionRecordView>| #[trigger]
        action_store::lists(all, m) && action_store::record_views(v) == action_store::first(
            all.filter(p),
            limit as int,
        );
    assert(action_store::lists(all, m));
    let f = all.filter(p);
    action_store::lemma_lists_selected(all, m, p);
    let views = action_store::record_views(v);
    assert(views.len() == v.len());
    assert(views == f);
    lemma_wanted(word_of(filter), archive, m[k]);
    assert(action_store::selected(m, p).contains_key(k));
    let i = choose|i: int| 0 <= i < f.len() && (#[trigger] f[i]).action.cookie.0 == k;
    assert(action_store::selected(m, p).contains_key(f[i].action.cookie.0));
    assert(views[i] == v[i]@);
}

/// A query that reaches its limit left something out only if there is more that is
/// wanted: with room for the whole store, nothing is missing.
pub proof fn lemma_query_fills_up<S: ActionStore>(
    store: &S,
    filter: Option<&str>,
    archive: Option<u32>,
    limit: usize,
    r: StoreResult<Vec<ActionRecord>>,
    n: StoreResult<usize>,
)
    requires
        call_ensures(S::query_actions, (store, filter, archive, limit), r),
        call_ensures(S::len, (store,), n),
        r is Ok,
        n is Ok,
        filter is None,
        archive is None,
    ensures
        r->Ok_0@.len() == if limit < n->Ok_0 {
            limit
        } else {
            n->Ok_0
        },
{
    let v = r->Ok_0@;
    let m = store.records();
    let p = action_store::passes(word_of(filter), archive);
    let all = choose|all: Seq<ActionRecordView>| #[trigger]
        action_store::lists(all, m) && action_store::record_views(v) == action_store::first(
            all.filter(p),
            limit as int,
        );
    assert(action_store::lists(all, m));
    action_store::lemma_lists_len(all, m);
    reveal(Seq::filter);
    crate::scheduler::fifo::lemma_filter_all(all, p);
    assert(action_store::record_views(v).len() == v.len());
}

/// The counts are those of a full listing: the records that wait, those that an agent
/// runs, and all of them.
pub proof fn lemma_counts_of_a_listing<S: ActionStore>(
    store: &S,
    all: StoreResult<Vec<ActionRecord>>,
    c: StoreResult<(u64, u64, u64)>,
)
    requires
        call_ensures(S::load_all, (store,), all),
        call_ensures(S::status_counts, (store,), c),
        all is Ok,
        c is Ok,
    ensures
        ({
            let s = action_store::record_views(all->Ok_0@);
            &&& c->Ok_0.0 == s.filter(|x: ActionRecordView| x.state is Waiting).len()
            &&& c->Ok_0.1 == s.filter(|x: ActionRecordView| x.state is Started).len()
            &&& c->Ok_0.2 == all->Ok_0@.len()
        }),
{
    let s = action_store::record_views(all->Ok_0@);
    let m = store.records();
    let w = |x: ActionRecordView| x.state is Waiting;
    let t = |x: ActionRecordView| x.state is Started;
    assert(w =~= action_store::waiting());
    assert(t =~= action_store::started());
    action_store::lemma_lists_len(s, m);
    action_store::lemma_lists_selected(s, m, w);
    action_store::lemma_lists_len(s.filter(w), action_store::selected(m, w));
    action_store::lemma_lists_selected(s, m, t);
    action_store::lemma_lists_len(s.filter(t), action_store::selected(m, t));
    assert(s.len() == all->Ok_0@.len());
}

// ---------------------------------------------------------------------------
// In memory
// ---------------------------------------------------------------------------

/// In memory a change of state is made at the time given, unless the action is over or
/// unknown.
pub proof fn lemma_transition_at_call(
    store: &mut MemStore,
    cookie: Cookie,
    new: ArState,
    now: Timestamp,
    r: StoreResult<()>,
)
    requires
        call_ensures(MemStore::transition_at, (store, cookie, new, now), r),
    ensures
        ({
            let before = old(store)@;
            let after = final(store)@;
            let k = cookie.0;
            &&& r is Ok <==> before.contains_key(k) && records::unfinished(before[k].state)
            &&& r is Ok ==> records::touched(before, after, k) && after[k].state == new@
                && after[k].updated_at == now && after[k].action == before[k].action
                && after[k].progress == before[k].progress && after[k].created_at
                == before[k].created_at
            &&& r is Err ==> after == before && r->Err_0@ == (if before.contains_key(k) {
                StoreErrorView::TerminalTransition { cookie, from: before[k].state }
            } else {
                StoreErrorView::UnknownCookie(cookie)
            })
        }),
{
    assert(Cookie(cookie.0) == cookie);
    if r is Ok {
        assert(final(store)@.dom() =~= old(store)@.dom());
    }
}

/// In memory progress is recorded at the time given, unless it would go back or the
/// action is unknown.
pub proof fn lemma_update_progress_at_call(
    store: &mut MemStore,
    cookie: Cookie,
    e: Extent,
    now: Timestamp,
    r: StoreResult<()>,
)
    requires
        call_ensures(MemStore::update_progress_at, (store, cookie, e, now), r),
    ensures
        ({
            let before = old(store)@;
            let after = final(store)@;
            let k = cookie.0;
            &&& r is Ok <==> before.contains_key(k) && before[k].progress.offset <= e.offset
            &&& r is Ok ==> records::touched(before, after, k) && after[k].progress == e
                && after[k].updated_at == now && after[k].action == before[k].action
                && after[k].state == before[k].state && after[k].created_at
                == before[k].created_at
            &&& r is Err ==> after == before && r->Err_0@ == (if before.contains_key(k) {
                StoreErrorView::ProgressRegression { cookie, have: before[k].progress, got: e }
            } else {
                StoreErrorView::UnknownCookie(cookie)
            })
        }),
{
    assert(Cookie(cookie.0) == cookie);
    if r is Ok {
        assert(final(store)@.dom() =~= old(store)@.dom());
    }
}

/// A new store in memory holds nothing.
pub proof fn lemma_new_is_empty(store: MemStore, k: u64)
    requires
        call_ensures(MemStore::new, (), store),
    ensures
        !store@.contains_key(k),
        store@.len() == 0,
{
}

} // verus!
