//! In-memory [`ActionStore`].

use crate::model::action::ActionRecordView;
use crate::model::{ActionRecord, AgentId, ArState, Cookie, Extent, Timestamp};
use crate::store::action_store;
use crate::store::action_store::{ActionStore, Records, StoreOp};
use crate::store::error::{StoreError, StoreResult};
use dashmap::DashMap;
use vstd::prelude::*;

verus! {

/// `dashmap::DashMap`, a sharded concurrent hash map.
#[verifier::external_type_specification]
#[verifier::external_body]
#[verifier::reject_recursive_types(K)]
#[verifier::reject_recursive_types(V)]
#[verifier::reject_recursive_types(S)]
pub struct ExDashMap<K, V, S>(dashmap::DashMap<K, V, S>);

/// The records a map holds. The wrappers below take the map exclusively where
/// they change it, so that no other handle changes it in between.
pub uninterp spec fn records_of(m: DashMap<u64, ActionRecord>) -> Records;

/// `DashMap::new` makes an empty map.
#[verifier::external_body]
fn records_new() -> (m: DashMap<u64, ActionRecord>)
    ensures
        records_of(m) == Records::empty(),
{
    DashMap::new()
}

/// `DashMap::contains_key` says whether the key is there.
#[verifier::external_body]
fn records_contain(m: &DashMap<u64, ActionRecord>, k: u64) -> (r: bool)
    ensures
        r == records_of(*m).contains_key(k),
{
    m.contains_key(&k)
}

/// `DashMap::insert` files the value under the key, in place of any other.
#[verifier::external_body]
fn records_insert(m: &mut DashMap<u64, ActionRecord>, k: u64, rec: ActionRecord)
    ensures
        records_of(*final(m)) == records_of(*old(m)).insert(k, rec@),
{
    m.insert(k, rec);
}

/// `DashMap::get` finds the value under the key; it is handed out as a clone.
#[verifier::external_body]
fn records_get(m: &DashMap<u64, ActionRecord>, k: u64) -> (r: Option<ActionRecord>)
    ensures
        match r {
            Some(rec) => records_of(*m).contains_key(k) && rec@ == records_of(*m)[k],
            None => !records_of(*m).contains_key(k),
        },
{
    m.get(&k).map(|e| e.value().clone())
}

/// `DashMap::remove` takes the entry out, if it is there.
#[verifier::external_body]
fn records_remove(m: &mut DashMap<u64, ActionRecord>, k: u64)
    ensures
        records_of(*final(m)) == records_of(*old(m)).remove(k),
{
    m.remove(&k);
}

/// `DashMap::len` counts the entries.
#[verifier::external_body]
fn records_len(m: &DashMap<u64, ActionRecord>) -> (r: usize)
    ensures
        r == records_of(*m).len(),
{
    m.len()
}

/// `DashMap::iter` yields every entry once, in no particular order; keys and
/// cloned values are handed out.
#[verifier::external_body]
fn records_iter(m: &DashMap<u64, ActionRecord>) -> (r: Vec<(u64, ActionRecord)>)
    ensures
        forall|i: int, j: int| 0 <= i < j < r@.len() ==> (#[trigger] r@[i]).0 != (#[trigger] r@[j]).0,
        forall|i: int|
            0 <= i < r@.len() ==> records_of(*m).contains_key((#[trigger] r@[i]).0) && r@[i].1@
                == records_of(*m)[r@[i].0],
        forall|k: u64|
            records_of(*m).contains_key(k) ==> exists|i: int|
                0 <= i < r@.len() && (#[trigger] r@[i]).0 == k,
{
    m.iter().map(|e| (*e.key(), e.value().clone())).collect()
}

/// In-memory action store.
#[derive(Debug)]
pub struct MemStore {
    inner: DashMap<u64, ActionRecord>,
}

impl View for MemStore {
    type V = Records;

    closed spec fn view(&self) -> Records {
        records_of(self.inner)
    }
}

impl Default for MemStore {
    fn default() -> (r: MemStore)
        ensures
            r@ == Records::empty(),
    {
        MemStore::new()
    }
}

impl MemStore {
    /// An empty store.
    pub fn new() -> (r: MemStore)
        ensures
            r@ == Records::empty(),
    {
        MemStore { inner: records_new() }
    }

    /// Change the state of an action that has not finished, at time `now`.
    pub fn transition_at(&mut self, cookie: Cookie, new: ArState, now: Timestamp) -> (r:
        StoreResult<()>)
        ensures
            action_store::performed(
                old(self)@,
                final(self)@,
                r,
                StoreOp::Transition { cookie: cookie.0, new: new@, now },
            ),
    {
        let mut rec = match records_get(&self.inner, cookie.0) {
            Some(rec) => rec,
            None => {
                return Err(StoreError::UnknownCookie(cookie));
            },
        };
        if rec.state.is_terminal() {
            return Err(StoreError::TerminalTransition { cookie, from: rec.state });
        }
        rec.state = new;
        rec.updated_at = now;
        records_insert(&mut self.inner, cookie.0, rec);
        Ok(())
    }

    /// Record progress at time `now`; the offset must not go backwards.
    pub fn update_progress_at(&mut self, cookie: Cookie, e: Extent, now: Timestamp) -> (r:
        StoreResult<()>)
        ensures
            action_store::performed(
                old(self)@,
                final(self)@,
                r,
                StoreOp::Progress { cookie: cookie.0, extent: e, now },
            ),
    {
        let mut rec = match records_get(&self.inner, cookie.0) {
            Some(rec) => rec,
            None => {
                return Err(StoreError::UnknownCookie(cookie));
            },
        };
        if e.offset < rec.progress.offset {
            return Err(StoreError::ProgressRegression { cookie, have: rec.progress, got: e });
        }
        rec.progress = e;
        rec.updated_at = now;
        records_insert(&mut self.inner, cookie.0, rec);
        Ok(())
    }
}

impl ActionStore for MemStore {
    open spec fn records(&self) -> Records {
        self@
    }

    open spec fn reliable(&self) -> bool {
        true
    }

    fn insert(&mut self, rec: ActionRecord) -> (r: StoreResult<()>)
        ensures
            action_store::performed(
                old(self)@,
                final(self)@,
                r,
                StoreOp::Insert { rec: rec@ },
            ),
    {
        let cookie = rec.action.cookie;
        if records_contain(&self.inner, cookie.0) {
            return Err(StoreError::DuplicateCookie(cookie));
        }
        records_insert(&mut self.inner, cookie.0, rec);
        Ok(())
    }

    fn transition(&mut self, cookie: Cookie, new: ArState) -> (r: StoreResult<()>)
        ensures
            !action_store::backend_failed(r),
    {
        let now = Timestamp::now();
        let ghost op = StoreOp::Transition { cookie: cookie.0, new: new@, now };
        let r = self.transition_at(cookie, new, now);
        proof {
            assert(action_store::attempted(old(self)@, self@, r, op));
        }
        r
    }

    fn update_progress(&mut self, cookie: Cookie, e: Extent) -> (r: StoreResult<()>)
        ensures
            !action_store::backend_failed(r),
    {
        let now = Timestamp::now();
        let ghost op = StoreOp::Progress { cookie: cookie.0, extent: e, now };
        let r = self.update_progress_at(cookie, e, now);
        proof {
            assert(action_store::attempted(old(self)@, self@, r, op));
        }
        r
    }

    fn delete(&mut self, cookie: Cookie) -> (r: StoreResult<()>)
        ensures
            r is Ok,
    {
        records_remove(&mut self.inner, cookie.0);
        Ok(())
    }

    fn get(&self, cookie: Cookie) -> (r: StoreResult<Option<ActionRecord>>)
        ensures
            r is Ok,
    {
        Ok(records_get(&self.inner, cookie.0))
    }

    fn load_all(&self) -> (r: StoreResult<Vec<ActionRecord>>)
        ensures
            r is Ok,
    {
        let pairs = records_iter(&self.inner);
        let mut out: Vec<ActionRecord> = Vec::new();
        let mut i: usize = 0;
        while i < pairs.len()
            invariant
                i == out@.len(),
                i <= pairs@.len(),
                forall|j: int| 0 <= j < i ==> (#[trigger] out@[j])@ == pairs@[j].1@,
            decreases pairs.len() - i,
        {
            out.push(pairs[i].1.clone());
            i = i + 1;
        }
        proof {
            lemma_pairs_list(self@, pairs@, out@);
        }
        Ok(out)
    }

    fn list_by_agent(&self, agent: &AgentId) -> (r: StoreResult<Vec<ActionRecord>>)
        ensures
            r is Ok,
    {
        match self.load_all() {
            Ok(all) => {
                proof {
                    action_store::lemma_lists_selected(
                        action_store::record_views(all@),
                        self@,
                        action_store::run_by(agent@),
                    );
                }
                Ok(keep_run_by(all, agent))
            },
            Err(e) => Err(e),
        }
    }

    fn len(&self) -> (r: StoreResult<usize>)
        ensures
            r is Ok,
    {
        Ok(records_len(&self.inner))
    }
}

/// Keep the records that `agent` is running.
fn keep_run_by(all: Vec<ActionRecord>, agent: &AgentId) -> (r: Vec<ActionRecord>)
    ensures
        action_store::record_views(r@) == action_store::record_views(all@).filter(
            action_store::run_by(agent@),
        ),
{
    let mut out: Vec<ActionRecord> = Vec::new();
    let ghost views = action_store::record_views(all@);
    let ghost p = action_store::run_by(agent@);
    let mut i: usize = 0;
    proof {
        reveal(Seq::filter);
        assert(views.take(0).filter(p) =~= Seq::<ActionRecordView>::empty());
    }
    while i < all.len()
        invariant
            i <= all@.len(),
            views == action_store::record_views(all@),
            p == action_store::run_by(agent@),
            action_store::record_views(out@) == views.take(i as int).filter(p),
        decreases all.len() - i,
    {
        proof {
            reveal(Seq::filter);
            assert(views.take(i + 1).drop_last() =~= views.take(i as int));
            assert(views.take(i + 1).last() == all@[i as int]@);
        }
        let mine: bool = match &all[i].state {
            ArState::Started { agent: a, .. } => a.same_as(agent),
            _ => false,
        };
        if mine {
            let ghost before = action_store::record_views(out@);
            out.push(all[i].clone());
            proof {
                assert(action_store::record_views(out@) =~= before.push(all@[i as int]@));
            }
        }
        i = i + 1;
    }
    proof {
        assert(views.take(i as int) =~= views);
    }
    out
}

/// The values of the entries list the records.
proof fn lemma_pairs_list(m: Records, pairs: Seq<(u64, ActionRecord)>, out: Seq<ActionRecord>)
    requires
        action_store::keyed(m),
        out.len() == pairs.len(),
        forall|j: int| 0 <= j < out.len() ==> (#[trigger] out[j])@ == pairs[j].1@,
        forall|i: int, j: int|
            0 <= i < j < pairs.len() ==> (#[trigger] pairs[i]).0 != (#[trigger] pairs[j]).0,
        forall|i: int|
            0 <= i < pairs.len() ==> m.contains_key((#[trigger] pairs[i]).0) && pairs[i].1@
                == m[pairs[i].0],
        forall|k: u64|
            m.contains_key(k) ==> exists|i: int| 0 <= i < pairs.len() && (#[trigger] pairs[i]).0 == k,
    ensures
        action_store::lists(action_store::record_views(out), m),
{
    let s = action_store::record_views(out);
    assert forall|i: int| 0 <= i < s.len() implies (#[trigger] s[i]).action.cookie.0 == pairs[i].0
        && m.contains_key(s[i].action.cookie.0) && m[s[i].action.cookie.0] == s[i] by {
        assert(s[i] == out[i]@);
        assert(m.contains_key(pairs[i].0));
    }
    assert forall|i: int, j: int| 0 <= i < j < s.len() implies (#[trigger] s[i]).action.cookie != (
    #[trigger] s[j]).action.cookie by {
        assert(pairs[i].0 != pairs[j].0);
    }
    assert forall|k: u64| m.contains_key(k) implies exists|i: int|
        0 <= i < s.len() && (#[trigger] s[i]).action.cookie.0 == k by {
        let i = choose|i: int| 0 <= i < pairs.len() && (#[trigger] pairs[i]).0 == k;
        assert(s[i].action.cookie.0 == k);
    }
}

} // verus!
