//! The [`ActionStore`] trait and the model every store follows.

use crate::model::action::{ActionRecordView, ArStateView};
use crate::model::{ActionRecord, AgentId, ArState, Cookie, Extent, Timestamp};
use crate::store::error::{StoreErrorView, StoreResult};
use crate::text;
use vstd::prelude::*;

verus! {

// ---------------------------------------------------------------------------
// Model
// ---------------------------------------------------------------------------

/// The records of a store by cookie.
pub type Records = Map<u64, ActionRecordView>;

/// An operation that may change a store.
#[verifier::ext_equal]
pub enum StoreOp {
    Insert { rec: ActionRecordView },
    Transition { cookie: u64, new: ArStateView, now: Timestamp },
    Progress { cookie: u64, extent: Extent, now: Timestamp },
    Delete { cookie: u64 },
}

/// Every record is filed under its own cookie.
pub open spec fn keyed(m: Records) -> bool {
    forall|k: u64| m.contains_key(k) ==> (#[trigger] m[k]).action.cookie.0 == k
}

/// Why an operation is refused, if it is.
pub open spec fn refusal(m: Records, op: StoreOp) -> Option<StoreErrorView> {
    match op {
        StoreOp::Insert { rec } => if m.contains_key(rec.action.cookie.0) {
            Some(StoreErrorView::DuplicateCookie(rec.action.cookie))
        } else {
            None
        },
        StoreOp::Transition { cookie, new, now } => if !m.contains_key(cookie) {
            Some(StoreErrorView::UnknownCookie(Cookie(cookie)))
        } else if m[cookie].state.terminal() {
            Some(
                StoreErrorView::TerminalTransition { cookie: Cookie(cookie), from: m[cookie].state },
            )
        } else {
            None
        },
        StoreOp::Progress { cookie, extent, now } => if !m.contains_key(cookie) {
            Some(StoreErrorView::UnknownCookie(Cookie(cookie)))
        } else if extent.offset < m[cookie].progress.offset {
            Some(
                StoreErrorView::ProgressRegression {
                    cookie: Cookie(cookie),
                    have: m[cookie].progress,
                    got: extent,
                },
            )
        } else {
            None
        },
        StoreOp::Delete { cookie } => None,
    }
}

/// The records after an operation; a refused one changes nothing.
pub open spec fn apply(m: Records, op: StoreOp) -> Records {
    if refusal(m, op) is Some {
        m
    } else {
        match op {
            StoreOp::Insert { rec } => m.insert(rec.action.cookie.0, rec),
            StoreOp::Transition { cookie, new, now } => m.insert(
                cookie,
                ActionRecordView { state: new, updated_at: now, ..m[cookie] },
            ),
            StoreOp::Progress { cookie, extent, now } => m.insert(
                cookie,
                ActionRecordView { progress: extent, updated_at: now, ..m[cookie] },
            ),
            StoreOp::Delete { cookie } => m.remove(cookie),
        }
    }
}

/// The records after a sequence of operations.
pub open spec fn run(m: Records, ops: Seq<StoreOp>) -> Records
    decreases ops.len(),
{
    if ops.len() == 0 {
        m
    } else {
        run(apply(m, ops[0]), ops.drop_first())
    }
}

/// `r` reports what `refusal` says.
pub open spec fn answers(r: StoreResult<()>, refused: Option<StoreErrorView>) -> bool {
    match refused {
        None => r is Ok,
        Some(e) => r matches Err(x) && x@ == e,
    }
}

/// `op` was carried out, or refused, on `before`: `r` was returned and the
/// records are now `after`.
pub open spec fn performed(
    before: Records,
    after: Records,
    r: StoreResult<()>,
    op: StoreOp,
) -> bool {
    &&& answers(r, refusal(before, op))
    &&& after == apply(before, op)
}

/// `r` says that the persistence backend failed.
pub open spec fn backend_failed<T>(r: StoreResult<T>) -> bool {
    r matches Err(e) && e@ is Backend
}

/// `op` was asked of a store with the records `before`: `r` was returned and the
/// records are now `after`. When the backend failed, the operation was carried
/// out or it was not; no other record is touched.
pub open spec fn attempted(
    before: Records,
    after: Records,
    r: StoreResult<()>,
    op: StoreOp,
) -> bool {
    if backend_failed(r) {
        after == before || after == apply(before, op)
    } else {
        performed(before, after, r, op)
    }
}

/// `s` holds every record of `m` once, in some order.
pub open spec fn lists(s: Seq<ActionRecordView>, m: Records) -> bool {
    &&& forall|i: int, j: int|
        0 <= i < j < s.len() ==> (#[trigger] s[i]).action.cookie != (#[trigger] s[j]).action.cookie
    &&& forall|i: int|
        0 <= i < s.len() ==> m.contains_key((#[trigger] s[i]).action.cookie.0)
            && m[s[i].action.cookie.0] == s[i]
    &&& forall|k: u64|
        m.contains_key(k) ==> exists|i: int|
            0 <= i < s.len() && (#[trigger] s[i]).action.cookie.0 == k
}

/// The records of `m` that satisfy `p`.
pub open spec fn selected(m: Records, p: spec_fn(ActionRecordView) -> bool) -> Records {
    Map::new(|k: u64| m.contains_key(k) && p(m[k]), |k: u64| m[k])
}

/// Records an agent is running.
pub open spec fn run_by(agent: Seq<char>) -> spec_fn(ActionRecordView) -> bool {
    |r: ActionRecordView| r.state matches ArStateView::Started { agent: a, .. } && a == agent
}

/// Records in `Waiting`.
pub open spec fn waiting() -> spec_fn(ActionRecordView) -> bool {
    |r: ActionRecordView| r.state is Waiting
}

/// Records in `Started`.
pub open spec fn started() -> spec_fn(ActionRecordView) -> bool {
    |r: ActionRecordView| r.state is Started
}

/// Lowercase name of a state.
pub open spec fn state_name(s: ArStateView) -> Seq<char> {
    match s {
        ArStateView::Waiting => "waiting"@,
        ArStateView::Started { .. } => "started"@,
        ArStateView::Succeed { .. } => "succeed"@,
        ArStateView::Failed { .. } => "failed"@,
        ArStateView::Canceled => "canceled"@,
    }
}

/// `name` is the name of some state.
pub open spec fn is_state_name(name: Seq<char>) -> bool {
    name == "waiting"@ || name == "started"@ || name == "succeed"@ || name == "failed"@ || name
        == "canceled"@
}

/// Records that pass a listing's filters. A state filter that names no state
/// does not filter.
pub open spec fn passes(
    state: Option<Seq<char>>,
    archive: Option<u32>,
) -> spec_fn(ActionRecordView) -> bool {
    |r: ActionRecordView|
        {
            &&& archive matches Some(a) ==> r.action.archive_id.0 == a
            &&& state matches Some(s) ==> is_state_name(s) ==> state_name(r.state) == s
        }
}

/// The models of a list of records.
pub open spec fn record_views(v: Seq<ActionRecord>) -> Seq<ActionRecordView> {
    v.map_values(|r: ActionRecord| r@)
}

/// What `to_lowercase` makes of a text.
pub uninterp spec fn lowercase(s: Seq<char>) -> Seq<char>;

/// ASCII letters in lower case, everything else as it is.
pub open spec fn ascii_lower(s: Seq<char>) -> Seq<char> {
    Seq::new(
        s.len(),
        |i: int|
            if 'A' <= s[i] <= 'Z' {
                (s[i] as int + 32) as char
            } else {
                s[i]
            },
    )
}

/// `str::to_lowercase`. Its Unicode mapping is named, not restated; on ASCII text
/// it maps each capital letter to its small letter.
#[verifier::external_body]
pub(crate) fn to_lowercase(s: &str) -> (r: String)
    ensures
        r@ == lowercase(s@),
        s.is_ascii() ==> r@ == ascii_lower(s@),
{
    s.to_lowercase()
}

// ---------------------------------------------------------------------------
// The trait
// ---------------------------------------------------------------------------

/// State of in-flight HSM actions.
pub trait ActionStore: Sized {
    /// The records held.
    spec fn records(&self) -> Records;

    /// No backend of this store can fail.
    spec fn reliable(&self) -> bool;

    /// Add a new record. A cookie that is already there is an error.
    fn insert(&mut self, rec: ActionRecord) -> (r: StoreResult<()>)
        requires
            keyed(old(self).records()),
        ensures
            keyed(final(self).records()),
            final(self).reliable() == old(self).reliable(),
            old(self).reliable() ==> !backend_failed(r),
            attempted(
                old(self).records(),
                final(self).records(),
                r,
                StoreOp::Insert { rec: rec@ },
            ),
    ;

    /// Change the state of an action that has not finished.
    fn transition(&mut self, cookie: Cookie, new: ArState) -> (r: StoreResult<()>)
        requires
            keyed(old(self).records()),
        ensures
            keyed(final(self).records()),
            final(self).reliable() == old(self).reliable(),
            old(self).reliable() ==> !backend_failed(r),
            exists|now: Timestamp| #[trigger]
                attempted(
                    old(self).records(),
                    final(self).records(),
                    r,
                    StoreOp::Transition { cookie: cookie.0, new: new@, now },
                ),
    ;

    /// Record progress; the offset must not go backwards.
    fn update_progress(&mut self, cookie: Cookie, e: Extent) -> (r: StoreResult<()>)
        requires
            keyed(old(self).records()),
        ensures
            keyed(final(self).records()),
            final(self).reliable() == old(self).reliable(),
            old(self).reliable() ==> !backend_failed(r),
            exists|now: Timestamp| #[trigger]
                attempted(
                    old(self).records(),
                    final(self).records(),
                    r,
                    StoreOp::Progress { cookie: cookie.0, extent: e, now },
                ),
    ;

    /// Remove a record. Nothing happens if the cookie is not there.
    fn delete(&mut self, cookie: Cookie) -> (r: StoreResult<()>)
        requires
            keyed(old(self).records()),
        ensures
            keyed(final(self).records()),
            final(self).reliable() == old(self).reliable(),
            old(self).reliable() ==> !backend_failed(r),
            attempted(
                old(self).records(),
                final(self).records(),
                r,
                StoreOp::Delete { cookie: cookie.0 },
            ),
    ;

    /// Fetch a single record by cookie.
    fn get(&self, cookie: Cookie) -> (r: StoreResult<Option<ActionRecord>>)
        requires
            keyed(self.records()),
        ensures
            match r {
                Ok(Some(rec)) => self.records().contains_key(cookie.0) && rec@
                    == self.records()[cookie.0],
                Ok(None) => !self.records().contains_key(cookie.0),
                Err(_) => backend_failed(r) && !self.reliable(),
            },
    ;

    /// Everything, in no particular order.
    fn load_all(&self) -> (r: StoreResult<Vec<ActionRecord>>)
        requires
            keyed(self.records()),
        ensures
            match r {
                Ok(v) => lists(record_views(v@), self.records()),
                Err(_) => backend_failed(r) && !self.reliable(),
            },
    ;

    /// All records an agent is running.
    fn list_by_agent(&self, agent: &AgentId) -> (r: StoreResult<Vec<ActionRecord>>)
        requires
            keyed(self.records()),
        ensures
            match r {
                Ok(v) => lists(record_views(v@), selected(self.records(), run_by(agent@))),
                Err(_) => backend_failed(r) && !self.reliable(),
            },
    ;

    /// Number of records held.
    fn len(&self) -> (r: StoreResult<usize>)
        requires
            keyed(self.records()),
        ensures
            match r {
                Ok(n) => n == self.records().len(),
                Err(_) => backend_failed(r) && !self.reliable(),
            },
    ;

    /// `true` if the store holds no records.
    fn is_empty(&self) -> (r: StoreResult<bool>)
        requires
            keyed(self.records()),
        ensures
            match r {
                Ok(b) => b == (self.records().len() == 0),
                Err(_) => backend_failed(r) && !self.reliable(),
            },
    {
        match self.len() {
            Ok(n) => Ok(n == 0),
            Err(e) => Err(e),
        }
    }

    /// The records that pass the filters, at most `limit` of them.
    fn query_actions(
        &self,
        state_filter: Option<&str>,
        archive_id: Option<u32>,
        limit: usize,
    ) -> (r: StoreResult<Vec<ActionRecord>>)
        requires
            keyed(self.records()),
        ensures
            match r {
                Ok(v) => {
                    let state = match state_filter {
                        Some(s) => Some(lowercase(s@)),
                        None => None,
                    };
                    exists|all: Seq<ActionRecordView>| #[trigger]
                        lists(all, self.records()) && record_views(v@) == first(
                            all.filter(passes(state, archive_id)),
                            limit as int,
                        )
                },
                Err(_) => backend_failed(r) && !self.reliable(),
            },
    {
        let lowered: Option<String> = match state_filter {
            Some(s) => Some(to_lowercase(s)),
            None => None,
        };
        match self.load_all() {
            Ok(all) => Ok(filter_records(all, &lowered, archive_id, limit)),
            Err(e) => Err(e),
        }
    }

    /// Number of waiting records, of started records, and of all records.
    fn status_counts(&self) -> (r: StoreResult<(u64, u64, u64)>)
        requires
            keyed(self.records()),
        ensures
            match r {
                Ok(c) => {
                    &&& c.0 == selected(self.records(), waiting()).len()
                    &&& c.1 == selected(self.records(), started()).len()
                    &&& c.2 == self.records().len()
                },
                Err(_) => backend_failed(r) && !self.reliable(),
            },
    {
        match self.load_all() {
            Ok(all) => {
                proof {
                    let v = record_views(all@);
                    lemma_lists_selected(v, self.records(), waiting());
                    lemma_lists_selected(v, self.records(), started());
                    lemma_lists_len(v, self.records());
                    lemma_lists_len(v.filter(waiting()), selected(self.records(), waiting()));
                    lemma_lists_len(v.filter(started()), selected(self.records(), started()));
                }
                Ok(count_records(&all))
            },
            Err(e) => Err(e),
        }
    }
}

/// The first `n` elements, or all when there are fewer.
pub open spec fn first<A>(s: Seq<A>, n: int) -> Seq<A> {
    if n < s.len() {
        s.take(n)
    } else {
        s
    }
}

/// The optional text of an optional string.
pub open spec fn opt_text(s: Option<String>) -> Option<Seq<char>> {
    match s {
        Some(t) => Some(t@),
        None => None,
    }
}

/// The state names differ from each other.
pub proof fn lemma_state_names_distinct()
    ensures
        "waiting"@ != "started"@,
        "waiting"@ != "succeed"@,
        "waiting"@ != "failed"@,
        "waiting"@ != "canceled"@,
        "started"@ != "succeed"@,
        "started"@ != "failed"@,
        "started"@ != "canceled"@,
        "succeed"@ != "failed"@,
        "succeed"@ != "canceled"@,
        "failed"@ != "canceled"@,
{
    reveal_strlit("waiting");
    reveal_strlit("started");
    reveal_strlit("succeed");
    reveal_strlit("failed");
    reveal_strlit("canceled");
    assert("waiting"@[0] == 'w');
    assert("started"@[1] == 't');
    assert("succeed"@[1] == 'u');
    assert("failed"@[0] == 'f');
    assert("canceled"@[0] == 'c');
    assert("started"@[0] == 's');
    assert("succeed"@[0] == 's');
}

/// `true` if a record passes a listing's filters; the state filter is in lower
/// case.
pub fn record_passes(r: &ActionRecord, state: &Option<String>, archive: Option<u32>) -> (b: bool)
    ensures
        b == passes(opt_text(*state), archive)(r@),
{
    if let Some(a) = archive {
        if r.action.archive_id.0 != a {
            return false;
        }
    }
    proof {
        lemma_state_names_distinct();
    }
    match state {
        None => true,
        Some(s) => {
            if text::same(s.as_str(), "waiting") {
                matches!(r.state, ArState::Waiting)
            } else if text::same(s.as_str(), "started") {
                matches!(r.state, ArState::Started { .. })
            } else if text::same(s.as_str(), "succeed") {
                matches!(r.state, ArState::Succeed { .. })
            } else if text::same(s.as_str(), "failed") {
                matches!(r.state, ArState::Failed { .. })
            } else if text::same(s.as_str(), "canceled") {
                matches!(r.state, ArState::Canceled)
            } else {
                true
            }
        },
    }
}

/// The records that pass the filters, in the order given, at most `limit`. The
/// state filter is in lower case.
pub fn filter_records(
    all: Vec<ActionRecord>,
    state: &Option<String>,
    archive: Option<u32>,
    limit: usize,
) -> (r: Vec<ActionRecord>)
    ensures
        record_views(r@) == first(
            record_views(all@).filter(passes(opt_text(*state), archive)),
            limit as int,
        ),
{
    let mut out: Vec<ActionRecord> = Vec::new();
    let ghost views = record_views(all@);
    let ghost p = passes(opt_text(*state), archive);
    let mut i: usize = 0;
    proof {
        reveal(Seq::filter);
        assert(views.take(0).filter(p) =~= Seq::<ActionRecordView>::empty());
    }
    while i < all.len()
        invariant
            i <= all@.len(),
            views == record_views(all@),
            p == passes(opt_text(*state), archive),
            record_views(out@) == first(views.take(i as int).filter(p), limit as int),
            out@.len() <= limit,
        decreases all.len() - i,
    {
        proof {
            reveal(Seq::filter);
            assert(views.take(i + 1).drop_last() =~= views.take(i as int));
            assert(views.take(i + 1).last() == all@[i as int]@);
        }
        let ghost before = views.take(i as int).filter(p);
        if record_passes(&all[i], state, archive) && out.len() < limit {
            let ghost old_views = record_views(out@);
            out.push(all[i].clone());
            proof {
                assert(record_views(out@) =~= old_views.push(all@[i as int]@));
                assert(record_views(out@).len() == out@.len());
                assert(old_views =~= before);
            }
        } else {
            proof {
                let after = views.take(i + 1).filter(p);
                assert(record_views(out@).len() == out@.len());
                assert(first(after, limit as int) =~= record_views(out@));
            }
        }
        i = i + 1;
    }
    proof {
        assert(views.take(i as int) =~= views);
    }
    out
}

/// Number of waiting records, of started records, and of all records in a list.
pub fn count_records(all: &Vec<ActionRecord>) -> (r: (u64, u64, u64))
    ensures
        r.0 == record_views(all@).filter(waiting()).len(),
        r.1 == record_views(all@).filter(started()).len(),
        r.2 == all@.len(),
{
    let mut w: u64 = 0;
    let mut s: u64 = 0;
    let mut i: usize = 0;
    let ghost views = record_views(all@);
    proof {
        reveal(Seq::filter);
        assert(views.take(0).filter(waiting()).len() == 0);
        assert(views.take(0).filter(started()).len() == 0);
    }
    while i < all.len()
        invariant
            i <= all@.len(),
            views == record_views(all@),
            w == views.take(i as int).filter(waiting()).len(),
            s == views.take(i as int).filter(started()).len(),
            w <= i,
            s <= i,
        decreases all.len() - i,
    {
        proof {
            reveal(Seq::filter);
            assert(views.take(i + 1).drop_last() =~= views.take(i as int));
            assert(views.take(i + 1).last() == all@[i as int]@);
        }
        match &all[i].state {
            ArState::Waiting => {
                w = w + 1;
            },
            ArState::Started { .. } => {
                s = s + 1;
            },
            _ => {},
        }
        i = i + 1;
    }
    proof {
        assert(views.take(i as int) =~= views);
    }
    (w, s, all.len() as u64)
}

// ---------------------------------------------------------------------------
// Listings
// ---------------------------------------------------------------------------

/// A filtered listing lists the selected records.
pub proof fn lemma_lists_selected(
    s: Seq<ActionRecordView>,
    m: Records,
    p: spec_fn(ActionRecordView) -> bool,
)
    requires
        lists(s, m),
    ensures
        lists(s.filter(p), selected(m, p)),
{
    let t = s.filter(p);
    let n = selected(m, p);
    lemma_filter_distinct(s, p);
    assert forall|i: int| 0 <= i < t.len() implies n.contains_key(
        (#[trigger] t[i]).action.cookie.0,
    ) && n[t[i].action.cookie.0] == t[i] by {
        s.lemma_filter_pred(p, i);
        assert(t.contains(t[i]));
        s.lemma_filter_contains_rev(p, t[i]);
        let a = choose|a: int| 0 <= a < s.len() && s[a] == t[i];
        assert(m.contains_key(s[a].action.cookie.0));
    }
    assert forall|k: u64| n.contains_key(k) implies exists|i: int|
        0 <= i < t.len() && (#[trigger] t[i]).action.cookie.0 == k by {
        let a = choose|a: int| 0 <= a < s.len() && (#[trigger] s[a]).action.cookie.0 == k;
        assert(m.contains_key(s[a].action.cookie.0));
        s.lemma_filter_contains(p, a);
        let i = choose|i: int| 0 <= i < t.len() && t[i] == s[a];
        assert(t[i].action.cookie.0 == k);
    }
}

/// No cookie occurs twice.
spec fn distinct_cookies(s: Seq<ActionRecordView>) -> bool {
    forall|i: int, j: int|
        0 <= i < j < s.len() ==> (#[trigger] s[i]).action.cookie != (#[trigger] s[j]).action.cookie
}

/// Distinct entries stay distinct when filtered.
proof fn lemma_filter_distinct(s: Seq<ActionRecordView>, p: spec_fn(ActionRecordView) -> bool)
    requires
        distinct_cookies(s),
    ensures
        distinct_cookies(s.filter(p)),
    decreases s.len(),
{
    reveal(Seq::filter);
    if s.len() > 0 {
        let q = s.drop_last();
        assert forall|i: int, j: int| 0 <= i < j < q.len() implies (#[trigger] q[i]).action.cookie
            != (#[trigger] q[j]).action.cookie by {
            assert(q[i] == s[i] && q[j] == s[j]);
        }
        lemma_filter_distinct(q, p);
        let u = q.filter(p);
        let t = s.filter(p);
        assert forall|i: int, j: int| 0 <= i < j < t.len() implies (#[trigger] t[i]).action.cookie
            != (#[trigger] t[j]).action.cookie by {
            assert(t[i] == u[i]);
            if j < u.len() {
                assert(t[j] == u[j]);
            } else {
                assert(u.contains(u[i]));
                q.lemma_filter_contains_rev(p, u[i]);
                let a = choose|a: int| 0 <= a < q.len() && q[a] == u[i];
                assert(s[a] == t[i]);
                assert(s[s.len() - 1] == t[j]);
            }
        }
    }
}

/// A listing is as long as there are records.
pub proof fn lemma_lists_len(s: Seq<ActionRecordView>, m: Records)
    requires
        lists(s, m),
    ensures
        m.dom().finite(),
        m.len() == s.len(),
{
    let keys = s.map_values(|r: ActionRecordView| r.action.cookie.0);
    assert(keys.no_duplicates()) by {
        assert forall|i: int, j: int| 0 <= i < keys.len() && 0 <= j < keys.len() && i != j implies keys[i]
            != keys[j] by {
            if i < j {
                assert(s[i].action.cookie != s[j].action.cookie);
            } else {
                assert(s[j].action.cookie != s[i].action.cookie);
            }
        }
    }
    assert(keys.to_set() =~= m.dom()) by {
        assert forall|k: u64| #[trigger] keys.to_set().contains(k) implies m.dom().contains(k) by {
            let i = choose|i: int| 0 <= i < keys.len() && keys[i] == k;
            assert(m.contains_key(s[i].action.cookie.0));
        }
        assert forall|k: u64| #[trigger] m.dom().contains(k) implies keys.to_set().contains(k) by {
            let i = choose|i: int| 0 <= i < s.len() && (#[trigger] s[i]).action.cookie.0 == k;
            assert(keys[i] == k);
        }
    }
    keys.unique_seq_to_set();
    vstd::seq_lib::seq_to_set_is_finite(keys);
}

// ---------------------------------------------------------------------------
// Laws
// ---------------------------------------------------------------------------

/// Operations keep every record under its own cookie.
pub proof fn lemma_apply_keyed(m: Records, op: StoreOp)
    requires
        keyed(m),
    ensures
        keyed(apply(m, op)),
{
}

/// A known cookie is never overwritten: inserting under it is refused and
/// changes nothing.
pub proof fn lemma_insert_unique(m: Records, rec: ActionRecordView)
    requires
        m.contains_key(rec.action.cookie.0),
    ensures
        refusal(m, StoreOp::Insert { rec }) == Some(
            StoreErrorView::DuplicateCookie(rec.action.cookie),
        ),
        apply(m, StoreOp::Insert { rec }) == m,
{
}

/// A record that was inserted is what is found under its cookie.
pub proof fn lemma_insert_then_get(m: Records, rec: ActionRecordView)
    requires
        !m.contains_key(rec.action.cookie.0),
    ensures
        apply(m, StoreOp::Insert { rec }).contains_key(rec.action.cookie.0),
        apply(m, StoreOp::Insert { rec })[rec.action.cookie.0] == rec,
{
}

/// Deleting twice is deleting once, and a deleted cookie is unknown.
pub proof fn lemma_delete_idempotent(m: Records, cookie: u64)
    ensures
        refusal(m, StoreOp::Delete { cookie }) is None,
        !apply(m, StoreOp::Delete { cookie }).contains_key(cookie),
        apply(apply(m, StoreOp::Delete { cookie }), StoreOp::Delete { cookie }) == apply(
            m,
            StoreOp::Delete { cookie },
        ),
{
    let d = apply(m, StoreOp::Delete { cookie });
    assert(d.remove(cookie) =~= d);
}

/// An operation under one cookie leaves every other record alone.
pub proof fn lemma_apply_frame(m: Records, op: StoreOp, k: u64)
    requires
        match op {
            StoreOp::Insert { rec } => rec.action.cookie.0 != k,
            StoreOp::Transition { cookie, .. } => cookie != k,
            StoreOp::Progress { cookie, .. } => cookie != k,
            StoreOp::Delete { cookie } => cookie != k,
        },
    ensures
        apply(m, op).contains_key(k) == m.contains_key(k),
        m.contains_key(k) ==> apply(m, op)[k] == m[k],
{
}

/// Over any sequence of operations that does not delete it, a record stays;
/// its action and creation time never change, its progress never goes backwards,
/// and once it has finished its state never changes.
pub proof fn lemma_history(m: Records, ops: Seq<StoreOp>, k: u64)
    requires
        m.contains_key(k),
        forall|i: int| 0 <= i < ops.len() ==> #[trigger] ops[i] != (StoreOp::Delete { cookie: k }),
    ensures
        run(m, ops).contains_key(k),
        run(m, ops)[k].action == m[k].action,
        run(m, ops)[k].created_at == m[k].created_at,
        run(m, ops)[k].progress.offset >= m[k].progress.offset,
        m[k].state.terminal() ==> run(m, ops)[k].state == m[k].state,
    decreases ops.len(),
{
    if ops.len() > 0 {
        let n = apply(m, ops[0]);
        assert(n.contains_key(k));
        assert(n[k].action == m[k].action);
        assert(m[k].state.terminal() ==> n[k].state == m[k].state);
        let rest = ops.drop_first();
        assert forall|i: int| 0 <= i < rest.len() implies #[trigger] rest[i] != (StoreOp::Delete {
            cookie: k,
        }) by {
            assert(rest[i] == ops[i + 1]);
        }
        lemma_history(n, rest, k);
    }
}

} // verus!
