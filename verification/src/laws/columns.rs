//! Tables: a store kept in rows answers as any other store does.

use crate::model::action::{ActionRecordView, ArStateView};
use crate::model::{ActionKind, ActionRecord, ArState, Cookie, Extent, Timestamp};
use crate::store::action_store;
use crate::store::action_store::{
    count_records, filter_records, record_passes, Records, StoreOp,
};
use crate::store::error::{StoreError, StoreErrorView, StoreResult};
use crate::store::row;
use crate::store::row::{
    build_query_sql, decode_kind, decode_record, decode_state, encode_kind, encode_record,
    encode_state, from_nanos, insert_outcome, progress_outcome, stored_state_name, sum_counts,
    to_low32, to_nanos, to_signed, to_unsigned, transition_outcome, ActionRow, InsertAttempt,
    StateColumns,
};
use vstd::prelude::*;

verus! {

// ---------------------------------------------------------------------------
// Numbers
// ---------------------------------------------------------------------------

/// A number keeps its value in its column as far as the column's range goes, and is
/// short by the size of the range beyond; either way it is read back.
pub proof fn lemma_column_number(x: u64, v: i64, back: u64)
    requires
        call_ensures(to_signed, (x,), v),
        call_ensures(to_unsigned, (v,), back),
    ensures
        back == x,
        x <= i64::MAX ==> v == x,
        x > i64::MAX ==> v == x - 0x1_0000_0000_0000_0000,
{
}

/// Every column value is read as the number it was written from.
pub proof fn lemma_column_value(v: i64, x: u64, again: i64)
    requires
        call_ensures(to_unsigned, (v,), x),
        call_ensures(to_signed, (x,), again),
    ensures
        again == v,
{
}

/// Of a column value that should hold 32 bits, the rest is dropped.
pub proof fn lemma_column_low(v: i64, x: u32)
    requires
        call_ensures(to_low32, (v,), x),
    ensures
        0 <= v <= u32::MAX ==> x == v,
        exists|k: int| v == #[trigger] (k * 0x1_0000_0000) + x,
{
    let k = v as int / 0x1_0000_0000;
    assert(v == k * 0x1_0000_0000 + x);
}

/// A time is read back from its column if it is from the epoch on and fits; times
/// before the epoch are the epoch, and times that do not fit the last that does.
pub proof fn lemma_column_time(t: Timestamp, v: i64, back: Timestamp)
    requires
        call_ensures(to_nanos, (t,), v),
        call_ensures(from_nanos, (v,), back),
    ensures
        0 <= t.nanos <= i64::MAX ==> back == t && v == t.nanos,
        t.nanos < 0 ==> back.nanos == 0,
        t.nanos > i64::MAX ==> back.nanos == i64::MAX,
{
}

/// A negative column value is the epoch.
pub proof fn lemma_negative_time(v: i64, t: Timestamp)
    requires
        call_ensures(from_nanos, (v,), t),
    ensures
        v < 0 ==> t.nanos == 0,
        v >= 0 ==> t.nanos == v,
{
}

// ---------------------------------------------------------------------------
// Names
// ---------------------------------------------------------------------------

/// A kind is read back from its name, and kinds have different names.
pub proof fn lemma_kind_column(
    k: ActionKind,
    j: ActionKind,
    name: &'static str,
    other: &'static str,
    back: StoreResult<ActionKind>,
)
    requires
        call_ensures(encode_kind, (k,), name),
        call_ensures(encode_kind, (j,), other),
        call_ensures(decode_kind, (name,), back),
    ensures
        back == Ok::<ActionKind, StoreError>(k),
        name@ == other@ ==> k == j,
{
    row::lemma_kind_round_trip(k);
    row::lemma_kind_round_trip(j);
}

/// A name that is read as a kind is the name of that kind; another is an error.
pub proof fn lemma_kind_of_name(
    name: &str,
    r: StoreResult<ActionKind>,
    own: &'static str,
)
    requires
        call_ensures(decode_kind, (name,), r),
        r is Ok ==> call_ensures(encode_kind, (r->Ok_0,), own),
    ensures
        r is Ok ==> own@ == name@,
        r matches Err(e) ==> e@ is Backend,
{
}

/// A state is read back from its columns, if its start fits.
pub proof fn lemma_state_columns(s: &ArState, c: StateColumns, back: StoreResult<ArState>)
    requires
        call_ensures(encode_state, (s,), c),
        call_ensures(decode_state, (&c,), back),
        s@ matches ArStateView::Started { since_unix_ms, .. } ==> since_unix_ms <= i64::MAX,
    ensures
        back is Ok,
        back->Ok_0@ == s@,
        c.agent_id is Some <==> s@ is Started,
        c.since_unix_ms is Some <==> s@ is Started,
        c.rc is Some <==> s@ is Succeed || s@ is Failed,
        s@ matches ArStateView::Started { agent, since_unix_ms } ==> c.agent_id->0@ == agent
            && c.since_unix_ms->0 == since_unix_ms,
        s@ matches ArStateView::Succeed { rc } ==> c.rc->0 == rc,
        s@ matches ArStateView::Failed { rc } ==> c.rc->0 == rc,
{
    row::lemma_state_round_trip(s@);
    assert(action_store::opt_text(c.agent_id) is Some <==> c.agent_id is Some);
}

/// Columns that say too little for their state, or name none, are an error; columns
/// that say enough are that state, whatever else they say.
pub proof fn lemma_state_of_columns(c: &StateColumns, r: StoreResult<ArState>)
    requires
        call_ensures(decode_state, (c,), r),
    ensures
        ({
            let n = c.state@;
            &&& n == "Waiting"@ ==> r is Ok && r->Ok_0@ is Waiting
            &&& n == "Started"@ ==> (r is Ok <==> c.agent_id is Some && c.since_unix_ms is Some)
            &&& n == "Started"@ && r is Ok ==> r->Ok_0@ is Started && r->Ok_0@->Started_agent
                == c.agent_id->0@ && (c.since_unix_ms->0 >= 0
                ==> r->Ok_0@->Started_since_unix_ms == c.since_unix_ms->0)
            &&& n == "Succeed"@ ==> (r is Ok <==> c.rc is Some)
            &&& n == "Succeed"@ && r is Ok ==> r->Ok_0@ == (ArStateView::Succeed { rc: c.rc->0 })
            &&& n == "Failed"@ ==> (r is Ok <==> c.rc is Some)
            &&& n == "Failed"@ && r is Ok ==> r->Ok_0@ == (ArStateView::Failed { rc: c.rc->0 })
            &&& n == "Canceled"@ ==> r is Ok && r->Ok_0@ is Canceled
            &&& n != "Waiting"@ && n != "Started"@ && n != "Succeed"@ && n != "Failed"@ && n
                != "Canceled"@ ==> r is Err
            &&& r matches Err(e) ==> e@ is Backend
        }),
{
    lemma_column_names_distinct();
    assert(action_store::opt_text(c.agent_id) is Some <==> c.agent_id is Some);
}

/// The names of the states in columns differ.
proof fn lemma_column_names_distinct()
    ensures
        "Waiting"@ != "Started"@,
        "Waiting"@ != "Succeed"@,
        "Waiting"@ != "Failed"@,
        "Waiting"@ != "Canceled"@,
        "Started"@ != "Succeed"@,
        "Started"@ != "Failed"@,
        "Started"@ != "Canceled"@,
        "Succeed"@ != "Failed"@,
        "Succeed"@ != "Canceled"@,
        "Failed"@ != "Canceled"@,
{
    reveal_strlit("Waiting");
    reveal_strlit("Started");
    reveal_strlit("Succeed");
    reveal_strlit("Failed");
    reveal_strlit("Canceled");
    assert("Waiting"@[0] == 'W' && "Started"@[0] == 'S' && "Succeed"@[0] == 'S');
    assert("Started"@[1] == 't' && "Succeed"@[1] == 'u' && "Failed"@[0] == 'F' && "Canceled"@[0]
        == 'C');
}

/// A record is read back from its row.
pub proof fn lemma_record_row(rec: &ActionRecord, w: ActionRow, back: StoreResult<ActionRecord>)
    requires
        call_ensures(encode_record, (rec,), w),
        call_ensures(decode_record, (&w,), back),
        0 <= rec.created_at.nanos <= i64::MAX,
        0 <= rec.updated_at.nanos <= i64::MAX,
        rec@.state matches ArStateView::Started { since_unix_ms, .. } ==> since_unix_ms <= i64::MAX,
    ensures
        back is Ok,
        back->Ok_0@ == rec@,
{
    row::lemma_row_round_trip(rec@);
}

/// The columns by which rows are found and guarded hold what they are named after.
pub proof fn lemma_row_columns(rec: &ActionRecord, w: ActionRow, c: StateColumns, key: i64, off: i64)
    requires
        call_ensures(encode_record, (rec,), w),
        call_ensures(encode_state, (&rec.state,), c),
        call_ensures(to_signed, (rec.action.cookie.0,), key),
        call_ensures(to_signed, (rec.progress.offset,), off),
    ensures
        w.cookie == key,
        w.prog_off == off,
        w.archive_id == rec.action.archive_id.0,
        w.state@ == c@,
        w.data@ == rec@.action.data,
{
}

// ---------------------------------------------------------------------------
// Outcomes
// ---------------------------------------------------------------------------

/// An insert into the table is answered as a store answers it: done if the cookie was
/// new, a known cookie if it was not, and the backend's words if it failed.
pub proof fn lemma_insert_answer(
    m: Records,
    rec: ActionRecordView,
    attempt: InsertAttempt,
    r: StoreResult<()>,
)
    requires
        call_ensures(insert_outcome, (rec.action.cookie, attempt), r),
        attempt is Inserted ==> !m.contains_key(rec.action.cookie.0),
        attempt is UniqueViolation ==> m.contains_key(rec.action.cookie.0),
    ensures
        !(attempt is Failed) ==> action_store::answers(
            r,
            action_store::refusal(m, StoreOp::Insert { rec }),
        ),
        attempt matches InsertAttempt::Failed(words) ==> r is Err && r->Err_0@
            == StoreErrorView::Backend(words@),
        attempt is Inserted <==> r is Ok,
{
}

/// A guarded state change is answered as a store answers it: done if the row was
/// there and not over, the state it is in if it was over, and an unknown cookie if it
/// was not there.
pub proof fn lemma_transition_answer(
    m: Records,
    cookie: Cookie,
    new: ArStateView,
    now: Timestamp,
    s: &ArState,
    found: Option<StateColumns>,
    affected: u64,
    r: StoreResult<()>,
)
    requires
        call_ensures(transition_outcome, (cookie, affected, found), r),
        affected == 1 <==> m.contains_key(cookie.0) && !m[cookie.0].state.terminal(),
        found is Some <==> m.contains_key(cookie.0),
        found is Some ==> m[cookie.0].state == s@ && call_ensures(encode_state, (s,), found->0),
    ensures
        action_store::answers(
            r,
            action_store::refusal(m, StoreOp::Transition { cookie: cookie.0, new, now }),
        ),
        r is Ok <==> affected == 1,
{
    assert(Cookie(cookie.0) == cookie);
    if found is Some {
        if s@.terminal() {
            row::lemma_state_round_trip(s@);
        }
    }
}

/// A guarded progress update is answered as a store answers it.
pub proof fn lemma_progress_answer(
    m: Records,
    cookie: Cookie,
    got: Extent,
    now: Timestamp,
    off: i64,
    len: i64,
    affected: u64,
    found: Option<(i64, i64)>,
    r: StoreResult<()>,
)
    requires
        call_ensures(progress_outcome, (cookie, got, affected, found), r),
        affected == 1 <==> m.contains_key(cookie.0) && m[cookie.0].progress.offset <= got.offset,
        found is Some <==> m.contains_key(cookie.0),
        found is Some ==> found->0 == (off, len) && call_ensures(
            to_signed,
            (m[cookie.0].progress.offset,),
            off,
        ) && call_ensures(to_signed, (m[cookie.0].progress.length,), len),
    ensures
        action_store::answers(
            r,
            action_store::refusal(m, StoreOp::Progress { cookie: cookie.0, extent: got, now }),
        ),
        r is Ok <==> affected == 1,
{
    assert(Cookie(cookie.0) == cookie);
    if found is Some {
        row::lemma_signed_round_trip(m[cookie.0].progress.offset);
        row::lemma_signed_round_trip(m[cookie.0].progress.length);
    }
}

/// The listing statement asks for a state and for an archive exactly if it is to, in
/// that order, and always for a limit.
pub proof fn lemma_statement(state: bool, archive: bool, r: String)
    requires
        call_ensures(build_query_sql, (state, archive), r),
    ensures
        !state && !archive ==> r@ == "SELECT * FROM actions WHERE 1=1 LIMIT ?"@,
        state && !archive ==> r@ == "SELECT * FROM actions WHERE 1=1 AND state = ? LIMIT ?"@,
        !state && archive ==> r@ == "SELECT * FROM actions WHERE 1=1 AND archive_id = ? LIMIT ?"@,
        state && archive ==> r@
            == "SELECT * FROM actions WHERE 1=1 AND state = ? AND archive_id = ? LIMIT ?"@,
{
    reveal_strlit("SELECT * FROM actions WHERE 1=1");
    reveal_strlit(" AND state = ?");
    reveal_strlit(" AND archive_id = ?");
    reveal_strlit(" LIMIT ?");
    if !state && !archive {
        reveal_strlit("SELECT * FROM actions WHERE 1=1 LIMIT ?");
        assert(r@ =~= "SELECT * FROM actions WHERE 1=1 LIMIT ?"@);
    } else if state && !archive {
        reveal_strlit("SELECT * FROM actions WHERE 1=1 AND state = ? LIMIT ?");
        assert(r@ =~= "SELECT * FROM actions WHERE 1=1 AND state = ? LIMIT ?"@);
    } else if !state && archive {
        reveal_strlit("SELECT * FROM actions WHERE 1=1 AND archive_id = ? LIMIT ?");
        assert(r@ =~= "SELECT * FROM actions WHERE 1=1 AND archive_id = ? LIMIT ?"@);
    } else {
        reveal_strlit(
            "SELECT * FROM actions WHERE 1=1 AND state = ? AND archive_id = ? LIMIT ?",
        );
        assert(r@
            =~= "SELECT * FROM actions WHERE 1=1 AND state = ? AND archive_id = ? LIMIT ?"@);
    }
}

/// Asking the table for a state by its word finds exactly the rows in that state.
pub proof fn lemma_state_is_found_by_word(
    s: &ArState,
    t: &ArState,
    c: StateColumns,
    word: &str,
    name: String,
)
    requires
        call_ensures(encode_state, (t,), c),
        word@ == action_store::state_name(s@),
        call_ensures(stored_state_name, (word,), name),
    ensures
        name@ == c.state@ <==> action_store::state_name(t@) == word@,
{
    row::lemma_stored_state(s@);
    row::lemma_stored_state(t@);
    lemma_column_names_distinct();
    action_store::lemma_state_names_distinct();
}

/// A word that is no state's stands for itself.
pub proof fn lemma_other_words(word: &str, name: String)
    requires
        call_ensures(stored_state_name, (word,), name),
        !action_store::is_state_name(word@),
    ensures
        name@ == word@,
{
}

/// Counts per state add up: the count of a group goes to its own state and to the
/// total, and to nothing else.
pub proof fn lemma_counts_add_up(
    groups: &Vec<(String, i64)>,
    more: &Vec<(String, i64)>,
    r: (u64, u64, u64),
    s: (u64, u64, u64),
)
    requires
        call_ensures(sum_counts, (groups,), r),
        call_ensures(sum_counts, (more,), s),
        more@.len() == groups@.len() + 1,
        more@.drop_last() == groups@,
        more@.last().1 >= 0,
    ensures
        ({
            let n = more@.last().1;
            let name = more@.last().0@;
            &&& s.2 == r.2 + n
            &&& s.0 == r.0 + (if name == "Waiting"@ {
                n as int
            } else {
                0
            })
            &&& s.1 == r.1 + (if name == "Started"@ {
                n as int
            } else {
                0
            })
        }),
{
}

/// Of no groups, nothing is counted.
pub proof fn lemma_counts_of_nothing(groups: &Vec<(String, i64)>, r: (u64, u64, u64))
    requires
        call_ensures(sum_counts, (groups,), r),
        groups@.len() == 0,
    ensures
        r.0 == 0 && r.1 == 0 && r.2 == 0,
{
}

// ---------------------------------------------------------------------------
// Filters
// ---------------------------------------------------------------------------

/// A record passes exactly if it is of the archive that is asked for and in the state
/// whose word is asked for; a word that is no state's lets every state pass.
pub proof fn lemma_record_passes(
    rec: &ActionRecord,
    state: &Option<String>,
    archive: Option<u32>,
    b: bool,
)
    requires
        call_ensures(record_passes, (rec, state, archive), b),
    ensures
        b <==> (archive is Some ==> rec.action.archive_id.0 == archive->0) && (state is Some ==> {
            let w = state->0@;
            &&& w == "waiting"@ ==> rec@.state is Waiting
            &&& w == "started"@ ==> rec@.state is Started
            &&& w == "succeed"@ ==> rec@.state is Succeed
            &&& w == "failed"@ ==> rec@.state is Failed
            &&& w == "canceled"@ ==> rec@.state is Canceled
        }),
{
    action_store::lemma_state_names_distinct();
}

/// Filtering keeps the records that pass, in their order, up to the limit.
pub proof fn lemma_filter_records(
    all: Vec<ActionRecord>,
    state: &Option<String>,
    archive: Option<u32>,
    limit: usize,
    r: Vec<ActionRecord>,
    i: int,
    passed: bool,
)
    requires
        call_ensures(filter_records, (all, state, archive, limit), r),
        0 <= i < r@.len() ==> call_ensures(record_passes, (&r@[i], state, archive), passed),
    ensures
        r@.len() <= limit,
        r@.len() <= all@.len(),
        0 <= i < r@.len() ==> passed,
        0 <= i < r@.len() ==> exists|j: int| 0 <= j < all@.len() && (#[trigger] all@[j])@ == r@[i]@,
{
    let p = action_store::passes(action_store::opt_text(*state), archive);
    let s = action_store::record_views(all@);
    let f = s.filter(p);
    assert(s.len() == all@.len());
    assert(action_store::record_views(r@).len() == r@.len());
    s.lemma_filter_len(p);
    if 0 <= i < r@.len() {
        assert(action_store::record_views(r@)[i] == r@[i]@);
        assert(r@[i]@ == f[i]);
        s.lemma_filter_pred(p, i);
        assert(f.contains(f[i]));
        s.lemma_filter_contains_rev(p, f[i]);
        let j = choose|j: int| 0 <= j < s.len() && s[j] == f[i];
        assert(all@[j]@ == s[j]);
    }
}

/// With room for all, everything that passes is kept.
pub proof fn lemma_filter_keeps_all(
    all: Vec<ActionRecord>,
    state: &Option<String>,
    archive: Option<u32>,
    limit: usize,
    r: Vec<ActionRecord>,
    j: int,
    passed: bool,
)
    requires
        call_ensures(filter_records, (all, state, archive, limit), r),
        limit >= all@.len(),
        0 <= j < all@.len(),
        call_ensures(record_passes, (&all@[j], state, archive), passed),
        passed,
    ensures
        exists|i: int| 0 <= i < r@.len() && (#[trigger] r@[i])@ == all@[j]@,
{
    let p = action_store::passes(action_store::opt_text(*state), archive);
    let s = action_store::record_views(all@);
    let f = s.filter(p);
    s.lemma_filter_len(p);
    assert(s[j] == all@[j]@);
    s.lemma_filter_contains(p, j);
    let i = choose|i: int| 0 <= i < f.len() && f[i] == s[j];
    assert(action_store::record_views(r@)[i] == r@[i]@);
}

/// One more record adds to the total, and to the count of its state if it waits or
/// runs.
pub proof fn lemma_count_records(
    all: &Vec<ActionRecord>,
    more: &Vec<ActionRecord>,
    r: (u64, u64, u64),
    s: (u64, u64, u64),
)
    requires
        call_ensures(count_records, (all,), r),
        call_ensures(count_records, (more,), s),
        more@.len() == all@.len() + 1,
        more@.drop_last() == all@,
    ensures
        s.2 == r.2 + 1,
        s.0 == r.0 + (if more@.last()@.state is Waiting {
            1int
        } else {
            0
        }),
        s.1 == r.1 + (if more@.last()@.state is Started {
            1int
        } else {
            0
        }),
{
    let a = action_store::record_views(all@);
    let b = action_store::record_views(more@);
    assert(b.drop_last() =~= a);
    assert(b.last() == more@.last()@);
    reveal(Seq::filter);
}

/// Of no records, nothing is counted.
pub proof fn lemma_count_nothing(all: &Vec<ActionRecord>, r: (u64, u64, u64))
    requires
        call_ensures(count_records, (all,), r),
        all@.len() == 0,
    ensures
        r.0 == 0 && r.1 == 0 && r.2 == 0,
{
    reveal(Seq::filter);
}

/// A row is a record exactly if its kind and its state can be read; if not, the answer is
/// that of the kind, or else that of the state.
pub proof fn lemma_row_refused(
    w: &ActionRow,
    word: &str,
    r: StoreResult<ActionRecord>,
    k: StoreResult<ActionKind>,
    s: StoreResult<ArState>,
)
    requires
        call_ensures(decode_record, (w,), r),
        word@ == w.kind@,
        call_ensures(decode_kind, (word,), k),
        call_ensures(decode_state, (&w.state,), s),
    ensures
        r is Ok <==> k is Ok && s is Ok,
        r is Ok ==> r->Ok_0@.action.kind == k->Ok_0 && r->Ok_0@.state == s->Ok_0@,
        k is Err ==> r is Err && r->Err_0@ == k->Err_0@,
        k is Ok && s is Err ==> r is Err && r->Err_0@ == s->Err_0@,
{
}

} // verus!
