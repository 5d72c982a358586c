//! What the operator is told: each row and each number stands for what is there.

use crate::daemon::agent::ActionStatus;
use crate::daemon::control;
use crate::daemon::control::{
    agent_to_proto, encode_kind, encode_state, list_actions, list_agents, record_to_proto, status,
    ControlError, LIST_ACTIONS_LIMIT,
};
use crate::daemon::dispatch::{claim, Claim, DispatchPlan};
use crate::daemon::mock_actions;
use crate::daemon::pending::PendingPaths;
use crate::daemon::status::{apply_status, StatusEffect};
use crate::daemon::xattr_store::XattrResult;
use crate::laws::dispatching;
use crate::laws::records;
use crate::laws::reports;
use crate::model::action::{ActionRecordView, ArStateView};
use crate::model::fid;
use crate::model::{ActionKind, ActionRecord, ArState, BackendObject, Fid, Timestamp};
use crate::proto::{CtlActionRecord, CtlAgentInfo, CtlStatusResponse};
use crate::scheduler::agent;
use crate::scheduler::agent::{AgentInfo, AgentRegistry};
use crate::store::action_store;
use crate::store::action_store::ActionStore;
use crate::store::row;
use vstd::prelude::*;

verus! {

// ---------------------------------------------------------------------------
// Rows
// ---------------------------------------------------------------------------

/// The word for a state.
pub open spec fn word_for(s: ArStateView, word: Seq<char>) -> bool {
    match s {
        ArStateView::Waiting => word == "waiting"@,
        ArStateView::Started { .. } => word == "started"@,
        ArStateView::Succeed { .. } => word == "succeed"@,
        ArStateView::Failed { .. } => word == "failed"@,
        ArStateView::Canceled => word == "canceled"@,
    }
}

/// A row tells of a record: its cookie and archive as they are, a FID and a kind that
/// are read back as the record's own, the word for its state, the bytes of its
/// progress, and, of a started action, the agent that runs it and since when.
pub open spec fn tells_of(row: CtlActionRecord, rec: ActionRecordView) -> bool {
    &&& row.cookie == rec.action.cookie.0
    &&& row.archive_id == rec.action.archive_id.0
    &&& fid::parse_fid(row.fid@) == Ok::<Fid, fid::FidParseErrorView>(rec.action.fid)
    &&& row.fid@.len() > 0 && row.fid@[0] == '[' && row.fid@.last() == ']'
    &&& mock_actions::named_kind(row.kind@) == Some(rec.action.kind)
    &&& word_for(rec.state, row.state@)
    &&& row.progress == rec.progress.offset
    &&& match rec.state {
        ArStateView::Started { agent, since_unix_ms } => {
            &&& row.agent_id@ == agent
            &&& since_unix_ms <= i64::MAX ==> row.since_ms == since_unix_ms
            &&& since_unix_ms > i64::MAX ==> row.since_ms == since_unix_ms - 0x1_0000_0000_0000_0000
        },
        _ => row.agent_id@.len() == 0 && row.since_ms == 0,
    }
}

/// The names of the kinds differ.
proof fn lemma_kind_words(k: ActionKind)
    ensures
        mock_actions::named_kind(control::kind_name(k)) == Some(k),
{
    reveal_strlit("archive");
    reveal_strlit("restore");
    reveal_strlit("remove");
    reveal_strlit("cancel");
    assert("archive"@[0] == 'a' && "restore"@[0] == 'r' && "remove"@[0] == 'r' && "cancel"@[0]
        == 'c');
    assert("restore"@[2] == 's' && "remove"@[2] == 'm');
}

/// From the model of a row to what the row tells.
proof fn lemma_row_tells(row: CtlActionRecord, rec: ActionRecordView)
    requires
        row@ == control::listed(rec),
    ensures
        tells_of(row, rec),
{
    lemma_kind_words(rec.action.kind);
    fid::lemma_fid_text_round_trip(rec.action.fid);
    reveal_strlit("[");
    reveal_strlit("]");
}

/// A row of the listing tells of its record.
pub proof fn lemma_row_call(rec: &ActionRecord, row: CtlActionRecord)
    requires
        call_ensures(record_to_proto, (rec,), row),
    ensures
        tells_of(row, rec@),
{
    lemma_row_tells(row, rec@);
}

/// The word for a kind is read back as that kind, and no two kinds share a word.
pub proof fn lemma_kind_word_call(k: ActionKind, j: ActionKind, a: &'static str, b: &'static str)
    requires
        call_ensures(encode_kind, (k,), a),
        call_ensures(encode_kind, (j,), b),
    ensures
        mock_actions::named_kind(a@) == Some(k),
        a@ == b@ ==> k == j,
{
    lemma_kind_words(k);
    lemma_kind_words(j);
}

/// What is shown of a state: its word, and of a started action the agent and the
/// start.
pub proof fn lemma_state_word_call(s: &ArState, r: (&'static str, String, i64))
    requires
        call_ensures(encode_state, (s,), r),
    ensures
        word_for(s@, r.0@),
        match s@ {
            ArStateView::Started { agent, since_unix_ms } => {
                &&& r.1@ == agent
                &&& since_unix_ms <= i64::MAX ==> r.2 == since_unix_ms
            },
            _ => r.1@.len() == 0 && r.2 == 0,
        },
{
}

// ---------------------------------------------------------------------------
// Listings
// ---------------------------------------------------------------------------

/// A record that a filter lets through: it is of that archive, and in the state of
/// that word. An empty word and archive 0 let everything through.
pub open spec fn let_through(rec: ActionRecordView, word: Seq<char>, archive: u32) -> bool {
    &&& archive != 0 ==> rec.action.archive_id.0 == archive
    &&& word.len() > 0 ==> word_for(rec.state, word)
}

/// A listing shows records that are there and that the filters let through, each
/// once, and at most as many as are shown at once. If it shows fewer than that, it
/// shows all of them. A filter that is no word for a state is refused.
pub proof fn lemma_list_actions_call<S: ActionStore>(
    store: &S,
    filter: &str,
    archive: u32,
    r: Result<Vec<CtlActionRecord>, ControlError>,
)
    requires
        call_ensures(list_actions::<S>, (store, filter, archive), r),
    ensures
        ({
            let word = action_store::lowercase(filter@);
            let m = store.records();
            let known = word.len() == 0 || word == "waiting"@ || word == "started"@ || word
                == "succeed"@ || word == "failed"@ || word == "canceled"@;
            &&& r is Err && r->Err_0 is InvalidArgument <==> !known
            &&& known && store.reliable() ==> r is Ok
            &&& r matches Ok(rows) ==> {
                &&& rows@.len() <= 10_000
                &&& forall|i: int|
                    0 <= i < rows@.len() ==> {
                        let k = (#[trigger] rows@[i]).cookie;
                        &&& m.contains_key(k)
                        &&& tells_of(rows@[i], m[k])
                        &&& let_through(m[k], word, archive)
                    }
                &&& forall|i: int, j: int|
                    0 <= i < j < rows@.len() ==> (#[trigger] rows@[i]).cookie != (
                    #[trigger] rows@[j]).cookie
                &&& rows@.len() < 10_000 ==> forall|k: u64| #[trigger]
                    m.contains_key(k) && let_through(m[k], word, archive) ==> exists|i: int|
                        0 <= i < rows@.len() && (#[trigger] rows@[i]).cookie == k
            }
        }),
{
    let word = action_store::lowercase(filter@);
    let m = store.records();
    if r is Ok {
        let rows = r->Ok_0@;
        let p = action_store::passes(
            control::state_filter_of(word),
            control::archive_filter_of(archive),
        );
        let all = choose|all: Seq<ActionRecordView>| #[trigger]
            action_store::lists(all, m) && control::ctl_views(rows) == action_store::first(
                all.filter(p),
                LIST_ACTIONS_LIMIT as int,
            ).map_values(|x: ActionRecordView| control::listed(x));
        let f = all.filter(p);
        let shown = action_store::first(f, LIST_ACTIONS_LIMIT as int);
        action_store::lemma_lists_selected(all, m, p);
        let sel = action_store::selected(m, p);
        assert(control::ctl_views(rows).len() == shown.len());
        action_store::lemma_state_names_distinct();
        assert forall|i: int| 0 <= i < rows.len() implies {
            let k = (#[trigger] rows[i]).cookie;
            &&& m.contains_key(k)
            &&& tells_of(rows[i], m[k])
            &&& let_through(m[k], word, archive)
            &&& shown[i] == m[k]
            &&& f[i] == m[k]
        } by {
            assert(control::ctl_views(rows)[i] == rows[i]@);
            assert(rows[i]@ == control::listed(shown[i]));
            assert(shown[i] == f[i]);
            assert(sel.contains_key(f[i].action.cookie.0));
            lemma_row_tells(rows[i], shown[i]);
        }
        assert forall|i: int, j: int| 0 <= i < j < rows.len() implies (#[trigger] rows[i]).cookie
            != (#[trigger] rows[j]).cookie by {
            assert(f[i].action.cookie != f[j].action.cookie);
        }
        if rows.len() < 10_000 {
            assert(shown == f);
            assert forall|k: u64| #[trigger]
                m.contains_key(k) && let_through(m[k], word, archive) implies exists|i: int|
                0 <= i < rows.len() && (#[trigger] rows[i]).cookie == k by {
                assert(p(m[k]));
                assert(sel.contains_key(k));
                let i = choose|i: int| 0 <= i < f.len() && (#[trigger] f[i]).action.cookie.0 == k;
                assert(control::ctl_views(rows)[i] == rows[i]@);
                assert(rows[i]@ == control::listed(shown[i]));
            }
        }
    }
}

/// Progress that was accepted is what the listing shows: the row of the action shows
/// the bytes that its mover reported.
pub proof fn lemma_progress_is_shown<S: ActionStore>(
    store: &mut S,
    pending: &mut PendingPaths,
    report: ActionStatus,
    notify: bool,
    effect: StatusEffect,
    after: &S,
    filter: &str,
    archive: u32,
    r: Result<Vec<CtlActionRecord>, ControlError>,
    i: int,
)
    requires
        call_ensures(apply_status::<S>, (store, pending, report, notify, false, false), effect),
        report@ is Progress,
        effect.stored is Ok,
        *after == *final(store),
        call_ensures(list_actions::<S>, (after, filter, archive), r),
        r is Ok,
        0 <= i < r->Ok_0@.len(),
        r->Ok_0@[i].cookie == report@->Progress_cookie.0,
    ensures
        r->Ok_0@[i].progress == report@->bytes_advanced,
{
    reports::lemma_progress_is_recorded(store, pending, report, notify, false, false, effect);
    lemma_list_actions_call(after, filter, archive, r);
}

/// A claim is what the listing shows: the row of the action is started, on the agent
/// that claimed it, since then to the millisecond.
pub proof fn lemma_claim_is_shown<S: ActionStore>(
    store: &mut S,
    pending: &mut PendingPaths,
    plan: DispatchPlan,
    found: XattrResult<Option<BackendObject>>,
    notify: bool,
    now: Timestamp,
    claimed: Claim,
    after: &S,
    filter: &str,
    archive: u32,
    r: Result<Vec<CtlActionRecord>, ControlError>,
    i: int,
)
    requires
        call_ensures(claim::<S>, (store, pending, plan, found, notify, now), claimed),
        claimed is Ready,
        *after == *final(store),
        call_ensures(list_actions::<S>, (after, filter, archive), r),
        r is Ok,
        0 <= i < r->Ok_0@.len(),
        r->Ok_0@[i].cookie == plan.action.cookie.0,
    ensures
        r->Ok_0@[i].state@ == "started"@,
        r->Ok_0@[i].agent_id@ == plan.agent@,
        0 <= now.nanos <= i64::MAX * 1_000_000 ==> {
            let ms = r->Ok_0@[i].since_ms;
            ms * 1_000_000 <= now.nanos < (ms + 1) * 1_000_000
        },
{
    dispatching::lemma_claimed_is_started(store, pending, plan, found, notify, now, claimed, 0);
    lemma_list_actions_call(after, filter, archive, r);
}

/// The end of an action is what the listing shows: succeeded if the mover finished and
/// its object was recorded, failed otherwise; and no agent runs it any more.
pub proof fn lemma_end_is_shown<S: ActionStore>(
    store: &mut S,
    pending: &mut PendingPaths,
    report: ActionStatus,
    notify: bool,
    write_failed: bool,
    effect: StatusEffect,
    after: &S,
    filter: &str,
    archive: u32,
    r: Result<Vec<CtlActionRecord>, ControlError>,
    i: int,
)
    requires
        call_ensures(
            apply_status::<S>,
            (store, pending, report, notify, write_failed, false),
            effect,
        ),
        !(report@ is Progress),
        effect.stored is Ok,
        *after == *final(store),
        call_ensures(list_actions::<S>, (after, filter, archive), r),
        r is Ok,
        0 <= i < r->Ok_0@.len(),
        r->Ok_0@[i].cookie == report@.cookie().0,
    ensures
        r->Ok_0@[i].agent_id@.len() == 0,
        report@ is Completed && !write_failed ==> r->Ok_0@[i].state@ == "succeed"@,
        report@ is Failed || write_failed ==> r->Ok_0@[i].state@ == "failed"@,
{
    lemma_list_actions_call(after, filter, archive, r);
    if report@ is Completed {
        if write_failed {
            reports::lemma_unrecorded_is_failure(store, pending, report, notify, false, effect);
        } else {
            reports::lemma_completed_is_success(store, pending, report, notify, false, effect);
        }
    } else {
        reports::lemma_failed_is_failure(
            store,
            pending,
            report,
            notify,
            write_failed,
            false,
            effect,
        );
    }
}

// ---------------------------------------------------------------------------
// Agents and counts
// ---------------------------------------------------------------------------

/// What is shown of an agent: its id, each of its archives once and no other, and the
/// second in which it came.
pub open spec fn shows_agent(c: CtlAgentInfo, a: agent::AgentInfoView) -> bool {
    &&& c.agent_id@ == a.id
    &&& forall|x: u32| #[trigger] c.archive_ids@.contains(x) <==> a.archives.contains(x)
    &&& forall|i: int, j: int|
        0 <= i < j < c.archive_ids@.len() ==> #[trigger] c.archive_ids@[i]
            != #[trigger] c.archive_ids@[j]
    &&& a.since.nanos < 0 ==> c.registered_at_secs == 0
    &&& 0 <= a.since.nanos < (i64::MAX + 1) * 1_000_000_000 ==> c.registered_at_secs * 1_000_000_000
        <= a.since.nanos < (c.registered_at_secs + 1) * 1_000_000_000
}

/// From the description of an agent to what it shows.
proof fn lemma_shows_agent(c: CtlAgentInfo, a: agent::AgentInfoView)
    requires
        control::describes(c, a),
    ensures
        shows_agent(c, a),
{
    assert forall|x: u32| #[trigger] c.archive_ids@.contains(x) <==> a.archives.contains(x) by {
        assert(c.archive_ids@.to_set().contains(x) <==> c.archive_ids@.contains(x));
    }
}

/// One agent is shown as it is registered.
pub proof fn lemma_agent_call(a: &AgentInfo, c: CtlAgentInfo)
    requires
        call_ensures(agent_to_proto, (a,), c),
    ensures
        shows_agent(c, a@),
{
    lemma_shows_agent(c, a@);
}

/// Every agent is shown, in the order of the registry, and nobody else is.
pub proof fn lemma_list_agents_call(registry: &AgentRegistry, r: Vec<CtlAgentInfo>, i: int)
    requires
        call_ensures(list_agents, (registry,), r),
    ensures
        r@.len() == registry@.len(),
        0 <= i < r@.len() ==> shows_agent(r@[i], registry@[i]),
{
    if 0 <= i < r@.len() {
        assert(control::describes(r@[i], registry@[i]));
        lemma_shows_agent(r@[i], registry@[i]);
    }
}

/// The three counts of a status are those of a full listing: the rows that wait, the
/// rows that are started, and all rows. The agents are those of the registry.
pub proof fn lemma_status_call<S: ActionStore>(
    store: &S,
    registry: &AgentRegistry,
    r: Result<CtlStatusResponse, ControlError>,
    all: Seq<ActionRecordView>,
    i: int,
)
    requires
        call_ensures(status::<S>, (store, registry), r),
        action_store::lists(all, store.records()),
    ensures
        store.reliable() ==> r is Ok,
        r matches Err(e) ==> e is Internal,
        r matches Ok(s) ==> {
            &&& s.actions_waiting == all.filter(|x: ActionRecordView| x.state is Waiting).len()
            &&& s.actions_started == all.filter(|x: ActionRecordView| x.state is Started).len()
            &&& s.actions_total == all.len()
            &&& s.agents@.len() == registry@.len()
            &&& 0 <= i < s.agents@.len() ==> shows_agent(s.agents@[i], registry@[i])
        },
{
    let m = store.records();
    action_store::lemma_lists_len(all, m);
    action_store::lemma_lists_selected(all, m, action_store::waiting());
    action_store::lemma_lists_selected(all, m, action_store::started());
    action_store::lemma_lists_len(
        all.filter(action_store::waiting()),
        action_store::selected(m, action_store::waiting()),
    );
    action_store::lemma_lists_len(
        all.filter(action_store::started()),
        action_store::selected(m, action_store::started()),
    );
    let w = |x: ActionRecordView| x.state is Waiting;
    let t = |x: ActionRecordView| x.state is Started;
    assert(w =~= action_store::waiting());
    assert(t =~= action_store::started());
    if r is Ok && 0 <= i < r->Ok_0.agents@.len() {
        assert(control::describes(r->Ok_0.agents@[i], registry@[i]));
        lemma_shows_agent(r->Ok_0.agents@[i], registry@[i]);
    }
}

} // verus!
