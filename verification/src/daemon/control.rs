//! What the daemon tells the control tool. Nothing here changes any state.

use crate::model::action::{ActionRecordView, ArStateView};
use crate::model::fid;
use crate::model::{ActionKind, ActionRecord, ArState, Timestamp};
use crate::proto::{CtlActionRecord, CtlActionView, CtlAgentInfo, CtlStatusResponse};
use crate::scheduler::agent;
use crate::scheduler::agent::{AgentInfo, AgentInfoView, AgentRegistry};
use crate::store::action_store;
use crate::store::action_store::ActionStore;
use crate::store::row;
use crate::text;
use vstd::prelude::*;

verus! {

/// The longest list of actions in one answer.
pub const LIST_ACTIONS_LIMIT: usize = 10_000;

/// Why a request is not answered.
#[derive(Debug, PartialEq, Eq)]
pub enum ControlError {
    /// The request makes no sense.
    InvalidArgument(String),
    /// The store failed.
    Internal(String),
}

/// Model of [`ControlError`].
#[verifier::ext_equal]
pub enum ControlErrorView {
    InvalidArgument(Seq<char>),
    Internal(Seq<char>),
}

impl View for ControlError {
    type V = ControlErrorView;

    open spec fn view(&self) -> ControlErrorView {
        match *self {
            ControlError::InvalidArgument(m) => ControlErrorView::InvalidArgument(m@),
            ControlError::Internal(m) => ControlErrorView::Internal(m@),
        }
    }
}

/// `e` says that the store's backend failed.
pub open spec fn store_failed(e: ControlError) -> bool {
    e@ matches ControlErrorView::Internal(m) && exists|what: Seq<char>|
        m == #[trigger] crate::store::error::StoreErrorView::Backend(what).message()
}

// ---------------------------------------------------------------------------
// Agents
// ---------------------------------------------------------------------------

/// Whole seconds since the epoch; 0 before it.
pub open spec fn unix_secs(t: Timestamp) -> i64 {
    let s: int = if t.nanos >= 0 {
        t.nanos as int / 1_000_000_000
    } else {
        0
    };
    if s > i64::MAX {
        i64::MAX
    } else {
        s as i64
    }
}

/// `c` describes the agent. Its archives come in no particular order.
pub open spec fn describes(c: CtlAgentInfo, a: AgentInfoView) -> bool {
    &&& c.agent_id@ == a.id
    &&& c.archive_ids@.no_duplicates()
    &&& c.archive_ids@.to_set() == a.archives
    &&& c.registered_at_secs == unix_secs(a.since)
}

/// `list` describes the agents, in order.
pub open spec fn describe_all(list: Seq<CtlAgentInfo>, agents: Seq<AgentInfoView>) -> bool {
    &&& list.len() == agents.len()
    &&& forall|i: int| 0 <= i < list.len() ==> describes(#[trigger] list[i], agents[i])
}

/// One agent for the control tool.
pub fn agent_to_proto(a: &AgentInfo) -> (r: CtlAgentInfo)
    ensures
        describes(r, a@),
{
    broadcast use vstd::std_specs::hash::group_hash_axioms;

    let mut ids: Vec<u32> = Vec::new();
    for k in it: a.archives.iter()
        invariant
            ids@ == it.seq().take(it.index()).unref(),
            it.seq().no_duplicates(),
            it.seq().unref().to_set() == a.archives@,
            it.seq().take(it.seq().len() as int) == it.seq(),
    {
        ids.push(*k);
        proof {
            let t = it.seq().take(it.index() + 1).unref();
            assert(t =~= it.seq().take(it.index()).unref().push(*k));
        }
    }
    let secs: u128 = a.since.since_epoch().nanos / 1_000_000_000;
    let registered_at_secs: i64 = if secs > i64::MAX as u128 {
        i64::MAX
    } else {
        secs as i64
    };
    CtlAgentInfo { agent_id: a.id.to_string(), archive_ids: ids, registered_at_secs }
}

/// The connected agents.
pub fn list_agents(registry: &AgentRegistry) -> (r: Vec<CtlAgentInfo>)
    ensures
        describe_all(r@, registry@),
{
    let agents = registry.snapshot();
    let mut out: Vec<CtlAgentInfo> = Vec::new();
    let mut i: usize = 0;
    while i < agents.len()
        invariant
            i <= agents@.len(),
            agent::info_views(agents@) == registry@,
            out@.len() == i,
            forall|j: int| 0 <= j < i ==> describes(#[trigger] out@[j], registry@[j]),
        decreases agents.len() - i,
    {
        proof {
            assert(registry@[i as int] == agents@[i as int]@);
        }
        out.push(agent_to_proto(&agents[i]));
        i = i + 1;
    }
    out
}

/// The daemon's health: how many actions wait, run and exist, and who is
/// connected.
pub fn status<S: ActionStore>(store: &S, registry: &AgentRegistry) -> (r: Result<
    CtlStatusResponse,
    ControlError,
>)
    requires
        action_store::keyed(store.records()),
    ensures
        match r {
            Ok(s) => {
                let m = store.records();
                &&& s.actions_waiting == action_store::selected(m, action_store::waiting()).len()
                &&& s.actions_started == action_store::selected(m, action_store::started()).len()
                &&& s.actions_total == m.len()
                &&& describe_all(s.agents@, registry@)
            },
            Err(e) => store_failed(e) && !store.reliable(),
        },
{
    match store.status_counts() {
        Ok((actions_waiting, actions_started, actions_total)) => Ok(
            CtlStatusResponse {
                actions_waiting,
                actions_started,
                actions_total,
                agents: list_agents(registry),
            },
        ),
        Err(e) => {
            let m = e.to_string();
            proof {
                assert(m@ == crate::store::error::StoreErrorView::Backend(e@->Backend_0).message());
            }
            Err(ControlError::Internal(m))
        },
    }
}

// ---------------------------------------------------------------------------
// Actions
// ---------------------------------------------------------------------------

/// Name of a kind.
pub open spec fn kind_name(k: ActionKind) -> Seq<char> {
    match k {
        ActionKind::Archive => "archive"@,
        ActionKind::Restore => "restore"@,
        ActionKind::Remove => "remove"@,
        ActionKind::Cancel => "cancel"@,
    }
}

/// Name of a kind.
pub fn encode_kind(k: ActionKind) -> (r: &'static str)
    ensures
        r@ == kind_name(k),
{
    match k {
        ActionKind::Archive => "archive",
        ActionKind::Restore => "restore",
        ActionKind::Remove => "remove",
        ActionKind::Cancel => "cancel",
    }
}

/// Name of a state, the agent that runs the action, and since when.
pub open spec fn state_fields(s: ArStateView) -> (Seq<char>, Seq<char>, i64) {
    match s {
        ArStateView::Started { agent, since_unix_ms } => (
            action_store::state_name(s),
            agent,
            row::signed(since_unix_ms),
        ),
        _ => (action_store::state_name(s), Seq::empty(), 0),
    }
}

/// Name of a state, the agent that runs the action, and since when.
pub fn encode_state(s: &ArState) -> (r: (&'static str, String, i64))
    ensures
        (r.0@, r.1@, r.2) == state_fields(s@),
{
    match s {
        ArState::Waiting => ("waiting", no_agent(), 0),
        ArState::Started { agent, since_unix_ms } => (
            "started",
            agent.to_string(),
            row::to_signed(*since_unix_ms),
        ),
        ArState::Succeed { .. } => ("succeed", no_agent(), 0),
        ArState::Failed { .. } => ("failed", no_agent(), 0),
        ArState::Canceled => ("canceled", no_agent(), 0),
    }
}

/// The empty text.
fn no_agent() -> (r: String)
    ensures
        r@ == Seq::<char>::empty(),
{
    let r = String::new();
    proof {
        assert(r@ =~= Seq::<char>::empty());
    }
    r
}

/// One action for the control tool.
pub open spec fn listed(r: ActionRecordView) -> CtlActionView {
    let (state, agent_id, since_ms) = state_fields(r.state);
    CtlActionView {
        cookie: r.action.cookie.0,
        fid: fid::fid_text(r.action.fid),
        archive_id: r.action.archive_id.0,
        kind: kind_name(r.action.kind),
        state,
        agent_id,
        progress: r.progress.offset,
        since_ms,
    }
}

/// One action for the control tool.
pub fn record_to_proto(r: &ActionRecord) -> (c: CtlActionRecord)
    ensures
        c@ == listed(r@),
{
    let (state, agent_id, since_ms): (&'static str, String, i64) = encode_state(&r.state);
    CtlActionRecord {
        cookie: r.action.cookie.0,
        fid: r.action.fid.to_string(),
        archive_id: r.action.archive_id.0,
        kind: encode_kind(r.action.kind).to_owned(),
        state: state.to_owned(),
        agent_id,
        progress: r.progress.offset,
        since_ms,
    }
}

/// The models of a list.
pub open spec fn ctl_views(v: Seq<CtlActionRecord>) -> Seq<CtlActionView> {
    v.map_values(|c: CtlActionRecord| c@)
}

/// A filter that names a state, in any case, or nothing.
pub open spec fn valid_filter(name: Seq<char>) -> bool {
    name.len() == 0 || action_store::is_state_name(name)
}

/// The state filter that is applied.
pub open spec fn state_filter_of(name: Seq<char>) -> Option<Seq<char>> {
    if name.len() == 0 {
        None
    } else {
        Some(name)
    }
}

/// The archive filter that is applied.
pub open spec fn archive_filter_of(archive: u32) -> Option<u32> {
    if archive == 0 {
        None
    } else {
        Some(archive)
    }
}

/// `true` if the name is that of a state, or nothing.
fn is_valid_filter(name: &str) -> (r: bool)
    ensures
        r == valid_filter(name@),
{
    name.is_empty() || text::same(name, "waiting") || text::same(name, "started") || text::same(
        name,
        "succeed",
    ) || text::same(name, "failed") || text::same(name, "canceled")
}

/// List actions. The state filter may be in any case and is empty for all; the
/// archive filter is 0 for all. At most [`LIST_ACTIONS_LIMIT`] actions are
/// listed.
pub fn list_actions<S: ActionStore>(store: &S, state_filter: &str, archive_id: u32) -> (r: Result<
    Vec<CtlActionRecord>,
    ControlError,
>)
    requires
        action_store::keyed(store.records()),
    ensures
        ({
            let name = action_store::lowercase(state_filter@);
            if !valid_filter(name) {
                r matches Err(e) && e@ == ControlErrorView::InvalidArgument(
                    "unknown state_filter "@ + text::debug_text(name)
                        + "; valid: waiting, started, succeed, failed, canceled"@,
                )
            } else {
                match r {
                    Ok(v) => exists|all: Seq<ActionRecordView>| #[trigger]
                        action_store::lists(all, store.records()) && ctl_views(v@)
                            == action_store::first(
                            all.filter(
                                action_store::passes(
                                    state_filter_of(name),
                                    archive_filter_of(archive_id),
                                ),
                            ),
                            LIST_ACTIONS_LIMIT as int,
                        ).map_values(|x: ActionRecordView| listed(x)),
                    Err(e) => store_failed(e) && !store.reliable(),
                }
            }
        }),
{
    let name = action_store::to_lowercase(state_filter);
    if !is_valid_filter(name.as_str()) {
        let mut m = "unknown state_filter ".to_owned();
        m.append(text::debug_string(name.as_str()).as_str());
        m.append("; valid: waiting, started, succeed, failed, canceled");
        return Err(ControlError::InvalidArgument(m));
    }
    let archive = if archive_id == 0 {
        None
    } else {
        Some(archive_id)
    };
    let state = if name.as_str().is_empty() {
        None
    } else {
        Some(state_filter)
    };
    match store.query_actions(state, archive, LIST_ACTIONS_LIMIT) {
        Ok(records) => {
            let mut out: Vec<CtlActionRecord> = Vec::new();
            let ghost views = action_store::record_views(records@);
            let mut i: usize = 0;
            while i < records.len()
                invariant
                    i <= records@.len(),
                    views == action_store::record_views(records@),
                    out@.len() == i,
                    forall|j: int| 0 <= j < i ==> (#[trigger] out@[j])@ == listed(views[j]),
                decreases records.len() - i,
            {
                out.push(record_to_proto(&records[i]));
                i = i + 1;
            }
            proof {
                assert(ctl_views(out@) =~= views.map_values(|x: ActionRecordView| listed(x)));
            }
            Ok(out)
        },
        Err(e) => {
            let m = e.to_string();
            proof {
                assert(m@ == crate::store::error::StoreErrorView::Backend(e@->Backend_0).message());
            }
            Err(ControlError::Internal(m))
        },
    }
}

// ---------------------------------------------------------------------------
// Laws
// ---------------------------------------------------------------------------

/// Nothing is listed that the filters do not let through.
pub proof fn lemma_listed_passes(
    all: Seq<ActionRecordView>,
    state: Option<Seq<char>>,
    archive: Option<u32>,
    limit: int,
)
    requires
        0 <= limit,
    ensures
        ({
            let shown = action_store::first(
                all.filter(action_store::passes(state, archive)),
                limit,
            );
            &&& shown.len() <= limit
            &&& forall|i: int|
                0 <= i < shown.len() ==> (archive matches Some(a) ==> (
                #[trigger] shown[i]).action.archive_id.0 == a)
            &&& forall|i: int|
                0 <= i < shown.len() && state is Some && action_store::is_state_name(state->0)
                    ==> action_store::state_name((#[trigger] shown[i]).state) == state->0
        }),
{
    let p = action_store::passes(state, archive);
    let f = all.filter(p);
    let shown = action_store::first(f, limit);
    assert forall|i: int| 0 <= i < shown.len() implies p(#[trigger] shown[i]) by {
        assert(shown[i] == f[i]);
        all.lemma_filter_pred(p, i);
    }
}

} // verus!
