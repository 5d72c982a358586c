//! The [`Scheduler`] trait and its [`Assignment`] result type.

use crate::model::action::ActionView;
use crate::model::{Action, ActionKind, AgentId, Cookie};
use crate::scheduler::agent;
use crate::scheduler::agent::{AgentInfoView, AgentRegistry};
use vstd::multiset::Multiset;
use vstd::prelude::*;

verus! {

/// The output of a successful scheduling decision.
#[derive(Debug, PartialEq, Eq)]
pub struct Assignment {
    /// Action chosen for dispatch.
    pub action: Action,
    /// Agent that should run it.
    pub agent: AgentId,
}

/// Model of [`Assignment`].
#[verifier::ext_equal]
pub struct AssignmentView {
    pub action: ActionView,
    pub agent: Seq<char>,
}

impl View for Assignment {
    type V = AssignmentView;

    open spec fn view(&self) -> AssignmentView {
        AssignmentView { action: self.action@, agent: self.agent@ }
    }
}

/// Actions in no order.
pub type Actions = Multiset<ActionView>;

/// Actions in order.
pub type Queue = Seq<ActionView>;

/// The models of a list of assignments.
pub open spec fn assignment_views(v: Seq<Assignment>) -> Seq<AssignmentView> {
    v.map_values(|a: Assignment| a@)
}

/// The actions of a list of assignments.
pub open spec fn assigned_actions(v: Seq<AssignmentView>) -> Seq<ActionView> {
    v.map_values(|a: AssignmentView| a.action)
}

/// The agent of `a` is registered and serves the archive of the action.
pub open spec fn capable(agents: Seq<AgentInfoView>, a: AssignmentView) -> bool {
    exists|i: int|
        0 <= i < agents.len() && (#[trigger] agents[i]).id == a.agent && agents[i].archives.contains(
            a.action.archive_id.0,
        )
}

/// Actions of one kind.
pub open spec fn of_kind(k: ActionKind) -> spec_fn(ActionView) -> bool {
    |a: ActionView| a.kind == k
}

/// One more action behind a list.
pub proof fn lemma_of_kind_push(s: Seq<ActionView>, a: ActionView, k: ActionKind)
    ensures
        s.push(a).filter(of_kind(k)) == (if a.kind == k {
            s.filter(of_kind(k)).push(a)
        } else {
            s.filter(of_kind(k))
        }),
{
    reveal(Seq::filter);
    assert(s.push(a).drop_last() =~= s);
}

/// Pluggable scheduling strategy over a pool of waiting actions.
pub trait Scheduler: Sized {
    /// The actions that wait for dispatch.
    spec fn waiting(&self) -> Actions;

    /// Those of one kind, in the order in which they came.
    spec fn queued(&self, kind: ActionKind) -> Queue;

    /// What the strategy's own bookkeeping keeps true.
    spec fn valid(&self) -> bool;

    /// Add an action to the schedulable pool.
    fn enqueue(&mut self, action: Action)
        requires
            old(self).valid(),
        ensures
            final(self).valid(),
            final(self).waiting() == old(self).waiting().insert(action@),
            forall|k: ActionKind| #[trigger]
                final(self).queued(k) == (if k == action@.kind {
                    old(self).queued(k).push(action@)
                } else {
                    old(self).queued(k)
                }),
    ;

    /// Drain ready-to-dispatch actions, at most `max`. Every chosen agent is in
    /// `agents` and serves the action's archive; an action leaves the pool
    /// exactly if it is assigned.
    fn pick_ready(&mut self, agents: &AgentRegistry, max: usize) -> (r: Vec<Assignment>)
        requires
            old(self).valid(),
        ensures
            final(self).valid(),
            r@.len() <= max,
            forall|i: int| 0 <= i < r@.len() ==> capable(agents@, (#[trigger] r@[i])@),
            final(self).waiting().add(assigned_actions(assignment_views(r@)).to_multiset())
                == old(self).waiting(),
    ;

    /// Notify the scheduler that `cookie` has finished.
    fn on_complete(&mut self, _cookie: Cookie, _rc: i32)
        requires
            old(self).valid(),
        ensures
            final(self).valid(),
            final(self).waiting() == old(self).waiting(),
            forall|k: ActionKind| #[trigger] final(self).queued(k) == old(self).queued(k),
        default_ensures
            *final(self) == *old(self),
    {
    }

    /// Notify the scheduler that `agent` disconnected.
    fn on_disconnect(&mut self, _agent: &AgentId)
        requires
            old(self).valid(),
        ensures
            final(self).valid(),
            final(self).waiting() == old(self).waiting(),
            forall|k: ActionKind| #[trigger] final(self).queued(k) == old(self).queued(k),
        default_ensures
            *final(self) == *old(self),
    {
    }

    /// Number of actions currently waiting. The pool must fit `usize`.
    fn queue_depth(&self) -> (r: usize)
        requires
            self.valid(),
            self.waiting().len() <= usize::MAX,
        ensures
            r == self.waiting().len(),
    ;
}

} // verus!
