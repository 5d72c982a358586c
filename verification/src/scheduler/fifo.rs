//! `FifoPerKind`: the default scheduling strategy.
//!
//! One queue per action kind. Restore and Cancel go first, because somebody is
//! waiting for them; Archive and Remove are background work. Agents are taken in
//! turn within each archive.

use crate::model::action::ActionView;
use crate::model::{Action, ActionKind, AgentId, ArchiveId};
use crate::scheduler::agent;
use crate::scheduler::agent::{AgentInfoView, AgentRegistry};
use crate::scheduler::strategy;
use crate::scheduler::strategy::{Assignment, AssignmentView, Scheduler};
use std::collections::HashMap;
use std::collections::VecDeque;
use vstd::multiset::Multiset;
use vstd::prelude::*;

verus! {

// ---------------------------------------------------------------------------
// Model
// ---------------------------------------------------------------------------

/// Model of the scheduler: four queues, and per archive the number of the next
/// agent to try.
#[verifier::ext_equal]
pub struct FifoView {
    pub archive: Seq<ActionView>,
    pub restore: Seq<ActionView>,
    pub remove: Seq<ActionView>,
    pub cancel: Seq<ActionView>,
    pub rr: Map<u32, usize>,
}

/// Actions for one archive.
pub open spec fn of_archive(x: u32) -> spec_fn(ActionView) -> bool {
    |a: ActionView| a.archive_id.0 == x
}

/// Some registered agent serves the archive of `a`.
pub open spec fn servable(agents: Seq<AgentInfoView>, a: ActionView) -> bool {
    agent::serving(agents, a.archive_id.0).len() > 0
}

/// Actions that some agent can run.
pub open spec fn can(agents: Seq<AgentInfoView>) -> spec_fn(ActionView) -> bool {
    |a: ActionView| servable(agents, a)
}

/// Actions that no agent can run.
pub open spec fn cannot(agents: Seq<AgentInfoView>) -> spec_fn(ActionView) -> bool {
    |a: ActionView| !servable(agents, a)
}

/// Restore and Cancel actions in the order they are looked at: always from the
/// longer of the two queues, Cancel when they are equally long.
pub open spec fn urgent_order(cancel: Seq<ActionView>, restore: Seq<ActionView>) -> Seq<ActionView>
    decreases cancel.len() + restore.len(),
{
    if cancel.len() == 0 {
        restore
    } else if cancel.len() >= restore.len() {
        seq![cancel[0]] + urgent_order(cancel.drop_first(), restore)
    } else {
        seq![restore[0]] + urgent_order(cancel, restore.drop_first())
    }
}

/// How many actions of `order` are looked at until `max` could be assigned.
pub open spec fn taken(order: Seq<ActionView>, agents: Seq<AgentInfoView>, max: nat) -> nat
    decreases order.len(),
{
    if order.len() == 0 || max == 0 {
        0
    } else {
        1 + taken(
            order.drop_first(),
            agents,
            if servable(agents, order[0]) {
                (max - 1) as nat
            } else {
                max
            },
        )
    }
}

/// A cursor after `n` more picks; the counter wraps at the width of `usize`.
pub open spec fn advanced(cursor: usize, n: nat) -> usize {
    ((cursor + n) % (usize::MAX + 1)) as usize
}

impl FifoView {
    /// The queue of one kind.
    pub open spec fn queue(self, k: ActionKind) -> Seq<ActionView> {
        match k {
            ActionKind::Archive => self.archive,
            ActionKind::Restore => self.restore,
            ActionKind::Remove => self.remove,
            ActionKind::Cancel => self.cancel,
        }
    }

    /// Every queue holds actions of its kind only.
    pub open spec fn sorted_by_kind(self) -> bool {
        forall|k: ActionKind, i: int|
            0 <= i < self.queue(k).len() ==> (#[trigger] self.queue(k)[i]).kind == k
    }

    /// All actions in the order they are looked at.
    pub open spec fn order(self) -> Seq<ActionView> {
        urgent_order(self.cancel, self.restore) + self.archive + self.remove
    }

    /// The number of the next agent for an archive.
    pub open spec fn cursor(self, x: u32) -> usize {
        if self.rr.contains_key(x) {
            self.rr[x]
        } else {
            0
        }
    }

    /// The actions looked at by one pick.
    pub open spec fn examined(self, agents: Seq<AgentInfoView>, max: nat) -> Seq<ActionView> {
        self.order().take(taken(self.order(), agents, max) as int)
    }

    /// The actions one pick dispatches: those it looked at that can run.
    pub open spec fn dispatched(self, agents: Seq<AgentInfoView>, max: nat) -> Seq<ActionView> {
        self.examined(agents, max).filter(can(agents))
    }

    /// The agent for the `j`-th of the dispatched actions `d`: agents serving
    /// its archive take turns, starting from the archive's cursor.
    pub open spec fn agent_for(
        self,
        agents: Seq<AgentInfoView>,
        d: Seq<ActionView>,
        j: int,
    ) -> Seq<char> {
        let x = d[j].archive_id.0;
        let candidates = agent::serving(agents, x);
        let turn = advanced(self.cursor(x), d.take(j).filter(of_archive(x)).len());
        candidates[turn as int % candidates.len() as int].id
    }

    /// What one pick returns.
    pub open spec fn picked(self, agents: Seq<AgentInfoView>, max: nat) -> Seq<AssignmentView> {
        let d = self.dispatched(agents, max);
        Seq::new(
            d.len(),
            |j: int| AssignmentView { action: d[j], agent: self.agent_for(agents, d, j) },
        )
    }

    /// The queue of kind `k` after one pick: of the actions that were looked at,
    /// those that no agent can run stay, in their order and at the head.
    pub open spec fn remaining(
        self,
        agents: Seq<AgentInfoView>,
        max: nat,
        k: ActionKind,
    ) -> Seq<ActionView> {
        let n = self.examined(agents, max).filter(strategy::of_kind(k)).len() as int;
        self.queue(k).take(n).filter(cannot(agents)) + self.queue(k).skip(n)
    }

    /// The cursors after one pick.
    pub open spec fn cursors_after(self, agents: Seq<AgentInfoView>, max: nat) -> Map<u32, usize> {
        let d = self.dispatched(agents, max);
        Map::new(
            |x: u32| self.rr.contains_key(x) || d.filter(of_archive(x)).len() > 0,
            |x: u32|
                if d.filter(of_archive(x)).len() > 0 {
                    advanced(self.cursor(x), d.filter(of_archive(x)).len())
                } else {
                    self.rr[x]
                },
        )
    }

    /// The scheduler after one pick.
    pub open spec fn after_pick(self, agents: Seq<AgentInfoView>, max: nat) -> FifoView {
        FifoView {
            archive: self.remaining(agents, max, ActionKind::Archive),
            restore: self.remaining(agents, max, ActionKind::Restore),
            remove: self.remaining(agents, max, ActionKind::Remove),
            cancel: self.remaining(agents, max, ActionKind::Cancel),
            rr: self.cursors_after(agents, max),
        }
    }

    /// The scheduler with `a` behind the others of its kind.
    pub open spec fn enqueued(self, a: ActionView) -> FifoView {
        match a.kind {
            ActionKind::Archive => FifoView { archive: self.archive.push(a), ..self },
            ActionKind::Restore => FifoView { restore: self.restore.push(a), ..self },
            ActionKind::Remove => FifoView { remove: self.remove.push(a), ..self },
            ActionKind::Cancel => FifoView { cancel: self.cancel.push(a), ..self },
        }
    }

    /// Everything that waits.
    pub open spec fn contents(self) -> Multiset<ActionView> {
        self.cancel.to_multiset().add(self.restore.to_multiset()).add(
            self.archive.to_multiset(),
        ).add(self.remove.to_multiset())
    }

    /// Number of actions that wait.
    pub open spec fn depth(self) -> nat {
        self.archive.len() + self.restore.len() + self.remove.len() + self.cancel.len()
    }
}

// ---------------------------------------------------------------------------
// Filtering
// ---------------------------------------------------------------------------

/// Filtering one more element.
pub(crate) proof fn lemma_filter_push<A>(s: Seq<A>, a: A, f: spec_fn(A) -> bool)
    ensures
        s.push(a).filter(f) == (if f(a) {
            s.filter(f).push(a)
        } else {
            s.filter(f)
        }),
{
    reveal(Seq::filter);
    assert(s.push(a).drop_last() =~= s);
}

/// Filtering with one more element in front.
pub(crate) proof fn lemma_filter_front<A>(a: A, s: Seq<A>, f: spec_fn(A) -> bool)
    ensures
        (seq![a] + s).filter(f) == (if f(a) {
            seq![a] + s.filter(f)
        } else {
            s.filter(f)
        }),
{
    Seq::filter_distributes_over_add(seq![a], s, f);
    lemma_filter_push(Seq::<A>::empty(), a, f);
    lemma_filter_none(Seq::<A>::empty(), f);
    assert(Seq::<A>::empty().push(a) =~= seq![a]);
    assert(Seq::<A>::empty() + s.filter(f) =~= s.filter(f));
}

/// Nothing passes.
pub(crate) proof fn lemma_filter_none<A>(s: Seq<A>, f: spec_fn(A) -> bool)
    requires
        forall|i: int| 0 <= i < s.len() ==> !f(#[trigger] s[i]),
    ensures
        s.filter(f) == Seq::<A>::empty(),
    decreases s.len(),
{
    reveal(Seq::filter);
    if s.len() > 0 {
        lemma_filter_none(s.drop_last(), f);
    } else {
        assert(s.filter(f) =~= Seq::<A>::empty());
    }
}

/// Everything passes.
pub(crate) proof fn lemma_filter_all<A>(s: Seq<A>, f: spec_fn(A) -> bool)
    requires
        forall|i: int| 0 <= i < s.len() ==> f(#[trigger] s[i]),
    ensures
        s.filter(f) == s,
    decreases s.len(),
{
    reveal(Seq::filter);
    if s.len() > 0 {
        lemma_filter_all(s.drop_last(), f);
        assert(s.drop_last().push(s.last()) =~= s);
    }
}

/// What passed satisfies the predicate and came from the sequence.
pub(crate) proof fn lemma_filter_members<A>(s: Seq<A>, f: spec_fn(A) -> bool)
    ensures
        s.filter(f).len() <= s.len(),
        forall|i: int|
            0 <= i < s.filter(f).len() ==> f(#[trigger] s.filter(f)[i]) && s.contains(
                s.filter(f)[i],
            ),
    decreases s.len(),
{
    reveal(Seq::filter);
    if s.len() > 0 {
        let p = s.drop_last();
        lemma_filter_members(p, f);
        let t = s.filter(f);
        assert forall|i: int| 0 <= i < t.len() implies f(#[trigger] t[i]) && s.contains(t[i]) by {
            if i < p.filter(f).len() {
                assert(t[i] == p.filter(f)[i]);
                let j = choose|j: int| 0 <= j < p.len() && p[j] == t[i];
                assert(s[j] == t[i]);
            } else {
                assert(s[s.len() - 1] == t[i]);
            }
        }
    }
}

/// Two filters commute.
proof fn lemma_filter_commutes<A>(s: Seq<A>, f: spec_fn(A) -> bool, g: spec_fn(A) -> bool)
    ensures
        s.filter(f).filter(g) == s.filter(g).filter(f),
    decreases s.len(),
{
    reveal(Seq::filter);
    if s.len() > 0 {
        let p = s.drop_last();
        lemma_filter_commutes(p, f, g);
        lemma_filter_push(p.filter(f), s.last(), g);
        lemma_filter_push(p.filter(g), s.last(), f);
    }
}

/// A prefix filters to a prefix.
proof fn lemma_filter_prefix<A>(s: Seq<A>, t: int, f: spec_fn(A) -> bool)
    requires
        0 <= t <= s.len(),
    ensures
        s.take(t).filter(f).len() <= s.filter(f).len(),
        s.take(t).filter(f) == s.filter(f).take(s.take(t).filter(f).len() as int),
        s.skip(t).filter(f) == s.filter(f).skip(s.take(t).filter(f).len() as int),
{
    assert(s =~= s.take(t) + s.skip(t));
    Seq::filter_distributes_over_add(s.take(t), s.skip(t), f);
    let n = s.take(t).filter(f).len() as int;
    assert(s.filter(f).take(n) =~= s.take(t).filter(f));
    assert(s.filter(f).skip(n) =~= s.skip(t).filter(f));
}

/// A filter and its opposite split the multiset.
proof fn lemma_filter_multiset(s: Seq<ActionView>, agents: Seq<AgentInfoView>)
    ensures
        s.filter(can(agents)).to_multiset().add(s.filter(cannot(agents)).to_multiset())
            =~= s.to_multiset(),
    decreases s.len(),
{
    broadcast use vstd::seq_lib::group_to_multiset_ensures;

    if s.len() > 0 {
        let p = s.drop_last();
        lemma_filter_multiset(p, agents);
        assert(p.push(s.last()) =~= s);
        lemma_filter_push(p, s.last(), can(agents));
        lemma_filter_push(p, s.last(), cannot(agents));
    } else {
        lemma_filter_none(s, can(agents));
        lemma_filter_none(s, cannot(agents));
        assert(s =~= Seq::<ActionView>::empty());
    }
}

/// The four kinds split the multiset.
proof fn lemma_kinds_multiset(s: Seq<ActionView>)
    ensures
        s.to_multiset() =~= s.filter(strategy::of_kind(ActionKind::Cancel)).to_multiset().add(
            s.filter(strategy::of_kind(ActionKind::Restore)).to_multiset(),
        ).add(s.filter(strategy::of_kind(ActionKind::Archive)).to_multiset()).add(
            s.filter(strategy::of_kind(ActionKind::Remove)).to_multiset(),
        ),
    decreases s.len(),
{
    broadcast use vstd::seq_lib::group_to_multiset_ensures;

    if s.len() > 0 {
        let p = s.drop_last();
        lemma_kinds_multiset(p);
        assert(p.push(s.last()) =~= s);
        lemma_filter_push(p, s.last(), strategy::of_kind(ActionKind::Cancel));
        lemma_filter_push(p, s.last(), strategy::of_kind(ActionKind::Restore));
        lemma_filter_push(p, s.last(), strategy::of_kind(ActionKind::Archive));
        lemma_filter_push(p, s.last(), strategy::of_kind(ActionKind::Remove));
    } else {
        lemma_filter_none(s, strategy::of_kind(ActionKind::Cancel));
        lemma_filter_none(s, strategy::of_kind(ActionKind::Restore));
        lemma_filter_none(s, strategy::of_kind(ActionKind::Archive));
        lemma_filter_none(s, strategy::of_kind(ActionKind::Remove));
        assert(s =~= Seq::<ActionView>::empty());
    }
}

/// Every action of `s` is of kind `k`.
#[verifier::opaque]
spec fn all_of(s: Seq<ActionView>, k: ActionKind) -> bool {
    forall|i: int| 0 <= i < s.len() ==> (#[trigger] s[i]).kind == k
}

/// Filtering a queue of one kind.
proof fn lemma_filter_kind(s: Seq<ActionView>, own: ActionKind, k: ActionKind)
    requires
        all_of(s, own),
    ensures
        s.filter(strategy::of_kind(k)) == (if k == own {
            s
        } else {
            Seq::<ActionView>::empty()
        }),
        s.len() > 0 ==> s[0].kind == own && all_of(s.drop_first(), own),
{
    reveal(all_of);
    if k == own {
        lemma_filter_all(s, strategy::of_kind(k));
    } else {
        lemma_filter_none(s, strategy::of_kind(k));
    }
}

/// The actions of kind `k` among the urgent ones.
#[verifier::opaque]
spec fn urgent_of(
    cancel: Seq<ActionView>,
    restore: Seq<ActionView>,
    k: ActionKind,
) -> Seq<ActionView> {
    if k == ActionKind::Cancel {
        cancel
    } else if k == ActionKind::Restore {
        restore
    } else {
        Seq::empty()
    }
}

/// One more Cancel action in front.
proof fn lemma_urgent_of_cancel(cancel: Seq<ActionView>, restore: Seq<ActionView>, k: ActionKind)
    requires
        cancel.len() > 0,
    ensures
        urgent_of(cancel, restore, k) == (if k == ActionKind::Cancel {
            seq![cancel[0]] + urgent_of(cancel.drop_first(), restore, k)
        } else {
            urgent_of(cancel.drop_first(), restore, k)
        }),
{
    reveal(urgent_of);
    assert(seq![cancel[0]] + cancel.drop_first() =~= cancel);
}

/// One more Restore action in front.
proof fn lemma_urgent_of_restore(cancel: Seq<ActionView>, restore: Seq<ActionView>, k: ActionKind)
    requires
        restore.len() > 0,
    ensures
        urgent_of(cancel, restore, k) == (if k == ActionKind::Restore {
            seq![restore[0]] + urgent_of(cancel, restore.drop_first(), k)
        } else {
            urgent_of(cancel, restore.drop_first(), k)
        }),
{
    reveal(urgent_of);
    assert(seq![restore[0]] + restore.drop_first() =~= restore);
}

/// The urgent order holds each of its two queues in order.
proof fn lemma_urgent_order(cancel: Seq<ActionView>, restore: Seq<ActionView>, k: ActionKind)
    requires
        all_of(cancel, ActionKind::Cancel),
        all_of(restore, ActionKind::Restore),
    ensures
        urgent_order(cancel, restore).filter(strategy::of_kind(k)) == urgent_of(cancel, restore, k),
    decreases cancel.len() + restore.len(),
{
    lemma_filter_kind(cancel, ActionKind::Cancel, k);
    lemma_filter_kind(restore, ActionKind::Restore, k);
    if cancel.len() == 0 {
        reveal(urgent_of);
        assert(cancel =~= Seq::<ActionView>::empty());
    } else if cancel.len() >= restore.len() {
        let c = cancel.drop_first();
        lemma_urgent_order(c, restore, k);
        lemma_filter_front(cancel[0], urgent_order(c, restore), strategy::of_kind(k));
        lemma_urgent_of_cancel(cancel, restore, k);
    } else {
        let r = restore.drop_first();
        lemma_urgent_order(cancel, r, k);
        lemma_filter_front(restore[0], urgent_order(cancel, r), strategy::of_kind(k));
        lemma_urgent_of_restore(cancel, restore, k);
    }
}

/// Each queue holds one kind.
proof fn lemma_queues_all_of(q: FifoView)
    requires
        q.sorted_by_kind(),
    ensures
        all_of(q.cancel, ActionKind::Cancel),
        all_of(q.restore, ActionKind::Restore),
        all_of(q.archive, ActionKind::Archive),
        all_of(q.remove, ActionKind::Remove),
{
    reveal(all_of);
    assert forall|i: int| 0 <= i < q.cancel.len() implies (#[trigger] q.cancel[i]).kind
        == ActionKind::Cancel by {
        assert(q.queue(ActionKind::Cancel)[i].kind == ActionKind::Cancel);
    }
    assert forall|i: int| 0 <= i < q.restore.len() implies (#[trigger] q.restore[i]).kind
        == ActionKind::Restore by {
        assert(q.queue(ActionKind::Restore)[i].kind == ActionKind::Restore);
    }
    assert forall|i: int| 0 <= i < q.archive.len() implies (#[trigger] q.archive[i]).kind
        == ActionKind::Archive by {
        assert(q.queue(ActionKind::Archive)[i].kind == ActionKind::Archive);
    }
    assert forall|i: int| 0 <= i < q.remove.len() implies (#[trigger] q.remove[i]).kind
        == ActionKind::Remove by {
        assert(q.queue(ActionKind::Remove)[i].kind == ActionKind::Remove);
    }
}

/// The order holds each queue in order, and nothing else.
proof fn lemma_order_by_kind(q: FifoView, k: ActionKind)
    requires
        q.sorted_by_kind(),
    ensures
        q.order().filter(strategy::of_kind(k)) == q.queue(k),
{
    let u = urgent_order(q.cancel, q.restore);
    lemma_queues_all_of(q);
    lemma_urgent_order(q.cancel, q.restore, k);
    Seq::filter_distributes_over_add(u, q.archive, strategy::of_kind(k));
    Seq::filter_distributes_over_add(u + q.archive, q.remove, strategy::of_kind(k));
    lemma_filter_kind(q.archive, ActionKind::Archive, k);
    lemma_filter_kind(q.remove, ActionKind::Remove, k);
    reveal(urgent_of);
    assert(q.order().filter(strategy::of_kind(k)) =~= q.queue(k));
}

/// `taken` stays within the order.
proof fn lemma_taken_bound(order: Seq<ActionView>, agents: Seq<AgentInfoView>, max: nat)
    ensures
        taken(order, agents, max) <= order.len(),
    decreases order.len(),
{
    if order.len() > 0 && max > 0 {
        lemma_taken_bound(
            order.drop_first(),
            agents,
            if servable(agents, order[0]) {
                (max - 1) as nat
            } else {
                max
            },
        );
    }
}

// ---------------------------------------------------------------------------
// The scheduler
// ---------------------------------------------------------------------------

/// The models of a sequence of actions.
pub open spec fn action_views(v: Seq<Action>) -> Seq<ActionView> {
    v.map_values(|a: Action| a@)
}

/// FIFO-per-kind scheduling strategy.
#[derive(Debug)]
pub struct FifoPerKind {
    archive: VecDeque<Action>,
    restore: VecDeque<Action>,
    remove: VecDeque<Action>,
    cancel: VecDeque<Action>,
    /// Per archive, the number of the agent to try next.
    rr: HashMap<u32, usize>,
}

impl View for FifoPerKind {
    type V = FifoView;

    closed spec fn view(&self) -> FifoView {
        FifoView {
            archive: action_views(self.archive@),
            restore: action_views(self.restore@),
            remove: action_views(self.remove@),
            cancel: action_views(self.cancel@),
            rr: self.rr@,
        }
    }
}

impl Default for FifoPerKind {
    fn default() -> (r: FifoPerKind)
        ensures
            r.wf(),
            r@.depth() == 0,
            r@.rr == Map::<u32, usize>::empty(),
    {
        FifoPerKind::new()
    }
}

/// Take the head of a queue.
fn pop(q: &mut VecDeque<Action>) -> (r: Option<Action>)
    ensures
        match r {
            Some(a) => {
                &&& old(q)@.len() > 0
                &&& a@ == action_views(old(q)@)[0]
                &&& action_views(final(q)@) == action_views(old(q)@).drop_first()
            },
            None => old(q)@.len() == 0 && final(q)@ == old(q)@,
        },
{
    let ghost before = action_views(q@);
    let r = q.pop_front();
    proof {
        if r is Some {
            assert(action_views(q@) =~= before.drop_first());
        }
    }
    r
}

/// Put an action at the tail of a queue.
fn push_tail(q: &mut VecDeque<Action>, a: Action)
    ensures
        action_views(final(q)@) == action_views(old(q)@).push(a@),
{
    let ghost before = action_views(q@);
    let ghost v = a@;
    q.push_back(a);
    proof {
        assert(action_views(q@) =~= before.push(v));
    }
}

/// Put an action at the head of a queue.
fn push_head(q: &mut VecDeque<Action>, a: Action)
    ensures
        action_views(final(q)@) == seq![a@] + action_views(old(q)@),
{
    let ghost before = action_views(q@);
    let ghost v = a@;
    q.push_front(a);
    proof {
        assert(action_views(q@) =~= seq![v] + before);
    }
}

impl FifoPerKind {
    /// Every queue holds actions of its kind only.
    pub open spec fn wf(&self) -> bool {
        self@.sorted_by_kind()
    }

    /// An empty scheduler.
    pub fn new() -> (r: FifoPerKind)
        ensures
            r.wf(),
            r@.depth() == 0,
            r@.rr == Map::<u32, usize>::empty(),
    {
        broadcast use vstd::std_specs::hash::group_hash_axioms;

        FifoPerKind {
            archive: VecDeque::new(),
            restore: VecDeque::new(),
            remove: VecDeque::new(),
            cancel: VecDeque::new(),
            rr: HashMap::new(),
        }
    }

    /// Take the action to look at next: Restore and Cancel before Archive and
    /// Remove, from the longer of the first two queues.
    fn next_action(&mut self) -> (r: Option<Action>)
        requires
            old(self).wf(),
        ensures
            final(self).wf(),
            final(self)@.rr == old(self)@.rr,
            match r {
                Some(a) => {
                    &&& old(self)@.order().len() > 0
                    &&& a@ == old(self)@.order()[0]
                    &&& final(self)@.order() == old(self)@.order().drop_first()
                    &&& old(self)@.queue(a@.kind).len() > 0
                    &&& final(self)@.queue(a@.kind) == old(self)@.queue(a@.kind).drop_first()
                    &&& forall|k: ActionKind|
                        k != a@.kind ==> #[trigger] final(self)@.queue(k) == old(self)@.queue(k)
                },
                None => old(self)@.order().len() == 0 && final(self)@ == old(self)@,
            },
    {
        let ghost before = self@;
        proof {
            assert(before.queue(ActionKind::Cancel) == before.cancel);
            assert(before.queue(ActionKind::Restore) == before.restore);
            assert(before.queue(ActionKind::Archive) == before.archive);
            assert(before.queue(ActionKind::Remove) == before.remove);
        }
        if self.cancel.len() >= self.restore.len() {
            if let Some(a) = pop(&mut self.cancel) {
                proof {
                    assert(before.queue(ActionKind::Cancel)[0].kind == ActionKind::Cancel);
                    lemma_popped(before, self@, a@);
                }
                return Some(a);
            }
        } else {
            if let Some(a) = pop(&mut self.restore) {
                proof {
                    assert(before.queue(ActionKind::Restore)[0].kind == ActionKind::Restore);
                    lemma_popped(before, self@, a@);
                }
                return Some(a);
            }
        }
        assert(self.cancel@.len() == 0 && self.restore@.len() == 0);
        if let Some(a) = pop(&mut self.archive) {
            proof {
                assert(before.queue(ActionKind::Archive)[0].kind == ActionKind::Archive);
                lemma_popped(before, self@, a@);
            }
            return Some(a);
        }
        let r = pop(&mut self.remove);
        proof {
            if r is Some {
                assert(before.queue(ActionKind::Remove)[0].kind == ActionKind::Remove);
                lemma_popped(before, self@, r->0@);
            } else {
                assert(self@ =~= before);
            }
        }
        r
    }

    /// Pick an agent for `archive` and move the archive's cursor on. `None` when
    /// no connected agent serves the archive.
    fn pick_agent(&mut self, agents: &AgentRegistry, archive: ArchiveId) -> (r: Option<AgentId>)
        ensures
            final(self)@ == (FifoView { rr: final(self)@.rr, ..old(self)@ }),
            match r {
                Some(id) => {
                    let c = agent::serving(agents@, archive.0);
                    let turn = old(self)@.cursor(archive.0);
                    &&& c.len() > 0
                    &&& id@ == c[turn as int % c.len() as int].id
                    &&& final(self)@.rr == old(self)@.rr.insert(archive.0, advanced(turn, 1))
                },
                None => agent::serving(agents@, archive.0).len() == 0 && final(self)@.rr == old(
                    self,
                )@.rr,
            },
    {
        broadcast use vstd::std_specs::hash::group_hash_axioms;

        let candidates = agents.agents_serving(archive);
        assert(agent::info_views(candidates@).len() == candidates@.len());
        if candidates.len() == 0 {
            return None;
        }
        let cursor: usize = match self.rr.get(&archive.0) {
            Some(c) => *c,
            None => 0,
        };
        let idx: usize = cursor % candidates.len();
        let next: usize = cursor.wrapping_add(1);
        self.rr.insert(archive.0, next);
        proof {
            assert(agent::info_views(candidates@)[idx as int] == candidates@[idx as int]@);
            lemma_advance_one(cursor);
        }
        Some(candidates[idx].id.clone())
    }

    /// Put an action at the head of the queue of its kind.
    fn push_front(&mut self, a: Action)
        requires
            old(self).wf(),
        ensures
            final(self).wf(),
            final(self)@.rr == old(self)@.rr,
            final(self)@.queue(a@.kind) == seq![a@] + old(self)@.queue(a@.kind),
            forall|k: ActionKind|
                k != a@.kind ==> #[trigger] final(self)@.queue(k) == old(self)@.queue(k),
    {
        let ghost before = self@;
        let ghost v = a@;
        match a.kind {
            ActionKind::Archive => {
                push_head(&mut self.archive, a);
            },
            ActionKind::Restore => {
                push_head(&mut self.restore, a);
            },
            ActionKind::Remove => {
                push_head(&mut self.remove, a);
            },
            ActionKind::Cancel => {
                push_head(&mut self.cancel, a);
            },
        }
        proof {
            assert forall|k: ActionKind, i: int| 0 <= i < self@.queue(k).len() implies (
            #[trigger] self@.queue(k)[i]).kind == k by {
                if k == v.kind {
                    if i > 0 {
                        assert(self@.queue(k)[i] == before.queue(k)[i - 1]);
                    }
                } else {
                    assert(self@.queue(k)[i] == before.queue(k)[i]);
                }
            }
        }
    }
}

/// Moving a cursor on by one.
proof fn lemma_advance_one(cursor: usize)
    ensures
        cursor.wrapping_add(1) == advanced(cursor, 1),
{
    if cursor == usize::MAX {
        assert((usize::MAX + 1) % (usize::MAX + 1) == 0) by (nonlinear_arith);
    } else {
        assert((cursor + 1) % (usize::MAX + 1) == cursor + 1) by (nonlinear_arith)
            requires
                0 <= cursor < usize::MAX,
        ;
    }
}

/// Moving a cursor on by `n` and then by one.
proof fn lemma_advance_more(cursor: usize, n: nat)
    ensures
        advanced(advanced(cursor, n), 1) == advanced(cursor, n + 1),
        advanced(cursor, 0) == cursor,
{
    let m = usize::MAX + 1;
    vstd::arithmetic::div_mod::lemma_add_mod_noop_right(1, cursor + n, m);
    vstd::arithmetic::div_mod::lemma_mod_bound(cursor + n, m);
    vstd::arithmetic::div_mod::lemma_mod_bound(cursor + n + 1, m);
    vstd::arithmetic::div_mod::lemma_small_mod(cursor as nat, m as nat);
}

/// Taking the head of the queue that the order begins with.
proof fn lemma_popped(before: FifoView, after: FifoView, a: ActionView)
    requires
        before.sorted_by_kind(),
        before.queue(a.kind).len() > 0,
        a == before.queue(a.kind)[0],
        after == (FifoView {
            archive: after.archive,
            restore: after.restore,
            remove: after.remove,
            cancel: after.cancel,
            rr: before.rr,
        }),
        forall|k: ActionKind|
            #[trigger] after.queue(k) == (if k == a.kind {
                before.queue(k).drop_first()
            } else {
                before.queue(k)
            }),
        match a.kind {
            ActionKind::Cancel => before.cancel.len() >= before.restore.len(),
            ActionKind::Restore => before.cancel.len() < before.restore.len(),
            ActionKind::Archive => before.cancel.len() == 0 && before.restore.len() == 0,
            ActionKind::Remove => before.cancel.len() == 0 && before.restore.len() == 0
                && before.archive.len() == 0,
        },
    ensures
        after.sorted_by_kind(),
        before.order().len() > 0,
        a == before.order()[0],
        after.order() == before.order().drop_first(),
{
    assert(after.queue(ActionKind::Cancel) == after.cancel);
    assert(after.queue(ActionKind::Restore) == after.restore);
    assert(after.queue(ActionKind::Archive) == after.archive);
    assert(after.queue(ActionKind::Remove) == after.remove);
    assert forall|k: ActionKind, i: int| 0 <= i < after.queue(k).len() implies (
    #[trigger] after.queue(k)[i]).kind == k by {
        if k == a.kind {
            assert(after.queue(k)[i] == before.queue(k)[i + 1]);
        } else {
            assert(after.queue(k)[i] == before.queue(k)[i]);
        }
    }
    let ub = urgent_order(before.cancel, before.restore);
    let ua = urgent_order(after.cancel, after.restore);
    if a.kind == ActionKind::Cancel {
        assert(ub == seq![a] + ua);
    } else if a.kind == ActionKind::Restore {
        if before.cancel.len() == 0 {
            assert(ub =~= seq![a] + ua);
        }
        assert(ub =~= seq![a] + ua);
    } else {
        assert(ub =~= Seq::<ActionView>::empty());
        assert(ua =~= Seq::<ActionView>::empty());
    }
    assert(before.order() =~= seq![a] + after.order());
    assert(before.order().drop_first() =~= after.order());
}

// ---------------------------------------------------------------------------
// Picking
// ---------------------------------------------------------------------------

/// What holds after the first `t` actions of the order were looked at: `out` was
/// assigned, `req` could not be, `cur` is what the queues still hold.
#[verifier::opaque]
spec fn looked_at(
    q: FifoView,
    cur: FifoView,
    agents: Seq<AgentInfoView>,
    max: nat,
    out: Seq<AssignmentView>,
    req: Seq<ActionView>,
    t: int,
) -> bool {
    let o = q.order();
    let d = strategy::assigned_actions(out);
    &&& 0 <= t <= o.len()
    &&& cur.order() == o.skip(t)
    &&& d == o.take(t).filter(can(agents))
    &&& req == o.take(t).filter(cannot(agents))
    &&& out.len() <= max
    &&& taken(o, agents, max) == t + taken(o.skip(t), agents, (max - out.len()) as nat)
    &&& forall|k: ActionKind| #[trigger]
        cur.queue(k) == q.queue(k).skip(o.take(t).filter(strategy::of_kind(k)).len() as int)
    &&& forall|k: ActionKind| (#[trigger] o.take(t).filter(strategy::of_kind(k))).len() <= q.queue(k).len()
    &&& forall|j: int|
        0 <= j < out.len() ==> (#[trigger] out[j]).agent == q.agent_for(agents, d, j)
    &&& forall|x: u32| #[trigger]
        cur.rr.contains_key(x) <==> q.rr.contains_key(x) || d.filter(of_archive(x)).len() > 0
    &&& forall|x: u32| #[trigger]
        cur.cursor(x) == advanced(q.cursor(x), d.filter(of_archive(x)).len())
}

/// Nothing was looked at yet.
proof fn lemma_looked_at_start(q: FifoView, agents: Seq<AgentInfoView>, max: nat)
    ensures
        looked_at(q, q, agents, max, Seq::empty(), Seq::empty(), 0),
{
    reveal(looked_at);
    let o = q.order();
    let none = Seq::<ActionView>::empty();
    assert(o.skip(0) =~= o);
    assert(o.take(0) =~= none);
    lemma_filter_none(none, can(agents));
    lemma_filter_none(none, cannot(agents));
    assert(strategy::assigned_actions(Seq::<AssignmentView>::empty()) =~= none);
    assert forall|k: ActionKind| #[trigger] q.queue(k) == q.queue(k).skip(
        o.take(0).filter(strategy::of_kind(k)).len() as int,
    ) by {
        lemma_filter_none(none, strategy::of_kind(k));
        assert(q.queue(k).skip(0) =~= q.queue(k));
    }
    assert forall|k: ActionKind| (#[trigger] o.take(0).filter(strategy::of_kind(k))).len() <= q.queue(
        k,
    ).len() by {
        lemma_filter_none(none, strategy::of_kind(k));
    }
    assert forall|x: u32| #[trigger] q.cursor(x) == advanced(
        q.cursor(x),
        none.filter(of_archive(x)).len(),
    ) by {
        lemma_filter_none(none, of_archive(x));
        lemma_advance_more(q.cursor(x), 0);
    }
    assert forall|x: u32| #[trigger]
        q.rr.contains_key(x) <==> q.rr.contains_key(x) || none.filter(of_archive(x)).len() > 0 by {
        lemma_filter_none(none, of_archive(x));
    }
}

/// Looking at one more action, with the queues `popped` once it was taken off.
proof fn lemma_looked_at_pop(
    q: FifoView,
    cur: FifoView,
    popped: FifoView,
    agents: Seq<AgentInfoView>,
    max: nat,
    out: Seq<AssignmentView>,
    req: Seq<ActionView>,
    t: int,
    a: ActionView,
)
    requires
        looked_at(q, cur, agents, max, out, req, t),
        out.len() < max,
        cur.order().len() > 0,
        a == cur.order()[0],
        popped.order() == cur.order().drop_first(),
        cur.queue(a.kind).len() > 0,
        popped.queue(a.kind) == cur.queue(a.kind).drop_first(),
        forall|k: ActionKind| k != a.kind ==> #[trigger] popped.queue(k) == cur.queue(k),
    ensures
        t < q.order().len(),
        a == q.order()[t],
        q.order().take(t + 1) == q.order().take(t).push(a),
        popped.order() == q.order().skip(t + 1),
        forall|k: ActionKind| #[trigger]
            popped.queue(k) == q.queue(k).skip(
                q.order().take(t + 1).filter(strategy::of_kind(k)).len() as int,
            ),
        forall|k: ActionKind|
            (#[trigger] q.order().take(t + 1).filter(strategy::of_kind(k))).len() <= q.queue(k).len(),
        taken(q.order(), agents, max) == t + 1 + taken(
            q.order().skip(t + 1),
            agents,
            if servable(agents, a) {
                (max - out.len() - 1) as nat
            } else {
                (max - out.len()) as nat
            },
        ),
{
    reveal(looked_at);
    let o = q.order();
    assert(o.skip(t)[0] == o[t]);
    assert(o.take(t + 1) =~= o.take(t).push(a));
    assert(o.skip(t).drop_first() =~= o.skip(t + 1));
    assert forall|k: ActionKind|
        popped.queue(k) == q.queue(k).skip(#[trigger] o.take(t + 1).filter(strategy::of_kind(k)).len() as int)
            && o.take(t + 1).filter(strategy::of_kind(k)).len() <= q.queue(k).len() by {
        lemma_filter_push(o.take(t), a, strategy::of_kind(k));
        let n = o.take(t).filter(strategy::of_kind(k)).len() as int;
        assert(cur.queue(k) == q.queue(k).skip(n));
        if k == a.kind {
            assert(q.queue(k).skip(n).drop_first() =~= q.queue(k).skip(n + 1));
        } else {
            assert(popped.queue(k) == cur.queue(k));
        }
    }
}

/// The action could not be assigned.
proof fn lemma_looked_at_requeue(
    q: FifoView,
    cur: FifoView,
    popped: FifoView,
    agents: Seq<AgentInfoView>,
    max: nat,
    out: Seq<AssignmentView>,
    req: Seq<ActionView>,
    t: int,
    a: ActionView,
)
    requires
        looked_at(q, cur, agents, max, out, req, t),
        out.len() < max,
        cur.order().len() > 0,
        a == cur.order()[0],
        popped.order() == cur.order().drop_first(),
        cur.queue(a.kind).len() > 0,
        popped.queue(a.kind) == cur.queue(a.kind).drop_first(),
        forall|k: ActionKind| k != a.kind ==> #[trigger] popped.queue(k) == cur.queue(k),
        popped.rr == cur.rr,
        !servable(agents, a),
    ensures
        looked_at(q, popped, agents, max, out, req.push(a), t + 1),
{
    lemma_looked_at_pop(q, cur, popped, agents, max, out, req, t, a);
    reveal(looked_at);
    let o = q.order();
    lemma_filter_push(o.take(t), a, can(agents));
    lemma_filter_push(o.take(t), a, cannot(agents));
    assert forall|x: u32| #[trigger] popped.cursor(x) == advanced(
        q.cursor(x),
        strategy::assigned_actions(out).filter(of_archive(x)).len(),
    ) by {
        assert(popped.cursor(x) == cur.cursor(x));
    }
}

/// The action was assigned to the agent whose turn it is.
proof fn lemma_looked_at_assign(
    q: FifoView,
    cur: FifoView,
    popped: FifoView,
    after: FifoView,
    agents: Seq<AgentInfoView>,
    max: nat,
    out: Seq<AssignmentView>,
    req: Seq<ActionView>,
    t: int,
    a: ActionView,
    id: Seq<char>,
)
    requires
        looked_at(q, cur, agents, max, out, req, t),
        out.len() < max,
        cur.order().len() > 0,
        a == cur.order()[0],
        popped.order() == cur.order().drop_first(),
        cur.queue(a.kind).len() > 0,
        popped.queue(a.kind) == cur.queue(a.kind).drop_first(),
        forall|k: ActionKind| k != a.kind ==> #[trigger] popped.queue(k) == cur.queue(k),
        popped.rr == cur.rr,
        servable(agents, a),
        after == (FifoView { rr: after.rr, ..popped }),
        after.rr == popped.rr.insert(
            a.archive_id.0,
            advanced(popped.cursor(a.archive_id.0), 1),
        ),
        id == agent::serving(agents, a.archive_id.0)[popped.cursor(a.archive_id.0) as int
            % agent::serving(agents, a.archive_id.0).len() as int].id,
    ensures
        looked_at(
            q,
            after,
            agents,
            max,
            out.push(AssignmentView { action: a, agent: id }),
            req,
            t + 1,
        ),
{
    lemma_looked_at_pop(q, cur, popped, agents, max, out, req, t, a);
    reveal(looked_at);
    let o = q.order();
    let d = strategy::assigned_actions(out);
    let y = a.archive_id.0;
    let out2 = out.push(AssignmentView { action: a, agent: id });
    let d2 = strategy::assigned_actions(out2);
    assert(d2 =~= d.push(a));
    lemma_filter_push(o.take(t), a, can(agents));
    lemma_filter_push(o.take(t), a, cannot(agents));
    assert(after.order() == popped.order());
    assert forall|k: ActionKind| #[trigger] after.queue(k) == q.queue(k).skip(
        o.take(t + 1).filter(strategy::of_kind(k)).len() as int,
    ) by {
        assert(after.queue(k) == popped.queue(k));
    }
    assert(popped.cursor(y) == cur.cursor(y));
    assert forall|j: int| 0 <= j < out2.len() implies (#[trigger] out2[j]).agent == q.agent_for(
        agents,
        d2,
        j,
    ) by {
        assert(d2.take(j) =~= d.take(j));
        if j < out.len() {
            assert(out2[j] == out[j]);
            assert(d2[j] == d[j]);
        } else {
            assert(d.take(j) =~= d);
            assert(d2[j] == a);
        }
    }
    assert forall|x: u32| #[trigger] after.rr.contains_key(x) <==> q.rr.contains_key(x)
        || d2.filter(of_archive(x)).len() > 0 by {
        lemma_filter_push(d, a, of_archive(x));
        assert(cur.rr.contains_key(x) <==> q.rr.contains_key(x) || d.filter(of_archive(x)).len()
            > 0);
    }
    assert forall|x: u32| #[trigger] after.cursor(x) == advanced(
        q.cursor(x),
        d2.filter(of_archive(x)).len(),
    ) by {
        lemma_filter_push(d, a, of_archive(x));
        assert(cur.cursor(x) == advanced(q.cursor(x), d.filter(of_archive(x)).len()));
        if x == y {
            lemma_advance_more(q.cursor(x), d.filter(of_archive(x)).len());
        } else {
            assert(after.cursor(x) == cur.cursor(x));
        }
    }
}

/// The queues once the actions that could not be assigned are back at the head.
proof fn lemma_pick_done(
    q: FifoView,
    cur: FifoView,
    last: FifoView,
    agents: Seq<AgentInfoView>,
    max: nat,
    out: Seq<AssignmentView>,
    req: Seq<ActionView>,
    t: int,
)
    requires
        q.sorted_by_kind(),
        looked_at(q, cur, agents, max, out, req, t),
        out.len() == max || cur.order().len() == 0,
        last.rr == cur.rr,
        forall|k: ActionKind| #[trigger]
            last.queue(k) == req.filter(strategy::of_kind(k)) + cur.queue(k),
    ensures
        out == q.picked(agents, max),
        last == q.after_pick(agents, max),
{
    reveal(looked_at);
    let o = q.order();
    assert(taken(o.skip(t), agents, (max - out.len()) as nat) == 0);
    assert(t == taken(o, agents, max));
    let d = strategy::assigned_actions(out);
    assert(q.dispatched(agents, max) == d);
    assert forall|j: int| 0 <= j < out.len() implies out[j] == q.picked(agents, max)[j] by {
        assert(d[j] == out[j].action);
        assert(out[j].agent == q.agent_for(agents, d, j));
    }
    assert(out =~= q.picked(agents, max));
    assert forall|k: ActionKind| #[trigger] last.queue(k) == q.remaining(agents, max, k) by {
        let n = o.take(t).filter(strategy::of_kind(k)).len() as int;
        lemma_order_by_kind(q, k);
        lemma_filter_prefix(o, t, strategy::of_kind(k));
        lemma_filter_commutes(o.take(t), cannot(agents), strategy::of_kind(k));
        assert(cur.queue(k) == q.queue(k).skip(n));
    }
    assert(last.queue(ActionKind::Archive) == last.archive);
    assert(last.queue(ActionKind::Restore) == last.restore);
    assert(last.queue(ActionKind::Remove) == last.remove);
    assert(last.queue(ActionKind::Cancel) == last.cancel);
    let m = q.cursors_after(agents, max);
    assert forall|x: u32| cur.rr.contains_key(x) <==> #[trigger] m.contains_key(x) by {}
    assert forall|x: u32| cur.rr.contains_key(x) implies cur.rr[x] == #[trigger] m[x] by {
        assert(cur.cursor(x) == advanced(q.cursor(x), d.filter(of_archive(x)).len()));
        if d.filter(of_archive(x)).len() == 0 {
            lemma_advance_more(q.cursor(x), 0);
        }
    }
    assert(cur.rr =~= m);
    assert(last =~= q.after_pick(agents, max));
}

/// Put the actions of `req` back at the head of their queues, in their order.
fn requeue_all(q: &mut FifoPerKind, req: Vec<Action>)
    requires
        old(q).wf(),
    ensures
        final(q).wf(),
        final(q)@.rr == old(q)@.rr,
        forall|k: ActionKind| #[trigger]
            final(q)@.queue(k) == action_views(req@).filter(strategy::of_kind(k)) + old(q)@.queue(k),
{
    let mut req = req;
    let ghost all = action_views(req@);
    let ghost start = q@;
    proof {
        assert forall|k: ActionKind| #[trigger] q@.queue(k) == all.skip(all.len() as int).filter(
            strategy::of_kind(k),
        ) + start.queue(k) by {
            lemma_filter_none(all.skip(all.len() as int), strategy::of_kind(k));
            assert(Seq::<ActionView>::empty() + start.queue(k) =~= start.queue(k));
        }
        assert(all.take(all.len() as int) =~= all);
    }
    while req.len() > 0
        invariant
            q.wf(),
            q@.rr == start.rr,
            req@.len() <= all.len(),
            action_views(req@) == all.take(req@.len() as int),
            forall|k: ActionKind| #[trigger]
                q@.queue(k) == all.skip(req@.len() as int).filter(strategy::of_kind(k)) + start.queue(k),
        decreases req.len(),
    {
        let ghost n = req@.len() as int;
        let ghost mid = q@;
        let ghost a = action_views(req@)[n - 1];
        proof {
            assert(action_views(req@)[n - 1] == all[n - 1]);
            assert(all.skip(n - 1) =~= seq![a] + all.skip(n));
        }
        if let Some(x) = req.pop() {
            q.push_front(x);
        }
        proof {
            assert(action_views(req@) =~= all.take(n - 1));
            assert forall|k: ActionKind| #[trigger] q@.queue(k) == all.skip(n - 1).filter(
                strategy::of_kind(k),
            ) + start.queue(k) by {
                lemma_filter_front(a, all.skip(n), strategy::of_kind(k));
                assert(mid.queue(k) == all.skip(n).filter(strategy::of_kind(k)) + start.queue(k));
                if k == a.kind {
                    assert(seq![a] + (all.skip(n).filter(strategy::of_kind(k)) + start.queue(k)) =~= (seq![a]
                        + all.skip(n).filter(strategy::of_kind(k))) + start.queue(k));
                } else {
                    assert(q@.queue(k) == mid.queue(k));
                }
            }
        }
    }
    proof {
        assert(all.skip(0) =~= all);
    }
}

impl Scheduler for FifoPerKind {
    open spec fn waiting(&self) -> strategy::Actions {
        self@.contents()
    }

    open spec fn queued(&self, kind: ActionKind) -> strategy::Queue {
        self@.queue(kind)
    }

    open spec fn valid(&self) -> bool {
        self.wf()
    }

    /// Put the action behind the others of its kind.
    fn enqueue(&mut self, action: Action)
        ensures
            final(self)@ == old(self)@.enqueued(action@),
    {
        let ghost before = self@;
        let ghost v = action@;
        match action.kind {
            ActionKind::Archive => {
                push_tail(&mut self.archive, action);
            },
            ActionKind::Restore => {
                push_tail(&mut self.restore, action);
            },
            ActionKind::Remove => {
                push_tail(&mut self.remove, action);
            },
            ActionKind::Cancel => {
                push_tail(&mut self.cancel, action);
            },
        }
        proof {
            assert(self@ =~= before.enqueued(v));
            lemma_enqueue(before, v);
        }
    }

    /// Look at the queued actions in order and assign each that some agent can
    /// run, until `max` are assigned; the others stay where they were.
    fn pick_ready(&mut self, agents: &AgentRegistry, max: usize) -> (r: Vec<Assignment>)
        ensures
            strategy::assignment_views(r@) == old(self)@.picked(agents@, max as nat),
            final(self)@ == old(self)@.after_pick(agents@, max as nat),
    {
        let mut out: Vec<Assignment> = Vec::new();
        let mut req: Vec<Action> = Vec::new();
        let ghost q = self@;
        let ghost mut t: int = 0;
        proof {
            lemma_looked_at_start(q, agents@, max as nat);
            assert(strategy::assignment_views(out@) =~= Seq::<AssignmentView>::empty());
            assert(action_views(req@) =~= Seq::<ActionView>::empty());
        }
        while out.len() < max
            invariant
                self.wf(),
                out@.len() <= max,
                looked_at(
                    q,
                    self@,
                    agents@,
                    max as nat,
                    strategy::assignment_views(out@),
                    action_views(req@),
                    t,
                ),
            ensures
                self.wf(),
                looked_at(
                    q,
                    self@,
                    agents@,
                    max as nat,
                    strategy::assignment_views(out@),
                    action_views(req@),
                    t,
                ),
                out@.len() == max || self@.order().len() == 0,
            decreases self@.order().len(),
        {
            let ghost cur = self@;
            let action = match self.next_action() {
                Some(a) => a,
                None => {
                    break;
                },
            };
            let ghost popped = self@;
            let ghost a = action@;
            let ghost assigned = strategy::assignment_views(out@);
            let ghost waiting = action_views(req@);
            assert(popped == (FifoView { rr: popped.rr, ..popped }));
            match self.pick_agent(agents, action.archive_id) {
                Some(agent) => {
                    let ghost id = agent@;
                    out.push(Assignment { action, agent });
                    proof {
                        lemma_looked_at_assign(
                            q,
                            cur,
                            popped,
                            self@,
                            agents@,
                            max as nat,
                            assigned,
                            waiting,
                            t,
                            a,
                            id,
                        );
                        assert(strategy::assignment_views(out@) =~= assigned.push(
                            AssignmentView { action: a, agent: id },
                        ));
                    }
                },
                None => {
                    req.push(action);
                    proof {
                        assert(self@ =~= popped);
                        lemma_looked_at_requeue(
                            q,
                            cur,
                            popped,
                            agents@,
                            max as nat,
                            assigned,
                            waiting,
                            t,
                            a,
                        );
                        assert(action_views(req@) =~= waiting.push(a));
                    }
                },
            }
            proof {
                t = t + 1;
                assert(forall|k: ActionKind| #[trigger] self@.queue(k) == popped.queue(k));
            }
        }
        let ghost cur = self@;
        let ghost waiting = action_views(req@);
        requeue_all(self, req);
        proof {
            lemma_pick_done(
                q,
                cur,
                self@,
                agents@,
                max as nat,
                strategy::assignment_views(out@),
                waiting,
                t,
            );
            lemma_pick_at_most_max(q, agents@, max as nat);
            lemma_pick_capable(q, agents@, max as nat);
            lemma_pick_conserves(q, agents@, max as nat);
            assert forall|i: int| 0 <= i < out@.len() implies strategy::capable(
                agents@,
                (#[trigger] out@[i])@,
            ) by {
                assert(strategy::assignment_views(out@)[i] == out@[i]@);
            }
        }
        out
    }

    /// Number of actions in the four queues.
    fn queue_depth(&self) -> (r: usize)
        ensures
            r == self@.depth(),
    {
        broadcast use vstd::seq_lib::group_to_multiset_ensures;

        self.archive.len() + self.restore.len() + self.remove.len() + self.cancel.len()
    }
}

// ---------------------------------------------------------------------------
// Laws
// ---------------------------------------------------------------------------

/// Enqueueing adds exactly the action, behind those of its kind.
pub proof fn lemma_enqueue(q: FifoView, a: ActionView)
    requires
        q.sorted_by_kind(),
    ensures
        q.enqueued(a).sorted_by_kind(),
        q.enqueued(a).contents() == q.contents().insert(a),
        q.enqueued(a).depth() == q.depth() + 1,
        q.enqueued(a).queue(a.kind) == q.queue(a.kind).push(a),
        forall|k: ActionKind| k != a.kind ==> #[trigger] q.enqueued(a).queue(k) == q.queue(k),
{
    broadcast use vstd::seq_lib::group_to_multiset_ensures;

    let e = q.enqueued(a);
    assert forall|k: ActionKind, i: int| 0 <= i < e.queue(k).len() implies (#[trigger] e.queue(
        k,
    )[i]).kind == k by {
        if i < q.queue(k).len() {
            assert(e.queue(k)[i] == q.queue(k)[i]);
        }
    }
    assert(e.contents() =~= q.contents().insert(a));
}

/// How many of the examined actions can run.
proof fn lemma_taken_count(order: Seq<ActionView>, agents: Seq<AgentInfoView>, max: nat)
    ensures
        taken(order, agents, max) <= order.len(),
        order.take(taken(order, agents, max) as int).filter(can(agents)).len() <= max,
        order.take(taken(order, agents, max) as int).filter(can(agents)).len() == max || taken(
            order,
            agents,
            max,
        ) == order.len(),
    decreases order.len(),
{
    let t = taken(order, agents, max);
    if order.len() == 0 || max == 0 {
        assert(order.take(0) =~= Seq::<ActionView>::empty());
        lemma_filter_none(order.take(0), can(agents));
    } else {
        let rest = order.drop_first();
        let m = if servable(agents, order[0]) {
            (max - 1) as nat
        } else {
            max
        };
        lemma_taken_count(rest, agents, m);
        let u = taken(rest, agents, m);
        assert(order.take(t as int) =~= seq![order[0]] + rest.take(u as int));
        lemma_filter_front(order[0], rest.take(u as int), can(agents));
    }
}

/// One pick assigns at most `max` actions.
pub proof fn lemma_pick_at_most_max(q: FifoView, agents: Seq<AgentInfoView>, max: nat)
    ensures
        q.picked(agents, max).len() <= max,
{
    lemma_taken_count(q.order(), agents, max);
}

/// Every assignment goes to a registered agent that serves the action's archive.
pub proof fn lemma_pick_capable(q: FifoView, agents: Seq<AgentInfoView>, max: nat)
    ensures
        forall|i: int|
            0 <= i < q.picked(agents, max).len() ==> strategy::capable(
                agents,
                #[trigger] q.picked(agents, max)[i],
            ),
{
    let d = q.dispatched(agents, max);
    lemma_filter_members(q.examined(agents, max), can(agents));
    assert forall|i: int| 0 <= i < q.picked(agents, max).len() implies strategy::capable(
        agents,
        #[trigger] q.picked(agents, max)[i],
    ) by {
        let x = d[i].archive_id.0;
        let c = agent::serving(agents, x);
        assert(can(agents)(d[i]));
        let turn = advanced(q.cursor(x), d.take(i).filter(of_archive(x)).len());
        let at = turn as int % c.len() as int;
        vstd::arithmetic::div_mod::lemma_mod_bound(turn as int, c.len() as int);
        agent::lemma_serving(agents, x);
        assert(c.contains(c[at]));
        let j = choose|j: int| 0 <= j < agents.len() && agents[j] == c[at];
        assert(agents[j].id == q.picked(agents, max)[i].agent);
    }
}

/// Nothing is lost and nothing is made up: what waited is what still waits
/// together with what was assigned. The queues stay sorted by kind.
pub proof fn lemma_pick_conserves(q: FifoView, agents: Seq<AgentInfoView>, max: nat)
    requires
        q.sorted_by_kind(),
    ensures
        q.after_pick(agents, max).sorted_by_kind(),
        q.after_pick(agents, max).contents().add(
            strategy::assigned_actions(q.picked(agents, max)).to_multiset(),
        ) == q.contents(),
{
    let a = q.after_pick(agents, max);
    let d = q.dispatched(agents, max);
    assert(strategy::assigned_actions(q.picked(agents, max)) =~= d);
    lemma_pick_conserves_kind(q, agents, max, ActionKind::Cancel);
    lemma_pick_conserves_kind(q, agents, max, ActionKind::Restore);
    lemma_pick_conserves_kind(q, agents, max, ActionKind::Archive);
    lemma_pick_conserves_kind(q, agents, max, ActionKind::Remove);
    lemma_kinds_multiset(d);
    assert(a.queue(ActionKind::Archive) == a.archive);
    assert(a.contents().add(d.to_multiset()) =~= q.contents());
    assert forall|k: ActionKind, i: int| 0 <= i < a.queue(k).len() implies (#[trigger] a.queue(
        k,
    )[i]).kind == k by {
        assert(a.queue(k) == q.remaining(agents, max, k));
        lemma_remaining_kind(q, agents, max, k, i);
    }
}

/// Splitting a sequence at `n` and its head by who can run it.
proof fn lemma_split_by_can(s: Seq<ActionView>, n: int, agents: Seq<AgentInfoView>)
    requires
        0 <= n <= s.len(),
    ensures
        (s.take(n).filter(cannot(agents)) + s.skip(n)).to_multiset().add(
            s.take(n).filter(can(agents)).to_multiset(),
        ) =~= s.to_multiset(),
        (s.take(n).filter(cannot(agents)) + s.skip(n)).len() + s.take(n).filter(can(agents)).len()
            == s.len(),
{
    let p = s.take(n);
    let rest = s.skip(n);
    lemma_filter_multiset(p, agents);
    vstd::seq_lib::lemma_multiset_commutative(p.filter(cannot(agents)), rest);
    vstd::seq_lib::lemma_multiset_commutative(p, rest);
    assert(p + rest =~= s);
    lemma_filter_lens(p, agents);
}

/// Lengths of a filter and its opposite.
proof fn lemma_filter_lens(s: Seq<ActionView>, agents: Seq<AgentInfoView>)
    ensures
        s.filter(can(agents)).len() + s.filter(cannot(agents)).len() == s.len(),
    decreases s.len(),
{
    reveal(Seq::filter);
    if s.len() > 0 {
        lemma_filter_lens(s.drop_last(), agents);
    }
}

/// Lengths of the four kinds.
proof fn lemma_kinds_lens(s: Seq<ActionView>)
    ensures
        s.len() == s.filter(strategy::of_kind(ActionKind::Cancel)).len() + s.filter(
            strategy::of_kind(ActionKind::Restore),
        ).len() + s.filter(strategy::of_kind(ActionKind::Archive)).len() + s.filter(
            strategy::of_kind(ActionKind::Remove),
        ).len(),
    decreases s.len(),
{
    reveal(Seq::filter);
    if s.len() > 0 {
        lemma_kinds_lens(s.drop_last());
    }
}

/// Of a prefix of `s`, what passes `f` is a prefix of what passes it in all of `s`,
/// whether or not `g` is applied to both.
proof fn lemma_prefix_filtered<A>(
    s: Seq<A>,
    t: int,
    f: spec_fn(A) -> bool,
    g: spec_fn(A) -> bool,
)
    requires
        0 <= t <= s.len(),
    ensures
        s.take(t).filter(f).len() <= s.filter(f).len(),
        s.take(t).filter(f) == s.filter(f).take(s.take(t).filter(f).len() as int),
        s.take(t).filter(g).filter(f) == s.filter(f).take(
            s.take(t).filter(f).len() as int,
        ).filter(g),
        t == s.len() ==> s.take(t).filter(f).len() == s.filter(f).len(),
{
    lemma_filter_prefix(s, t, f);
    lemma_filter_commutes(s.take(t), g, f);
    if t == s.len() {
        assert(s.take(t) =~= s);
    }
}

/// The examined actions of one kind are the head of its queue.
#[verifier::spinoff_prover]
proof fn lemma_examined_kind(q: FifoView, agents: Seq<AgentInfoView>, max: nat, k: ActionKind)
    requires
        q.sorted_by_kind(),
    ensures
        q.examined(agents, max).filter(strategy::of_kind(k)).len() <= q.queue(k).len(),
        q.examined(agents, max).filter(strategy::of_kind(k)) == q.queue(k).take(
            q.examined(agents, max).filter(strategy::of_kind(k)).len() as int,
        ),
        q.dispatched(agents, max).filter(strategy::of_kind(k)) == q.queue(k).take(
            q.examined(agents, max).filter(strategy::of_kind(k)).len() as int,
        ).filter(can(agents)),
        taken(q.order(), agents, max) == q.order().len() ==> q.examined(agents, max).filter(
            strategy::of_kind(k),
        ).len() == q.queue(k).len(),
{
    let o = q.order();
    lemma_taken_bound(o, agents, max);
    lemma_order_by_kind(q, k);
    lemma_prefix_filtered(
        o,
        taken(o, agents, max) as int,
        strategy::of_kind(k),
        can(agents),
    );
}

/// Conservation within one kind.
proof fn lemma_pick_conserves_kind(q: FifoView, agents: Seq<AgentInfoView>, max: nat, k: ActionKind)
    requires
        q.sorted_by_kind(),
    ensures
        q.remaining(agents, max, k).to_multiset().add(
            q.dispatched(agents, max).filter(strategy::of_kind(k)).to_multiset(),
        ) =~= q.queue(k).to_multiset(),
        q.remaining(agents, max, k).len() + q.dispatched(agents, max).filter(strategy::of_kind(k)).len()
            == q.queue(k).len(),
{
    lemma_examined_kind(q, agents, max, k);
    lemma_split_by_can(
        q.queue(k),
        q.examined(agents, max).filter(strategy::of_kind(k)).len() as int,
        agents,
    );
}

/// What stays in the queue of one kind is of that kind.
proof fn lemma_remaining_kind(
    q: FifoView,
    agents: Seq<AgentInfoView>,
    max: nat,
    k: ActionKind,
    i: int,
)
    requires
        q.sorted_by_kind(),
        0 <= i < q.remaining(agents, max, k).len(),
    ensures
        q.remaining(agents, max, k)[i].kind == k,
{
    let n = q.examined(agents, max).filter(strategy::of_kind(k)).len() as int;
    lemma_examined_kind(q, agents, max, k);
    let p = q.queue(k).take(n);
    let head = p.filter(cannot(agents));
    lemma_filter_members(p, cannot(agents));
    if i < head.len() {
        assert(p.contains(head[i]));
        let j = choose|j: int| 0 <= j < p.len() && p[j] == head[i];
        assert(q.queue(k)[j].kind == k);
    } else {
        assert(q.remaining(agents, max, k)[i] == q.queue(k)[i - head.len() + n]);
    }
}

/// First in, first out: of one kind, the actions that some agent can run leave in
/// the order in which they came. What a pick assigns, followed by what it leaves
/// waiting, is what waited before. The actions that no agent can run keep their
/// order too.
pub proof fn lemma_pick_fifo(q: FifoView, agents: Seq<AgentInfoView>, max: nat, k: ActionKind)
    requires
        q.sorted_by_kind(),
    ensures
        strategy::assigned_actions(q.picked(agents, max)).filter(strategy::of_kind(k)) + q.after_pick(
            agents,
            max,
        ).queue(k).filter(can(agents)) == q.queue(k).filter(can(agents)),
        q.after_pick(agents, max).queue(k).filter(cannot(agents)) == q.queue(k).filter(
            cannot(agents),
        ),
{
    let s = q.queue(k);
    let n = q.examined(agents, max).filter(strategy::of_kind(k)).len() as int;
    lemma_examined_kind(q, agents, max, k);
    let head = s.take(n);
    let rest = s.skip(n);
    let stay = head.filter(cannot(agents));
    assert(strategy::assigned_actions(q.picked(agents, max)) =~= q.dispatched(agents, max));
    assert(q.after_pick(agents, max).queue(k) == stay + rest);
    assert(head + rest =~= s);
    lemma_filter_members(head, cannot(agents));
    lemma_filter_none(stay, can(agents));
    lemma_filter_all(stay, cannot(agents));
    Seq::filter_distributes_over_add(head, rest, can(agents));
    Seq::filter_distributes_over_add(head, rest, cannot(agents));
    Seq::filter_distributes_over_add(stay, rest, can(agents));
    Seq::filter_distributes_over_add(stay, rest, cannot(agents));
    assert(Seq::<ActionView>::empty() + rest.filter(can(agents)) =~= rest.filter(can(agents)));
}

/// Each assignment takes one action out of the queues.
pub proof fn lemma_pick_depth(q: FifoView, agents: Seq<AgentInfoView>, max: nat)
    requires
        q.sorted_by_kind(),
    ensures
        q.after_pick(agents, max).depth() + q.picked(agents, max).len() == q.depth(),
{
    lemma_pick_conserves_kind(q, agents, max, ActionKind::Cancel);
    lemma_pick_conserves_kind(q, agents, max, ActionKind::Restore);
    lemma_pick_conserves_kind(q, agents, max, ActionKind::Archive);
    lemma_pick_conserves_kind(q, agents, max, ActionKind::Remove);
    lemma_kinds_lens(q.dispatched(agents, max));
}

/// Nothing ready is left lying: if fewer than `max` actions were assigned, no
/// agent can run any of those that still wait.
pub proof fn lemma_pick_exhaustive(
    q: FifoView,
    agents: Seq<AgentInfoView>,
    max: nat,
    k: ActionKind,
    i: int,
)
    requires
        q.sorted_by_kind(),
        q.picked(agents, max).len() < max,
        0 <= i < q.after_pick(agents, max).queue(k).len(),
    ensures
        !servable(agents, q.after_pick(agents, max).queue(k)[i]),
{
    lemma_taken_count(q.order(), agents, max);
    lemma_examined_kind(q, agents, max, k);
    lemma_looked_at_whole(q, agents, max, k, i);
}

/// When no agent can run anything that waits, a pick assigns nothing and every
/// queue keeps its order.
pub proof fn lemma_pick_idle(q: FifoView, agents: Seq<AgentInfoView>, max: nat)
    requires
        q.sorted_by_kind(),
        forall|i: int| 0 <= i < q.order().len() ==> !servable(agents, #[trigger] q.order()[i]),
    ensures
        q.picked(agents, max) == Seq::<AssignmentView>::empty(),
        q.after_pick(agents, max) == q,
{
    let o = q.order();
    lemma_taken_bound(o, agents, max);
    let e = q.examined(agents, max);
    lemma_filter_none(e, can(agents));
    assert(q.picked(agents, max) =~= Seq::<AssignmentView>::empty());
    let a = q.after_pick(agents, max);
    assert forall|k: ActionKind| #[trigger] a.queue(k) == q.queue(k) by {
        lemma_idle_kind(q, agents, max, k);
        assert(a.queue(k) == q.remaining(agents, max, k));
    }
    assert(a.queue(ActionKind::Archive) == a.archive);
    assert(a.queue(ActionKind::Restore) == a.restore);
    assert(a.queue(ActionKind::Remove) == a.remove);
    assert(a.queue(ActionKind::Cancel) == a.cancel);
    let d = q.dispatched(agents, max);
    assert forall|x: u32| (#[trigger] a.rr.contains_key(x)) == q.rr.contains_key(x) by {
        lemma_filter_none(d, of_archive(x));
    }
    assert forall|x: u32| q.rr.contains_key(x) implies #[trigger] a.rr[x] == q.rr[x] by {
        lemma_filter_none(d, of_archive(x));
    }
    assert(a.rr =~= q.rr);
    assert(a =~= q);
}

/// A queue nobody can serve stays as it is.
proof fn lemma_idle_kind(q: FifoView, agents: Seq<AgentInfoView>, max: nat, k: ActionKind)
    requires
        q.sorted_by_kind(),
        forall|i: int| 0 <= i < q.order().len() ==> !servable(agents, #[trigger] q.order()[i]),
    ensures
        q.remaining(agents, max, k) == q.queue(k),
{
    let s = q.queue(k);
    let n = q.examined(agents, max).filter(strategy::of_kind(k)).len() as int;
    lemma_examined_kind(q, agents, max, k);
    let p = s.take(n);
    assert forall|j: int| 0 <= j < p.len() implies cannot(agents)(#[trigger] p[j]) by {
        lemma_queued_is_ordered(q, k, j);
        let x = choose|x: int| 0 <= x < q.order().len() && q.order()[x] == s[j];
        assert(!servable(agents, q.order()[x]));
    }
    lemma_filter_all(p, cannot(agents));
    assert(p + s.skip(n) =~= s);
}

/// What is queued has its place in the order.
proof fn lemma_queued_is_ordered(q: FifoView, k: ActionKind, j: int)
    requires
        q.sorted_by_kind(),
        0 <= j < q.queue(k).len(),
    ensures
        exists|x: int| 0 <= x < q.order().len() && q.order()[x] == q.queue(k)[j],
{
    lemma_order_by_kind(q, k);
    lemma_filter_members(q.order(), strategy::of_kind(k));
    assert(q.order().contains(q.order().filter(strategy::of_kind(k))[j]));
}

/// The background kinds.
pub open spec fn background(k: ActionKind) -> bool {
    k == ActionKind::Archive || k == ActionKind::Remove
}

/// In the order, no urgent action comes behind a background one.
proof fn lemma_order_urgent_first(q: FifoView, i: int, j: int)
    requires
        q.sorted_by_kind(),
        0 <= i < j < q.order().len(),
        background(q.order()[i].kind),
    ensures
        background(q.order()[j].kind),
{
    let u = urgent_order(q.cancel, q.restore);
    lemma_queues_all_of(q);
    lemma_urgent_kinds(q.cancel, q.restore);
    if j < u.len() {
        assert(q.order()[i] == u[i]);
    } else if j < u.len() + q.archive.len() {
        assert(q.order()[j] == q.queue(ActionKind::Archive)[j - u.len()]);
    } else {
        assert(q.order()[j] == q.queue(ActionKind::Remove)[j - u.len() - q.archive.len()]);
    }
}

/// The urgent order holds urgent actions only.
proof fn lemma_urgent_kinds(cancel: Seq<ActionView>, restore: Seq<ActionView>)
    requires
        all_of(cancel, ActionKind::Cancel),
        all_of(restore, ActionKind::Restore),
    ensures
        forall|i: int|
            0 <= i < urgent_order(cancel, restore).len() ==> !background(
                (#[trigger] urgent_order(cancel, restore)[i]).kind,
            ),
    decreases cancel.len() + restore.len(),
{
    let o = urgent_order(cancel, restore);
    lemma_filter_kind(cancel, ActionKind::Cancel, ActionKind::Cancel);
    lemma_filter_kind(restore, ActionKind::Restore, ActionKind::Restore);
    if cancel.len() == 0 {
        reveal(all_of);
    } else if cancel.len() >= restore.len() {
        lemma_urgent_kinds(cancel.drop_first(), restore);
        let r = urgent_order(cancel.drop_first(), restore);
        assert forall|i: int| 0 <= i < o.len() implies !background((#[trigger] o[i]).kind) by {
            if i > 0 {
                assert(o[i] == r[i - 1]);
            }
        }
    } else {
        lemma_urgent_kinds(cancel, restore.drop_first());
        let r = urgent_order(cancel, restore.drop_first());
        assert forall|i: int| 0 <= i < o.len() implies !background((#[trigger] o[i]).kind) by {
            if i > 0 {
                assert(o[i] == r[i - 1]);
            }
        }
    }
}

/// Once an action of `s` is late, all behind it are.
spec fn late_stays(s: Seq<ActionView>, late: spec_fn(ActionView) -> bool) -> bool {
    forall|i: int, j: int| 0 <= i < j < s.len() && late(#[trigger] s[i]) ==> late(#[trigger] s[j])
}

/// A filtered sequence keeps any "once this, then always this" pattern.
proof fn lemma_filter_keeps_tail(
    s: Seq<ActionView>,
    f: spec_fn(ActionView) -> bool,
    late: spec_fn(ActionView) -> bool,
)
    requires
        late_stays(s, late),
    ensures
        late_stays(s.filter(f), late),
    decreases s.len(),
{
    reveal(Seq::filter);
    if s.len() > 0 {
        let p = s.drop_last();
        assert forall|i: int, j: int| 0 <= i < j < p.len() && late(#[trigger] p[i]) implies late(
            #[trigger] p[j],
        ) by {
            assert(p[i] == s[i] && p[j] == s[j]);
        }
        lemma_filter_keeps_tail(p, f, late);
        lemma_filter_members(p, f);
        let g = s.filter(f);
        assert forall|i: int, j: int| 0 <= i < j < g.len() && late(#[trigger] g[i]) implies late(
            #[trigger] g[j],
        ) by {
            assert(g[i] == p.filter(f)[i]);
            if j < p.filter(f).len() {
                assert(g[j] == p.filter(f)[j]);
            } else {
                let m = choose|m: int| 0 <= m < p.len() && p[m] == p.filter(f)[i];
                assert(s[m] == g[i]);
                assert(g[j] == s[s.len() - 1]);
            }
        }
    }
}

/// What is late in the order is late among the assignments.
proof fn lemma_picked_late(
    q: FifoView,
    agents: Seq<AgentInfoView>,
    max: nat,
    late: spec_fn(ActionView) -> bool,
    i: int,
    j: int,
)
    requires
        late_stays(q.order(), late),
        0 <= i < j < q.picked(agents, max).len(),
        late(q.picked(agents, max)[i].action),
    ensures
        late(q.picked(agents, max)[j].action),
{
    let o = q.order();
    let e = q.examined(agents, max);
    lemma_taken_count(o, agents, max);
    assert forall|a: int, b: int| 0 <= a < b < e.len() && late(#[trigger] e[a]) implies late(
        #[trigger] e[b],
    ) by {
        assert(e[a] == o[a] && e[b] == o[b]);
    }
    lemma_filter_keeps_tail(e, can(agents), late);
    let d = q.dispatched(agents, max);
    assert(q.picked(agents, max)[i].action == d[i]);
    assert(q.picked(agents, max)[j].action == d[j]);
}

/// Restore and Cancel actions are assigned before any Archive or Remove action.
pub proof fn lemma_pick_urgent_first(
    q: FifoView,
    agents: Seq<AgentInfoView>,
    max: nat,
    i: int,
    j: int,
)
    requires
        q.sorted_by_kind(),
        0 <= i < j < q.picked(agents, max).len(),
        background(q.picked(agents, max)[i].action.kind),
    ensures
        background(q.picked(agents, max)[j].action.kind),
{
    let o = q.order();
    let late = |a: ActionView| background(a.kind);
    assert forall|a: int, b: int| 0 <= a < b < o.len() && late(#[trigger] o[a]) implies late(
        #[trigger] o[b],
    ) by {
        lemma_order_urgent_first(q, a, b);
    }
    lemma_picked_late(q, agents, max, late, i, j);
}

/// In the order, nothing but Remove actions comes behind a Remove action.
proof fn lemma_order_remove_last(q: FifoView, i: int, j: int)
    requires
        q.sorted_by_kind(),
        0 <= i < j < q.order().len(),
        q.order()[i].kind == ActionKind::Remove,
    ensures
        q.order()[j].kind == ActionKind::Remove,
{
    let u = urgent_order(q.cancel, q.restore);
    let n = u.len() + q.archive.len();
    lemma_queues_all_of(q);
    lemma_urgent_kinds(q.cancel, q.restore);
    if i < u.len() {
        assert(q.order()[i] == u[i]);
        assert(!background(u[i].kind));
    } else if i < n {
        assert(q.order()[i] == q.queue(ActionKind::Archive)[i - u.len()]);
    } else {
        assert(q.order()[j] == q.queue(ActionKind::Remove)[j - n]);
    }
}

/// Archive actions are assigned before any Remove action, as are all others.
pub proof fn lemma_pick_remove_last(
    q: FifoView,
    agents: Seq<AgentInfoView>,
    max: nat,
    i: int,
    j: int,
)
    requires
        q.sorted_by_kind(),
        0 <= i < j < q.picked(agents, max).len(),
        q.picked(agents, max)[i].action.kind == ActionKind::Remove,
    ensures
        q.picked(agents, max)[j].action.kind == ActionKind::Remove,
{
    let o = q.order();
    let late = |a: ActionView| a.kind == ActionKind::Remove;
    assert forall|a: int, b: int| 0 <= a < b < o.len() && late(#[trigger] o[a]) implies late(
        #[trigger] o[b],
    ) by {
        lemma_order_remove_last(q, a, b);
    }
    lemma_picked_late(q, agents, max, late, i, j);
}

/// Of a queue that was looked at whole, only what no agent can run stays.
proof fn lemma_looked_at_whole(
    q: FifoView,
    agents: Seq<AgentInfoView>,
    max: nat,
    k: ActionKind,
    m: int,
)
    requires
        q.examined(agents, max).filter(strategy::of_kind(k)).len() == q.queue(k).len(),
        0 <= m < q.after_pick(agents, max).queue(k).len(),
    ensures
        !servable(agents, q.after_pick(agents, max).queue(k)[m]),
{
    let s = q.queue(k);
    let n = s.len() as int;
    assert(s.take(n) =~= s);
    assert(s.skip(n) =~= Seq::<ActionView>::empty());
    assert(q.after_pick(agents, max).queue(k) == q.remaining(agents, max, k));
    assert(q.remaining(agents, max, k) =~= s.filter(cannot(agents)));
    lemma_filter_members(s, cannot(agents));
    assert(cannot(agents)(s.filter(cannot(agents))[m]));
}

/// An action that was assigned was looked at.
proof fn lemma_picked_looked_at(q: FifoView, agents: Seq<AgentInfoView>, max: nat, i: int) -> (x:
    int)
    requires
        0 <= i < q.picked(agents, max).len(),
    ensures
        0 <= x < taken(q.order(), agents, max) <= q.order().len(),
        q.order()[x] == q.picked(agents, max)[i].action,
{
    let e = q.examined(agents, max);
    let d = q.dispatched(agents, max);
    lemma_taken_bound(q.order(), agents, max);
    lemma_filter_members(e, can(agents));
    assert(e.contains(d[i]));
    let x = choose|x: int| 0 <= x < e.len() && e[x] == d[i];
    assert(q.order()[x] == e[x]);
    x
}

/// No Remove action overtakes: if one was assigned, no Archive action that some
/// agent can run was left waiting.
pub proof fn lemma_pick_no_archive_left(
    q: FifoView,
    agents: Seq<AgentInfoView>,
    max: nat,
    i: int,
    m: int,
)
    requires
        q.sorted_by_kind(),
        0 <= i < q.picked(agents, max).len(),
        q.picked(agents, max)[i].action.kind == ActionKind::Remove,
        0 <= m < q.after_pick(agents, max).archive.len(),
    ensures
        !servable(agents, q.after_pick(agents, max).archive[m]),
{
    let k = ActionKind::Archive;
    let f = strategy::of_kind(k);
    let u = urgent_order(q.cancel, q.restore);
    let front = u + q.archive;
    let x = lemma_picked_looked_at(q, agents, max, i);
    let t = taken(q.order(), agents, max) as int;
    lemma_queues_all_of(q);
    lemma_urgent_kinds(q.cancel, q.restore);
    if x < u.len() {
        assert(q.order()[x] == u[x]);
        assert(!background(u[x].kind));
    } else if x < front.len() {
        assert(q.order()[x] == q.queue(k)[x - u.len()]);
    }
    assert(t >= front.len());
    let rest = q.order().subrange(front.len() as int, t);
    let e = q.examined(agents, max);
    assert(e =~= front + rest);
    Seq::filter_distributes_over_add(front, rest, f);
    Seq::filter_distributes_over_add(u, q.archive, f);
    lemma_filter_kind(q.archive, k, k);
    lemma_examined_kind(q, agents, max, k);
    assert(e.filter(f).len() >= q.archive.len());
    lemma_looked_at_whole(q, agents, max, k, m);
}

/// No Archive or Remove action overtakes: if one was assigned, no Restore or
/// Cancel action that some agent can run was left waiting.
pub proof fn lemma_pick_no_urgent_left(
    q: FifoView,
    agents: Seq<AgentInfoView>,
    max: nat,
    i: int,
    k: ActionKind,
    m: int,
)
    requires
        q.sorted_by_kind(),
        0 <= i < q.picked(agents, max).len(),
        background(q.picked(agents, max)[i].action.kind),
        !background(k),
        0 <= m < q.after_pick(agents, max).queue(k).len(),
    ensures
        !servable(agents, q.after_pick(agents, max).queue(k)[m]),
{
    let u = urgent_order(q.cancel, q.restore);
    let x = lemma_picked_looked_at(q, agents, max, i);
    let t = taken(q.order(), agents, max) as int;
    lemma_queues_all_of(q);
    lemma_urgent_kinds(q.cancel, q.restore);
    if x < u.len() {
        assert(q.order()[x] == u[x]);
    }
    assert(t >= u.len());
    let rest = q.order().subrange(u.len() as int, t);
    let e = q.examined(agents, max);
    assert(e =~= u + rest);
    Seq::filter_distributes_over_add(u, rest, strategy::of_kind(k));
    lemma_urgent_order(q.cancel, q.restore, k);
    reveal(urgent_of);
    lemma_examined_kind(q, agents, max, k);
    lemma_looked_at_whole(q, agents, max, k, m);
}

/// Two picks in a row for one archive go to different agents when two or more
/// serve it, unless the turn counter wraps in between.
pub proof fn lemma_pick_takes_turns(
    q: FifoView,
    agents: Seq<AgentInfoView>,
    max: nat,
    i: int,
    j: int,
)
    requires
        agent::distinct_ids(agents),
        0 <= i < j < q.picked(agents, max).len(),
        q.picked(agents, max)[i].action.archive_id == q.picked(agents, max)[j].action.archive_id,
        forall|m: int|
            i < m < j ==> (#[trigger] q.picked(agents, max)[m]).action.archive_id != q.picked(
                agents,
                max,
            )[i].action.archive_id,
        agent::serving(agents, q.picked(agents, max)[i].action.archive_id.0).len() >= 2,
        q.cursor(q.picked(agents, max)[i].action.archive_id.0) + j < usize::MAX,
    ensures
        q.picked(agents, max)[i].agent != q.picked(agents, max)[j].agent,
{
    let d = q.dispatched(agents, max);
    let x = d[i].archive_id.0;
    let c = agent::serving(agents, x);
    let f = of_archive(x);
    assert(q.picked(agents, max)[i].action == d[i]);
    assert(q.picked(agents, max)[j].action == d[j]);
    let ni = d.take(i).filter(f).len();
    let nj = d.take(j).filter(f).len();
    assert(d.take(i + 1) =~= d.take(i).push(d[i]));
    lemma_filter_push(d.take(i), d[i], f);
    let mid = d.subrange(i + 1, j);
    assert(d.take(j) =~= d.take(i + 1) + mid);
    assert forall|m: int| 0 <= m < mid.len() implies !f(#[trigger] mid[m]) by {
        assert(mid[m] == d[m + i + 1]);
        assert(q.picked(agents, max)[m + i + 1].action == d[m + i + 1]);
    }
    lemma_filter_none(mid, f);
    Seq::filter_distributes_over_add(d.take(i + 1), mid, f);
    assert(nj == ni + 1);
    lemma_filter_members(d.take(j), f);
    let base = q.cursor(x) as int;
    let n = c.len() as int;
    vstd::arithmetic::div_mod::lemma_small_mod((base + ni) as nat, (usize::MAX + 1) as nat);
    vstd::arithmetic::div_mod::lemma_small_mod((base + nj) as nat, (usize::MAX + 1) as nat);
    let a = (base + ni) % n;
    let b = (base + nj) % n;
    vstd::arithmetic::div_mod::lemma_mod_bound(base + ni, n);
    vstd::arithmetic::div_mod::lemma_mod_bound(base + nj, n);
    if a == b {
        vstd::arithmetic::div_mod::lemma_fundamental_div_mod(base + ni, n);
        vstd::arithmetic::div_mod::lemma_fundamental_div_mod(base + nj, n);
        let qa = (base + ni) / n;
        let qb = (base + nj) / n;
        assert(n * (qb - qa) == 1) by (nonlinear_arith)
            requires
                base + ni == n * qa + a,
                base + ni + 1 == n * qb + b,
                a == b,
        ;
        assert(false) by (nonlinear_arith)
            requires
                n * (qb - qa) == 1,
                n >= 2,
        ;
    }
    lemma_serving_distinct(agents, x);
    assert(c[a].id != c[b].id);
}

/// The agents serving an archive have distinct ids.
pub proof fn lemma_serving_distinct(agents: Seq<AgentInfoView>, x: u32)
    requires
        agent::distinct_ids(agents),
    ensures
        agent::distinct_ids(agent::serving(agents, x)),
    decreases agents.len(),
{
    reveal(Seq::filter);
    if agents.len() > 0 {
        let p = agents.drop_last();
        assert forall|i: int, j: int| 0 <= i < j < p.len() implies p[i].id != p[j].id by {
            assert(p[i] == agents[i] && p[j] == agents[j]);
        }
        lemma_serving_distinct(p, x);
        agent::lemma_serving(p, x);
        let t = agent::serving(agents, x);
        let u = agent::serving(p, x);
        assert forall|i: int, j: int| 0 <= i < j < t.len() implies t[i].id != t[j].id by {
            if j < u.len() {
                assert(t[i] == u[i] && t[j] == u[j]);
            } else {
                assert(t[i] == u[i]);
                assert(u.contains(u[i]));
                let m = choose|m: int| 0 <= m < p.len() && p[m] == u[i];
                assert(agents[m] == u[i]);
                assert(t[j] == agents[agents.len() - 1]);
            }
        }
    }
}

} // verus!
