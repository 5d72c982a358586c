//! Scheduling: what leaves the queues next, and to whom it goes.

use crate::model::action::ActionView;
use crate::model::{Action, ActionKind, AgentId, ArchiveId, Timestamp};
use crate::scheduler::agent;
use crate::scheduler::agent::{AgentInfo, AgentInfoView, AgentRegistry};
use crate::scheduler::fifo;
use crate::scheduler::fifo::{FifoPerKind, FifoView};
use crate::scheduler::strategy;
use crate::scheduler::strategy::{Assignment, Scheduler};
use vstd::prelude::*;

verus! {

// ---------------------------------------------------------------------------
// Which action is next
// ---------------------------------------------------------------------------

/// How many actions of kind `k` are among the first `i` of `s`.
pub open spec fn gone(s: Seq<ActionView>, i: int, k: ActionKind) -> int {
    s.take(i).filter(strategy::of_kind(k)).len() as int
}

/// Of Restore and Cancel the longer queue goes first, and Cancel when neither is
/// longer: a Cancel is looked at only while no more Restores than Cancels are left,
/// a Restore only while more Restores are left.
pub proof fn lemma_longer_queue_first(cancel: Seq<ActionView>, restore: Seq<ActionView>, i: int)
    requires
        forall|j: int| 0 <= j < cancel.len() ==> (#[trigger] cancel[j]).kind == ActionKind::Cancel,
        forall|j: int| 0 <= j < restore.len() ==> (#[trigger] restore[j]).kind == ActionKind::Restore,
        0 <= i < fifo::urgent_order(cancel, restore).len(),
    ensures
        fifo::urgent_order(cancel, restore).len() == cancel.len() + restore.len(),
        ({
            let o = fifo::urgent_order(cancel, restore);
            let cancels = cancel.len() - gone(o, i, ActionKind::Cancel);
            let restores = restore.len() - gone(o, i, ActionKind::Restore);
            &&& cancels >= 0 && restores >= 0
            &&& o[i].kind == ActionKind::Cancel || o[i].kind == ActionKind::Restore
            &&& o[i].kind == ActionKind::Cancel ==> cancels > 0 && cancels >= restores
            &&& o[i].kind == ActionKind::Restore ==> restores > cancels
        }),
    decreases cancel.len() + restore.len(),
{
    let o = fifo::urgent_order(cancel, restore);
    let is_cancel = strategy::of_kind(ActionKind::Cancel);
    let is_restore = strategy::of_kind(ActionKind::Restore);
    if i == 0 {
        fifo::lemma_filter_none(o.take(0), is_cancel);
        fifo::lemma_filter_none(o.take(0), is_restore);
    }
    if cancel.len() == 0 {
        fifo::lemma_filter_none(o.take(i), is_cancel);
        fifo::lemma_filter_all(o.take(i), is_restore);
    } else if cancel.len() >= restore.len() {
        let rest = fifo::urgent_order(cancel.drop_first(), restore);
        if i > 0 {
            lemma_longer_queue_first(cancel.drop_first(), restore, i - 1);
            assert(o.take(i) =~= seq![cancel[0]] + rest.take(i - 1));
            assert(o[i] == rest[i - 1]);
            fifo::lemma_filter_front(cancel[0], rest.take(i - 1), is_cancel);
            fifo::lemma_filter_front(cancel[0], rest.take(i - 1), is_restore);
        } else {
            lemma_urgent_len(cancel.drop_first(), restore);
        }
    } else {
        let rest = fifo::urgent_order(cancel, restore.drop_first());
        if i > 0 {
            lemma_longer_queue_first(cancel, restore.drop_first(), i - 1);
            assert(o.take(i) =~= seq![restore[0]] + rest.take(i - 1));
            assert(o[i] == rest[i - 1]);
            fifo::lemma_filter_front(restore[0], rest.take(i - 1), is_cancel);
            fifo::lemma_filter_front(restore[0], rest.take(i - 1), is_restore);
        } else {
            lemma_urgent_len(cancel, restore.drop_first());
        }
    }
}

/// Each urgent action is looked at once.
proof fn lemma_urgent_len(cancel: Seq<ActionView>, restore: Seq<ActionView>)
    ensures
        fifo::urgent_order(cancel, restore).len() == cancel.len() + restore.len(),
    decreases cancel.len() + restore.len(),
{
    if cancel.len() == 0 {
    } else if cancel.len() >= restore.len() {
        lemma_urgent_len(cancel.drop_first(), restore);
    } else {
        lemma_urgent_len(cancel, restore.drop_first());
    }
}

/// When everything can run, a pick looks at as many actions as it may assign.
proof fn lemma_taken_all(o: Seq<ActionView>, agents: Seq<AgentInfoView>, max: nat)
    requires
        forall|j: int| 0 <= j < o.len() ==> fifo::servable(agents, #[trigger] o[j]),
    ensures
        fifo::taken(o, agents, max) == if max < o.len() {
            max
        } else {
            o.len()
        },
    decreases o.len(),
{
    if o.len() > 0 && max > 0 {
        lemma_taken_all(o.drop_first(), agents, (max - 1) as nat);
    }
}

/// Every urgent action comes from one of the two queues.
proof fn lemma_urgent_members(cancel: Seq<ActionView>, restore: Seq<ActionView>)
    ensures
        forall|j: int|
            0 <= j < fifo::urgent_order(cancel, restore).len() ==> cancel.contains(
                #[trigger] fifo::urgent_order(cancel, restore)[j],
            ) || restore.contains(fifo::urgent_order(cancel, restore)[j]),
    decreases cancel.len() + restore.len(),
{
    let o = fifo::urgent_order(cancel, restore);
    if cancel.len() == 0 {
    } else if cancel.len() >= restore.len() {
        let c = cancel.drop_first();
        lemma_urgent_members(c, restore);
        assert forall|j: int| 0 <= j < o.len() implies cancel.contains(#[trigger] o[j])
            || restore.contains(o[j]) by {
            if j == 0 {
                assert(cancel[0] == o[0]);
            } else {
                assert(o[j] == fifo::urgent_order(c, restore)[j - 1]);
                if c.contains(o[j]) {
                    let m = choose|m: int| 0 <= m < c.len() && c[m] == o[j];
                    assert(cancel[m + 1] == o[j]);
                }
            }
        }
    } else {
        let r = restore.drop_first();
        lemma_urgent_members(cancel, r);
        assert forall|j: int| 0 <= j < o.len() implies cancel.contains(#[trigger] o[j])
            || restore.contains(o[j]) by {
            if j == 0 {
                assert(restore[0] == o[0]);
            } else {
                assert(o[j] == fifo::urgent_order(cancel, r)[j - 1]);
                if r.contains(o[j]) {
                    let m = choose|m: int| 0 <= m < r.len() && r[m] == o[j];
                    assert(restore[m + 1] == o[j]);
                }
            }
        }
    }
}

/// Everything that waits can run.
pub open spec fn all_can_run(q: FifoView, agents: Seq<AgentInfoView>) -> bool {
    forall|k: ActionKind, j: int|
        0 <= j < q.queue(k).len() ==> fifo::servable(agents, #[trigger] q.queue(k)[j])
}

/// Every action of the order can run.
proof fn lemma_order_can_run(q: FifoView, agents: Seq<AgentInfoView>)
    requires
        all_can_run(q, agents),
    ensures
        forall|j: int| 0 <= j < q.order().len() ==> fifo::servable(agents, #[trigger] q.order()[j]),
{
    lemma_urgent_members(q.cancel, q.restore);
    let u = fifo::urgent_order(q.cancel, q.restore);
    assert forall|j: int| 0 <= j < q.order().len() implies fifo::servable(
        agents,
        #[trigger] q.order()[j],
    ) by {
        if j < u.len() {
            assert(q.order()[j] == u[j]);
            if q.cancel.contains(u[j]) {
                let m = choose|m: int| 0 <= m < q.cancel.len() && q.cancel[m] == u[j];
                assert(q.queue(ActionKind::Cancel)[m] == u[j]);
            } else {
                let m = choose|m: int| 0 <= m < q.restore.len() && q.restore[m] == u[j];
                assert(q.queue(ActionKind::Restore)[m] == u[j]);
            }
        } else if j < u.len() + q.archive.len() {
            assert(q.order()[j] == q.queue(ActionKind::Archive)[j - u.len()]);
        } else {
            assert(q.order()[j] == q.queue(ActionKind::Remove)[j - u.len() - q.archive.len()]);
        }
    }
}

/// When everything that waits can run, a pick assigns as much as it may, and what is
/// assigned next is always of the longer of the Restore and Cancel queues, of Cancel
/// when they are equally long; an Archive only when both are empty, and a Remove only
/// when nothing else is left.
pub proof fn lemma_pick_order(
    q: &mut FifoPerKind,
    agents: &AgentRegistry,
    max: usize,
    r: Vec<Assignment>,
    i: int,
)
    requires
        call_ensures(<FifoPerKind as Scheduler>::pick_ready, (q, agents, max), r),
        old(q).valid(),
        all_can_run(old(q)@, agents@),
    ensures
        r@.len() == if max < old(q)@.depth() {
            max as nat
        } else {
            old(q)@.depth()
        },
        0 <= i < r@.len() ==> ({
            let done = strategy::assigned_actions(strategy::assignment_views(r@));
            let cancels = old(q)@.cancel.len() - gone(done, i, ActionKind::Cancel);
            let restores = old(q)@.restore.len() - gone(done, i, ActionKind::Restore);
            let archives = old(q)@.archive.len() - gone(done, i, ActionKind::Archive);
            &&& r@[i]@.action.kind == ActionKind::Cancel ==> cancels > 0 && cancels >= restores
            &&& r@[i]@.action.kind == ActionKind::Restore ==> restores > cancels
            &&& r@[i]@.action.kind == ActionKind::Archive ==> archives > 0 && cancels == 0
                && restores == 0
            &&& r@[i]@.action.kind == ActionKind::Remove ==> archives == 0 && cancels == 0
                && restores == 0
        }),
{
    let v = old(q)@;
    let o = v.order();
    let u = fifo::urgent_order(v.cancel, v.restore);
    lemma_order_can_run(v, agents@);
    lemma_taken_all(o, agents@, max as nat);
    lemma_urgent_len(v.cancel, v.restore);
    let n = fifo::taken(o, agents@, max as nat) as int;
    fifo::lemma_filter_all(o.take(n), fifo::can(agents@));
    let done = strategy::assigned_actions(strategy::assignment_views(r@));
    assert(strategy::assignment_views(r@).len() == r@.len());
    assert(done =~= o.take(n));
    if 0 <= i < r@.len() {
        assert(strategy::assignment_views(r@)[i] == r@[i]@);
        assert(done[i] == o[i]);
        assert(done.take(i) =~= o.take(i));
        lemma_queue_kinds(v);
        lemma_gone(v, i);
        if i < u.len() {
            lemma_longer_queue_first(v.cancel, v.restore, i);
            assert(o.take(i) =~= u.take(i));
        }
    }
}

/// The queues hold actions of their kind.
proof fn lemma_queue_kinds(v: FifoView)
    requires
        v.sorted_by_kind(),
    ensures
        forall|j: int| 0 <= j < v.cancel.len() ==> (#[trigger] v.cancel[j]).kind == ActionKind::Cancel,
        forall|j: int| 0 <= j < v.restore.len() ==> (#[trigger] v.restore[j]).kind == ActionKind::Restore,
        forall|j: int| 0 <= j < v.archive.len() ==> (#[trigger] v.archive[j]).kind == ActionKind::Archive,
        forall|j: int| 0 <= j < v.remove.len() ==> (#[trigger] v.remove[j]).kind == ActionKind::Remove,
{
    assert forall|j: int| 0 <= j < v.cancel.len() implies (#[trigger] v.cancel[j]).kind
        == ActionKind::Cancel by {
        assert(v.cancel[j] == v.queue(ActionKind::Cancel)[j]);
    }
    assert forall|j: int| 0 <= j < v.restore.len() implies (#[trigger] v.restore[j]).kind
        == ActionKind::Restore by {
        assert(v.restore[j] == v.queue(ActionKind::Restore)[j]);
    }
    assert forall|j: int| 0 <= j < v.archive.len() implies (#[trigger] v.archive[j]).kind
        == ActionKind::Archive by {
        assert(v.archive[j] == v.queue(ActionKind::Archive)[j]);
    }
    assert forall|j: int| 0 <= j < v.remove.len() implies (#[trigger] v.remove[j]).kind
        == ActionKind::Remove by {
        assert(v.remove[j] == v.queue(ActionKind::Remove)[j]);
    }
}

/// What is gone once the urgent actions are.
proof fn lemma_gone(v: FifoView, i: int)
    requires
        v.sorted_by_kind(),
        0 <= i < v.order().len(),
    ensures
        ({
            let o = v.order();
            let u = v.cancel.len() + v.restore.len();
            let a = v.archive.len();
            &&& i < u ==> o[i].kind == ActionKind::Cancel || o[i].kind == ActionKind::Restore
            &&& u <= i ==> gone(o, i, ActionKind::Cancel) == v.cancel.len() && gone(
                o,
                i,
                ActionKind::Restore,
            ) == v.restore.len()
            &&& u <= i < u + a ==> o[i].kind == ActionKind::Archive && gone(
                o,
                i,
                ActionKind::Archive,
            ) == i - u
            &&& u + a <= i ==> o[i].kind == ActionKind::Remove && gone(o, i, ActionKind::Archive)
                == a
        }),
{
    let o = v.order();
    let ur = fifo::urgent_order(v.cancel, v.restore);
    lemma_urgent_len(v.cancel, v.restore);
    lemma_queue_kinds(v);
    if i < ur.len() {
        lemma_longer_queue_first(v.cancel, v.restore, i);
        assert(o[i] == ur[i]);
    } else {
        let m = i - ur.len();
        let later = v.archive + v.remove;
        lemma_urgent_kinds(v.cancel, v.restore);
        lemma_background(v.archive, v.remove, m);
        assert(o.take(i) =~= ur + later.take(m));
        assert(o[i] == later[m]);
        Seq::filter_distributes_over_add(
            ur,
            later.take(m),
            strategy::of_kind(ActionKind::Cancel),
        );
        Seq::filter_distributes_over_add(
            ur,
            later.take(m),
            strategy::of_kind(ActionKind::Restore),
        );
        Seq::filter_distributes_over_add(
            ur,
            later.take(m),
            strategy::of_kind(ActionKind::Archive),
        );
    }
}

/// The background actions by kind.
proof fn lemma_background(archive: Seq<ActionView>, remove: Seq<ActionView>, m: int)
    requires
        forall|j: int| 0 <= j < archive.len() ==> (#[trigger] archive[j]).kind == ActionKind::Archive,
        forall|j: int| 0 <= j < remove.len() ==> (#[trigger] remove[j]).kind == ActionKind::Remove,
        0 <= m < archive.len() + remove.len(),
    ensures
        ({
            let later = archive + remove;
            &&& gone(later, m, ActionKind::Cancel) == 0
            &&& gone(later, m, ActionKind::Restore) == 0
            &&& m < archive.len() ==> later[m].kind == ActionKind::Archive && gone(
                later,
                m,
                ActionKind::Archive,
            ) == m
            &&& archive.len() <= m ==> later[m].kind == ActionKind::Remove && gone(
                later,
                m,
                ActionKind::Archive,
            ) == archive.len()
        }),
{
    let later = archive + remove;
    let a = strategy::of_kind(ActionKind::Archive);
    let head = later.take(m);
    assert forall|j: int| 0 <= j < m implies (#[trigger] head[j]).kind == if j < archive.len() {
        ActionKind::Archive
    } else {
        ActionKind::Remove
    } by {
        if j < archive.len() {
            assert(head[j] == archive[j]);
        } else {
            assert(head[j] == remove[j - archive.len()]);
        }
    }
    fifo::lemma_filter_none(head, strategy::of_kind(ActionKind::Cancel));
    fifo::lemma_filter_none(head, strategy::of_kind(ActionKind::Restore));
    if m < archive.len() {
        fifo::lemma_filter_all(head, a);
        assert(later[m] == archive[m]);
    } else {
        let more = remove.take(m - archive.len());
        assert(head =~= archive + more);
        Seq::filter_distributes_over_add(archive, more, a);
        fifo::lemma_filter_all(archive, a);
        fifo::lemma_filter_none(more, a);
        assert(later[m] == remove[m - archive.len()]);
    }
}

/// How many of each kind the urgent actions are.
proof fn lemma_urgent_kinds(cancel: Seq<ActionView>, restore: Seq<ActionView>)
    requires
        forall|j: int| 0 <= j < cancel.len() ==> (#[trigger] cancel[j]).kind == ActionKind::Cancel,
        forall|j: int| 0 <= j < restore.len() ==> (#[trigger] restore[j]).kind == ActionKind::Restore,
    ensures
        ({
            let o = fifo::urgent_order(cancel, restore);
            &&& o.filter(strategy::of_kind(ActionKind::Cancel)).len() == cancel.len()
            &&& o.filter(strategy::of_kind(ActionKind::Restore)).len() == restore.len()
            &&& o.filter(strategy::of_kind(ActionKind::Archive)).len() == 0
        }),
    decreases cancel.len() + restore.len(),
{
    let o = fifo::urgent_order(cancel, restore);
    let c = strategy::of_kind(ActionKind::Cancel);
    let r = strategy::of_kind(ActionKind::Restore);
    let a = strategy::of_kind(ActionKind::Archive);
    if cancel.len() == 0 {
        fifo::lemma_filter_none(o, c);
        fifo::lemma_filter_all(o, r);
        fifo::lemma_filter_none(o, a);
    } else if cancel.len() >= restore.len() {
        let rest = fifo::urgent_order(cancel.drop_first(), restore);
        lemma_urgent_kinds(cancel.drop_first(), restore);
        fifo::lemma_filter_front(cancel[0], rest, c);
        fifo::lemma_filter_front(cancel[0], rest, r);
        fifo::lemma_filter_front(cancel[0], rest, a);
    } else {
        let rest = fifo::urgent_order(cancel, restore.drop_first());
        lemma_urgent_kinds(cancel, restore.drop_first());
        fifo::lemma_filter_front(restore[0], rest, c);
        fifo::lemma_filter_front(restore[0], rest, r);
        fifo::lemma_filter_front(restore[0], rest, a);
    }
}

// ---------------------------------------------------------------------------
// Who gets it
// ---------------------------------------------------------------------------

/// How many of the first `j` assignments are for archive `x`.
pub open spec fn earlier(r: Seq<Assignment>, j: int, x: u32) -> nat {
    strategy::assigned_actions(strategy::assignment_views(r)).take(j).filter(
        fifo::of_archive(x),
    ).len()
}

/// The agents that serve an archive take turns in the order of their registration;
/// the turn goes on where the last pick left it.
pub proof fn lemma_turn(
    q: &mut FifoPerKind,
    agents: &AgentRegistry,
    max: usize,
    r: Vec<Assignment>,
    j: int,
    x: u32,
)
    requires
        call_ensures(<FifoPerKind as Scheduler>::pick_ready, (q, agents, max), r),
        old(q).valid(),
    ensures
        0 <= j < r@.len() && r@[j]@.action.archive_id.0 == x && old(q)@.cursor(x) + earlier(
            r@,
            j,
            x,
        ) <= usize::MAX ==> ({
            let able = agent::serving(agents@, x);
            &&& able.len() > 0
            &&& r@[j]@.agent == able[(old(q)@.cursor(x) + earlier(r@, j, x)) % able.len() as int].id
        }),
        old(q)@.cursor(x) + earlier(r@, r@.len() as int, x) <= usize::MAX ==> final(q)@.cursor(x)
            == old(q)@.cursor(x) + earlier(r@, r@.len() as int, x),
{
    let v = old(q)@;
    let d = v.dispatched(agents@, max as nat);
    let views = strategy::assignment_views(r@);
    let done = strategy::assigned_actions(views);
    assert(views == v.picked(agents@, max as nat));
    assert(views.len() == r@.len());
    assert(done =~= d);
    assert(d.take(d.len() as int) =~= d);
    let wrap = (usize::MAX + 1) as nat;
    if v.cursor(x) + earlier(r@, r@.len() as int, x) <= usize::MAX {
        vstd::arithmetic::div_mod::lemma_small_mod(
            v.cursor(x) as nat + earlier(r@, r@.len() as int, x),
            wrap,
        );
    }
    if 0 <= j < r@.len() && r@[j]@.action.archive_id.0 == x && v.cursor(x) + earlier(r@, j, x)
        <= usize::MAX {
        assert(views[j] == r@[j]@);
        assert(d[j] == r@[j]@.action);
        vstd::arithmetic::div_mod::lemma_small_mod(
            v.cursor(x) as nat + earlier(r@, j, x),
            wrap,
        );
        fifo::lemma_pick_capable(v, agents@, max as nat);
        assert(strategy::capable(agents@, v.picked(agents@, max as nat)[j]));
        let m = choose|m: int|
            0 <= m < agents@.len() && (#[trigger] agents@[m]).id == views[j].agent
                && agents@[m].archives.contains(x);
        agent::lemma_serving(agents@, x);
        assert(agents@.contains(agents@[m]));
        assert(agent::serving(agents@, x).contains(agents@[m]));
    }
}

/// The first action ever picked for an archive goes to the first agent that serves it.
pub proof fn lemma_first_turn(
    q: &mut FifoPerKind,
    agents: &AgentRegistry,
    max: usize,
    r: Vec<Assignment>,
    j: int,
)
    requires
        call_ensures(<FifoPerKind as Scheduler>::pick_ready, (q, agents, max), r),
        old(q).valid(),
        0 <= j < r@.len(),
        !old(q)@.rr.contains_key(r@[j]@.action.archive_id.0),
        forall|m: int|
            0 <= m < j ==> (#[trigger] r@[m])@.action.archive_id != r@[j]@.action.archive_id,
    ensures
        agent::serving(agents@, r@[j]@.action.archive_id.0).len() > 0,
        r@[j]@.agent == agent::serving(agents@, r@[j]@.action.archive_id.0)[0].id,
{
    let x = r@[j]@.action.archive_id.0;
    let views = strategy::assignment_views(r@);
    let head = strategy::assigned_actions(views).take(j);
    assert forall|m: int| 0 <= m < head.len() implies !fifo::of_archive(x)(#[trigger] head[m]) by {
        assert(head[m] == r@[m]@.action);
    }
    fifo::lemma_filter_none(head, fifo::of_archive(x));
    lemma_turn(q, agents, max, r, j, x);
    vstd::arithmetic::div_mod::lemma_small_mod(0, agent::serving(agents@, x).len());
}

/// The remainder of the next number is the next remainder, or zero.
proof fn lemma_next_mod(n: int, k: int)
    requires
        0 <= n,
        0 < k,
    ensures
        (n + 1) % k == if n % k + 1 < k {
            n % k + 1
        } else {
            0
        },
{
    vstd::arithmetic::div_mod::lemma_fundamental_div_mod(n, k);
    let d = n / k;
    let m = n % k;
    if m + 1 < k {
        assert(n + 1 == d * k + (m + 1)) by (nonlinear_arith)
            requires
                n == k * d + m,
        ;
        vstd::arithmetic::div_mod::lemma_fundamental_div_mod_converse(n + 1, k, d, m + 1);
    } else {
        assert(n + 1 == (d + 1) * k + 0) by (nonlinear_arith)
            requires
                n == k * d + m,
                m + 1 == k,
        ;
        vstd::arithmetic::div_mod::lemma_fundamental_div_mod_converse(n + 1, k, d + 1, 0);
    }
}

/// After one agent the next action for the same archive goes to the agent registered
/// after it, and after the last to the first.
pub proof fn lemma_next_turn(
    q: &mut FifoPerKind,
    agents: &AgentRegistry,
    max: usize,
    r: Vec<Assignment>,
    i: int,
    j: int,
    p: int,
)
    requires
        call_ensures(<FifoPerKind as Scheduler>::pick_ready, (q, agents, max), r),
        old(q).valid(),
        agents.wf(),
        0 <= i < j < r@.len(),
        r@[i]@.action.archive_id == r@[j]@.action.archive_id,
        forall|m: int|
            i < m < j ==> (#[trigger] r@[m])@.action.archive_id != r@[j]@.action.archive_id,
        0 <= p < agent::serving(agents@, r@[j]@.action.archive_id.0).len(),
        r@[i]@.agent == agent::serving(agents@, r@[j]@.action.archive_id.0)[p].id,
        old(q)@.cursor(r@[j]@.action.archive_id.0) + j <= usize::MAX,
    ensures
        ({
            let able = agent::serving(agents@, r@[j]@.action.archive_id.0);
            r@[j]@.agent == able[if p + 1 < able.len() {
                p + 1
            } else {
                0
            }].id
        }),
{
    let x = r@[j]@.action.archive_id.0;
    let f = fifo::of_archive(x);
    let able = agent::serving(agents@, x);
    let k = able.len() as int;
    let d = strategy::assigned_actions(strategy::assignment_views(r@));
    assert(d[i] == r@[i]@.action);
    assert(d.take(i + 1) =~= d.take(i).push(d[i]));
    fifo::lemma_filter_push(d.take(i), d[i], f);
    let mid = d.subrange(i + 1, j);
    assert(d.take(j) =~= d.take(i + 1) + mid);
    assert forall|m: int| 0 <= m < mid.len() implies !f(#[trigger] mid[m]) by {
        assert(mid[m] == r@[m + i + 1]@.action);
    }
    fifo::lemma_filter_none(mid, f);
    Seq::filter_distributes_over_add(d.take(i + 1), mid, f);
    assert(earlier(r@, j, x) == earlier(r@, i, x) + 1);
    fifo::lemma_filter_members(d.take(j), f);
    lemma_turn(q, agents, max, r, i, x);
    lemma_turn(q, agents, max, r, j, x);
    let n: int = old(q)@.cursor(x) + earlier(r@, i, x);
    lemma_next_mod(n, k);
    vstd::arithmetic::div_mod::lemma_mod_bound(n, k);
    fifo::lemma_serving_distinct(agents@, x);
    assert(able[n % k].id == able[p].id);
    assert(n % k == p);
}

/// The turn goes on from one pick to the next, whatever is queued in between.
pub proof fn lemma_turns_go_on(
    one: &mut FifoPerKind,
    two: &mut FifoPerKind,
    agents: &AgentRegistry,
    max: usize,
    cap: usize,
    first: Vec<Assignment>,
    second: Vec<Assignment>,
    i: int,
    j: int,
    p: int,
)
    requires
        call_ensures(<FifoPerKind as Scheduler>::pick_ready, (one, agents, max), first),
        call_ensures(<FifoPerKind as Scheduler>::pick_ready, (two, agents, cap), second),
        old(one).valid(),
        old(two).valid(),
        agents.wf(),
        old(two)@.rr == final(one)@.rr,
        0 <= i < first@.len(),
        0 <= j < second@.len(),
        first@[i]@.action.archive_id == second@[j]@.action.archive_id,
        forall|m: int|
            i < m < first@.len() ==> (#[trigger] first@[m])@.action.archive_id
                != first@[i]@.action.archive_id,
        forall|m: int|
            0 <= m < j ==> (#[trigger] second@[m])@.action.archive_id
                != second@[j]@.action.archive_id,
        0 <= p < agent::serving(agents@, second@[j]@.action.archive_id.0).len(),
        first@[i]@.agent == agent::serving(agents@, second@[j]@.action.archive_id.0)[p].id,
        old(one)@.cursor(second@[j]@.action.archive_id.0) + first@.len() <= usize::MAX,
    ensures
        ({
            let able = agent::serving(agents@, second@[j]@.action.archive_id.0);
            second@[j]@.agent == able[if p + 1 < able.len() {
                p + 1
            } else {
                0
            }].id
        }),
{
    let x = second@[j]@.action.archive_id.0;
    let f = fifo::of_archive(x);
    let able = agent::serving(agents@, x);
    let k = able.len() as int;
    let d = strategy::assigned_actions(strategy::assignment_views(first@));
    let all = first@.len() as int;
    assert(d[i] == first@[i]@.action);
    assert(d.take(i + 1) =~= d.take(i).push(d[i]));
    fifo::lemma_filter_push(d.take(i), d[i], f);
    let mid = d.subrange(i + 1, all);
    assert(d.take(all) =~= d.take(i + 1) + mid);
    assert forall|m: int| 0 <= m < mid.len() implies !f(#[trigger] mid[m]) by {
        assert(mid[m] == first@[m + i + 1]@.action);
    }
    fifo::lemma_filter_none(mid, f);
    Seq::filter_distributes_over_add(d.take(i + 1), mid, f);
    assert(earlier(first@, all, x) == earlier(first@, i, x) + 1);
    fifo::lemma_filter_members(d.take(all), f);
    let head = strategy::assigned_actions(strategy::assignment_views(second@)).take(j);
    assert forall|m: int| 0 <= m < head.len() implies !f(#[trigger] head[m]) by {
        assert(head[m] == second@[m]@.action);
    }
    fifo::lemma_filter_none(head, f);
    lemma_turn(one, agents, max, first, i, x);
    lemma_turn(two, agents, cap, second, j, x);
    let n: int = old(one)@.cursor(x) + earlier(first@, i, x);
    lemma_next_mod(n, k);
    vstd::arithmetic::div_mod::lemma_mod_bound(n, k);
    fifo::lemma_serving_distinct(agents@, x);
    assert(able[n % k].id == able[p].id);
    assert(n % k == p);
}

/// What an agent is not registered for it never gets; what no agent is registered
/// for waits on where it was.
pub proof fn lemma_unserved_waits(
    q: &mut FifoPerKind,
    agents: &AgentRegistry,
    max: usize,
    r: Vec<Assignment>,
    k: ActionKind,
)
    requires
        call_ensures(<FifoPerKind as Scheduler>::pick_ready, (q, agents, max), r),
        old(q).valid(),
        forall|j: int, m: int|
            0 <= j < old(q)@.queue(k).len() && 0 <= m < agents@.len()
                ==> !(#[trigger] agents@[m]).archives.contains(
                (#[trigger] old(q)@.queue(k)[j]).archive_id.0,
            ),
    ensures
        final(q)@.queue(k) == old(q)@.queue(k),
        forall|i: int| 0 <= i < r@.len() ==> (#[trigger] r@[i])@.action.kind != k,
{
    let v = old(q)@;
    let w = final(q)@;
    let queue = v.queue(k);
    let views = strategy::assignment_views(r@);
    let done = strategy::assigned_actions(views);
    assert forall|j: int| 0 <= j < queue.len() implies !fifo::can(agents@)(#[trigger] queue[j])
        && fifo::cannot(agents@)(queue[j]) by {
        let x = queue[j].archive_id.0;
        agent::lemma_serving(agents@, x);
        let able = agent::serving(agents@, x);
        if able.len() > 0 {
            assert(able.contains(able[0]));
            assert(agents@.contains(able[0]));
        }
    }
    fifo::lemma_filter_none(queue, fifo::can(agents@));
    fifo::lemma_filter_all(queue, fifo::cannot(agents@));
    fifo::lemma_pick_fifo(v, agents@, max as nat, k);
    fifo::lemma_pick_conserves(v, agents@, max as nat);
    assert(done.filter(strategy::of_kind(k)).len() == 0);
    assert forall|i: int| 0 <= i < r@.len() implies (#[trigger] r@[i])@.action.kind != k by {
        if r@[i]@.action.kind == k {
            assert(done[i] == r@[i]@.action);
            done.lemma_filter_contains(strategy::of_kind(k), i);
            assert(done.filter(strategy::of_kind(k)).contains(done[i]));
        }
    }
    lemma_cannot_is_all(w.queue(k), agents@, queue);
}

/// A queue whose runnable part is empty is its other part.
proof fn lemma_cannot_is_all(
    s: Seq<ActionView>,
    agents: Seq<AgentInfoView>,
    all: Seq<ActionView>,
)
    requires
        s.filter(fifo::can(agents)).len() == 0,
        s.filter(fifo::cannot(agents)) == all,
    ensures
        s == all,
{
    assert forall|j: int| 0 <= j < s.len() implies fifo::cannot(agents)(#[trigger] s[j]) by {
        if fifo::can(agents)(s[j]) {
            s.lemma_filter_contains(fifo::can(agents), j);
            assert(s.filter(fifo::can(agents)).contains(s[j]));
        }
    }
    fifo::lemma_filter_all(s, fifo::cannot(agents));
}

// ---------------------------------------------------------------------------
// The registry
// ---------------------------------------------------------------------------

/// An agent that registers is there, with the archives it named and no others. A new
/// agent comes last; one that was there keeps its place. Nobody else moves.
pub proof fn lemma_register_call(
    reg: &mut AgentRegistry,
    id: AgentId,
    archives: &[ArchiveId],
    now: Timestamp,
    x: u32,
)
    requires
        call_ensures(AgentRegistry::register_at, (reg, id, archives, now), ()),
        old(reg).wf(),
    ensures
        ({
            let before = old(reg)@;
            let after = final(reg)@;
            let known = exists|i: int| 0 <= i < before.len() && (#[trigger] before[i]).id == id@;
            &&& final(reg).wf()
            &&& after.len() == before.len() + if known {
                0int
            } else {
                1int
            }
            &&& forall|i: int|
                0 <= i < before.len() && before[i].id != id@ ==> #[trigger] after[i] == before[i]
            &&& forall|i: int|
                0 <= i < before.len() ==> (#[trigger] after[i]).id == before[i].id
            &&& !known ==> after.last().id == id@
            &&& forall|i: int|
                0 <= i < after.len() && (#[trigger] after[i]).id == id@ ==> after[i].since == now && (
                after[i].archives.contains(x) <==> exists|j: int|
                    0 <= j < archives@.len() && (#[trigger] archives@[j]).0 == x)
        }),
{
    let before = old(reg)@;
    let after = final(reg)@;
    agent::lemma_position(before, id@);
    let p = agent::position(before, id@);
    let nums = archives@.map_values(|a: ArchiveId| a.0);
    if p < before.len() {
        assert(before[p].id == id@);
    }
    assert(agent::archive_set(archives@).contains(x) <==> exists|j: int|
        0 <= j < archives@.len() && (#[trigger] archives@[j]).0 == x) by {
        if exists|j: int| 0 <= j < archives@.len() && (#[trigger] archives@[j]).0 == x {
            let j = choose|j: int| 0 <= j < archives@.len() && (#[trigger] archives@[j]).0 == x;
            assert(nums[j] == x);
            assert(nums.contains(x));
        }
        if nums.contains(x) {
            let j = choose|j: int| 0 <= j < nums.len() && nums[j] == x;
            assert(archives@[j].0 == x);
        }
    }
}

/// An agent that is taken out is handed back as it was registered; the others stay, in
/// their order. Taking out an unknown agent changes nothing.
pub proof fn lemma_unregister_call(reg: &mut AgentRegistry, id: &AgentId, r: Option<AgentInfo>)
    requires
        call_ensures(AgentRegistry::unregister, (reg, id), r),
        old(reg).wf(),
    ensures
        ({
            let before = old(reg)@;
            let after = final(reg)@;
            let others = before.filter(|a: AgentInfoView| a.id != id@);
            &&& final(reg).wf()
            &&& after == others
            &&& r is Some <==> exists|i: int| 0 <= i < before.len() && (#[trigger] before[i]).id == id@
            &&& r matches Some(info) ==> info@.id == id@ && before.contains(info@)
        }),
{
    let before = old(reg)@;
    let after = final(reg)@;
    let f = |a: AgentInfoView| a.id != id@;
    agent::lemma_position(before, id@);
    let p = agent::position(before, id@);
    if p < before.len() {
        assert(before =~= before.take(p) + (seq![before[p]] + before.skip(p + 1)));
        assert(after =~= before.take(p) + before.skip(p + 1));
        Seq::filter_distributes_over_add(before.take(p), seq![before[p]] + before.skip(p + 1), f);
        fifo::lemma_filter_front(before[p], before.skip(p + 1), f);
        fifo::lemma_filter_all(before.take(p), f);
        fifo::lemma_filter_all(before.skip(p + 1), f);
        assert(before.contains(before[p]));
    } else {
        fifo::lemma_filter_all(before, f);
    }
}

/// The agents offered for an archive are those registered for it, each once and in the
/// order of their registration.
pub proof fn lemma_agents_serving_call(
    reg: &AgentRegistry,
    archive: ArchiveId,
    r: Vec<AgentInfo>,
    i: int,
    j: int,
)
    requires
        call_ensures(AgentRegistry::agents_serving, (reg, archive), r),
        reg.wf(),
        0 <= i < j < reg@.len(),
        reg@[i].archives.contains(archive.0),
        reg@[j].archives.contains(archive.0),
    ensures
        exists|m: int, n: int|
            0 <= m < n < r@.len() && (#[trigger] r@[m])@ == reg@[i] && (#[trigger] r@[n])@
                == reg@[j],
{
    let f = |a: AgentInfoView| a.archives.contains(archive.0);
    let s = reg@;
    let able = agent::serving(s, archive.0);
    assert(able == s.filter(f));
    assert(s =~= s.take(i + 1) + s.skip(i + 1));
    Seq::filter_distributes_over_add(s.take(i + 1), s.skip(i + 1), f);
    assert(s.take(i + 1)[i] == s[i]);
    assert(s.skip(i + 1)[j - i - 1] == s[j]);
    s.take(i + 1).lemma_filter_contains(f, i);
    s.skip(i + 1).lemma_filter_contains(f, j - i - 1);
    let one = s.take(i + 1).filter(f);
    let two = s.skip(i + 1).filter(f);
    assert(one.contains(s[i]));
    assert(two.contains(s[j]));
    let m = choose|m: int| 0 <= m < one.len() && one[m] == s[i];
    let n = choose|n: int| 0 <= n < two.len() && two[n] == s[j];
    assert(able[m] == s[i]);
    assert(able[one.len() + n] == s[j]);
    let views = agent::info_views(r@);
    assert(views[m] == r@[m]@);
    assert(views[one.len() + n] == r@[one.len() + n]@);
}

/// Whoever is offered for an archive is registered and named it.
pub proof fn lemma_offered_is_able(
    reg: &AgentRegistry,
    archive: ArchiveId,
    r: Vec<AgentInfo>,
    i: int,
)
    requires
        call_ensures(AgentRegistry::agents_serving, (reg, archive), r),
        0 <= i < r@.len(),
    ensures
        reg@.contains(r@[i]@),
        r@[i]@.archives.contains(archive.0),
{
    agent::lemma_serving(reg@, archive.0);
    assert(agent::info_views(r@)[i] == r@[i]@);
    assert(agent::serving(reg@, archive.0).contains(r@[i]@));
}

/// The number of agents is the number of records a snapshot holds, and a registry is
/// empty exactly if a snapshot is.
pub proof fn lemma_snapshot_call(
    reg: &AgentRegistry,
    all: Vec<AgentInfo>,
    n: usize,
    empty: bool,
    i: int,
)
    requires
        call_ensures(AgentRegistry::snapshot, (reg,), all),
        call_ensures(AgentRegistry::len, (reg,), n),
        call_ensures(AgentRegistry::is_empty, (reg,), empty),
    ensures
        all@.len() == n,
        empty <==> all@.len() == 0,
        reg@.len() == n,
        0 <= i < n ==> all@[i]@ == reg@[i],
{
    assert(agent::info_views(all@).len() == all@.len());
    if 0 <= i < n {
        assert(agent::info_views(all@)[i] == all@[i]@);
    }
}

/// An agent serves what it registered for.
pub proof fn lemma_serves_call(info: &AgentInfo, archive: ArchiveId, r: bool)
    requires
        call_ensures(AgentInfo::serves, (info, archive), r),
    ensures
        r <==> info@.archives.contains(archive.0),
{
}

/// What is queued is behind everything of its kind, and nothing else moves. The depth
/// counts it.
pub proof fn lemma_enqueue_call(
    q: &mut FifoPerKind,
    action: Action,
    before: usize,
    after: usize,
    k: ActionKind,
)
    requires
        call_ensures(<FifoPerKind as Scheduler>::enqueue, (q, action), ()),
        old(q).valid(),
        call_ensures(<FifoPerKind as Scheduler>::queue_depth, (old(q),), before),
        call_ensures(<FifoPerKind as Scheduler>::queue_depth, (final(q),), after),
    ensures
        final(q).valid(),
        after == before + 1,
        final(q)@.rr == old(q)@.rr,
        k == action@.kind ==> final(q)@.queue(k) == old(q)@.queue(k).push(action@),
        k != action@.kind ==> final(q)@.queue(k) == old(q)@.queue(k),
{
    fifo::lemma_enqueue(old(q)@, action@);
}

/// The depth is what the four queues hold together.
pub proof fn lemma_depth_call(q: &FifoPerKind, n: usize)
    requires
        call_ensures(<FifoPerKind as Scheduler>::queue_depth, (q,), n),
    ensures
        n == q@.queue(ActionKind::Archive).len() + q@.queue(ActionKind::Restore).len() + q@.queue(
            ActionKind::Remove,
        ).len() + q@.queue(ActionKind::Cancel).len(),
{
}

/// A new scheduler has nothing queued, and no archive has had a turn.
pub proof fn lemma_new_scheduler(q: FifoPerKind, k: ActionKind, x: u32)
    requires
        call_ensures(FifoPerKind::new, (), q),
    ensures
        q@.queue(k).len() == 0,
        !q@.rr.contains_key(x),
        q@.cursor(x) == 0,
{
}

/// A new registry knows nobody.
pub proof fn lemma_new_registry(r: AgentRegistry)
    requires
        call_ensures(AgentRegistry::new, (), r),
    ensures
        r@.len() == 0,
        r.wf(),
{
}

/// Whatever the clock says, registering is registering at some time.
pub proof fn lemma_register_now(
    reg: &mut AgentRegistry,
    id: AgentId,
    archives: &[ArchiveId],
    x: u32,
)
    requires
        call_ensures(AgentRegistry::register, (reg, id, archives), ()),
        old(reg).wf(),
    ensures
        ({
            let before = old(reg)@;
            let after = final(reg)@;
            let known = exists|i: int| 0 <= i < before.len() && (#[trigger] before[i]).id == id@;
            &&& final(reg).wf()
            &&& after.len() == before.len() + if known {
                0int
            } else {
                1int
            }
            &&& forall|i: int|
                0 <= i < before.len() && before[i].id != id@ ==> #[trigger] after[i] == before[i]
            &&& !known ==> after.last().id == id@
            &&& forall|i: int|
                0 <= i < after.len() && (#[trigger] after[i]).id == id@ ==> (
                after[i].archives.contains(x) <==> exists|j: int|
                    0 <= j < archives@.len() && (#[trigger] archives@[j]).0 == x)
        }),
{
    let before = old(reg)@;
    let after = final(reg)@;
    let set = agent::archive_set(archives@);
    let now = choose|now: Timestamp|
        final(reg)@ == #[trigger] agent::registered(
            old(reg)@,
            AgentInfoView { id: id@, archives: set, since: now },
        );
    agent::lemma_position(before, id@);
    let p = agent::position(before, id@);
    if p < before.len() {
        assert(before[p].id == id@);
    }
    lemma_archive_set(archives@, x);
}

/// The set of a list of archives.
proof fn lemma_archive_set(archives: Seq<ArchiveId>, x: u32)
    ensures
        agent::archive_set(archives).contains(x) <==> exists|j: int|
            0 <= j < archives.len() && (#[trigger] archives[j]).0 == x,
{
    let nums = archives.map_values(|a: ArchiveId| a.0);
    if exists|j: int| 0 <= j < archives.len() && (#[trigger] archives[j]).0 == x {
        let j = choose|j: int| 0 <= j < archives.len() && (#[trigger] archives[j]).0 == x;
        assert(nums[j] == x);
        assert(nums.contains(x));
    }
    if nums.contains(x) {
        let j = choose|j: int| 0 <= j < nums.len() && nums[j] == x;
        assert(archives[j].0 == x);
    }
}

/// The count of turns starts over behind the last number that it can hold.
pub proof fn lemma_turn_starts_over(
    q: &mut FifoPerKind,
    agents: &AgentRegistry,
    max: usize,
    r: Vec<Assignment>,
    j: int,
    x: u32,
)
    requires
        call_ensures(<FifoPerKind as Scheduler>::pick_ready, (q, agents, max), r),
        old(q).valid(),
        0 <= j < r@.len(),
        r@[j]@.action.archive_id.0 == x,
        old(q)@.cursor(x) + earlier(r@, j, x) > usize::MAX,
    ensures
        ({
            let able = agent::serving(agents@, x);
            let turn = old(q)@.cursor(x) + earlier(r@, j, x) - usize::MAX - 1;
            &&& 0 <= turn <= usize::MAX
            &&& r@[j]@.agent == able[turn % able.len() as int].id
        }),
{
    let v = old(q)@;
    let d = v.dispatched(agents@, max as nat);
    let views = strategy::assignment_views(r@);
    let done = strategy::assigned_actions(views);
    assert(views == v.picked(agents@, max as nat));
    assert(views.len() == r@.len());
    assert(done =~= d);
    assert(views[j] == r@[j]@);
    assert(d[j] == r@[j]@.action);
    fifo::lemma_filter_members(done.take(j), fifo::of_archive(x));
    let wrap: int = usize::MAX + 1;
    let n: int = v.cursor(x) + earlier(r@, j, x);
    assert(n - wrap < wrap);
    vstd::arithmetic::div_mod::lemma_small_mod((n - wrap) as nat, wrap as nat);
    vstd::arithmetic::div_mod::lemma_mod_sub_multiples_vanish(n, wrap);
    assert(n % wrap == n - wrap);
}

} // verus!
