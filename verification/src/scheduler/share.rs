//! How evenly the agents of an archive are loaded.

use crate::scheduler::agent;
use crate::scheduler::agent::AgentInfoView;
use crate::scheduler::fifo;
use crate::scheduler::fifo::FifoView;
use crate::scheduler::strategy::AssignmentView;
use vstd::prelude::*;

verus! {

// ---------------------------------------------------------------------------
// Turns
// ---------------------------------------------------------------------------

/// How many of the `n` turns from `base` on fall to number `a` of `k`.
pub open spec fn turns(base: nat, n: nat, k: nat, a: nat) -> nat
    decreases n,
{
    if n == 0 {
        0
    } else {
        turns(base, (n - 1) as nat, k, a) + (if (base + n - 1) % k as int == a {
            1nat
        } else {
            0
        })
    }
}

/// Turns come one after the other.
proof fn lemma_turns_add(base: nat, n: nat, m: nat, k: nat, a: nat)
    requires
        k > 0,
    ensures
        turns(base, n + m, k, a) == turns(base, n, k, a) + turns(base + n, m, k, a),
    decreases m,
{
    if m > 0 {
        lemma_turns_add(base, n, (m - 1) as nat, k, a);
        assert((n + m - 1) as nat == n + (m - 1) as nat);
    }
}

/// Where the turn after `n` others falls, within one round.
proof fn lemma_turn(base: nat, n: nat, k: nat)
    requires
        n < k,
    ensures
        (base + n) as int % k as int == (if base % k + n < k {
            (base % k + n) as int
        } else {
            base % k + n - k
        }),
{
    let (q, r) = ((base / k) as int, (base % k) as int);
    let kk = k as int;
    vstd::arithmetic::div_mod::lemma_fundamental_div_mod(base as int, kk);
    vstd::arithmetic::mul::lemma_mul_is_commutative(q, kk);
    if r + n < k {
        vstd::arithmetic::div_mod::lemma_fundamental_div_mod_converse(
            base as int + n,
            kk,
            q,
            r + n,
        );
    } else {
        assert((q + 1) * kk == q * kk + kk) by (nonlinear_arith);
        vstd::arithmetic::div_mod::lemma_fundamental_div_mod_converse(
            base as int + n,
            kk,
            q + 1,
            r + n - k,
        );
    }
}

/// In one round everybody has one turn.
proof fn lemma_one_round(base: nat, n: nat, k: nat, a: nat)
    requires
        a < k,
        n <= k,
    ensures
        turns(base, n, k, a) == (if n > wait(base, k, a) {
            1nat
        } else {
            0
        }),
    decreases n,
{
    vstd::arithmetic::div_mod::lemma_mod_bound(base as int, k as int);
    if n > 0 {
        lemma_one_round(base, (n - 1) as nat, k, a);
        lemma_turn(base, (n - 1) as nat, k);
    }
}

/// How many turns pass before the first of number `a`.
spec fn wait(base: nat, k: nat, a: nat) -> int {
    if base % k <= a {
        a - base % k
    } else {
        a - base % k + k
    }
}

/// Turns are dealt out evenly: of any `n` turns in a row among `k`, everybody has
/// `n / k` or one more, and exactly `n / k` when the rounds come out even.
pub proof fn lemma_turns_are_even(base: nat, n: nat, k: nat, a: nat)
    requires
        a < k,
    ensures
        n / k <= turns(base, n, k, a) <= n / k + 1,
        n % k == 0 ==> turns(base, n, k, a) == n / k,
    decreases n,
{
    vstd::arithmetic::div_mod::lemma_mod_bound(base as int, k as int);
    if n < k {
        lemma_one_round(base, n, k, a);
        vstd::arithmetic::div_mod::lemma_basic_div(n as int, k as int);
        vstd::arithmetic::div_mod::lemma_small_mod(n, k);
    } else {
        let rest = (n - k) as nat;
        lemma_one_round(base, k, k, a);
        lemma_turns_add(base, k, rest, k, a);
        lemma_turns_are_even(base + k, rest, k, a);
        assert(k + rest == n);
        assert(n / k == rest / k + 1 && n % k == rest % k) by {
            vstd::arithmetic::div_mod::lemma_fundamental_div_mod(rest as int, k as int);
            vstd::arithmetic::div_mod::lemma_mod_bound(rest as int, k as int);
            let (q, r) = ((rest / k) as int, (rest % k) as int);
            let kk = k as int;
            vstd::arithmetic::mul::lemma_mul_is_commutative(q, kk);
            assert((q + 1) * kk == q * kk + kk) by (nonlinear_arith);
            vstd::arithmetic::div_mod::lemma_fundamental_div_mod_converse(n as int, kk, q + 1, r);
        }
    }
}

// ---------------------------------------------------------------------------
// One pick
// ---------------------------------------------------------------------------

/// Assignments for one archive.
pub open spec fn to_archive(x: u32) -> spec_fn(AssignmentView) -> bool {
    |a: AssignmentView| a.action.archive_id.0 == x
}

/// Assignments for one archive to one agent.
pub open spec fn to_agent(x: u32, id: Seq<char>) -> spec_fn(AssignmentView) -> bool {
    |a: AssignmentView| a.action.archive_id.0 == x && a.agent == id
}

/// Filtering one more element.
proof fn lemma_filter_next<A>(s: Seq<A>, j: int, f: spec_fn(A) -> bool)
    requires
        0 <= j < s.len(),
    ensures
        s.take(j + 1).filter(f) == (if f(s[j]) {
            s.take(j).filter(f).push(s[j])
        } else {
            s.take(j).filter(f)
        }),
{
    reveal(Seq::filter);
    assert(s.take(j + 1).drop_last() =~= s.take(j));
    assert(s.take(j + 1).last() == s[j]);
}

/// The first `j` assignments.
proof fn lemma_share_so_far(
    q: FifoView,
    agents: Seq<AgentInfoView>,
    max: nat,
    x: u32,
    a: int,
    j: int,
)
    requires
        agent::distinct_ids(agents),
        0 <= a < agent::serving(agents, x).len(),
        0 <= j <= q.picked(agents, max).len(),
        q.cursor(x) + q.picked(agents, max).take(j).filter(to_archive(x)).len() <= usize::MAX,
    ensures
        q.dispatched(agents, max).take(j).filter(fifo::of_archive(x)).len() == q.picked(
            agents,
            max,
        ).take(j).filter(to_archive(x)).len(),
        q.picked(agents, max).take(j).filter(to_agent(x, agent::serving(agents, x)[a].id)).len()
            == turns(
            q.cursor(x) as nat,
            q.picked(agents, max).take(j).filter(to_archive(x)).len(),
            agent::serving(agents, x).len(),
            a as nat,
        ),
    decreases j,
{
    let p = q.picked(agents, max);
    let d = q.dispatched(agents, max);
    let c = agent::serving(agents, x);
    let id = c[a].id;
    if j == 0 {
        reveal(Seq::filter);
    } else {
        let i = j - 1;
        lemma_filter_next(p, i, to_archive(x));
        lemma_filter_next(p, i, to_agent(x, id));
        lemma_filter_next(d, i, fifo::of_archive(x));
        lemma_share_so_far(q, agents, max, x, a, i);
        assert(p[i].action == d[i]);
        let n = p.take(i).filter(to_archive(x)).len();
        if p[i].action.archive_id.0 == x {
            let turn = q.cursor(x) + n;
            vstd::arithmetic::div_mod::lemma_small_mod(turn as nat, (usize::MAX + 1) as nat);
            vstd::arithmetic::div_mod::lemma_mod_bound(turn as int, c.len() as int);
            let b = turn as int % c.len() as int;
            assert(p[i].agent == c[b].id);
            fifo::lemma_serving_distinct(agents, x);
            if b != a {
                assert(c[a].id != c[b].id);
            }
        }
    }
}

/// What one pick gives to agent number `a` of an archive: its turns, counted from
/// the archive's cursor on, which moves on by as many. The counter must not wrap.
pub proof fn lemma_pick_share(
    q: FifoView,
    agents: Seq<AgentInfoView>,
    max: nat,
    x: u32,
    a: int,
)
    requires
        agent::distinct_ids(agents),
        0 <= a < agent::serving(agents, x).len(),
        q.cursor(x) + q.picked(agents, max).filter(to_archive(x)).len() <= usize::MAX,
    ensures
        q.picked(agents, max).filter(to_agent(x, agent::serving(agents, x)[a].id)).len() == turns(
            q.cursor(x) as nat,
            q.picked(agents, max).filter(to_archive(x)).len(),
            agent::serving(agents, x).len(),
            a as nat,
        ),
        q.after_pick(agents, max).cursor(x) == q.cursor(x) + q.picked(agents, max).filter(
            to_archive(x),
        ).len(),
{
    let p = q.picked(agents, max);
    let d = q.dispatched(agents, max);
    assert(p.take(p.len() as int) =~= p);
    assert(d.take(p.len() as int) =~= d);
    lemma_share_so_far(q, agents, max, x, a, p.len() as int);
    let n = d.filter(fifo::of_archive(x)).len();
    vstd::arithmetic::div_mod::lemma_small_mod(
        (q.cursor(x) + n) as nat,
        (usize::MAX + 1) as nat,
    );
}

// ---------------------------------------------------------------------------
// Any number of picks
// ---------------------------------------------------------------------------

/// One pick: the scheduler before it, and the cap.
pub struct Round {
    pub q: FifoView,
    pub max: nat,
}

/// Each pick finds the archive's cursor where the one before left it; between
/// picks, actions may be queued.
pub open spec fn in_turn(rounds: Seq<Round>, agents: Seq<AgentInfoView>, x: u32) -> bool {
    forall|i: int|
        0 <= i < rounds.len() - 1 ==> rounds[i + 1].q.cursor(x) == (#[trigger] rounds[i]).q.after_pick(
            agents,
            rounds[i].max,
        ).cursor(x)
}

/// How many assignments of all the picks satisfy `f`.
pub open spec fn total(
    rounds: Seq<Round>,
    agents: Seq<AgentInfoView>,
    f: spec_fn(AssignmentView) -> bool,
) -> nat
    decreases rounds.len(),
{
    if rounds.len() == 0 {
        0
    } else {
        rounds[0].q.picked(agents, rounds[0].max).filter(f).len() + total(
            rounds.drop_first(),
            agents,
            f,
        )
    }
}

/// Over all the picks, agent number `a` has its turns.
proof fn lemma_total_turns(rounds: Seq<Round>, agents: Seq<AgentInfoView>, x: u32, a: int)
    requires
        agent::distinct_ids(agents),
        0 <= a < agent::serving(agents, x).len(),
        rounds.len() > 0,
        in_turn(rounds, agents, x),
        rounds[0].q.cursor(x) + total(rounds, agents, to_archive(x)) <= usize::MAX,
    ensures
        total(rounds, agents, to_agent(x, agent::serving(agents, x)[a].id)) == turns(
            rounds[0].q.cursor(x) as nat,
            total(rounds, agents, to_archive(x)),
            agent::serving(agents, x).len(),
            a as nat,
        ),
    decreases rounds.len(),
{
    let rest = rounds.drop_first();
    let r = rounds[0];
    let k = agent::serving(agents, x).len();
    let n = r.q.picked(agents, r.max).filter(to_archive(x)).len();
    lemma_pick_share(r.q, agents, r.max, x, a);
    if rest.len() > 0 {
        assert(rest[0] == rounds[1]);
        assert(rest[0].q.cursor(x) == r.q.after_pick(agents, r.max).cursor(x));
        assert forall|i: int| 0 <= i < rest.len() - 1 implies rest[i + 1].q.cursor(x) == (
        #[trigger] rest[i]).q.after_pick(agents, rest[i].max).cursor(x) by {
            assert(rest[i] == rounds[i + 1] && rest[i + 1] == rounds[i + 2]);
        }
        lemma_total_turns(rest, agents, x, a);
        lemma_turns_add(
            r.q.cursor(x) as nat,
            n,
            total(rest, agents, to_archive(x)),
            k,
            a as nat,
        );
    } else {
        reveal_with_fuel(total, 2);
    }
}

/// The agents that serve an archive share its actions evenly: of `n` assignments,
/// over any number of picks, each of `k` agents gets `n / k` or one more, and
/// exactly `n / k` when that comes out even. The turn counter must not wrap.
pub proof fn lemma_agents_share_evenly(
    rounds: Seq<Round>,
    agents: Seq<AgentInfoView>,
    x: u32,
    a: int,
)
    requires
        agent::distinct_ids(agents),
        0 <= a < agent::serving(agents, x).len(),
        rounds.len() > 0,
        in_turn(rounds, agents, x),
        rounds[0].q.cursor(x) + total(rounds, agents, to_archive(x)) <= usize::MAX,
    ensures
        ({
            let n = total(rounds, agents, to_archive(x));
            let k = agent::serving(agents, x).len();
            let got = total(rounds, agents, to_agent(x, agent::serving(agents, x)[a].id));
            &&& n / k <= got <= n / k + 1
            &&& n % k == 0 ==> got == n / k
        }),
{
    lemma_total_turns(rounds, agents, x, a);
    lemma_turns_are_even(
        rounds[0].q.cursor(x) as nat,
        total(rounds, agents, to_archive(x)),
        agent::serving(agents, x).len(),
        a as nat,
    );
}

} // verus!
