//! Agent registry: who is online, and which archives each agent serves.

use crate::model::{AgentId, ArchiveId, Timestamp};
use std::collections::HashSet;
use vstd::prelude::*;

verus! {

broadcast use vstd::std_specs::hash::group_hash_axioms;

/// Capabilities and registration time of one connected agent.
#[derive(Debug, PartialEq, Eq)]
pub struct AgentInfo {
    /// Stable identifier.
    pub id: AgentId,
    /// Numbers of the archives this agent serves.
    pub archives: HashSet<u32>,
    /// Time of registration (for diagnostics).
    pub since: Timestamp,
}

/// Model of [`AgentInfo`].
#[verifier::ext_equal]
pub struct AgentInfoView {
    pub id: Seq<char>,
    pub archives: Set<u32>,
    pub since: Timestamp,
}

impl View for AgentInfo {
    type V = AgentInfoView;

    open spec fn view(&self) -> AgentInfoView {
        AgentInfoView { id: self.id@, archives: self.archives@, since: self.since }
    }
}

impl Clone for AgentInfo {
    fn clone(&self) -> (r: AgentInfo)
        ensures
            r@ == self@,
    {
        let mut archives: HashSet<u32> = HashSet::new();
        for k in it: self.archives.iter()
            invariant
                archives@ == it.seq().take(it.index()).unref().to_set(),
                it.seq().unref().to_set() == self.archives@,
                it.seq().take(it.seq().len() as int) == it.seq(),
        {
            archives.insert(*k);
            proof {
                let a = it.seq().take(it.index()).unref();
                let b = it.seq().take(it.index() + 1).unref();
                assert(b =~= a.push(*k));
                assert(b.to_set() =~= a.to_set().insert(*k)) by {
                    assert(b.last() == *k);
                    assert forall|x: u32| a.contains(x) implies b.contains(x) by {
                        let i = choose|i: int| 0 <= i < a.len() && a[i] == x;
                        assert(b[i] == x);
                    }
                    assert(b.contains(*k));
                }
            }
        }
        proof {
            assert(archives@ =~= self.archives@);
        }
        AgentInfo { id: self.id.clone(), archives, since: self.since }
    }
}

impl AgentInfo {
    /// `true` if this agent advertised support for `archive`.
    pub fn serves(&self, archive: ArchiveId) -> (r: bool)
        ensures
            r == self@.archives.contains(archive.0),
    {
        self.archives.contains(&archive.0)
    }
}

/// The agents of `s` that serve `archive`, in order.
pub open spec fn serving(s: Seq<AgentInfoView>, archive: u32) -> Seq<AgentInfoView> {
    s.filter(|a: AgentInfoView| a.archives.contains(archive))
}

/// Position of the agent called `id`, or the length of `s` when there is none.
pub open spec fn position(s: Seq<AgentInfoView>, id: Seq<char>) -> int
    decreases s.len(),
{
    if s.len() == 0 {
        0
    } else if s[0].id == id {
        0
    } else {
        1 + position(s.drop_first(), id)
    }
}

/// `s` after `info` was registered: in place of the agent of the same id, or
/// behind all others.
pub open spec fn registered(s: Seq<AgentInfoView>, info: AgentInfoView) -> Seq<AgentInfoView> {
    let i = position(s, info.id);
    if i < s.len() {
        s.update(i, info)
    } else {
        s.push(info)
    }
}

/// `s` without the agent called `id`.
pub open spec fn unregistered(s: Seq<AgentInfoView>, id: Seq<char>) -> Seq<AgentInfoView> {
    let i = position(s, id);
    if i < s.len() {
        s.remove(i)
    } else {
        s
    }
}

/// No two agents share an id.
pub open spec fn distinct_ids(s: Seq<AgentInfoView>) -> bool {
    forall|i: int, j: int| 0 <= i < j < s.len() ==> s[i].id != s[j].id
}

/// What `position` finds.
pub proof fn lemma_position(s: Seq<AgentInfoView>, id: Seq<char>)
    ensures
        0 <= position(s, id) <= s.len(),
        position(s, id) < s.len() ==> s[position(s, id)].id == id,
        forall|j: int| 0 <= j < position(s, id) ==> s[j].id != id,
    decreases s.len(),
{
    if s.len() > 0 && s[0].id != id {
        lemma_position(s.drop_first(), id);
        assert forall|j: int| 0 <= j < position(s, id) implies s[j].id != id by {
            if j > 0 {
                assert(s.drop_first()[j - 1] == s[j]);
            }
        }
    }
}

/// `position` is the first index with that id.
proof fn lemma_position_is(s: Seq<AgentInfoView>, id: Seq<char>, i: int)
    requires
        0 <= i <= s.len(),
        i < s.len() ==> s[i].id == id,
        forall|j: int| 0 <= j < i ==> s[j].id != id,
    ensures
        position(s, id) == i,
{
    lemma_position(s, id);
}

/// The models of a sequence of records.
pub open spec fn info_views(v: Seq<AgentInfo>) -> Seq<AgentInfoView> {
    v.map_values(|a: AgentInfo| a@)
}

/// Registry of currently connected agents.
#[derive(Debug)]
pub struct AgentRegistry {
    agents: Vec<AgentInfo>,
}

impl View for AgentRegistry {
    type V = Seq<AgentInfoView>;

    closed spec fn view(&self) -> Seq<AgentInfoView> {
        info_views(self.agents@)
    }
}

impl Default for AgentRegistry {
    fn default() -> (r: AgentRegistry)
        ensures
            r@ == Seq::<AgentInfoView>::empty(),
            r.wf(),
    {
        AgentRegistry::new()
    }
}

impl AgentRegistry {
    /// Every registered id is there once.
    pub open spec fn wf(&self) -> bool {
        distinct_ids(self@)
    }

    /// An empty registry.
    pub fn new() -> (r: AgentRegistry)
        ensures
            r@ == Seq::<AgentInfoView>::empty(),
            r.wf(),
    {
        let r = AgentRegistry { agents: Vec::new() };
        proof {
            assert(r@ =~= Seq::<AgentInfoView>::empty());
        }
        r
    }

    /// Index of the agent called `id`, or the number of agents.
    fn find(&self, id: &AgentId) -> (r: usize)
        ensures
            r == position(self@, id@),
            r <= self.agents@.len(),
    {
        let mut i: usize = 0;
        while i < self.agents.len()
            invariant
                i <= self.agents@.len(),
                forall|j: int| 0 <= j < i ==> self@[j].id != id@,
            decreases self.agents.len() - i,
        {
            if self.agents[i].id.same_as(id) {
                proof {
                    lemma_position_is(self@, id@, i as int);
                }
                return i;
            }
            i = i + 1;
        }
        proof {
            lemma_position_is(self@, id@, i as int);
        }
        i
    }

    /// Add an agent, or replace the record of the agent of the same id, with
    /// registration time `now`.
    pub fn register_at(&mut self, id: AgentId, archives: &[ArchiveId], now: Timestamp)
        ensures
            final(self)@ == registered(
                old(self)@,
                AgentInfoView { id: id@, archives: archive_set(archives@), since: now },
            ),
            old(self).wf() ==> final(self).wf(),
    {
        let set = collect_archives(archives);
        let i: usize = self.find(&id);
        let ghost before = self@;
        let info = AgentInfo { id, archives: set, since: now };
        let ghost added = info@;
        if i < self.agents.len() {
            self.agents[i] = info;
            proof {
                assert(self@ =~= before.update(i as int, added));
            }
        } else {
            self.agents.push(info);
            proof {
                assert(self@ =~= before.push(added));
            }
        }
        proof {
            lemma_register_keeps_distinct(before, added);
        }
    }

    /// Add an agent, or replace the record of the agent of the same id. The same
    /// plugin reconnecting drops its old archives in favour of what it
    /// advertises now. The registration time is the wall clock's.
    pub fn register(&mut self, id: AgentId, archives: &[ArchiveId])
        ensures
            exists|now: Timestamp|
                final(self)@ == #[trigger] registered(
                    old(self)@,
                    AgentInfoView { id: id@, archives: archive_set(archives@), since: now },
                ),
            old(self).wf() ==> final(self).wf(),
    {
        let now = Timestamp::now();
        self.register_at(id, archives, now);
    }

    /// Remove an agent and hand back its record.
    pub fn unregister(&mut self, id: &AgentId) -> (r: Option<AgentInfo>)
        ensures
            final(self)@ == unregistered(old(self)@, id@),
            match r {
                Some(info) => {
                    &&& position(old(self)@, id@) < old(self)@.len()
                    &&& info@ == old(self)@[position(old(self)@, id@)]
                },
                None => position(old(self)@, id@) == old(self)@.len(),
            },
            old(self).wf() ==> final(self).wf(),
    {
        let i: usize = self.find(id);
        let ghost before = self@;
        if i < self.agents.len() {
            let info = self.agents.remove(i);
            proof {
                assert(self@ =~= before.remove(i as int));
            }
            Some(info)
        } else {
            None
        }
    }

    /// All currently connected agents.
    pub fn snapshot(&self) -> (r: Vec<AgentInfo>)
        ensures
            info_views(r@) == self@,
    {
        let mut out: Vec<AgentInfo> = Vec::new();
        let mut i: usize = 0;
        while i < self.agents.len()
            invariant
                i <= self.agents@.len(),
                info_views(out@) == self@.take(i as int),
            decreases self.agents.len() - i,
        {
            let ghost before = info_views(out@);
            out.push(self.agents[i].clone());
            proof {
                assert(info_views(out@) =~= before.push(self@[i as int]));
                assert(info_views(out@) =~= self@.take(i + 1));
            }
            i = i + 1;
        }
        proof {
            assert(self@.take(i as int) =~= self@);
        }
        out
    }

    /// All agents that serve `archive`.
    pub fn agents_serving(&self, archive: ArchiveId) -> (r: Vec<AgentInfo>)
        ensures
            info_views(r@) == serving(self@, archive.0),
    {
        let mut out: Vec<AgentInfo> = Vec::new();
        let mut i: usize = 0;
        proof {
            reveal(Seq::filter);
            assert(serving(self@.take(0), archive.0) =~= Seq::<AgentInfoView>::empty());
        }
        while i < self.agents.len()
            invariant
                i <= self.agents@.len(),
                info_views(out@) == serving(self@.take(i as int), archive.0),
            decreases self.agents.len() - i,
        {
            let ghost before = info_views(out@);
            proof {
                reveal(Seq::filter);
                assert(self@.take(i + 1).drop_last() =~= self@.take(i as int));
                assert(self@.take(i + 1).last() == self.agents@[i as int]@);
            }
            if self.agents[i].serves(archive) {
                out.push(self.agents[i].clone());
                proof {
                    assert(info_views(out@) =~= before.push(self@[i as int]));
                }
            }
            i = i + 1;
        }
        proof {
            assert(self@.take(i as int) =~= self@);
        }
        out
    }

    /// Number of currently connected agents.
    pub fn len(&self) -> (r: usize)
        ensures
            r == self@.len(),
    {
        self.agents.len()
    }

    /// `true` if no agents are connected.
    pub fn is_empty(&self) -> (r: bool)
        ensures
            r == (self@.len() == 0),
    {
        self.agents.len() == 0
    }
}

/// The set of archive numbers in a list.
pub open spec fn archive_set(s: Seq<ArchiveId>) -> Set<u32> {
    s.map_values(|a: ArchiveId| a.0).to_set()
}

/// Collect a list of archives into a set.
fn collect_archives(archives: &[ArchiveId]) -> (r: HashSet<u32>)
    ensures
        r@ == archive_set(archives@),
{
    let mut set: HashSet<u32> = HashSet::new();
    let mut i: usize = 0;
    proof {
        assert(archive_set(archives@.take(0)) =~= Set::<u32>::empty());
    }
    while i < archives.len()
        invariant
            i <= archives@.len(),
            set@ == archive_set(archives@.take(i as int)),
        decreases archives.len() - i,
    {
        set.insert(archives[i].0);
        proof {
            let a = archives@.take(i as int).map_values(|a: ArchiveId| a.0);
            let b = archives@.take(i + 1).map_values(|a: ArchiveId| a.0);
            assert(b =~= a.push(archives@[i as int].0));
            assert(b.to_set() =~= a.to_set().insert(archives@[i as int].0)) by {
                assert(b.last() == archives@[i as int].0);
                assert forall|x: u32| a.contains(x) implies b.contains(x) by {
                    let k = choose|k: int| 0 <= k < a.len() && a[k] == x;
                    assert(b[k] == x);
                }
                assert(b.contains(archives@[i as int].0));
            }
        }
        i = i + 1;
    }
    proof {
        assert(archives@.take(i as int) =~= archives@);
    }
    set
}

/// Registration keeps ids distinct.
proof fn lemma_register_keeps_distinct(s: Seq<AgentInfoView>, info: AgentInfoView)
    ensures
        distinct_ids(s) ==> distinct_ids(registered(s, info)),
{
    lemma_position(s, info.id);
    let p = position(s, info.id);
    let t = registered(s, info);
    if distinct_ids(s) {
        assert forall|i: int, j: int| 0 <= i < j < t.len() implies t[i].id != t[j].id by {
            if p < s.len() {
                assert(t[i].id == s[i].id);
                assert(t[j].id == s[j].id);
            } else if j < s.len() {
                assert(t[i] == s[i] && t[j] == s[j]);
            } else {
                assert(t[i] == s[i] && t[j] == info);
            }
        }
    }
}

/// After a registration the id is known, under exactly the archives it
/// advertised, whatever was registered under it before; every other agent is as
/// it was.
pub proof fn lemma_register_replaces(s: Seq<AgentInfoView>, info: AgentInfoView)
    requires
        distinct_ids(s),
    ensures
        distinct_ids(registered(s, info)),
        position(registered(s, info), info.id) < registered(s, info).len(),
        registered(s, info)[position(registered(s, info), info.id)] == info,
        forall|a: AgentInfoView|
            a.id != info.id ==> (#[trigger] registered(s, info).contains(a) <==> s.contains(a)),
{
    lemma_register_keeps_distinct(s, info);
    lemma_position(s, info.id);
    let p = position(s, info.id);
    let t = registered(s, info);
    assert(t[p] == info);
    assert forall|j: int| 0 <= j < p implies t[j].id != info.id by {
        assert(t[j] == s[j]);
    }
    lemma_position_is(t, info.id, p);
    assert forall|a: AgentInfoView| a.id != info.id implies (#[trigger] t.contains(a) <==> s.contains(
        a,
    )) by {
        if t.contains(a) {
            let i = choose|i: int| 0 <= i < t.len() && t[i] == a;
            assert(s[i] == a);
        }
        if s.contains(a) {
            let i = choose|i: int| 0 <= i < s.len() && s[i] == a;
            assert(t[i] == a);
        }
    }
}

/// After an agent was unregistered its id is unknown, and every other agent is
/// as it was.
pub proof fn lemma_unregister_removes(s: Seq<AgentInfoView>, id: Seq<char>)
    requires
        distinct_ids(s),
    ensures
        distinct_ids(unregistered(s, id)),
        position(unregistered(s, id), id) == unregistered(s, id).len(),
        forall|a: AgentInfoView|
            a.id != id ==> (#[trigger] unregistered(s, id).contains(a) <==> s.contains(a)),
{
    lemma_position(s, id);
    let p = position(s, id);
    let t = unregistered(s, id);
    assert forall|j: int| 0 <= j < t.len() implies t[j].id != id by {
        if p < s.len() {
            if j < p {
                assert(t[j] == s[j]);
            } else {
                assert(t[j] == s[j + 1]);
            }
        }
    }
    lemma_position_is(t, id, t.len() as int);
    assert forall|a: AgentInfoView| a.id != id implies (#[trigger] t.contains(a) <==> s.contains(a)) by {
        if t.contains(a) {
            let i = choose|i: int| 0 <= i < t.len() && t[i] == a;
            assert(s[i] == a || s[i + 1] == a);
        }
        if s.contains(a) {
            let i = choose|i: int| 0 <= i < s.len() && s[i] == a;
            if p < s.len() {
                assert(i != p);
                assert(t[if i < p { i } else { i - 1 }] == a);
            }
        }
    }
}

/// The agents serving an archive are exactly the registered ones that
/// advertised it.
pub proof fn lemma_serving(s: Seq<AgentInfoView>, archive: u32)
    ensures
        forall|a: AgentInfoView|
            #[trigger] serving(s, archive).contains(a) <==> s.contains(a) && a.archives.contains(
                archive,
            ),
    decreases s.len(),
{
    reveal(Seq::filter);
    if s.len() > 0 {
        let p = s.drop_last();
        lemma_serving(p, archive);
        let t = serving(s, archive);
        assert forall|a: AgentInfoView| #[trigger] t.contains(a) implies s.contains(a)
            && a.archives.contains(archive) by {
            let i = choose|i: int| 0 <= i < t.len() && t[i] == a;
            if i < serving(p, archive).len() {
                assert(serving(p, archive)[i] == a);
                assert(serving(p, archive).contains(a));
                let j = choose|j: int| 0 <= j < p.len() && p[j] == a;
                assert(s[j] == a);
            } else {
                assert(s.last() == a);
            }
        }
        assert forall|a: AgentInfoView| s.contains(a) && a.archives.contains(archive) implies #[trigger]
        t.contains(a) by {
            let j = choose|j: int| 0 <= j < s.len() && s[j] == a;
            if j < p.len() {
                assert(p[j] == a);
                assert(serving(p, archive).contains(a));
                let i = choose|i: int|
                    0 <= i < serving(p, archive).len() && serving(p, archive)[i] == a;
                assert(t[i] == a);
            } else {
                assert(t.last() == a);
            }
        }
    }
}

} // verus!
