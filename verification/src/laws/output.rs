//! Output: what the control tool prints of what it was told.

use crate::ctl::render;
use crate::ctl::render::{
    format_unix_secs, render_actions, render_agents, render_import, render_status, render_xattrs,
};
use crate::daemon::xattr_store::XattrResult;
use crate::model::backend;
use crate::model::{BackendObject, Timestamp};
use crate::proto::{CtlActionRecord, CtlAgentInfo, CtlStatusResponse};
use crate::text;
use vstd::prelude::*;

verus! {

// ---------------------------------------------------------------------------
// Columns
// ---------------------------------------------------------------------------

/// `c` is the text in a column of that width: the text first, then nothing but blanks,
/// and all of the text even if the column is too narrow.
pub open spec fn left(c: Seq<char>, s: Seq<char>, width: nat) -> bool {
    &&& c.len() == if s.len() < width {
        width
    } else {
        s.len()
    }
    &&& c.take(s.len() as int) == s
    &&& forall|i: int| s.len() <= i < c.len() ==> #[trigger] c[i] == ' '
}

/// `c` is the text at the right end of a column of that width.
pub open spec fn right(c: Seq<char>, s: Seq<char>, width: nat) -> bool {
    &&& c.len() == if s.len() < width {
        width
    } else {
        s.len()
    }
    &&& c.skip(c.len() - s.len()) == s
    &&& forall|i: int| 0 <= i < c.len() - s.len() ==> #[trigger] c[i] == ' '
}

/// The columns hold their texts.
proof fn lemma_columns(s: Seq<char>, width: nat)
    ensures
        left(render::padded(s, width), s, width),
        right(render::indented(s, width), s, width),
{
    let c = render::padded(s, width);
    assert(c.take(s.len() as int) =~= s);
    let d = render::indented(s, width);
    assert(d.skip(d.len() - s.len()) =~= s);
}

// ---------------------------------------------------------------------------
// Archive lists
// ---------------------------------------------------------------------------

/// No archives are an empty list, one is its number, and an archive that comes after
/// all the others stands behind them.
pub proof fn lemma_archive_list(ids: Seq<u32>, x: u32)
    requires
        forall|i: int| 0 <= i < ids.len() ==> #[trigger] ids[i] <= x,
    ensures
        ids.len() == 0 ==> render::archive_list(ids) == seq!['[', ']'],
        ids.len() == 0 ==> render::archive_list(ids.push(x)) == seq!['['] + text::dec(x as nat)
            + seq![']'],
        ids.len() > 0 ==> render::archive_list(ids.push(x)) == render::archive_list(ids).drop_last()
            + seq![',', ' '] + text::dec(x as nat) + seq![']'],
        render::archive_list(ids).len() >= 2,
{
    reveal_strlit("[");
    reveal_strlit("]");
    reveal_strlit(", ");
    let leq = render::by_number();
    let more = ids.push(x);
    let o = render::ordered(ids);
    let p = render::ordered(more);
    ids.lemma_sort_by_ensures(leq);
    more.lemma_sort_by_ensures(leq);
    let q = o.push(x);
    assert(q.to_multiset() == more.to_multiset()) by {
        vstd::seq_lib::to_multiset_build(o, x);
        vstd::seq_lib::to_multiset_build(ids, x);
    }
    assert(vstd::relations::sorted_by(q, leq)) by {
        assert forall|i: int, j: int| 0 <= i < j < q.len() implies #[trigger] leq(q[i], q[j]) by {
            if j < o.len() {
                assert(leq(o[i], o[j]));
            } else {
                lemma_same_members(ids, o, i);
            }
        }
    }
    vstd::seq_lib::lemma_sorted_unique(p, q, leq);
    lemma_same_len(ids, o);
    assert(p == q);
    assert(q.drop_last() =~= o);
    assert(q.last() == x);
    if ids.len() == 0 {
        assert(render::archive_list(ids) =~= seq!['[', ']']);
        assert(render::archive_list(more) =~= seq!['['] + text::dec(x as nat) + seq![']']);
    } else {
        assert(render::archive_list(ids).drop_last() =~= "["@ + render::comma_list(o));
        assert(render::archive_list(more) =~= render::archive_list(ids).drop_last() + seq![',', ' ']
            + text::dec(x as nat) + seq![']']);
    }
}

/// A rearrangement is as long.
proof fn lemma_same_len(a: Seq<u32>, b: Seq<u32>)
    requires
        a.to_multiset() == b.to_multiset(),
    ensures
        a.len() == b.len(),
{
    vstd::seq_lib::to_multiset_len(a);
    vstd::seq_lib::to_multiset_len(b);
}

/// A rearrangement holds the same numbers.
proof fn lemma_same_members(a: Seq<u32>, b: Seq<u32>, i: int)
    requires
        a.to_multiset() == b.to_multiset(),
        0 <= i < b.len(),
    ensures
        a.contains(b[i]),
{
    vstd::seq_lib::to_multiset_contains(b, b[i]);
    vstd::seq_lib::to_multiset_contains(a, b[i]);
    assert(b.contains(b[i]));
}

// ---------------------------------------------------------------------------
// Status
// ---------------------------------------------------------------------------

/// The lines above the agents: the three counts, each under its word, and how many
/// agents there are.
pub open spec fn summary(waiting: nat, started: nat, total: nat, agents: nat) -> Seq<char> {
    "Actions\n"@ + ("  waiting : "@ + text::dec(waiting) + "\n"@) + ("  started : "@ + text::dec(
        started,
    ) + "\n"@) + ("  total   : "@ + text::dec(total) + "\n"@) + "\n"@ + ("Agents ("@ + text::dec(
        agents,
    ) + ")\n"@)
}

/// The summary as it is printed.
proof fn lemma_summary(resp: CtlStatusResponse)
    ensures
        render::status_text(resp) == summary(
            resp.actions_waiting as nat,
            resp.actions_started as nat,
            resp.actions_total as nat,
            resp.agents@.len(),
        ) + render::agent_lines(resp.agents@),
{
    reveal_strlit("Actions\n  waiting : ");
    reveal_strlit("\n  started : ");
    reveal_strlit("\n  total   : ");
    reveal_strlit("\n\nAgents (");
    reveal_strlit("Actions\n");
    reveal_strlit("  waiting : ");
    reveal_strlit("  started : ");
    reveal_strlit("  total   : ");
    reveal_strlit("Agents (");
    reveal_strlit("\n");
    assert("Actions\n  waiting : "@ =~= "Actions\n"@ + "  waiting : "@);
    assert("\n  started : "@ =~= "\n"@ + "  started : "@);
    assert("\n  total   : "@ =~= "\n"@ + "  total   : "@);
    assert("\n\nAgents ("@ =~= "\n"@ + "\n"@ + "Agents ("@);
    let w = text::dec(resp.actions_waiting as nat);
    let s = text::dec(resp.actions_started as nat);
    let t = text::dec(resp.actions_total as nat);
    let n = text::dec(resp.agents@.len());
    let rest = render::agent_lines(resp.agents@);
    assert(render::status_text(resp) =~= summary(
        resp.actions_waiting as nat,
        resp.actions_started as nat,
        resp.actions_total as nat,
        resp.agents@.len(),
    ) + rest);
}

/// Without agents, the status is its summary.
pub proof fn lemma_status_call(resp: &CtlStatusResponse, r: String)
    requires
        call_ensures(render_status, (resp,), r),
    ensures
        resp.agents@.len() == 0 ==> r@ == summary(
            resp.actions_waiting as nat,
            resp.actions_started as nat,
            resp.actions_total as nat,
            0,
        ),
{
    lemma_summary(*resp);
    if resp.agents@.len() == 0 {
        assert(r@ =~= summary(
            resp.actions_waiting as nat,
            resp.actions_started as nat,
            resp.actions_total as nat,
            0,
        ));
    }
}

/// One more agent is one more line behind the others: its id, and its archives.
pub proof fn lemma_status_one_more(
    resp: &CtlStatusResponse,
    more: &CtlStatusResponse,
    r: String,
    q: String,
)
    requires
        call_ensures(render_status, (resp,), r),
        call_ensures(render_status, (more,), q),
        more.agents@.len() == resp.agents@.len() + 1,
        more.agents@.drop_last() == resp.agents@,
    ensures
        exists|lines: Seq<char>|
            r@ == #[trigger] (summary(
                resp.actions_waiting as nat,
                resp.actions_started as nat,
                resp.actions_total as nat,
                resp.agents@.len(),
            ) + lines) && q@ == summary(
                more.actions_waiting as nat,
                more.actions_started as nat,
                more.actions_total as nat,
                more.agents@.len(),
            ) + (lines + ("  "@ + more.agents@.last().agent_id@ + "  archives="@
                + render::archive_list(more.agents@.last().archive_ids@) + "\n"@)),
{
    lemma_summary(*resp);
    lemma_summary(*more);
    let lines = render::agent_lines(resp.agents@);
    assert(render::agent_lines(more.agents@) =~= lines + ("  "@ + more.agents@.last().agent_id@
        + "  archives="@ + render::archive_list(more.agents@.last().archive_ids@) + "\n"@));
}

// ---------------------------------------------------------------------------
// Agents
// ---------------------------------------------------------------------------

/// How long ago is told in whole seconds under a minute, in whole minutes under an hour,
/// in whole hours under a day, and in whole days from then on; a part of a unit that has
/// not passed does not count. A moment that is still to come is told as it is.
pub proof fn lemma_ago(secs: i64, now: Timestamp, r: String)
    requires
        call_ensures(format_unix_secs, (secs, now), r),
    ensures
        ({
            let at: int = if secs > 0 {
                secs as int
            } else {
                0
            };
            let passed: int = now.nanos - at * 1_000_000_000;
            let second: int = 1_000_000_000;
            &&& passed < 0 ==> r@ == "unix="@ + text::dec_int(secs as int)
            &&& 0 <= passed < 60 * second ==> exists|n: nat|
                r@ == #[trigger] text::dec(n) + "s ago"@ && n * second <= passed < (n + 1) * second
            &&& 60 * second <= passed < 3600 * second ==> exists|n: nat|
                r@ == #[trigger] text::dec(n) + "m ago"@ && n * 60 * second <= passed < (n + 1) * 60
                    * second
            &&& 3600 * second <= passed < 86400 * second ==> exists|n: nat|
                r@ == #[trigger] text::dec(n) + "h ago"@ && n * 3600 * second <= passed < (n + 1)
                    * 3600 * second
            &&& 86400 * second <= passed ==> exists|n: nat|
                r@ == #[trigger] text::dec(n) + "d ago"@ && n * 86400 * second <= passed < (n + 1)
                    * 86400 * second
        }),
{
    let at: int = if secs > 0 {
        secs as int
    } else {
        0
    };
    let passed: int = now.nanos - at * 1_000_000_000;
    let second: int = 1_000_000_000;
    if passed >= 0 {
        let s: int = passed / second;
        if s < 60 {
            assert(r@ == text::dec(s as nat) + "s ago"@);
        } else if s < 3600 {
            assert(r@ == text::dec((s / 60) as nat) + "m ago"@);
        } else if s < 86400 {
            assert(r@ == text::dec((s / 3600) as nat) + "h ago"@);
        } else {
            assert(r@ == text::dec((s / 86400) as nat) + "d ago"@);
        }
    }
}

/// `row` is one line of three columns: the id, the archives, and since when.
pub open spec fn agent_line(row: Seq<char>, a: CtlAgentInfo, since: Seq<char>) -> bool {
    exists|id: Seq<char>, archives: Seq<char>|
        #![trigger left(id, a.agent_id@, 30), left(archives, render::archive_list(a.archive_ids@), 20)]
        left(id, a.agent_id@, 30) && left(archives, render::archive_list(a.archive_ids@), 20) && row
            == id + " "@ + archives + " "@ + since + "\n"@
}

/// The head of the agent table.
pub open spec fn agent_head(head: Seq<char>) -> bool {
    exists|one: Seq<char>, two: Seq<char>|
        #![trigger left(one, "AGENT"@, 30), left(two, "ARCHIVES"@, 20)]
        left(one, "AGENT"@, 30) && left(two, "ARCHIVES"@, 20) && head == one + " "@ + two
            + " SINCE\n"@
}

/// Since when an agent is there is told as how long ago that was; of one that has no
/// time of registration it is left open.
proof fn lemma_agent_row(a: CtlAgentInfo, now: Timestamp, when: String)
    requires
        call_ensures(format_unix_secs, (a.registered_at_secs, now), when),
    ensures
        agent_line(
            render::agent_row(a, now),
            a,
            if a.registered_at_secs > 0 {
                when@
            } else {
                seq!['-']
            },
        ),
{
    reveal_strlit("-");
    assert("-"@ =~= seq!['-']);
    let id = render::padded(a.agent_id@, 30);
    let archives = render::padded(render::archive_list(a.archive_ids@), 20);
    lemma_columns(a.agent_id@, 30);
    lemma_columns(render::archive_list(a.archive_ids@), 20);
    assert(left(id, a.agent_id@, 30) && left(archives, render::archive_list(a.archive_ids@), 20));
}

/// Without agents the table says so. One agent is one line under the head, and one more
/// agent is one more line: its id, its archives, and how long it has been there.
pub proof fn lemma_agents_call(
    agents: &Vec<CtlAgentInfo>,
    more: &Vec<CtlAgentInfo>,
    now: Timestamp,
    r: String,
    q: String,
    when: String,
)
    requires
        call_ensures(render_agents, (agents, now), r),
        call_ensures(render_agents, (more, now), q),
        more@.len() == agents@.len() + 1,
        more@.drop_last() == agents@,
        call_ensures(format_unix_secs, (more@.last().registered_at_secs, now), when),
    ensures
        agents@.len() == 0 ==> r@ == "No agents connected.\n"@,
        exists|head: Seq<char>, row: Seq<char>|
            q@ == #[trigger] (head + row) && agent_line(
                row,
                more@.last(),
                if more@.last().registered_at_secs > 0 {
                    when@
                } else {
                    seq!['-']
                },
            ) && (if agents@.len() == 0 {
                agent_head(head)
            } else {
                head == r@
            }),
{
    let row = render::agent_row(more@.last(), now);
    lemma_agent_row(more@.last(), now, when);
    let top = render::padded("AGENT"@, 30) + " "@ + render::padded("ARCHIVES"@, 20) + " SINCE\n"@;
    lemma_columns("AGENT"@, 30);
    lemma_columns("ARCHIVES"@, 20);
    assert(agent_head(top)) by {
        let one = render::padded("AGENT"@, 30);
        let two = render::padded("ARCHIVES"@, 20);
        assert(left(one, "AGENT"@, 30) && left(two, "ARCHIVES"@, 20));
    }
    let head = top + render::agent_rows(agents@, now);
    assert(q@ =~= head + row);
    if agents@.len() == 0 {
        assert(head =~= top);
    }
}

// ---------------------------------------------------------------------------
// Actions
// ---------------------------------------------------------------------------

/// The columns of one line of the action table.
pub struct Cells {
    pub cookie: Seq<char>,
    pub fid: Seq<char>,
    pub archive: Seq<char>,
    pub kind: Seq<char>,
    pub state: Seq<char>,
    pub agent: Seq<char>,
}

/// The line of these columns.
pub open spec fn line_of(c: Cells, rest: Seq<char>) -> Seq<char> {
    c.cookie + " "@ + c.fid + " "@ + c.archive + " "@ + c.kind + " "@ + c.state + " "@ + c.agent
        + " "@ + rest + "\n"@
}

/// Each column holds its part of the action; where no agent runs it there is a dash.
pub open spec fn cells_of(c: Cells, a: CtlActionRecord) -> bool {
    &&& left(c.cookie, text::hex0x(a.cookie as nat), 18)
    &&& left(c.fid, a.fid@, 30)
    &&& right(c.archive, text::dec(a.archive_id as nat), 3)
    &&& left(c.kind, a.kind@, 8)
    &&& left(c.state, a.state@, 9)
    &&& left(
        c.agent,
        if a.agent_id@.len() == 0 {
            seq!['-']
        } else {
            a.agent_id@
        },
        25,
    )
}

/// The head over these columns.
pub open spec fn heads_of(c: Cells) -> bool {
    &&& left(c.cookie, "COOKIE"@, 18)
    &&& left(c.fid, "FID"@, 30)
    &&& right(c.archive, "AID"@, 3)
    &&& left(c.kind, "KIND"@, 8)
    &&& left(c.state, "STATE"@, 9)
    &&& left(c.agent, "AGENT"@, 25)
}

/// Without actions the table says so. One action is one line under the head, and one
/// more action is one more line: its cookie, its file, its archive, what is to be done,
/// how it stands, who runs it, and how far it has come.
pub proof fn lemma_actions_call(
    actions: &Vec<CtlActionRecord>,
    more: &Vec<CtlActionRecord>,
    r: String,
    q: String,
)
    requires
        call_ensures(render_actions, (actions,), r),
        call_ensures(render_actions, (more,), q),
        more@.len() == actions@.len() + 1,
        more@.drop_last() == actions@,
    ensures
        actions@.len() == 0 ==> r@ == "No actions.\n"@,
        exists|top: Cells, c: Cells, above: Seq<char>|
            #![trigger heads_of(top), cells_of(c, more@.last()), above.len()]
            heads_of(top) && cells_of(c, more@.last()) && q@ == above + line_of(
                c,
                text::dec(more@.last().progress as nat) + " bytes"@,
            ) && above == (if actions@.len() == 0 {
                line_of(top, "PROGRESS"@)
            } else {
                r@
            }),
{
    reveal_strlit("-");
    assert("-"@ =~= seq!['-']);
    reveal_strlit(" ");
    reveal_strlit("\n");
    reveal_strlit(" PROGRESS\n");
    reveal_strlit("PROGRESS");
    reveal_strlit(" bytes\n");
    reveal_strlit(" bytes");
    assert(" PROGRESS\n"@ =~= " "@ + "PROGRESS"@ + "\n"@);
    assert(" bytes\n"@ =~= " bytes"@ + "\n"@);
    let a = more@.last();
    let agent = if a.agent_id@.len() == 0 {
        "-"@
    } else {
        a.agent_id@
    };
    let c = Cells {
        cookie: render::padded(text::hex0x(a.cookie as nat), 18),
        fid: render::padded(a.fid@, 30),
        archive: render::indented(text::dec(a.archive_id as nat), 3),
        kind: render::padded(a.kind@, 8),
        state: render::padded(a.state@, 9),
        agent: render::padded(agent, 25),
    };
    lemma_columns(text::hex0x(a.cookie as nat), 18);
    lemma_columns(a.fid@, 30);
    lemma_columns(text::dec(a.archive_id as nat), 3);
    lemma_columns(a.kind@, 8);
    lemma_columns(a.state@, 9);
    lemma_columns(agent, 25);
    let top = Cells {
        cookie: render::padded("COOKIE"@, 18),
        fid: render::padded("FID"@, 30),
        archive: render::indented("AID"@, 3),
        kind: render::padded("KIND"@, 8),
        state: render::padded("STATE"@, 9),
        agent: render::padded("AGENT"@, 25),
    };
    lemma_columns("COOKIE"@, 18);
    lemma_columns("FID"@, 30);
    lemma_columns("AID"@, 3);
    lemma_columns("KIND"@, 8);
    lemma_columns("STATE"@, 9);
    lemma_columns("AGENT"@, 25);
    assert(heads_of(top));
    assert(cells_of(c, a));
    let done = text::dec(a.progress as nat);
    assert(render::action_row(a@) =~= line_of(c, done + " bytes"@)) by {
        let front = c.cookie + " "@ + c.fid + " "@ + c.archive + " "@ + c.kind + " "@ + c.state
            + " "@ + c.agent + " "@;
        assert(render::action_row(a@) =~= front + done + " bytes\n"@);
        assert(line_of(c, done + " bytes"@) =~= front + done + " bytes\n"@);
    }
    assert(render::action_head() =~= line_of(top, "PROGRESS"@)) by {
        let front = top.cookie + " "@ + top.fid + " "@ + top.archive + " "@ + top.kind + " "@
            + top.state + " "@ + top.agent;
        assert(render::action_head() =~= front + " PROGRESS\n"@);
        assert(line_of(top, "PROGRESS"@) =~= front + " PROGRESS\n"@);
    }
    let above = render::action_head() + render::action_rows(actions@);
    assert(q@ =~= above + render::action_row(a@));
    if actions@.len() == 0 {
        assert(above =~= render::action_head());
    }
    assert(above.len() >= 0);
}

// ---------------------------------------------------------------------------
// Attributes
// ---------------------------------------------------------------------------

/// What is stored about a file is shown in three lines; a file with nothing stored is
/// named as not archived, and a failure is an error that names the file.
pub proof fn lemma_xattrs_call(
    path: &str,
    found: XattrResult<Option<BackendObject>>,
    r: Result<String, String>,
)
    requires
        call_ensures(render_xattrs, (path, found), r),
    ensures
        r is Ok <==> found is Ok,
        found is Ok && found->Ok_0 is Some ==> ({
            let o = found->Ok_0->0@;
            r->Ok_0@ == "uuid : "@ + o.uuid + "\n"@ + "hash : "@ + backend::bytes_hex(o.hash)
                + "\n"@ + "url  : "@ + o.url + "\n"@
        }),
        found is Ok && found->Ok_0 is None ==> r->Ok_0@ == path@
            + ": no lhsm_* xattrs (file not archived)\n"@,
        found is Err ==> r->Err_0@ == "xattr read "@ + path@ + ": "@ + found->Err_0@.message(),
{
    reveal_strlit("\nhash : ");
    reveal_strlit("\nurl  : ");
    reveal_strlit("hash : ");
    reveal_strlit("url  : ");
    reveal_strlit("\n");
    assert("\nhash : "@ =~= "\n"@ + "hash : "@);
    assert("\nurl  : "@ =~= "\n"@ + "url  : "@);
    if found is Ok && found->Ok_0 is Some {
        let o = found->Ok_0->0@;
        assert(r->Ok_0@ =~= "uuid : "@ + o.uuid + "\n"@ + "hash : "@ + backend::bytes_hex(o.hash)
            + "\n"@ + "url  : "@ + o.url + "\n"@);
    }
}

/// What was imported is named with everything that was written for it; a failure is an
/// error that names the file.
pub proof fn lemma_import_call(
    path: &str,
    obj: &BackendObject,
    done: XattrResult<()>,
    r: Result<String, String>,
)
    requires
        call_ensures(render_import, (path, obj, done), r),
    ensures
        r is Ok <==> done is Ok,
        done is Ok ==> r->Ok_0@ == "imported: "@ + path@ + "\n"@ + "  uuid="@ + obj@.uuid + "\n"@
            + "  hash="@ + backend::bytes_hex(obj@.hash) + "\n"@ + "  url="@ + obj@.url + "\n"@,
        done is Err ==> r->Err_0@ == "xattr write "@ + path@ + ": "@ + done->Err_0@.message(),
{
    reveal_strlit("\n  uuid=");
    reveal_strlit("\n  hash=");
    reveal_strlit("\n  url=");
    reveal_strlit("  uuid=");
    reveal_strlit("  hash=");
    reveal_strlit("  url=");
    reveal_strlit("\n");
    assert("\n  uuid="@ =~= "\n"@ + "  uuid="@);
    assert("\n  hash="@ =~= "\n"@ + "  hash="@);
    assert("\n  url="@ =~= "\n"@ + "  url="@);
    if done is Ok {
        assert(r->Ok_0@ =~= "imported: "@ + path@ + "\n"@ + "  uuid="@ + obj@.uuid + "\n"@
            + "  hash="@ + backend::bytes_hex(obj@.hash) + "\n"@ + "  url="@ + obj@.url + "\n"@);
    }
}

} // verus!
