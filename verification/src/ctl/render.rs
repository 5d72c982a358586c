//! What the control tool prints.

use crate::daemon::xattr_store::XattrResult;
use crate::model::backend;
use crate::model::{BackendObject, Timestamp};
use crate::proto::{CtlActionRecord, CtlActionView, CtlAgentInfo, CtlStatusResponse};
use crate::text;
use vstd::prelude::*;

verus! {

// ---------------------------------------------------------------------------
// Columns
// ---------------------------------------------------------------------------

/// `n` blanks, none when `n` is not positive.
pub open spec fn blanks(n: int) -> Seq<char> {
    Seq::new(
        if n > 0 {
            n as nat
        } else {
            0
        },
        |i: int| ' ',
    )
}

/// The text, filled up with blanks behind it to a width.
pub open spec fn padded(s: Seq<char>, width: nat) -> Seq<char> {
    s + blanks(width - s.len())
}

/// The text, filled up with blanks before it to a width.
pub open spec fn indented(s: Seq<char>, width: nat) -> Seq<char> {
    blanks(width - s.len()) + s
}

/// Append blanks until `used` characters have become `width`.
fn fill(out: &mut String, used: usize, width: usize)
    ensures
        final(out)@ == old(out)@ + blanks(width - used),
{
    let ghost start = out@;
    let mut i: usize = used;
    proof {
        assert(start + blanks(0) =~= start);
    }
    while i < width
        invariant
            used <= i,
            i <= width || i == used,
            out@ == start + blanks(i - used),
        decreases width - i,
    {
        out.push(' ');
        proof {
            assert(out@ =~= start + blanks(i + 1 - used));
        }
        i = i + 1;
    }
    proof {
        assert(blanks(width - used) =~= blanks(i - used));
    }
}

/// Append a text and fill up behind it.
fn push_padded(out: &mut String, s: &str, width: usize)
    ensures
        final(out)@ == old(out)@ + padded(s@, width as nat),
{
    let ghost start = out@;
    let n: usize = text::chars_of(s).len();
    out.append(s);
    fill(out, n, width);
    proof {
        assert(out@ =~= start + padded(s@, width as nat));
    }
}

/// Fill up before a text and append it.
fn push_indented(out: &mut String, s: &str, width: usize)
    ensures
        final(out)@ == old(out)@ + indented(s@, width as nat),
{
    let ghost start = out@;
    let n: usize = text::chars_of(s).len();
    fill(out, n, width);
    out.append(s);
    proof {
        assert(out@ =~= start + indented(s@, width as nat));
    }
}

// ---------------------------------------------------------------------------
// Archive lists
// ---------------------------------------------------------------------------

/// The order of archive numbers.
pub open spec fn by_number() -> spec_fn(u32, u32) -> bool {
    |a: u32, b: u32| a <= b
}

/// Archive numbers in ascending order.
pub open spec fn ordered(ids: Seq<u32>) -> Seq<u32> {
    ids.sort_by(by_number())
}

/// Archive numbers in ascending order, by insertion.
fn ordered_ids(ids: &Vec<u32>) -> (r: Vec<u32>)
    ensures
        r@ == ordered(ids@),
{
    let mut out: Vec<u32> = Vec::new();
    let mut i: usize = 0;
    proof {
        assert(ids@.take(0) =~= out@);
    }
    while i < ids.len()
        invariant
            i <= ids@.len(),
            out@.len() == i,
            vstd::relations::sorted_by(out@, by_number()),
            out@.to_multiset() == ids@.take(i as int).to_multiset(),
        decreases ids.len() - i,
    {
        let x: u32 = ids[i];
        let mut p: usize = 0;
        while p < out.len() && out[p] <= x
            invariant
                p <= out@.len(),
                forall|j: int| 0 <= j < p ==> #[trigger] out@[j] <= x,
            decreases out.len() - p,
        {
            p = p + 1;
        }
        let ghost before = out@;
        proof {
            lemma_insert_sorted(before, p as int, x);
            vstd::seq_lib::to_multiset_insert(before, p as int, x);
            let t = ids@.take(i as int);
            t.to_multiset_ensures();
            assert(ids@.take(i + 1) =~= t.push(x));
        }
        out.insert(p, x);
        i = i + 1;
    }
    proof {
        assert(ids@.take(i as int) =~= ids@);
        ids@.lemma_sort_by_ensures(by_number());
        vstd::seq_lib::lemma_sorted_unique(out@, ordered(ids@), by_number());
    }
    out
}

/// Inserting where everything before is smaller and the next is larger keeps the
/// order.
proof fn lemma_insert_sorted(s: Seq<u32>, p: int, x: u32)
    requires
        vstd::relations::sorted_by(s, by_number()),
        0 <= p <= s.len(),
        forall|j: int| 0 <= j < p ==> #[trigger] s[j] <= x,
        p < s.len() ==> s[p] > x,
    ensures
        vstd::relations::sorted_by(s.insert(p, x), by_number()),
{
    let leq = by_number();
    let t = s.insert(p, x);
    assert forall|i: int, j: int| 0 <= i < j < t.len() implies #[trigger] leq(t[i], t[j]) by {
        let a = if i < p {
            i
        } else {
            i - 1
        };
        let b = if j < p {
            j
        } else {
            j - 1
        };
        if i != p && j != p {
            assert(leq(s[a], s[b]));
        } else if i == p {
            if b > p {
                assert(leq(s[p], s[b]));
            }
        }
    }
}

/// Numbers separated by commas.
pub open spec fn comma_list(ids: Seq<u32>) -> Seq<char>
    decreases ids.len(),
{
    if ids.len() == 0 {
        Seq::empty()
    } else if ids.len() == 1 {
        text::dec(ids[0] as nat)
    } else {
        comma_list(ids.drop_last()) + ", "@ + text::dec(ids.last() as nat)
    }
}

/// The archives of an agent as text: in ascending order, in brackets.
pub open spec fn archive_list(ids: Seq<u32>) -> Seq<char> {
    "["@ + comma_list(ordered(ids)) + "]"@
}

/// The archives of an agent as text.
fn archives_text(ids: &Vec<u32>) -> (r: String)
    ensures
        r@ == archive_list(ids@),
{
    let v = ordered_ids(ids);
    let ghost all = v@;
    let mut out = "[".to_owned();
    let mut i: usize = 0;
    proof {
        assert(all.take(0) =~= Seq::<u32>::empty());
        assert(out@ =~= "["@ + comma_list(all.take(0)));
    }
    while i < v.len()
        invariant
            i <= v@.len(),
            all == v@,
            out@ == "["@ + comma_list(all.take(i as int)),
        decreases v.len() - i,
    {
        if i > 0 {
            out.append(", ");
        }
        text::push_dec(&mut out, v[i] as u128);
        proof {
            assert(all.take(i + 1).drop_last() =~= all.take(i as int));
            assert(all.take(i + 1).last() == all[i as int]);
            assert(out@ =~= "["@ + comma_list(all.take(i + 1)));
        }
        i = i + 1;
    }
    proof {
        assert(all.take(i as int) =~= all);
    }
    out.append("]");
    out
}

// ---------------------------------------------------------------------------
// status
// ---------------------------------------------------------------------------

/// One line for each agent.
pub open spec fn agent_lines(agents: Seq<CtlAgentInfo>) -> Seq<char>
    decreases agents.len(),
{
    if agents.len() == 0 {
        Seq::empty()
    } else {
        agent_lines(agents.drop_last()) + "  "@ + agents.last().agent_id@ + "  archives="@
            + archive_list(agents.last().archive_ids@) + "\n"@
    }
}

/// The daemon's health as text.
pub open spec fn status_text(r: CtlStatusResponse) -> Seq<char> {
    "Actions\n  waiting : "@ + text::dec(r.actions_waiting as nat) + "\n  started : "@ + text::dec(
        r.actions_started as nat,
    ) + "\n  total   : "@ + text::dec(r.actions_total as nat) + "\n\nAgents ("@ + text::dec(
        r.agents@.len(),
    ) + ")\n"@ + agent_lines(r.agents@)
}

/// The daemon's health as text.
pub fn render_status(resp: &CtlStatusResponse) -> (r: String)
    ensures
        r@ == status_text(*resp),
{
    let mut out = "Actions\n  waiting : ".to_owned();
    text::push_dec(&mut out, resp.actions_waiting as u128);
    out.append("\n  started : ");
    text::push_dec(&mut out, resp.actions_started as u128);
    out.append("\n  total   : ");
    text::push_dec(&mut out, resp.actions_total as u128);
    out.append("\n\nAgents (");
    text::push_dec(&mut out, resp.agents.len() as u128);
    out.append(")\n");
    let ghost head = out@;
    let ghost all = resp.agents@;
    let mut i: usize = 0;
    proof {
        assert(all.take(0) =~= Seq::<CtlAgentInfo>::empty());
        assert(head + agent_lines(all.take(0)) =~= head);
    }
    while i < resp.agents.len()
        invariant
            i <= resp.agents@.len(),
            all == resp.agents@,
            out@ == head + agent_lines(all.take(i as int)),
        decreases resp.agents.len() - i,
    {
        let a = &resp.agents[i];
        out.append("  ");
        out.append(a.agent_id.as_str());
        out.append("  archives=");
        out.append(archives_text(&a.archive_ids).as_str());
        out.append("\n");
        proof {
            assert(all.take(i + 1).drop_last() =~= all.take(i as int));
            assert(all.take(i + 1).last() == all[i as int]);
            assert(out@ =~= head + agent_lines(all.take(i + 1)));
        }
        i = i + 1;
    }
    proof {
        assert(all.take(i as int) =~= all);
    }
    out
}

// ---------------------------------------------------------------------------
// agents
// ---------------------------------------------------------------------------

/// How long ago a moment was, in the largest unit that fits; a moment in the
/// future is given as it is.
pub open spec fn ago(secs: i64, now: Timestamp) -> Seq<char> {
    let at: int = if secs > 0 {
        secs as int
    } else {
        0
    };
    let s: int = (now.nanos - at * 1_000_000_000) / 1_000_000_000;
    if now.nanos < at * 1_000_000_000 {
        "unix="@ + text::dec_int(secs as int)
    } else if s < 60 {
        text::dec(s as nat) + "s ago"@
    } else if s < 3600 {
        text::dec((s / 60) as nat) + "m ago"@
    } else if s < 86400 {
        text::dec((s / 3600) as nat) + "h ago"@
    } else {
        text::dec((s / 86400) as nat) + "d ago"@
    }
}

/// How long ago a moment, given in seconds since the epoch, was at `now`.
pub fn format_unix_secs(secs: i64, now: Timestamp) -> (r: String)
    ensures
        r@ == ago(secs, now),
{
    let at: i128 = if secs > 0 {
        secs as i128 * 1_000_000_000
    } else {
        0
    };
    let mut out = String::new();
    if now.nanos < at {
        out.append("unix=");
        text::push_dec_int(&mut out, secs);
        proof {
            assert(out@ =~= ago(secs, now));
        }
        return out;
    }
    let s: u128 = ((now.nanos - at) as u128) / 1_000_000_000;
    if s < 60 {
        text::push_dec(&mut out, s);
        out.append("s ago");
    } else if s < 3600 {
        text::push_dec(&mut out, s / 60);
        out.append("m ago");
    } else if s < 86400 {
        text::push_dec(&mut out, s / 3600);
        out.append("h ago");
    } else {
        text::push_dec(&mut out, s / 86400);
        out.append("d ago");
    }
    proof {
        assert(out@ =~= ago(secs, now));
    }
    out
}

/// When an agent came, as text.
pub open spec fn since_text(secs: i64, now: Timestamp) -> Seq<char> {
    if secs > 0 {
        ago(secs, now)
    } else {
        "-"@
    }
}

/// One row of the agent table.
pub open spec fn agent_row(a: CtlAgentInfo, now: Timestamp) -> Seq<char> {
    padded(a.agent_id@, 30) + " "@ + padded(archive_list(a.archive_ids@), 20) + " "@ + since_text(
        a.registered_at_secs,
        now,
    ) + "\n"@
}

/// The rows of the agent table.
pub open spec fn agent_rows(agents: Seq<CtlAgentInfo>, now: Timestamp) -> Seq<char>
    decreases agents.len(),
{
    if agents.len() == 0 {
        Seq::empty()
    } else {
        agent_rows(agents.drop_last(), now) + agent_row(agents.last(), now)
    }
}

/// The agent table.
pub open spec fn agents_text(agents: Seq<CtlAgentInfo>, now: Timestamp) -> Seq<char> {
    if agents.len() == 0 {
        "No agents connected.\n"@
    } else {
        padded("AGENT"@, 30) + " "@ + padded("ARCHIVES"@, 20) + " SINCE\n"@ + agent_rows(agents, now)
    }
}

/// Append one row of the agent table.
fn push_agent_row(out: &mut String, a: &CtlAgentInfo, now: Timestamp)
    ensures
        final(out)@ == old(out)@ + agent_row(*a, now),
{
    let ghost start = out@;
    push_padded(out, a.agent_id.as_str(), 30);
    out.append(" ");
    push_padded(out, archives_text(&a.archive_ids).as_str(), 20);
    out.append(" ");
    if a.registered_at_secs > 0 {
        out.append(format_unix_secs(a.registered_at_secs, now).as_str());
    } else {
        out.append("-");
    }
    out.append("\n");
    proof {
        assert(out@ =~= start + agent_row(*a, now));
    }
}

/// The agent table.
pub fn render_agents(agents: &Vec<CtlAgentInfo>, now: Timestamp) -> (r: String)
    ensures
        r@ == agents_text(agents@, now),
{
    if agents.len() == 0 {
        return "No agents connected.\n".to_owned();
    }
    let mut out = String::new();
    push_padded(&mut out, "AGENT", 30);
    out.append(" ");
    push_padded(&mut out, "ARCHIVES", 20);
    out.append(" SINCE\n");
    let ghost head = padded("AGENT"@, 30) + " "@ + padded("ARCHIVES"@, 20) + " SINCE\n"@;
    let ghost all = agents@;
    let mut i: usize = 0;
    proof {
        assert(all.take(0) =~= Seq::<CtlAgentInfo>::empty());
        assert(out@ =~= head + agent_rows(all.take(0), now));
    }
    while i < agents.len()
        invariant
            i <= agents@.len(),
            all == agents@,
            out@ == head + agent_rows(all.take(i as int), now),
        decreases agents.len() - i,
    {
        push_agent_row(&mut out, &agents[i], now);
        proof {
            assert(all.take(i + 1).drop_last() =~= all.take(i as int));
            assert(all.take(i + 1).last() == all[i as int]);
            assert(out@ =~= head + agent_rows(all.take(i + 1), now));
        }
        i = i + 1;
    }
    proof {
        assert(all.take(i as int) =~= all);
    }
    out
}

// ---------------------------------------------------------------------------
// actions
// ---------------------------------------------------------------------------

/// One row of the action table.
pub open spec fn action_row(a: CtlActionView) -> Seq<char> {
    padded(text::hex0x(a.cookie as nat), 18) + " "@ + padded(a.fid, 30) + " "@ + indented(
        text::dec(a.archive_id as nat),
        3,
    ) + " "@ + padded(a.kind, 8) + " "@ + padded(a.state, 9) + " "@ + padded(
        if a.agent_id.len() == 0 {
            "-"@
        } else {
            a.agent_id
        },
        25,
    ) + " "@ + text::dec(a.progress as nat) + " bytes\n"@
}

/// The rows of the action table.
pub open spec fn action_rows(actions: Seq<CtlActionRecord>) -> Seq<char>
    decreases actions.len(),
{
    if actions.len() == 0 {
        Seq::empty()
    } else {
        action_rows(actions.drop_last()) + action_row(actions.last()@)
    }
}

/// The head of the action table.
pub open spec fn action_head() -> Seq<char> {
    padded("COOKIE"@, 18) + " "@ + padded("FID"@, 30) + " "@ + indented("AID"@, 3) + " "@ + padded(
        "KIND"@,
        8,
    ) + " "@ + padded("STATE"@, 9) + " "@ + padded("AGENT"@, 25) + " PROGRESS\n"@
}

/// The action table.
pub open spec fn actions_text(actions: Seq<CtlActionRecord>) -> Seq<char> {
    if actions.len() == 0 {
        "No actions.\n"@
    } else {
        action_head() + action_rows(actions)
    }
}

/// Append one row of the action table.
fn push_action_row(out: &mut String, a: &CtlActionRecord)
    ensures
        final(out)@ == old(out)@ + action_row(a@),
{
    let ghost start = out@;
    let mut cookie = String::new();
    text::push_hex0x(&mut cookie, a.cookie);
    let mut archive = String::new();
    text::push_dec(&mut archive, a.archive_id as u128);
    proof {
        assert(cookie@ =~= text::hex0x(a.cookie as nat));
        assert(archive@ =~= text::dec(a.archive_id as nat));
    }
    push_padded(out, cookie.as_str(), 18);
    out.append(" ");
    push_padded(out, a.fid.as_str(), 30);
    out.append(" ");
    push_indented(out, archive.as_str(), 3);
    out.append(" ");
    push_padded(out, a.kind.as_str(), 8);
    out.append(" ");
    push_padded(out, a.state.as_str(), 9);
    out.append(" ");
    if a.agent_id.as_str().is_empty() {
        push_padded(out, "-", 25);
    } else {
        push_padded(out, a.agent_id.as_str(), 25);
    }
    out.append(" ");
    text::push_dec(out, a.progress as u128);
    out.append(" bytes\n");
    proof {
        assert(out@ =~= start + action_row(a@));
    }
}

/// The action table.
pub fn render_actions(actions: &Vec<CtlActionRecord>) -> (r: String)
    ensures
        r@ == actions_text(actions@),
{
    if actions.len() == 0 {
        return "No actions.\n".to_owned();
    }
    let mut out = String::new();
    push_padded(&mut out, "COOKIE", 18);
    out.append(" ");
    push_padded(&mut out, "FID", 30);
    out.append(" ");
    push_indented(&mut out, "AID", 3);
    out.append(" ");
    push_padded(&mut out, "KIND", 8);
    out.append(" ");
    push_padded(&mut out, "STATE", 9);
    out.append(" ");
    push_padded(&mut out, "AGENT", 25);
    out.append(" PROGRESS\n");
    let ghost all = actions@;
    let mut i: usize = 0;
    proof {
        assert(all.take(0) =~= Seq::<CtlActionRecord>::empty());
        assert(out@ =~= action_head() + action_rows(all.take(0)));
    }
    while i < actions.len()
        invariant
            i <= actions@.len(),
            all == actions@,
            out@ == action_head() + action_rows(all.take(i as int)),
        decreases actions.len() - i,
    {
        push_action_row(&mut out, &actions[i]);
        proof {
            assert(all.take(i + 1).drop_last() =~= all.take(i as int));
            assert(all.take(i + 1).last() == all[i as int]);
            assert(out@ =~= action_head() + action_rows(all.take(i + 1)));
        }
        i = i + 1;
    }
    proof {
        assert(all.take(i as int) =~= all);
    }
    out
}

// ---------------------------------------------------------------------------
// xattr show, import
// ---------------------------------------------------------------------------

/// What `xattr show` prints, or the error it ends with.
pub fn render_xattrs(path: &str, found: XattrResult<Option<BackendObject>>) -> (r: Result<
    String,
    String,
>)
    ensures
        match found {
            Ok(Some(o)) => r matches Ok(s) && s@ == "uuid : "@ + o@.uuid + "\nhash : "@
                + backend::bytes_hex(o@.hash) + "\nurl  : "@ + o@.url + "\n"@,
            Ok(None) => r matches Ok(s) && s@ == path@
                + ": no lhsm_* xattrs (file not archived)\n"@,
            Err(e) => r matches Err(s) && s@ == "xattr read "@ + path@ + ": "@ + e@.message(),
        },
{
    match found {
        Ok(Some(o)) => {
            let mut out = "uuid : ".to_owned();
            out.append(o.uuid.as_str());
            out.append("\nhash : ");
            out.append(o.hash_hex().as_str());
            out.append("\nurl  : ");
            out.append(o.url.as_str());
            out.append("\n");
            Ok(out)
        },
        Ok(None) => {
            let mut out = path.to_owned();
            out.append(": no lhsm_* xattrs (file not archived)\n");
            Ok(out)
        },
        Err(e) => {
            let mut out = "xattr read ".to_owned();
            out.append(path);
            out.append(": ");
            out.append(e.to_string().as_str());
            Err(out)
        },
    }
}

/// What `import` prints, or the error it ends with.
pub fn render_import(path: &str, obj: &BackendObject, written: XattrResult<()>) -> (r: Result<
    String,
    String,
>)
    ensures
        match written {
            Ok(_) => r matches Ok(s) && s@ == "imported: "@ + path@ + "\n  uuid="@ + obj@.uuid
                + "\n  hash="@ + backend::bytes_hex(obj@.hash) + "\n  url="@ + obj@.url + "\n"@,
            Err(e) => r matches Err(s) && s@ == "xattr write "@ + path@ + ": "@ + e@.message(),
        },
{
    match written {
        Ok(_) => {
            let mut out = "imported: ".to_owned();
            out.append(path);
            out.append("\n  uuid=");
            out.append(obj.uuid.as_str());
            out.append("\n  hash=");
            out.append(obj.hash_hex().as_str());
            out.append("\n  url=");
            out.append(obj.url.as_str());
            out.append("\n");
            Ok(out)
        },
        Err(e) => {
            let mut out = "xattr write ".to_owned();
            out.append(path);
            out.append(": ");
            out.append(e.to_string().as_str());
            Err(out)
        },
    }
}

// ---------------------------------------------------------------------------
// Laws
// ---------------------------------------------------------------------------

/// A column is as wide as it should be, or as its text when that is longer.
pub proof fn lemma_column_width(s: Seq<char>, width: nat)
    ensures
        s.len() <= width ==> padded(s, width).len() == width && indented(s, width).len() == width,
        s.len() >= width ==> padded(s, width) == s && indented(s, width) == s,
        padded(s, width).take(s.len() as int) == s,
{
    assert(padded(s, width).take(s.len() as int) =~= s);
    if s.len() >= width {
        assert(padded(s, width) =~= s);
        assert(indented(s, width) =~= s);
    }
}

/// The order in which an agent names its archives does not show.
pub proof fn lemma_archive_order(a: Seq<u32>, b: Seq<u32>)
    requires
        a.to_multiset() == b.to_multiset(),
    ensures
        archive_list(a) == archive_list(b),
{
    a.lemma_sort_by_ensures(by_number());
    b.lemma_sort_by_ensures(by_number());
    vstd::seq_lib::lemma_sorted_unique(ordered(a), ordered(b), by_number());
}

} // verus!
