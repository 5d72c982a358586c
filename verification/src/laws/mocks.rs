//! Running without a kernel: actions that are begun and ended in memory, and actions
//! that come from a file.

use crate::daemon::mock_actions;
use crate::daemon::mock_actions::{new_lines, NewLines};
use crate::llapi::error::{HsmErrorView, Result};
use crate::llapi::lifecycle::{ActionHandle, EndStatus};
use crate::llapi::mock::{MockCompletion, MockCopytool, MockOutcome};
use crate::model::{Cookie, Extent};
use crate::scheduler::fifo;
use crate::text;
use vstd::prelude::*;

verus! {

// ---------------------------------------------------------------------------
// Begin and end
// ---------------------------------------------------------------------------

/// An action that is not in flight can be begun; it has then got nowhere, and nothing
/// else has changed. One that is in flight cannot be begun again.
pub proof fn lemma_begin<'a>(
    c: &'a mut MockCopytool,
    cookie: Cookie,
    r: Result<ActionHandle<'a, MockCopytool>>,
    x: u64,
)
    requires
        call_ensures(MockCopytool::begin, (c, cookie), r),
    ensures
        r is Ok <==> !old(c)@.in_flight.contains_key(cookie.0),
        r is Ok ==> {
            let now = r->Ok_0.parent@;
            &&& r->Ok_0.cookie == cookie
            &&& now.in_flight.contains_key(cookie.0)
            &&& now.in_flight[cookie.0].offset == 0 && now.in_flight[cookie.0].length == 0
            &&& x != cookie.0 ==> (now.in_flight.contains_key(x) <==> old(c)@.in_flight.contains_key(
                x,
            ))
            &&& x != cookie.0 && old(c)@.in_flight.contains_key(x) ==> now.in_flight[x] == old(
                c,
            )@.in_flight[x]
            &&& now.pending == old(c)@.pending
            &&& now.progress_log == old(c)@.progress_log
            &&& now.completions == old(c)@.completions
        },
        r is Err ==> final(c)@ == old(c)@ && r->Err_0@ == HsmErrorView::Begin(17),
{
}

/// An action that is begun and ended through its handle has completed once, as it was
/// ended, and everything else is as before.
pub proof fn lemma_begin_and_end<'a>(
    c: &'a mut MockCopytool,
    cookie: Cookie,
    r: Result<ActionHandle<'a, MockCopytool>>,
    e: Extent,
    status: EndStatus,
    q: Result<()>,
)
    requires
        call_ensures(MockCopytool::begin, (c, cookie), r),
        r is Ok,
        call_ensures(ActionHandle::<'a, MockCopytool>::end, (r->Ok_0, e, status), q),
    ensures
        q is Ok,
        final(c)@.completions == old(c)@.completions.push(
            MockCompletion { cookie, extent: e, outcome: MockOutcome::Ended(status) },
        ),
        final(c)@.in_flight == old(c)@.in_flight,
        final(c)@.pending == old(c)@.pending,
        final(c)@.progress_log == old(c)@.progress_log,
{
    assert(final(c)@.in_flight =~= old(c)@.in_flight);
}

/// An action that is begun and given up has completed as abandoned, with nothing to
/// show, and everything else is as before.
pub proof fn lemma_begin_and_abandon<'a>(
    c: &'a mut MockCopytool,
    cookie: Cookie,
    r: Result<ActionHandle<'a, MockCopytool>>,
)
    requires
        call_ensures(MockCopytool::begin, (c, cookie), r),
        r is Ok,
        call_ensures(ActionHandle::<'a, MockCopytool>::abandon, (r->Ok_0,), ()),
    ensures
        final(c)@.completions == old(c)@.completions.push(
            MockCompletion {
                cookie,
                extent: Extent { offset: 0, length: 0 },
                outcome: MockOutcome::Abandoned,
            },
        ),
        final(c)@.in_flight == old(c)@.in_flight,
        final(c)@.pending == old(c)@.pending,
        final(c)@.progress_log == old(c)@.progress_log,
{
    assert(final(c)@.in_flight =~= old(c)@.in_flight);
}

/// Progress through a handle is logged under the handle's cookie, unless it goes back.
pub proof fn lemma_handle_progress<'a>(
    h: &mut ActionHandle<'a, MockCopytool>,
    e: Extent,
    r: Result<()>,
)
    requires
        call_ensures(ActionHandle::<'a, MockCopytool>::progress, (h, e), r),
    ensures
        final(h).cookie == old(h).cookie,
        ({
            let before = old(h).parent@;
            let after = final(h).parent@;
            let k = old(h).cookie.0;
            &&& r is Ok <==> before.in_flight.contains_key(k) && before.in_flight[k].offset
                <= e.offset
            &&& r is Ok ==> after.progress_log == before.progress_log.push((old(h).cookie, e))
                && after.in_flight == before.in_flight.insert(k, e)
            &&& r is Err ==> after == before
            &&& after.pending == before.pending && after.completions == before.completions
        }),
{
}

// ---------------------------------------------------------------------------
// Actions from a file
// ---------------------------------------------------------------------------

/// White space by its code points.
pub proof fn lemma_white(c: char)
    ensures
        mock_actions::white(c) <==> {
            let n = c as int;
            ||| 9 <= n <= 13
            ||| n == 32
            ||| n == 0x85
            ||| n == 0xa0
            ||| n == 0x1680
            ||| 0x2000 <= n <= 0x200a
            ||| n == 0x2028
            ||| n == 0x2029
            ||| n == 0x202f
            ||| n == 0x205f
            ||| n == 0x3000
        },
{
}

/// One line of text: no line feed in it.
pub open spec fn one_line(l: Seq<char>) -> bool {
    forall|i: int| 0 <= i < l.len() ==> #[trigger] l[i] != '\n'
}

/// Nothing but white space.
pub open spec fn all_white(t: Seq<char>) -> bool {
    forall|i: int| 0 <= i < t.len() ==> mock_actions::white(#[trigger] t[i])
}

/// The entry that a line with its line feed is: none if it is blank, else the line
/// without a carriage return at its end.
pub open spec fn entry_of(l: Seq<char>) -> Seq<Seq<char>> {
    let t = if l.len() > 0 && l.last() == '\r' {
        l.drop_last()
    } else {
        l
    };
    if all_white(t) {
        Seq::empty()
    } else {
        seq![t]
    }
}

/// A file is read line by line from the front.
pub proof fn lemma_first_line(l: Seq<char>, rest: Seq<char>)
    requires
        one_line(l),
    ensures
        mock_actions::entries(l + seq!['\n'] + rest) == entry_of(l) + mock_actions::entries(rest),
{
    let s = l + seq!['\n'] + rest;
    let f = |x: Seq<char>| !mock_actions::blank(x);
    text::lemma_split_cons(l, '\n', rest);
    super::texts::lemma_split(rest, '\n');
    let p = text::split(s, '\n');
    let q = text::split(rest, '\n');
    assert(p == seq![l] + q);
    let t = mock_actions::without_return(l);
    assert(mock_actions::lines(s) =~= seq![t] + mock_actions::lines(rest)) by {
        assert forall|i: int| 0 <= i < p.len() implies mock_actions::lines(s)[i] == (seq![t]
            + mock_actions::lines(rest))[i] by {
            if i > 0 {
                assert(p[i] == q[i - 1]);
            }
        }
    }
    fifo::lemma_filter_front(t, mock_actions::lines(rest), f);
    assert(all_white(t) <==> mock_actions::blank(t));
    if mock_actions::blank(t) {
        assert(Seq::<Seq<char>>::empty() + mock_actions::entries(rest)
            =~= mock_actions::entries(rest));
    }
}

/// What stands behind the last line feed is an entry too, as it is, unless it is blank.
pub proof fn lemma_last_line(l: Seq<char>)
    requires
        one_line(l),
    ensures
        mock_actions::entries(l) == (if all_white(l) {
            Seq::empty()
        } else {
            seq![l]
        }),
{
    let f = |x: Seq<char>| !mock_actions::blank(x);
    text::lemma_split_one(l, '\n');
    assert(mock_actions::lines(l) =~= seq![l]);
    if mock_actions::blank(l) {
        fifo::lemma_filter_none(seq![l], f);
    } else {
        fifo::lemma_filter_all(seq![l], f);
    }
}

/// Where the first line ends.
proof fn lemma_line_end(a: Seq<char>) -> (i: int)
    requires
        a.len() > 0,
        a.last() == '\n',
    ensures
        0 <= i < a.len(),
        a[i] == '\n',
        one_line(a.take(i)),
    decreases a.len(),
{
    if a[0] == '\n' {
        0
    } else {
        let j = lemma_line_end(a.drop_first());
        assert forall|k: int| 0 <= k < j + 1 implies #[trigger] a.take(j + 1)[k] != '\n' by {
            if k > 0 {
                assert(a.drop_first().take(j)[k - 1] == a[k]);
            }
        }
        j + 1
    }
}

/// The entries of whole lines and of what follows them.
proof fn lemma_entries_in_parts(a: Seq<char>, b: Seq<char>)
    requires
        a.len() > 0 ==> a.last() == '\n',
    ensures
        mock_actions::entries(a + b) == mock_actions::entries(a) + mock_actions::entries(b),
    decreases a.len(),
{
    if a.len() == 0 {
        assert(a + b =~= b);
        lemma_last_line(a);
        assert(Seq::<Seq<char>>::empty() + mock_actions::entries(b) =~= mock_actions::entries(b));
    } else {
        let i = lemma_line_end(a);
        let l = a.take(i);
        let rest = a.skip(i + 1);
        assert(a =~= l + seq!['\n'] + rest);
        assert(a + b =~= l + seq!['\n'] + (rest + b));
        lemma_first_line(l, rest);
        lemma_first_line(l, rest + b);
        if rest.len() > 0 {
            assert(rest.last() == a.last());
        }
        lemma_entries_in_parts(rest, b);
        assert(entry_of(l) + (mock_actions::entries(rest) + mock_actions::entries(b)) =~= (entry_of(
            l,
        ) + mock_actions::entries(rest)) + mock_actions::entries(b));
    }
}

/// A file that has grown by more lines since it was last read gives the entries of those
/// lines, and none that it gave before.
pub proof fn lemma_file_grows(
    before: &str,
    after: &str,
    more: &str,
    seen: usize,
    first: NewLines,
    second: NewLines,
    alone: NewLines,
)
    requires
        before@.len() > 0 ==> before@.last() == '\n',
        after@ == before@ + more@,
        call_ensures(new_lines, (before, seen), first),
        call_ensures(new_lines, (after, first.total), second),
        call_ensures(new_lines, (more, 0usize), alone),
    ensures
        text::views(second.lines@) == text::views(alone.lines@),
        second.total == first.total + alone.total,
{
    lemma_entries_in_parts(before@, more@);
    let b = mock_actions::entries(before@);
    let m = mock_actions::entries(more@);
    assert((b + m).skip(b.len() as int) =~= m);
    assert(m.skip(0) =~= m);
}

/// A file of one line gives that line, unless it is blank.
pub proof fn lemma_file_of_one_line(content: &str, l: Seq<char>, r: NewLines)
    requires
        call_ensures(new_lines, (content, 0usize), r),
        one_line(l),
        content@ == l + seq!['\n'],
    ensures
        text::views(r.lines@) == entry_of(l),
        r.total == entry_of(l).len(),
{
    let none = Seq::<char>::empty();
    assert(content@ =~= l + seq!['\n'] + none);
    lemma_first_line(l, none);
    lemma_last_line(none);
    let e = mock_actions::entries(content@);
    assert(e =~= entry_of(l));
    assert(e.skip(0) =~= e);
}

} // verus!
