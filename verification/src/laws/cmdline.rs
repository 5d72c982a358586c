//! Command lines: what each word is for, in whatever order the words come.

use crate::ctl::args;
use crate::ctl::args::{Args, ArgsError, ArgsErrorView, Cmd, Namespace, Words};
use crate::text;
use vstd::prelude::*;

verus! {

// ---------------------------------------------------------------------------
// Words
// ---------------------------------------------------------------------------

/// The command words differ from each other and from every option.
pub(crate) proof fn lemma_commands_distinct()
    ensures
        "status"@ != "agents"@,
        "status"@ != "actions"@,
        "agents"@ != "actions"@,
        "xattr"@ != "status"@,
        "xattr"@ != "agents"@,
        "xattr"@ != "actions"@,
        "import"@ != "status"@,
        "import"@ != "agents"@,
        "import"@ != "actions"@,
        "import"@ != "xattr"@,
        "lock"@ != "status"@,
        "lock"@ != "agents"@,
        "lock"@ != "actions"@,
        "lock"@ != "xattr"@,
        "lock"@ != "import"@,
        "drain"@ != "status"@,
        "drain"@ != "agents"@,
        "drain"@ != "actions"@,
        "drain"@ != "xattr"@,
        "drain"@ != "import"@,
        "drain"@ != "lock"@,
        "request"@ != "status"@,
        "request"@ != "agents"@,
        "request"@ != "actions"@,
        "request"@ != "xattr"@,
        "request"@ != "import"@,
        "request"@ != "lock"@,
        "request"@ != "drain"@,
        "requeue"@ != "status"@,
        "requeue"@ != "agents"@,
        "requeue"@ != "actions"@,
        "requeue"@ != "xattr"@,
        "requeue"@ != "import"@,
        "requeue"@ != "lock"@,
        "requeue"@ != "drain"@,
        "requeue"@ != "request"@,
{
    reveal_strlit("status");
    reveal_strlit("agents");
    reveal_strlit("actions");
    reveal_strlit("xattr");
    reveal_strlit("import");
    reveal_strlit("lock");
    reveal_strlit("drain");
    reveal_strlit("request");
    reveal_strlit("requeue");
    assert("status"@[0] == 's' && "agents"@[0] == 'a' && "actions"@[0] == 'a');
    assert("agents"@[1] == 'g' && "actions"@[1] == 'c' && "xattr"@[0] == 'x');
    assert("import"@[0] == 'i' && "lock"@[0] == 'l' && "drain"@[0] == 'd');
    assert("request"@[0] == 'r' && "requeue"@[0] == 'r');
    assert("request"@[4] == 'e' && "requeue"@[4] == 'e');
    assert("request"@[5] == 's' && "requeue"@[5] == 'u');
}

/// The options, each with what it begins with.
pub(crate) proof fn lemma_options_distinct()
    ensures
        "--socket"@ != "--namespace"@,
        "--socket"@ != "-n"@,
        "-s"@ != "--namespace"@,
        "-s"@ != "-n"@,
        "--help"@ != "--socket"@,
        "--help"@ != "-s"@,
        "--help"@ != "--namespace"@,
        "--help"@ != "-n"@,
        "-h"@ != "--socket"@,
        "-h"@ != "-s"@,
        "-h"@ != "--namespace"@,
        "-h"@ != "-n"@,
        "trusted"@ != "user"@,
        "--state"@ != "--archive"@,
        "--uuid"@ != "--hash"@,
        "--uuid"@ != "--url"@,
        "--hash"@ != "--url"@,
        "--config"@ != "--help"@,
        "--config"@ != "-h"@,
        "-c"@ != "--help"@,
        "-c"@ != "-h"@,
        "--socket"@[0] == '-' && "-s"@[0] == '-' && "--namespace"@[0] == '-' && "-n"@[0] == '-',
        "--help"@[0] == '-' && "-h"@[0] == '-',
        "--uuid"@[0] == '-' && "--hash"@[0] == '-' && "--url"@[0] == '-',
        "--uuid"@.len() > 0 && "--hash"@.len() > 0 && "--url"@.len() > 0,
{
    reveal_strlit("--socket");
    reveal_strlit("-s");
    reveal_strlit("--namespace");
    reveal_strlit("-n");
    reveal_strlit("--help");
    reveal_strlit("-h");
    reveal_strlit("trusted");
    reveal_strlit("user");
    reveal_strlit("--state");
    reveal_strlit("--archive");
    reveal_strlit("--uuid");
    reveal_strlit("--hash");
    reveal_strlit("--url");
    reveal_strlit("--config");
    reveal_strlit("-c");
    assert("-s"@[1] == 's' && "-n"@[1] == 'n' && "-h"@[1] == 'h' && "-c"@[1] == 'c');
    assert("--uuid"@[2] == 'u' && "--hash"@[2] == 'h');
    assert("--uuid"@[3] == 'u' && "--url"@[3] == 'r');
    assert("--socket"@[2] == 's' && "--namespace"@[2] == 'n' && "--help"@[2] == 'h');
    assert("trusted"@[0] == 't' && "user"@[0] == 'u' && "--config"@[2] == 'c');
    assert("--state"@[2] == 's' && "--archive"@[2] == 'a');
}

/// A word that stands for a command or a value: not empty, and no dash in front.
pub open spec fn plain(word: Seq<char>) -> bool {
    word.len() > 0 && word[0] != '-'
}

/// The command words are plain.
pub(crate) proof fn lemma_commands_plain()
    ensures
        plain("status"@),
        plain("agents"@),
        plain("actions"@),
        plain("xattr"@),
        plain("import"@),
        plain("lock"@),
        plain("drain"@),
        plain("request"@),
        plain("requeue"@),
{
    reveal_strlit("status");
    reveal_strlit("agents");
    reveal_strlit("actions");
    reveal_strlit("xattr");
    reveal_strlit("import");
    reveal_strlit("lock");
    reveal_strlit("drain");
    reveal_strlit("request");
    reveal_strlit("requeue");
}

/// A line that begins with a command has nothing before the command.
pub(crate) proof fn lemma_no_globals(w: Words, socket: Seq<char>, ns: Namespace)
    requires
        w.len() > 0,
        plain(w[0]),
    ensures
        args::globals(w, 0, socket, ns) == Ok::<(int, Seq<char>, Namespace), ArgsErrorView>(
            (0int, socket, ns),
        ),
{
    lemma_options_distinct();
}

/// The line is refused with that message.
pub open spec fn refused(r: Result<Args, ArgsError>, message: Seq<char>) -> bool {
    r matches Err(e) && e@ == ArgsErrorView::Invalid(message)
}

// ---------------------------------------------------------------------------
// actions
// ---------------------------------------------------------------------------

/// One filter of `actions`, as it is given.
pub enum Filter {
    /// `--state` and a word.
    State(Seq<char>),
    /// `--archive` and a word.
    Archive(Seq<char>),
}

/// The two words of a filter.
pub open spec fn filter_words(f: Filter) -> Words {
    match f {
        Filter::State(s) => seq!["--state"@, s],
        Filter::Archive(n) => seq!["--archive"@, n],
    }
}

/// The words of a list of filters.
pub open spec fn filters_words(fs: Seq<Filter>) -> Words
    decreases fs.len(),
{
    if fs.len() == 0 {
        Seq::empty()
    } else {
        filter_words(fs[0]) + filters_words(fs.drop_first())
    }
}

/// Every archive that is named is a number of 32 bits.
pub open spec fn numbers(fs: Seq<Filter>) -> bool {
    forall|i: int|
        0 <= i < fs.len() && (#[trigger] fs[i]) is Archive ==> text::parse_uint(
            fs[i]->Archive_0,
            10,
            0xffff_ffff,
        ) is Some
}

/// What is in force after the filters: of each sort the last one given, and what was
/// in force before where none is given.
#[verifier::opaque]
pub open spec fn in_force(
    fs: Seq<Filter>,
    state0: Seq<char>,
    archive0: u32,
    state: Seq<char>,
    archive: u32,
) -> bool {
    &&& forall|i: int|
        0 <= i < fs.len() && (#[trigger] fs[i]) is State && (forall|j: int|
            i < j < fs.len() ==> !((#[trigger] fs[j]) is State)) ==> state == fs[i]->State_0
    &&& (forall|j: int| 0 <= j < fs.len() ==> !((#[trigger] fs[j]) is State)) ==> state == state0
    &&& forall|i: int|
        0 <= i < fs.len() && (#[trigger] fs[i]) is Archive && (forall|j: int|
            i < j < fs.len() ==> !((#[trigger] fs[j]) is Archive)) ==> Some(archive as nat)
            == text::parse_uint(fs[i]->Archive_0, 10, 0xffff_ffff)
    &&& (forall|j: int| 0 <= j < fs.len() ==> !((#[trigger] fs[j]) is Archive)) ==> archive
        == archive0
}

/// One filter is read.
proof fn lemma_filter_read(w: Words, at: int, f: Filter, state: Seq<char>, archive: u32) -> (r: (
    Seq<char>,
    u32,
))
    requires
        0 <= at,
        at + 1 < w.len(),
        seq![w[at], w[at + 1]] == filter_words(f),
        f matches Filter::Archive(n) ==> text::parse_uint(n, 10, 0xffff_ffff) is Some,
    ensures
        args::filters(w, at, state, archive) == args::filters(w, at + 2, r.0, r.1),
        f matches Filter::State(x) ==> r.0 == x && r.1 == archive,
        f matches Filter::Archive(x) ==> r.0 == state && Some(r.1 as nat) == text::parse_uint(
            x,
            10,
            0xffff_ffff,
        ),
{
    lemma_options_distinct();
    assert(seq![w[at], w[at + 1]][0] == w[at]);
    assert(seq![w[at], w[at + 1]][1] == w[at + 1]);
    match f {
        Filter::State(s) => (s, archive),
        Filter::Archive(n) => (state, text::parse_uint(n, 10, 0xffff_ffff)->0 as u32),
    }
}

/// Reading filters one by one ends with what is in force.
proof fn lemma_filters_fold(
    w: Words,
    at: int,
    fs: Seq<Filter>,
    rest: Words,
    state: Seq<char>,
    archive: u32,
) -> (r: (Seq<char>, u32))
    requires
        0 <= at <= w.len(),
        w.skip(at) == filters_words(fs) + rest,
        numbers(fs),
    ensures
        in_force(fs, state, archive, r.0, r.1),
        w.skip(at + 2 * fs.len()) == rest,
        at + 2 * fs.len() <= w.len(),
        args::filters(w, at, state, archive) == args::filters(
            w,
            at + 2 * fs.len(),
            r.0,
            r.1,
        ),
    decreases fs.len(),
{
    if fs.len() == 0 {
        assert(filters_words(fs) + rest =~= rest);
        reveal(in_force);
        (state, archive)
    } else {
        let tail = fs.drop_first();
        let here = filter_words(fs[0]) + filters_words(tail) + rest;
        assert(w.skip(at) =~= here);
        assert(w[at] == w.skip(at)[0]);
        assert(w[at + 1] == w.skip(at)[1]);
        assert(seq![w[at], w[at + 1]] =~= filter_words(fs[0]));
        assert(w.skip(at + 2) =~= filters_words(tail) + rest) by {
            assert(w.skip(at).skip(2) =~= w.skip(at + 2));
            assert(here.skip(2) =~= filters_words(tail) + rest);
        }
        assert forall|i: int| 0 <= i < tail.len() && (#[trigger] tail[i]) is Archive implies
            text::parse_uint(tail[i]->Archive_0, 10, 0xffff_ffff) is Some by {
            assert(tail[i] == fs[i + 1]);
        }
        let one = lemma_filter_read(w, at, fs[0], state, archive);
        let r = lemma_filters_fold(w, at + 2, tail, rest, one.0, one.1);
        lemma_in_force_step(fs, state, archive, one.0, one.1, r.0, r.1);
        r
    }
}

/// What is in force, with one more filter in front.
proof fn lemma_in_force_step(
    fs: Seq<Filter>,
    state: Seq<char>,
    archive: u32,
    s1: Seq<char>,
    a1: u32,
    s: Seq<char>,
    a: u32,
)
    requires
        fs.len() > 0,
        in_force(fs.drop_first(), s1, a1, s, a),
        fs[0] matches Filter::State(x) ==> s1 == x && a1 == archive,
        fs[0] matches Filter::Archive(x) ==> s1 == state && Some(a1 as nat) == text::parse_uint(
            x,
            10,
            0xffff_ffff,
        ),
    ensures
        in_force(fs, state, archive, s, a),
{
    reveal(in_force);
    let tail = fs.drop_first();
    assert forall|i: int| 0 < i < fs.len() implies #[trigger] fs[i] == tail[i - 1] by {}
    assert forall|i: int| 0 <= i < tail.len() implies #[trigger] tail[i] == fs[i + 1] by {}
    assert forall|i: int|
        0 <= i < fs.len() && (#[trigger] fs[i]) is State && (forall|j: int|
            i < j < fs.len() ==> !((#[trigger] fs[j]) is State)) implies s == fs[i]->State_0 by {
        if i == 0 {
            assert forall|j: int| 0 <= j < tail.len() implies !((#[trigger] tail[j]) is State) by {
                assert(tail[j] == fs[j + 1]);
            }
        } else {
            assert(fs[i] == tail[i - 1]);
            assert forall|j: int| i - 1 < j < tail.len() implies !((#[trigger] tail[j]) is State) by {
                assert(tail[j] == fs[j + 1]);
            }
        }
    }
    assert forall|i: int|
        0 <= i < fs.len() && (#[trigger] fs[i]) is Archive && (forall|j: int|
            i < j < fs.len() ==> !((#[trigger] fs[j]) is Archive)) implies Some(a as nat)
        == text::parse_uint(fs[i]->Archive_0, 10, 0xffff_ffff) by {
        if i == 0 {
            assert forall|j: int| 0 <= j < tail.len() implies !((#[trigger] tail[j]) is Archive) by {
                assert(tail[j] == fs[j + 1]);
            }
        } else {
            assert(fs[i] == tail[i - 1]);
            assert forall|j: int| i - 1 < j < tail.len() implies !((
            #[trigger] tail[j]) is Archive) by {
                assert(tail[j] == fs[j + 1]);
            }
        }
    }
    if forall|j: int| 0 <= j < fs.len() ==> !((#[trigger] fs[j]) is State) {
        assert(!(fs[0] is State));
        assert forall|j: int| 0 <= j < tail.len() implies !((#[trigger] tail[j]) is State) by {
            assert(tail[j] == fs[j + 1]);
        }
    }
    if forall|j: int| 0 <= j < fs.len() ==> !((#[trigger] fs[j]) is Archive) {
        assert(!(fs[0] is Archive));
        assert forall|j: int| 0 <= j < tail.len() implies !((#[trigger] tail[j]) is Archive) by {
            assert(tail[j] == fs[j + 1]);
        }
    }
}

/// `actions` lists what its filters name, however many they are and in whatever order
/// they come: the last state and the last archive that are given count, all states and
/// all archives where none is. What comes behind the filters does not matter, unless
/// it is a filter.
pub proof fn lemma_actions_line(
    raw: &Vec<String>,
    fs: Seq<Filter>,
    rest: Words,
    r: Result<Args, ArgsError>,
)
    requires
        text::views(raw@) == seq!["actions"@] + filters_words(fs) + rest,
        numbers(fs),
        rest.len() > 0 ==> rest[0] != "--state"@ && rest[0] != "--archive"@,
        call_ensures(args::parse_args, (raw,), r),
    ensures
        r matches Ok(a) && a.socket@ == args::DEFAULT_SOCKET@ && a.namespace == Namespace::Trusted
            && (a.cmd matches Cmd::Actions(f) && in_force(
            fs,
            Seq::empty(),
            0,
            f.state@,
            f.archive,
        )),
{
    let w = text::views(raw@);
    lemma_commands_distinct();
    lemma_commands_plain();
    lemma_options_distinct();
    assert(w[0] == "actions"@);
    lemma_no_globals(w, args::DEFAULT_SOCKET@, Namespace::Trusted);
    assert(w.skip(1) =~= filters_words(fs) + rest);
    let got = lemma_filters_fold(w, 1, fs, rest, Seq::empty(), 0);
    let end: int = 1 + 2 * fs.len() as int;
    if rest.len() > 0 {
        assert(w.skip(end)[0] == rest[0]);
        assert(w[end] == rest[0]);
    } else {
        assert(w.len() == end);
    }
}

/// State and archive may be given in either order: both lines ask for that state and
/// that archive.
pub proof fn lemma_filters_in_either_order(
    one: &Vec<String>,
    other: &Vec<String>,
    s: Seq<char>,
    n: u32,
    a: Result<Args, ArgsError>,
    b: Result<Args, ArgsError>,
)
    requires
        text::views(one@) == seq!["actions"@, "--state"@, s, "--archive"@, text::dec(n as nat)],
        text::views(other@) == seq!["actions"@, "--archive"@, text::dec(n as nat), "--state"@, s],
        call_ensures(args::parse_args, (one,), a),
        call_ensures(args::parse_args, (other,), b),
    ensures
        a matches Ok(x) && (x.cmd matches Cmd::Actions(f) && f.state@ == s && f.archive == n),
        b matches Ok(x) && (x.cmd matches Cmd::Actions(f) && f.state@ == s && f.archive == n),
{
    let d = text::dec(n as nat);
    text::lemma_parse_numeral(n as nat, 10, 0xffff_ffff);
    assert(text::views(one@) =~= seq!["actions"@] + filter_words(Filter::State(s)) + filter_words(
        Filter::Archive(d),
    ));
    assert(text::views(other@) =~= seq!["actions"@] + filter_words(Filter::Archive(d))
        + filter_words(Filter::State(s)));
    lemma_two_filters(one, Filter::State(s), Filter::Archive(d), a);
    lemma_two_filters(other, Filter::Archive(d), Filter::State(s), b);
}

/// Two filters of different sorts are both in force.
proof fn lemma_two_filters(
    raw: &Vec<String>,
    f: Filter,
    g: Filter,
    r: Result<Args, ArgsError>,
)
    requires
        text::views(raw@) == seq!["actions"@] + filter_words(f) + filter_words(g),
        f is State <==> g is Archive,
        numbers(seq![f, g]),
        call_ensures(args::parse_args, (raw,), r),
    ensures
        r is Ok,
        r->Ok_0.cmd is Actions,
        ({
            let got = r->Ok_0.cmd->Actions_0;
            let (s, n) = if f is State {
                (f->State_0, g->Archive_0)
            } else {
                (g->State_0, f->Archive_0)
            };
            got.state@ == s && Some(got.archive as nat) == text::parse_uint(n, 10, 0xffff_ffff)
        }),
{
    let fs = seq![f, g];
    let none: Words = Seq::empty();
    assert(text::views(raw@) == seq!["actions"@] + filters_words(fs) + none) by {
        lemma_two_words(f, g);
        assert(text::views(raw@) =~= seq!["actions"@] + filters_words(fs) + none);
    }
    lemma_actions_line(raw, fs, none, r);
    let got = r->Ok_0.cmd->Actions_0;
    lemma_two_in_force(f, g, got.state@, got.archive);
}

/// The words of two filters.
proof fn lemma_two_words(f: Filter, g: Filter)
    ensures
        filters_words(seq![f, g]) == filter_words(f) + filter_words(g),
{
    assert(seq![f, g].drop_first() =~= seq![g]);
    assert(seq![g].drop_first() =~= Seq::<Filter>::empty());
    assert(filters_words(Seq::<Filter>::empty()) =~= Seq::empty());
    assert(filters_words(seq![g]) =~= filter_words(g));
    assert(filters_words(seq![f, g]) =~= filter_words(f) + filter_words(g));
}

/// What is in force after two filters of different sorts.
proof fn lemma_two_in_force(f: Filter, g: Filter, s: Seq<char>, n: u32)
    requires
        f is State <==> g is Archive,
        in_force(seq![f, g], Seq::empty(), 0, s, n),
    ensures
        f is State ==> s == f->State_0 && Some(n as nat) == text::parse_uint(
            g->Archive_0,
            10,
            0xffff_ffff,
        ),
        g is State ==> s == g->State_0 && Some(n as nat) == text::parse_uint(
            f->Archive_0,
            10,
            0xffff_ffff,
        ),
{
    reveal(in_force);
    let fs = seq![f, g];
    assert(fs[0] == f && fs[1] == g);
}

/// A filter put before a list of filters changes nothing but its own field, and that
/// only where no later filter sets it.
pub proof fn lemma_filter_in_front(
    without: &Vec<String>,
    with: &Vec<String>,
    f: Filter,
    fs: Seq<Filter>,
    a: Result<Args, ArgsError>,
    b: Result<Args, ArgsError>,
)
    requires
        text::views(without@) == seq!["actions"@] + filters_words(fs),
        text::views(with@) == seq!["actions"@] + filter_words(f) + filters_words(fs),
        numbers(seq![f] + fs),
        call_ensures(args::parse_args, (without,), a),
        call_ensures(args::parse_args, (with,), b),
    ensures
        ({
            let states = exists|i: int| 0 <= i < fs.len() && (#[trigger] fs[i]) is State;
            let archives = exists|i: int| 0 <= i < fs.len() && (#[trigger] fs[i]) is Archive;
            &&& a is Ok && a->Ok_0.cmd is Actions
            &&& b is Ok && b->Ok_0.cmd is Actions
            &&& {
                let x = a->Ok_0.cmd->Actions_0;
                let y = b->Ok_0.cmd->Actions_0;
                match f {
                    Filter::State(s) => y.archive == x.archive && y.state@ == (if states {
                        x.state@
                    } else {
                        s
                    }),
                    Filter::Archive(n) => y.state@ == x.state@ && (if archives {
                        y.archive == x.archive
                    } else {
                        Some(y.archive as nat) == text::parse_uint(n, 10, 0xffff_ffff)
                    }),
                }
            }
        }),
{
    let none: Words = Seq::empty();
    let gs = seq![f] + fs;
    assert(gs.drop_first() =~= fs);
    assert(gs[0] == f);
    assert(filters_words(gs) == filter_words(f) + filters_words(fs));
    assert(text::views(without@) =~= seq!["actions"@] + filters_words(fs) + none);
    assert(text::views(with@) =~= seq!["actions"@] + filters_words(gs) + none);
    assert forall|i: int| 0 <= i < fs.len() implies #[trigger] fs[i] == gs[i + 1] by {}
    assert forall|i: int| 0 <= i < fs.len() && (#[trigger] fs[i]) is Archive implies
        text::parse_uint(fs[i]->Archive_0, 10, 0xffff_ffff) is Some by {
        assert(gs[i + 1] == fs[i]);
    }
    lemma_actions_line(without, fs, none, a);
    lemma_actions_line(with, gs, none, b);
    let x = a->Ok_0.cmd->Actions_0;
    let y = b->Ok_0.cmd->Actions_0;
    lemma_last_state(fs, gs, f, x.state@, x.archive, y.state@, y.archive);
    lemma_last_archive(fs, gs, f, x.state@, x.archive, y.state@, y.archive);
}

/// The last of a sort.
proof fn lemma_has_last(fs: Seq<Filter>, p: spec_fn(Filter) -> bool, k: int) -> (i: int)
    requires
        0 <= k < fs.len(),
        p(fs[k]),
    ensures
        0 <= i < fs.len(),
        p(fs[i]),
        forall|j: int| i < j < fs.len() ==> !p(#[trigger] fs[j]),
    decreases fs.len() - k,
{
    if exists|j: int| k < j < fs.len() && p(#[trigger] fs[j]) {
        let j = choose|j: int| k < j < fs.len() && p(#[trigger] fs[j]);
        lemma_has_last(fs, p, j)
    } else {
        k
    }
}

/// The state in force, with and without a filter in front.
proof fn lemma_last_state(
    fs: Seq<Filter>,
    gs: Seq<Filter>,
    f: Filter,
    s: Seq<char>,
    a: u32,
    t: Seq<char>,
    b: u32,
)
    requires
        gs == seq![f] + fs,
        in_force(fs, Seq::empty(), 0, s, a),
        in_force(gs, Seq::empty(), 0, t, b),
    ensures
        (exists|i: int| 0 <= i < fs.len() && (#[trigger] fs[i]) is State) ==> t == s,
        !(exists|i: int| 0 <= i < fs.len() && (#[trigger] fs[i]) is State) ==> t == (if f is State {
            f->State_0
        } else {
            s
        }),
{
    reveal(in_force);
    let p = |x: Filter| x is State;
    if exists|i: int| 0 <= i < fs.len() && (#[trigger] fs[i]) is State {
        let k = choose|i: int| 0 <= i < fs.len() && (#[trigger] fs[i]) is State;
        let i = lemma_has_last(fs, p, k);
        assert(p(fs[i]));
        assert forall|j: int| i < j < fs.len() implies !((#[trigger] fs[j]) is State) by {
            assert(!p(fs[j]));
        }
        assert(gs[i + 1] == fs[i]);
        assert forall|j: int| i + 1 < j < gs.len() implies !((#[trigger] gs[j]) is State) by {
            assert(gs[j] == fs[j - 1]);
        }
    } else {
        assert(gs[0] == f);
        assert forall|j: int| 0 < j < gs.len() implies !((#[trigger] gs[j]) is State) by {
            assert(gs[j] == fs[j - 1]);
        }
        if !(f is State) {
            assert forall|j: int| 0 <= j < gs.len() implies !((#[trigger] gs[j]) is State) by {
                if j > 0 {
                    assert(gs[j] == fs[j - 1]);
                }
            }
        }
    }
}

/// The archive in force, with and without a filter in front.
proof fn lemma_last_archive(
    fs: Seq<Filter>,
    gs: Seq<Filter>,
    f: Filter,
    s: Seq<char>,
    a: u32,
    t: Seq<char>,
    b: u32,
)
    requires
        gs == seq![f] + fs,
        in_force(fs, Seq::empty(), 0, s, a),
        in_force(gs, Seq::empty(), 0, t, b),
    ensures
        (exists|i: int| 0 <= i < fs.len() && (#[trigger] fs[i]) is Archive) ==> a == b,
        !(exists|i: int| 0 <= i < fs.len() && (#[trigger] fs[i]) is Archive) ==> (if f is Archive {
            Some(b as nat) == text::parse_uint(f->Archive_0, 10, 0xffff_ffff)
        } else {
            a == b
        }),
{
    reveal(in_force);
    let p = |x: Filter| x is Archive;
    if exists|i: int| 0 <= i < fs.len() && (#[trigger] fs[i]) is Archive {
        let k = choose|i: int| 0 <= i < fs.len() && (#[trigger] fs[i]) is Archive;
        let i = lemma_has_last(fs, p, k);
        assert(p(fs[i]));
        assert forall|j: int| i < j < fs.len() implies !((#[trigger] fs[j]) is Archive) by {
            assert(!p(fs[j]));
        }
        assert(gs[i + 1] == fs[i]);
        assert forall|j: int| i + 1 < j < gs.len() implies !((#[trigger] gs[j]) is Archive) by {
            assert(gs[j] == fs[j - 1]);
        }
    } else {
        assert(gs[0] == f);
        assert forall|j: int| 0 < j < gs.len() implies !((#[trigger] gs[j]) is Archive) by {
            assert(gs[j] == fs[j - 1]);
        }
        if !(f is Archive) {
            assert forall|j: int| 0 <= j < gs.len() implies !((#[trigger] gs[j]) is Archive) by {
                if j > 0 {
                    assert(gs[j] == fs[j - 1]);
                }
            }
        }
    }
}

/// Behind any list of filters, a filter without its word is reported by name, and an
/// archive that is no number of 32 bits is refused.
pub proof fn lemma_bad_filter(
    raw: &Vec<String>,
    fs: Seq<Filter>,
    tail: Words,
    r: Result<Args, ArgsError>,
)
    requires
        text::views(raw@) == seq!["actions"@] + filters_words(fs) + tail,
        numbers(fs),
        tail.len() > 0,
        call_ensures(args::parse_args, (raw,), r),
    ensures
        tail == seq!["--state"@] ==> refused(r, "--state requires a value"@),
        tail == seq!["--archive"@] ==> refused(r, "--archive requires a value"@),
        tail.len() > 1 && tail[0] == "--archive"@ && text::parse_uint(tail[1], 10, 0xffff_ffff)
            is None ==> refused(r, "--archive must be a number"@),
{
    let w = text::views(raw@);
    lemma_commands_distinct();
    lemma_commands_plain();
    lemma_options_distinct();
    assert(w[0] == "actions"@);
    lemma_no_globals(w, args::DEFAULT_SOCKET@, Namespace::Trusted);
    assert(w.skip(1) =~= filters_words(fs) + tail);
    let got = lemma_filters_fold(w, 1, fs, tail, Seq::empty(), 0);
    let end: int = 1 + 2 * fs.len() as int;
    assert(w.skip(end)[0] == w[end]);
    assert(w.len() == end + tail.len());
    if tail.len() > 1 {
        assert(w.skip(end)[1] == w[end + 1]);
    }
    lemma_value_messages();
}

/// The messages for an option that came last.
pub(crate) proof fn lemma_value_messages()
    ensures
        "--state"@ + " requires a value"@ == "--state requires a value"@,
        "--archive"@ + " requires a value"@ == "--archive requires a value"@,
        "--socket"@ + " requires a value"@ == "--socket requires a value"@,
        "--namespace"@ + " requires a value"@ == "--namespace requires a value"@,
        "--uuid"@ + " requires a value"@ == "--uuid requires a value"@,
        "--hash"@ + " requires a value"@ == "--hash requires a value"@,
        "--url"@ + " requires a value"@ == "--url requires a value"@,
{
    reveal_strlit(" requires a value");
    reveal_strlit("--state");
    reveal_strlit("--state requires a value");
    assert("--state"@ + " requires a value"@ =~= "--state requires a value"@);
    reveal_strlit("--archive");
    reveal_strlit("--archive requires a value");
    assert("--archive"@ + " requires a value"@ =~= "--archive requires a value"@);
    reveal_strlit("--socket");
    reveal_strlit("--socket requires a value");
    assert("--socket"@ + " requires a value"@ =~= "--socket requires a value"@);
    reveal_strlit("--namespace");
    reveal_strlit("--namespace requires a value");
    assert("--namespace"@ + " requires a value"@ =~= "--namespace requires a value"@);
    reveal_strlit("--uuid");
    reveal_strlit("--uuid requires a value");
    assert("--uuid"@ + " requires a value"@ =~= "--uuid requires a value"@);
    reveal_strlit("--hash");
    reveal_strlit("--hash requires a value");
    assert("--hash"@ + " requires a value"@ =~= "--hash requires a value"@);
    reveal_strlit("--url");
    reveal_strlit("--url requires a value");
    assert("--url"@ + " requires a value"@ =~= "--url requires a value"@);
}

} // verus!
