//! Command lines: what stands before a command, the commands, and `import`.

use crate::ctl::args;
use crate::ctl::args::{Args, ArgsError, ArgsErrorView, Cmd, ImportView, Namespace, Words};
use crate::daemon::cli;
use crate::daemon::cli::{CliError, CliErrorView};
use crate::laws::cmdline;
use crate::text;
use vstd::prelude::*;

verus! {

// ---------------------------------------------------------------------------
// Before the command
// ---------------------------------------------------------------------------

/// One option before the command, in its long or its short form.
pub enum Global {
    /// Where the daemon listens.
    Socket { short: bool, path: Seq<char> },
    /// Which namespace to use.
    Space { short: bool, ns: Namespace },
}

/// The two words of an option.
pub open spec fn global_words(g: Global) -> Words {
    match g {
        Global::Socket { short, path } => seq![
            if short {
                "-s"@
            } else {
                "--socket"@
            },
            path,
        ],
        Global::Space { short, ns } => seq![
            if short {
                "-n"@
            } else {
                "--namespace"@
            },
            match ns {
                Namespace::Trusted => "trusted"@,
                Namespace::User => "user"@,
            },
        ],
    }
}

/// The words of a list of options.
pub open spec fn globals_words(gs: Seq<Global>) -> Words
    decreases gs.len(),
{
    if gs.len() == 0 {
        Seq::empty()
    } else {
        globals_words(gs.drop_last()) + global_words(gs.last())
    }
}

/// The last socket that is given, or the usual one.
pub open spec fn last_socket(gs: Seq<Global>) -> Seq<char>
    decreases gs.len(),
{
    if gs.len() == 0 {
        "/var/run/hsmd/agent.sock"@
    } else {
        match gs.last() {
            Global::Socket { path, .. } => path,
            _ => last_socket(gs.drop_last()),
        }
    }
}

/// The last namespace that is given, or the usual one.
pub open spec fn last_space(gs: Seq<Global>) -> Namespace
    decreases gs.len(),
{
    if gs.len() == 0 {
        Namespace::Trusted
    } else {
        match gs.last() {
            Global::Space { ns, .. } => ns,
            _ => last_space(gs.drop_last()),
        }
    }
}

/// One option is read.
proof fn lemma_global_read(w: Words, at: int, g: Global, socket: Seq<char>, ns: Namespace)
    requires
        0 <= at,
        at + 1 < w.len(),
        w[at] == global_words(g)[0],
        w[at + 1] == global_words(g)[1],
    ensures
        args::globals(w, at, socket, ns) == args::globals(
            w,
            at + 2,
            if g is Socket {
                g->path
            } else {
                socket
            },
            if g is Space {
                g->ns
            } else {
                ns
            },
        ),
{
    cmdline::lemma_options_distinct();
}

/// Options are read one by one.
proof fn lemma_globals_fold(w: Words, gs: Seq<Global>, rest: Words)
    requires
        w == globals_words(gs) + rest,
    ensures
        globals_words(gs).len() == 2 * gs.len(),
        args::globals(w, 0, args::DEFAULT_SOCKET@, Namespace::Trusted) == args::globals(
            w,
            2 * gs.len() as int,
            last_socket(gs),
            last_space(gs),
        ),
    decreases gs.len(),
{
    if gs.len() > 0 {
        let init = gs.drop_last();
        let more = global_words(gs.last()) + rest;
        assert(w =~= globals_words(init) + more);
        lemma_globals_fold(w, init, more);
        let at = 2 * init.len() as int;
        assert(w[at] == more[0]);
        assert(w[at + 1] == more[1]);
        lemma_global_read(w, at, gs.last(), last_socket(init), last_space(init));
    }
}

/// Options before a command change nothing but what they name: the command is the
/// same as without them, or refused the same way; the last socket and the last
/// namespace that are given count, in whatever order and form they come.
pub proof fn lemma_options_before_command(
    without: &Vec<String>,
    with: &Vec<String>,
    gs: Seq<Global>,
    line: Words,
    a: Result<Args, ArgsError>,
    b: Result<Args, ArgsError>,
)
    requires
        line.len() > 0,
        cmdline::plain(line[0]),
        text::views(without@) == line,
        text::views(with@) == globals_words(gs) + line,
        call_ensures(args::parse_args, (without,), a),
        call_ensures(args::parse_args, (with,), b),
    ensures
        match (a, b) {
            (Ok(x), Ok(y)) => {
                &&& x.cmd@ == y.cmd@
                &&& x.socket@ == "/var/run/hsmd/agent.sock"@
                &&& x.namespace == Namespace::Trusted
                &&& y.socket@ == last_socket(gs)
                &&& y.namespace == last_space(gs)
            },
            (Err(x), Err(y)) => x@ == y@,
            _ => false,
        },
{
    let w = globals_words(gs) + line;
    let n = 2 * gs.len() as int;
    lemma_globals_fold(w, gs, line);
    cmdline::lemma_no_globals(line, args::DEFAULT_SOCKET@, Namespace::Trusted);
    assert(w[n] == line[0]);
    cmdline::lemma_options_distinct();
    assert(args::globals(w, n, last_socket(gs), last_space(gs)) == Ok::<
        (int, Seq<char>, Namespace),
        ArgsErrorView,
    >((n, last_socket(gs), last_space(gs))));
    assert(w.skip(n) =~= line);
    args::lemma_command_shift(line, w, 0, n);
}

/// Behind any options: help is help, an option without its word is reported by name,
/// a namespace that is none is refused, and without a command there is only the usage.
pub proof fn lemma_bad_option(
    raw: &Vec<String>,
    gs: Seq<Global>,
    tail: Words,
    r: Result<Args, ArgsError>,
)
    requires
        text::views(raw@) == globals_words(gs) + tail,
        call_ensures(args::parse_args, (raw,), r),
    ensures
        tail.len() == 0 ==> r is Err && r->Err_0@ is Usage,
        tail.len() > 0 && (tail[0] == "--help"@ || tail[0] == "-h"@) ==> r is Err && r->Err_0@
            is Usage,
        tail.len() == 1 && (tail[0] == "--socket"@ || tail[0] == "-s"@) ==> cmdline::refused(
            r,
            "--socket requires a value"@,
        ),
        tail.len() == 1 && (tail[0] == "--namespace"@ || tail[0] == "-n"@) ==> cmdline::refused(
            r,
            "--namespace requires a value"@,
        ),
        tail.len() > 1 && (tail[0] == "--namespace"@ || tail[0] == "-n"@) && tail[1]
            != "trusted"@ && tail[1] != "user"@ ==> cmdline::refused(
            r,
            "unknown namespace "@ + text::debug_text(tail[1]) + "; expected trusted or user"@,
        ),
{
    let w = globals_words(gs) + tail;
    let n = 2 * gs.len() as int;
    lemma_globals_fold(w, gs, tail);
    cmdline::lemma_options_distinct();
    cmdline::lemma_value_messages();
    if tail.len() > 0 {
        assert(w[n] == tail[0]);
    }
    if tail.len() > 1 {
        assert(w[n + 1] == tail[1]);
    }
}

// ---------------------------------------------------------------------------
// Commands
// ---------------------------------------------------------------------------

/// Each command word is its own command, whatever comes behind it.
pub proof fn lemma_plain_commands(raw: &Vec<String>, r: Result<Args, ArgsError>)
    requires
        raw@.len() > 0,
        call_ensures(args::parse_args, (raw,), r),
    ensures
        raw@[0]@ == "status"@ ==> r is Ok && r->Ok_0.cmd == Cmd::Status,
        raw@[0]@ == "agents"@ ==> r is Ok && r->Ok_0.cmd == Cmd::Agents,
        raw@[0]@ == "lock"@ ==> r is Ok && r->Ok_0.cmd == Cmd::Lock,
        raw@[0]@ == "drain"@ ==> r is Ok && r->Ok_0.cmd == Cmd::Drain,
        raw@[0]@ == "request"@ ==> r is Ok && r->Ok_0.cmd == Cmd::Request,
        raw@[0]@ == "requeue"@ ==> r is Ok && r->Ok_0.cmd == Cmd::Requeue,
{
    let w = text::views(raw@);
    assert(w[0] == raw@[0]@);
    cmdline::lemma_commands_distinct();
    cmdline::lemma_commands_plain();
    if cmdline::plain(w[0]) {
        cmdline::lemma_no_globals(w, args::DEFAULT_SOCKET@, Namespace::Trusted);
    }
}

/// A word that is no command is refused by name.
pub proof fn lemma_unknown_command(raw: &Vec<String>, r: Result<Args, ArgsError>)
    requires
        raw@.len() > 0,
        cmdline::plain(raw@[0]@),
        raw@[0]@ != "status"@,
        raw@[0]@ != "agents"@,
        raw@[0]@ != "actions"@,
        raw@[0]@ != "xattr"@,
        raw@[0]@ != "import"@,
        raw@[0]@ != "lock"@,
        raw@[0]@ != "drain"@,
        raw@[0]@ != "request"@,
        raw@[0]@ != "requeue"@,
        call_ensures(args::parse_args, (raw,), r),
    ensures
        cmdline::refused(r, "unknown command "@ + text::debug_text(raw@[0]@)),
{
    let w = text::views(raw@);
    assert(w[0] == raw@[0]@);
    cmdline::lemma_no_globals(w, args::DEFAULT_SOCKET@, Namespace::Trusted);
}

/// `xattr show` and a path shows the attributes of that path; without the path, or
/// with another word for `show`, it is refused.
pub proof fn lemma_xattr_show(raw: &Vec<String>, r: Result<Args, ArgsError>)
    requires
        raw@.len() > 0,
        raw@[0]@ == "xattr"@,
        call_ensures(args::parse_args, (raw,), r),
    ensures
        raw@.len() > 2 && raw@[1]@ == "show"@ ==> r is Ok && r->Ok_0.cmd is XattrShow
            && r->Ok_0.cmd->path@ == raw@[2]@,
        raw@.len() == 2 && raw@[1]@ == "show"@ ==> cmdline::refused(
            r,
            "xattr show requires a <path>"@,
        ),
        raw@.len() == 1 ==> cmdline::refused(
            r,
            "unknown xattr subcommand None; expected 'show'"@,
        ),
        raw@.len() > 1 && raw@[1]@ != "show"@ ==> cmdline::refused(
            r,
            "unknown xattr subcommand Some("@ + text::debug_text(raw@[1]@) + "); expected 'show'"@,
        ),
{
    let w = text::views(raw@);
    assert(w[0] == raw@[0]@);
    assert(raw@.len() > 1 ==> w[1] == raw@[1]@);
    assert(raw@.len() > 2 ==> w[2] == raw@[2]@);
    cmdline::lemma_commands_distinct();
    cmdline::lemma_commands_plain();
    cmdline::lemma_no_globals(w, args::DEFAULT_SOCKET@, Namespace::Trusted);
}

// ---------------------------------------------------------------------------
// import
// ---------------------------------------------------------------------------

/// One thing `import` is given.
pub enum Given {
    Uuid(Seq<char>),
    Hash(Seq<char>),
    Url(Seq<char>),
    Path(Seq<char>),
}

/// Its words. A path stands for itself.
pub open spec fn given_words(g: Given) -> Words {
    match g {
        Given::Uuid(s) => seq!["--uuid"@, s],
        Given::Hash(s) => seq!["--hash"@, s],
        Given::Url(s) => seq!["--url"@, s],
        Given::Path(s) => seq![s],
    }
}

/// The words of all that is given.
pub open spec fn all_given(os: Seq<Given>) -> Words
    decreases os.len(),
{
    if os.len() == 0 {
        Seq::empty()
    } else {
        all_given(os.drop_last()) + given_words(os.last())
    }
}

/// No path begins with a dash.
pub open spec fn paths_plain(os: Seq<Given>) -> bool {
    forall|i: int|
        0 <= i < os.len() && (#[trigger] os[i]) is Path ==> os[i]->Path_0.len() == 0
            || os[i]->Path_0[0] != '-'
}

/// The last key that is given.
pub open spec fn last_uuid(os: Seq<Given>) -> Option<Seq<char>>
    decreases os.len(),
{
    if os.len() == 0 {
        None
    } else if os.last() is Uuid {
        Some(os.last()->Uuid_0)
    } else {
        last_uuid(os.drop_last())
    }
}

/// The last hash that is given.
pub open spec fn last_hash(os: Seq<Given>) -> Option<Seq<char>>
    decreases os.len(),
{
    if os.len() == 0 {
        None
    } else if os.last() is Hash {
        Some(os.last()->Hash_0)
    } else {
        last_hash(os.drop_last())
    }
}

/// The last URL that is given.
pub open spec fn last_url(os: Seq<Given>) -> Option<Seq<char>>
    decreases os.len(),
{
    if os.len() == 0 {
        None
    } else if os.last() is Url {
        Some(os.last()->Url_0)
    } else {
        last_url(os.drop_last())
    }
}

/// The last path that is given.
pub open spec fn last_path(os: Seq<Given>) -> Option<Seq<char>>
    decreases os.len(),
{
    if os.len() == 0 {
        None
    } else if os.last() is Path {
        Some(os.last()->Path_0)
    } else {
        last_path(os.drop_last())
    }
}

/// What has been given so far.
spec fn so_far(os: Seq<Given>) -> ImportView {
    ImportView {
        uuid: last_uuid(os),
        hash_hex: last_hash(os),
        url: last_url(os),
        path: last_path(os),
    }
}

/// One thing is read.
proof fn lemma_given_read(w: Words, at: int, g: Given, a: ImportView)
    requires
        0 <= at,
        at + given_words(g).len() <= w.len(),
        w[at] == given_words(g)[0],
        !(g is Path) ==> w[at + 1] == given_words(g)[1],
        g is Path ==> g->Path_0.len() == 0 || g->Path_0[0] != '-',
    ensures
        args::imports(w, at, a) == args::imports(
            w,
            at + given_words(g).len(),
            match g {
                Given::Uuid(s) => ImportView { uuid: Some(s), ..a },
                Given::Hash(s) => ImportView { hash_hex: Some(s), ..a },
                Given::Url(s) => ImportView { url: Some(s), ..a },
                Given::Path(s) => ImportView { path: Some(s), ..a },
            },
        ),
{
    cmdline::lemma_options_distinct();
}

/// What is given is read one by one.
proof fn lemma_given_fold(w: Words, os: Seq<Given>, rest: Words)
    requires
        w == seq!["import"@] + all_given(os) + rest,
        paths_plain(os),
    ensures
        args::imports(
            w,
            1,
            ImportView { uuid: None, hash_hex: None, url: None, path: None },
        ) == args::imports(w, 1 + all_given(os).len() as int, so_far(os)),
    decreases os.len(),
{
    if os.len() > 0 {
        let init = os.drop_last();
        let g = os.last();
        let more = given_words(g) + rest;
        assert(w =~= seq!["import"@] + all_given(init) + more);
        assert forall|i: int| 0 <= i < init.len() && (#[trigger] init[i]) is Path implies init[i]->Path_0.len()
            == 0 || init[i]->Path_0[0] != '-' by {
            assert(init[i] == os[i]);
        }
        lemma_given_fold(w, init, more);
        let at = 1 + all_given(init).len() as int;
        assert(w[at] == more[0]);
        if !(g is Path) {
            assert(w[at + 1] == more[1]);
        }
        assert(os[os.len() - 1] == g);
        lemma_given_read(w, at, g, so_far(init));
    }
}

/// `import` takes what it is given in any order, the last of each sort: with a key, a
/// hash, a URL and a path it registers exactly these. What is missing is named, the
/// key first, then the hash, the URL and the path.
pub proof fn lemma_import_line(raw: &Vec<String>, os: Seq<Given>, r: Result<Args, ArgsError>)
    requires
        text::views(raw@) == seq!["import"@] + all_given(os),
        paths_plain(os),
        call_ensures(args::parse_args, (raw,), r),
    ensures
        ({
            let u = last_uuid(os);
            let h = last_hash(os);
            let l = last_url(os);
            let p = last_path(os);
            &&& u is None ==> cmdline::refused(r, "import requires --uuid"@)
            &&& u is Some && h is None ==> cmdline::refused(r, "import requires --hash"@)
            &&& u is Some && h is Some && l is None ==> cmdline::refused(
                r,
                "import requires --url"@,
            )
            &&& u is Some && h is Some && l is Some && p is None ==> cmdline::refused(
                r,
                "import requires <path>"@,
            )
            &&& u is Some && h is Some && l is Some && p is Some ==> r is Ok
                && r->Ok_0.cmd is Import && {
                let a = r->Ok_0.cmd->Import_0;
                a.uuid@ == u->0 && a.hash_hex@ == h->0 && a.url@ == l->0 && a.path@ == p->0
            }
        }),
{
    let w = text::views(raw@);
    let none: Words = Seq::empty();
    assert(w =~= seq!["import"@] + all_given(os) + none);
    lemma_given_fold(w, os, none);
    assert(w[0] == "import"@);
    cmdline::lemma_commands_distinct();
    cmdline::lemma_commands_plain();
    cmdline::lemma_no_globals(w, args::DEFAULT_SOCKET@, Namespace::Trusted);
}

/// Behind whatever `import` is given, another option is refused by name, and an option
/// without its word is reported.
pub proof fn lemma_bad_import(
    raw: &Vec<String>,
    os: Seq<Given>,
    tail: Words,
    r: Result<Args, ArgsError>,
)
    requires
        text::views(raw@) == seq!["import"@] + all_given(os) + tail,
        paths_plain(os),
        tail.len() > 0,
        call_ensures(args::parse_args, (raw,), r),
    ensures
        tail[0].len() > 0 && tail[0][0] == '-' && tail[0] != "--uuid"@ && tail[0] != "--hash"@
            && tail[0] != "--url"@ ==> cmdline::refused(
            r,
            "unknown import flag "@ + text::debug_text(tail[0]),
        ),
        tail == seq!["--uuid"@] ==> cmdline::refused(r, "--uuid requires a value"@),
        tail == seq!["--hash"@] ==> cmdline::refused(r, "--hash requires a value"@),
        tail == seq!["--url"@] ==> cmdline::refused(r, "--url requires a value"@),
{
    let w = text::views(raw@);
    lemma_given_fold(w, os, tail);
    let at = 1 + all_given(os).len() as int;
    assert(w[0] == "import"@);
    assert(w[at] == tail[0]);
    assert(w.len() == at + tail.len());
    cmdline::lemma_commands_distinct();
    cmdline::lemma_commands_plain();
    cmdline::lemma_options_distinct();
    cmdline::lemma_value_messages();
    cmdline::lemma_no_globals(w, args::DEFAULT_SOCKET@, Namespace::Trusted);
}

// ---------------------------------------------------------------------------
// The daemon
// ---------------------------------------------------------------------------

/// The words that name configuration files, each in the long or the short form.
pub open spec fn config_words(cs: Seq<(bool, Seq<char>)>) -> Words
    decreases cs.len(),
{
    if cs.len() == 0 {
        Seq::empty()
    } else {
        config_words(cs.drop_last()) + seq![
            if cs.last().0 {
                "-c"@
            } else {
                "--config"@
            },
            cs.last().1,
        ]
    }
}

/// Names are read one by one.
proof fn lemma_config_fold(w: Words, cs: Seq<(bool, Seq<char>)>, rest: Words)
    requires
        w == config_words(cs) + rest,
    ensures
        config_words(cs).len() == 2 * cs.len(),
        cli::config_named(w, 0, None) == cli::config_named(
            w,
            2 * cs.len() as int,
            if cs.len() == 0 {
                None
            } else {
                Some(cs.last().1)
            },
        ),
    decreases cs.len(),
{
    cmdline::lemma_options_distinct();
    if cs.len() > 0 {
        let init = cs.drop_last();
        let pair = seq![
            if cs.last().0 {
                "-c"@
            } else {
                "--config"@
            },
            cs.last().1,
        ];
        let more = pair + rest;
        assert(w =~= config_words(init) + more);
        lemma_config_fold(w, init, more);
        let at = 2 * init.len() as int;
        assert(w[at] == more[0]);
        assert(w[at + 1] == more[1]);
    }
}

/// The daemon runs with the configuration file that is named last; one must be named,
/// and nothing else may be. Help is help, and a name that is missing is reported.
pub proof fn lemma_daemon_line(
    raw: &Vec<String>,
    cs: Seq<(bool, Seq<char>)>,
    tail: Words,
    r: Result<String, CliError>,
)
    requires
        text::views(raw@) == config_words(cs) + tail,
        call_ensures(cli::parse_args, (raw,), r),
    ensures
        tail.len() == 0 && cs.len() > 0 ==> r is Ok && r->Ok_0@ == cs.last().1,
        tail.len() == 0 && cs.len() == 0 ==> r is Err && r->Err_0@ == CliErrorView::Invalid(
            "missing --config"@,
        ),
        tail.len() > 0 && (tail[0] == "--help"@ || tail[0] == "-h"@) ==> r is Err && r->Err_0@
            is Help,
        tail.len() == 1 && (tail[0] == "--config"@ || tail[0] == "-c"@) ==> r is Err && r->Err_0@
            == CliErrorView::Invalid("--config requires a path argument"@),
        tail.len() > 0 && tail[0] != "--help"@ && tail[0] != "-h"@ && tail[0] != "--config"@
            && tail[0] != "-c"@ ==> r is Err && r->Err_0@ == CliErrorView::Invalid(
            "unknown argument: "@ + tail[0],
        ),
{
    let w = text::views(raw@);
    lemma_config_fold(w, cs, tail);
    cmdline::lemma_options_distinct();
    if tail.len() > 0 {
        assert(w[2 * cs.len() as int] == tail[0]);
    }
}

} // verus!
