//! The control tool's command line.

use crate::daemon::agent;
use crate::daemon::xattr_store::XattrNamespace;
use crate::text;
use vstd::prelude::*;

verus! {

/// Where the daemon listens unless told otherwise.
pub const DEFAULT_SOCKET: &'static str = "/var/run/hsmd/agent.sock";

/// What `--help` prints.
pub const USAGE: &'static str = "usage: hsmctl [--socket <path>] [--namespace trusted|user] <command> [options]

commands:
  status                               daemon health (action counts + agents)
  agents                               list connected agents
  actions [--state waiting|started]    list actions
          [--archive <id>]
  xattr show <path>                    display lhsm_* xattrs
  import --uuid <s> --hash <hex64> --url <url>   write lhsm_* xattrs (register archived file)
         --hash <hex64> --url <url>
         <path>
  lock | drain | request | requeue     (not yet implemented)

options:
  --socket <path>      daemon UDS socket  [default: /var/run/hsmd/agent.sock]
  --namespace <ns>     xattr namespace: trusted | user  [default: trusted]";

/// Which attribute namespace to use.
#[derive(Clone, Copy, Debug, PartialEq, Eq, Structural)]
pub enum Namespace {
    Trusted,
    User,
}

impl Namespace {
    /// The namespace of the attribute store.
    pub fn to_xattr_ns(self) -> (r: XattrNamespace)
        ensures
            r == (match self {
                Namespace::Trusted => XattrNamespace::Trusted,
                Namespace::User => XattrNamespace::User,
            }),
    {
        match self {
            Namespace::Trusted => XattrNamespace::Trusted,
            Namespace::User => XattrNamespace::User,
        }
    }
}

/// Which actions to list.
#[derive(Debug, PartialEq, Eq)]
pub struct ActionsFilter {
    /// State name, or nothing for all.
    pub state: String,
    /// Archive, or 0 for all.
    pub archive: u32,
}

/// A file to register as archived.
#[derive(Debug, PartialEq, Eq)]
pub struct ImportArgs {
    /// Key of the object.
    pub uuid: String,
    /// Hash of the object in hex.
    pub hash_hex: String,
    /// URL of the object.
    pub url: String,
    /// The file.
    pub path: String,
}

/// What to do.
#[derive(Debug, PartialEq, Eq)]
pub enum Cmd {
    /// Show counts and agents.
    Status,
    /// List agents.
    Agents,
    /// List actions.
    Actions(ActionsFilter),
    /// Show a file's attributes.
    XattrShow {
        /// The file.
        path: String,
    },
    /// Write a file's attributes.
    Import(ImportArgs),
    /// Reserved.
    Lock,
    /// Reserved.
    Drain,
    /// Reserved.
    Request,
    /// Reserved.
    Requeue,
}

/// A whole command line.
#[derive(Debug, PartialEq, Eq)]
pub struct Args {
    /// Where the daemon listens.
    pub socket: String,
    /// Which attribute namespace to use.
    pub namespace: Namespace,
    /// What to do.
    pub cmd: Cmd,
}

/// Why there is nothing to do. The tool exits with code 2.
#[derive(Debug, PartialEq, Eq)]
pub enum ArgsError {
    /// Print [`USAGE`].
    Usage,
    /// Print that message.
    Invalid(String),
}

// ---------------------------------------------------------------------------
// Model
// ---------------------------------------------------------------------------

/// Model of [`Cmd`].
#[verifier::ext_equal]
pub enum CmdView {
    Status,
    Agents,
    Actions { state: Seq<char>, archive: u32 },
    XattrShow { path: Seq<char> },
    Import { uuid: Seq<char>, hash_hex: Seq<char>, url: Seq<char>, path: Seq<char> },
    Lock,
    Drain,
    Request,
    Requeue,
}

impl View for Cmd {
    type V = CmdView;

    open spec fn view(&self) -> CmdView {
        match *self {
            Cmd::Status => CmdView::Status,
            Cmd::Agents => CmdView::Agents,
            Cmd::Actions(f) => CmdView::Actions { state: f.state@, archive: f.archive },
            Cmd::XattrShow { path } => CmdView::XattrShow { path: path@ },
            Cmd::Import(a) => CmdView::Import {
                uuid: a.uuid@,
                hash_hex: a.hash_hex@,
                url: a.url@,
                path: a.path@,
            },
            Cmd::Lock => CmdView::Lock,
            Cmd::Drain => CmdView::Drain,
            Cmd::Request => CmdView::Request,
            Cmd::Requeue => CmdView::Requeue,
        }
    }
}

/// Model of [`Args`].
#[verifier::ext_equal]
pub struct ArgsView {
    pub socket: Seq<char>,
    pub namespace: Namespace,
    pub cmd: CmdView,
}

impl View for Args {
    type V = ArgsView;

    open spec fn view(&self) -> ArgsView {
        ArgsView { socket: self.socket@, namespace: self.namespace, cmd: self.cmd@ }
    }
}

/// Model of [`ArgsError`].
#[verifier::ext_equal]
pub enum ArgsErrorView {
    Usage,
    Invalid(Seq<char>),
}

impl View for ArgsError {
    type V = ArgsErrorView;

    open spec fn view(&self) -> ArgsErrorView {
        match *self {
            ArgsError::Usage => ArgsErrorView::Usage,
            ArgsError::Invalid(m) => ArgsErrorView::Invalid(m@),
        }
    }
}

/// The words of a command line.
pub type Words = Seq<Seq<char>>;

/// A flag came last.
pub open spec fn no_value(flag: Seq<char>) -> ArgsErrorView {
    ArgsErrorView::Invalid(flag + " requires a value"@)
}

/// What stands before the command, read from word `i` on: the socket, the
/// namespace, and where the command is. Of a flag given twice the later one
/// counts.
pub open spec fn globals(w: Words, i: int, socket: Seq<char>, ns: Namespace) -> Result<
    (int, Seq<char>, Namespace),
    ArgsErrorView,
>
    decreases w.len() - i,
{
    if i >= w.len() {
        Ok((i, socket, ns))
    } else if w[i] == "--socket"@ || w[i] == "-s"@ {
        if i + 1 < w.len() {
            globals(w, i + 2, w[i + 1], ns)
        } else {
            Err(no_value("--socket"@))
        }
    } else if w[i] == "--namespace"@ || w[i] == "-n"@ {
        if i + 1 >= w.len() {
            Err(no_value("--namespace"@))
        } else if w[i + 1] == "trusted"@ {
            globals(w, i + 2, socket, Namespace::Trusted)
        } else if w[i + 1] == "user"@ {
            globals(w, i + 2, socket, Namespace::User)
        } else {
            Err(
                ArgsErrorView::Invalid(
                    "unknown namespace "@ + text::debug_text(w[i + 1])
                        + "; expected trusted or user"@,
                ),
            )
        }
    } else if w[i] == "--help"@ || w[i] == "-h"@ {
        Err(ArgsErrorView::Usage)
    } else {
        Ok((i, socket, ns))
    }
}

/// The filters of `actions`, read from word `i` on. The first word that is no
/// filter, and what follows it, is ignored.
pub open spec fn filters(w: Words, i: int, state: Seq<char>, archive: u32) -> Result<
    CmdView,
    ArgsErrorView,
>
    decreases w.len() - i,
{
    if i >= w.len() {
        Ok(CmdView::Actions { state, archive })
    } else if w[i] == "--state"@ {
        if i + 1 < w.len() {
            filters(w, i + 2, w[i + 1], archive)
        } else {
            Err(no_value("--state"@))
        }
    } else if w[i] == "--archive"@ {
        if i + 1 >= w.len() {
            Err(no_value("--archive"@))
        } else {
            match text::parse_uint(w[i + 1], 10, u32::MAX as nat) {
                Some(n) => filters(w, i + 2, state, n as u32),
                None => Err(ArgsErrorView::Invalid("--archive must be a number"@)),
            }
        }
    } else {
        Ok(CmdView::Actions { state, archive })
    }
}

/// What `import` has been given so far.
#[verifier::ext_equal]
pub struct ImportView {
    pub uuid: Option<Seq<char>>,
    pub hash_hex: Option<Seq<char>>,
    pub url: Option<Seq<char>>,
    pub path: Option<Seq<char>>,
}

/// Everything `import` needs, named in this order when it is missing.
pub open spec fn imported(a: ImportView) -> Result<CmdView, ArgsErrorView> {
    match (a.uuid, a.hash_hex, a.url, a.path) {
        (None, _, _, _) => Err(ArgsErrorView::Invalid("import requires --uuid"@)),
        (Some(_), None, _, _) => Err(ArgsErrorView::Invalid("import requires --hash"@)),
        (Some(_), Some(_), None, _) => Err(ArgsErrorView::Invalid("import requires --url"@)),
        (Some(_), Some(_), Some(_), None) => Err(
            ArgsErrorView::Invalid("import requires <path>"@),
        ),
        (Some(uuid), Some(hash_hex), Some(url), Some(path)) => Ok(
            CmdView::Import { uuid, hash_hex, url, path },
        ),
    }
}

/// The options of `import`, read from word `i` on. A word that does not begin
/// with `-` is the path.
pub open spec fn imports(w: Words, i: int, a: ImportView) -> Result<CmdView, ArgsErrorView>
    decreases w.len() - i,
{
    if i >= w.len() {
        imported(a)
    } else if w[i] == "--uuid"@ {
        if i + 1 < w.len() {
            imports(w, i + 2, ImportView { uuid: Some(w[i + 1]), ..a })
        } else {
            Err(no_value("--uuid"@))
        }
    } else if w[i] == "--hash"@ {
        if i + 1 < w.len() {
            imports(w, i + 2, ImportView { hash_hex: Some(w[i + 1]), ..a })
        } else {
            Err(no_value("--hash"@))
        }
    } else if w[i] == "--url"@ {
        if i + 1 < w.len() {
            imports(w, i + 2, ImportView { url: Some(w[i + 1]), ..a })
        } else {
            Err(no_value("--url"@))
        }
    } else if w[i].len() == 0 || w[i][0] != '-' {
        imports(w, i + 1, ImportView { path: Some(w[i]), ..a })
    } else {
        Err(ArgsErrorView::Invalid("unknown import flag "@ + text::debug_text(w[i])))
    }
}

/// The command at word `i` and its options.
pub open spec fn command(w: Words, i: int) -> Result<CmdView, ArgsErrorView> {
    if i >= w.len() {
        Err(ArgsErrorView::Usage)
    } else if w[i] == "status"@ {
        Ok(CmdView::Status)
    } else if w[i] == "agents"@ {
        Ok(CmdView::Agents)
    } else if w[i] == "actions"@ {
        filters(w, i + 1, Seq::empty(), 0)
    } else if w[i] == "xattr"@ {
        if i + 1 >= w.len() {
            Err(ArgsErrorView::Invalid("unknown xattr subcommand None; expected 'show'"@))
        } else if w[i + 1] != "show"@ {
            Err(
                ArgsErrorView::Invalid(
                    "unknown xattr subcommand Some("@ + text::debug_text(w[i + 1])
                        + "); expected 'show'"@,
                ),
            )
        } else if i + 2 >= w.len() {
            Err(ArgsErrorView::Invalid("xattr show requires a <path>"@))
        } else {
            Ok(CmdView::XattrShow { path: w[i + 2] })
        }
    } else if w[i] == "import"@ {
        imports(w, i + 1, ImportView { uuid: None, hash_hex: None, url: None, path: None })
    } else if w[i] == "lock"@ {
        Ok(CmdView::Lock)
    } else if w[i] == "drain"@ {
        Ok(CmdView::Drain)
    } else if w[i] == "request"@ {
        Ok(CmdView::Request)
    } else if w[i] == "requeue"@ {
        Ok(CmdView::Requeue)
    } else {
        Err(ArgsErrorView::Invalid("unknown command "@ + text::debug_text(w[i])))
    }
}

/// The meaning of a command line, without the name of the program.
pub open spec fn meaning(w: Words) -> Result<ArgsView, ArgsErrorView> {
    match globals(w, 0, DEFAULT_SOCKET@, Namespace::Trusted) {
        Err(e) => Err(e),
        Ok((i, socket, namespace)) => match command(w, i) {
            Err(e) => Err(e),
            Ok(cmd) => Ok(ArgsView { socket, namespace, cmd }),
        },
    }
}

// ---------------------------------------------------------------------------
// Parser
// ---------------------------------------------------------------------------

/// The command of a result, or its error.
pub open spec fn gives(r: Result<Cmd, ArgsError>, want: Result<CmdView, ArgsErrorView>) -> bool {
    match want {
        Ok(c) => r matches Ok(x) && x@ == c,
        Err(e) => r matches Err(x) && x@ == e,
    }
}

/// The error for a flag that came last.
fn missing_value(flag: &str) -> (r: ArgsError)
    ensures
        r@ == no_value(flag@),
{
    let mut m = flag.to_owned();
    m.append(" requires a value");
    ArgsError::Invalid(m)
}

/// A message with one quoted word in it.
fn quoting(before: &str, word: &str, after: &str) -> (r: ArgsError)
    ensures
        r@ == ArgsErrorView::Invalid(before@ + text::debug_text(word@) + after@),
{
    let mut m = before.to_owned();
    m.append(text::debug_string(word).as_str());
    m.append(after);
    ArgsError::Invalid(m)
}

/// Read what stands before the command.
fn parse_globals(raw: &Vec<String>) -> (r: Result<(usize, String, Namespace), ArgsError>)
    ensures
        match globals(text::views(raw@), 0, DEFAULT_SOCKET@, Namespace::Trusted) {
            Ok(g) => r matches Ok(x) && x.0 == g.0 && x.1@ == g.1 && x.2 == g.2,
            Err(e) => r matches Err(x) && x@ == e,
        },
        r matches Ok(x) ==> x.0 <= raw@.len(),
{
    let ghost w = text::views(raw@);
    let mut i: usize = 0;
    let mut socket = DEFAULT_SOCKET.to_owned();
    let mut ns = Namespace::Trusted;
    while i < raw.len()
        invariant
            i <= raw@.len(),
            w == text::views(raw@),
            globals(w, 0, DEFAULT_SOCKET@, Namespace::Trusted) == globals(w, i as int, socket@, ns),
        decreases raw.len() - i,
    {
        let arg = raw[i].as_str();
        proof {
            assert(w[i as int] == arg@);
            assert(i + 1 < raw@.len() ==> w[i + 1] == raw@[i + 1]@);
        }
        if text::same(arg, "--socket") || text::same(arg, "-s") {
            if raw.len() - i < 2 {
                return Err(missing_value("--socket"));
            }
            socket = raw[i + 1].clone();
            i = i + 2;
        } else if text::same(arg, "--namespace") || text::same(arg, "-n") {
            if raw.len() - i < 2 {
                return Err(missing_value("--namespace"));
            }
            let value = raw[i + 1].as_str();
            if text::same(value, "trusted") {
                ns = Namespace::Trusted;
            } else if text::same(value, "user") {
                ns = Namespace::User;
            } else {
                return Err(quoting("unknown namespace ", value, "; expected trusted or user"));
            }
            i = i + 2;
        } else if text::same(arg, "--help") || text::same(arg, "-h") {
            return Err(ArgsError::Usage);
        } else {
            return Ok((i, socket, ns));
        }
    }
    Ok((i, socket, ns))
}

/// Read the filters of `actions`.
fn parse_filters(raw: &Vec<String>, from: usize) -> (r: Result<Cmd, ArgsError>)
    requires
        from <= raw@.len(),
    ensures
        gives(r, filters(text::views(raw@), from as int, Seq::empty(), 0)),
{
    let ghost w = text::views(raw@);
    let mut i: usize = from;
    let mut state = String::new();
    let mut archive: u32 = 0;
    proof {
        assert(state@ =~= Seq::<char>::empty());
    }
    while i < raw.len()
        invariant
            from <= i <= raw@.len(),
            w == text::views(raw@),
            filters(w, from as int, Seq::empty(), 0) == filters(w, i as int, state@, archive),
        decreases raw.len() - i,
    {
        let arg = raw[i].as_str();
        proof {
            assert(w[i as int] == arg@);
            assert(i + 1 < raw@.len() ==> w[i + 1] == raw@[i + 1]@);
        }
        if text::same(arg, "--state") {
            if raw.len() - i < 2 {
                return Err(missing_value("--state"));
            }
            state = raw[i + 1].clone();
        } else if text::same(arg, "--archive") {
            if raw.len() - i < 2 {
                return Err(missing_value("--archive"));
            }
            let digits = text::chars_of(raw[i + 1].as_str());
            match text::parse_unsigned(digits.as_slice(), 10, u32::MAX as u64) {
                Some(n) => {
                    archive = n as u32;
                },
                None => {
                    return Err(ArgsError::Invalid("--archive must be a number".to_owned()));
                },
            }
        } else {
            return Ok(Cmd::Actions(ActionsFilter { state, archive }));
        }
        i = i + 2;
    }
    Ok(Cmd::Actions(ActionsFilter { state, archive }))
}

/// Check that `import` has everything.
fn finish_import(
    uuid: Option<String>,
    hash_hex: Option<String>,
    url: Option<String>,
    path: Option<String>,
) -> (r: Result<Cmd, ArgsError>)
    ensures
        gives(
            r,
            imported(
                ImportView {
                    uuid: agent::text_opt(uuid),
                    hash_hex: agent::text_opt(hash_hex),
                    url: agent::text_opt(url),
                    path: agent::text_opt(path),
                },
            ),
        ),
{
    let uuid = match uuid {
        Some(s) => s,
        None => {
            return Err(ArgsError::Invalid("import requires --uuid".to_owned()));
        },
    };
    let hash_hex = match hash_hex {
        Some(s) => s,
        None => {
            return Err(ArgsError::Invalid("import requires --hash".to_owned()));
        },
    };
    let url = match url {
        Some(s) => s,
        None => {
            return Err(ArgsError::Invalid("import requires --url".to_owned()));
        },
    };
    let path = match path {
        Some(s) => s,
        None => {
            return Err(ArgsError::Invalid("import requires <path>".to_owned()));
        },
    };
    Ok(Cmd::Import(ImportArgs { uuid, hash_hex, url, path }))
}

/// `true` if the word begins with `-`.
fn is_flag(word: &str) -> (r: bool)
    ensures
        r == !(word@.len() == 0 || word@[0] != '-'),
{
    let cs = text::chars_of(word);
    cs.len() > 0 && cs[0] == '-'
}

/// Read the options of `import`.
fn parse_import(raw: &Vec<String>, from: usize) -> (r: Result<Cmd, ArgsError>)
    requires
        from <= raw@.len(),
    ensures
        gives(
            r,
            imports(
                text::views(raw@),
                from as int,
                ImportView { uuid: None, hash_hex: None, url: None, path: None },
            ),
        ),
{
    let ghost w = text::views(raw@);
    let ghost start = ImportView { uuid: None, hash_hex: None, url: None, path: None };
    let mut i: usize = from;
    let mut uuid: Option<String> = None;
    let mut hash_hex: Option<String> = None;
    let mut url: Option<String> = None;
    let mut path: Option<String> = None;
    while i < raw.len()
        invariant
            from <= i <= raw@.len(),
            w == text::views(raw@),
            start == (ImportView { uuid: None, hash_hex: None, url: None, path: None }),
            imports(w, from as int, start) == imports(
                w,
                i as int,
                ImportView {
                    uuid: agent::text_opt(uuid),
                    hash_hex: agent::text_opt(hash_hex),
                    url: agent::text_opt(url),
                    path: agent::text_opt(path),
                },
            ),
        decreases raw.len() - i,
    {
        let arg = raw[i].as_str();
        proof {
            assert(w[i as int] == arg@);
            assert(i + 1 < raw@.len() ==> w[i + 1] == raw@[i + 1]@);
        }
        if text::same(arg, "--uuid") {
            if raw.len() - i < 2 {
                return Err(missing_value("--uuid"));
            }
            uuid = Some(raw[i + 1].clone());
            i = i + 2;
        } else if text::same(arg, "--hash") {
            if raw.len() - i < 2 {
                return Err(missing_value("--hash"));
            }
            hash_hex = Some(raw[i + 1].clone());
            i = i + 2;
        } else if text::same(arg, "--url") {
            if raw.len() - i < 2 {
                return Err(missing_value("--url"));
            }
            url = Some(raw[i + 1].clone());
            i = i + 2;
        } else if is_flag(arg) {
            let e = quoting("unknown import flag ", arg, "");
            proof {
                reveal_strlit("");
                assert("unknown import flag "@ + text::debug_text(arg@) + ""@
                    =~= "unknown import flag "@ + text::debug_text(arg@));
            }
            return Err(e);
        } else {
            path = Some(arg.to_owned());
            i = i + 1;
        }
    }
    finish_import(uuid, hash_hex, url, path)
}

/// Read the command and its options.
fn parse_command(raw: &Vec<String>, i: usize) -> (r: Result<Cmd, ArgsError>)
    requires
        i <= raw@.len(),
    ensures
        gives(r, command(text::views(raw@), i as int)),
{
    let ghost w = text::views(raw@);
    if i >= raw.len() {
        return Err(ArgsError::Usage);
    }
    let word = raw[i].as_str();
    proof {
        assert(w[i as int] == word@);
        assert(i + 1 < raw@.len() ==> w[i + 1] == raw@[i + 1]@);
        assert(i + 2 < raw@.len() ==> w[i + 2] == raw@[i + 2]@);
    }
    if text::same(word, "status") {
        Ok(Cmd::Status)
    } else if text::same(word, "agents") {
        Ok(Cmd::Agents)
    } else if text::same(word, "actions") {
        parse_filters(raw, i + 1)
    } else if text::same(word, "xattr") {
        if raw.len() - i < 2 {
            Err(
                ArgsError::Invalid("unknown xattr subcommand None; expected 'show'".to_owned()),
            )
        } else if !text::same(raw[i + 1].as_str(), "show") {
            Err(
                quoting(
                    "unknown xattr subcommand Some(",
                    raw[i + 1].as_str(),
                    "); expected 'show'",
                ),
            )
        } else if raw.len() - i < 3 {
            Err(ArgsError::Invalid("xattr show requires a <path>".to_owned()))
        } else {
            Ok(Cmd::XattrShow { path: raw[i + 2].clone() })
        }
    } else if text::same(word, "import") {
        parse_import(raw, i + 1)
    } else if text::same(word, "lock") {
        Ok(Cmd::Lock)
    } else if text::same(word, "drain") {
        Ok(Cmd::Drain)
    } else if text::same(word, "request") {
        Ok(Cmd::Request)
    } else if text::same(word, "requeue") {
        Ok(Cmd::Requeue)
    } else {
        let e = quoting("unknown command ", word, "");
        proof {
            reveal_strlit("");
            assert("unknown command "@ + text::debug_text(word@) + ""@ =~= "unknown command "@
                + text::debug_text(word@));
        }
        Err(e)
    }
}

/// Read a command line, given without the name of the program.
pub fn parse_args(raw: &Vec<String>) -> (r: Result<Args, ArgsError>)
    ensures
        match meaning(text::views(raw@)) {
            Ok(a) => r matches Ok(x) && x@ == a,
            Err(e) => r matches Err(x) && x@ == e,
        },
{
    match parse_globals(raw) {
        Err(e) => Err(e),
        Ok((i, socket, namespace)) => match parse_command(raw, i) {
            Err(e) => Err(e),
            Ok(cmd) => Ok(Args { socket, namespace, cmd }),
        },
    }
}

// ---------------------------------------------------------------------------
// Laws
// ---------------------------------------------------------------------------

/// The command does not depend on the socket given before it.
proof fn lemma_globals_socket(w: Words, i: int, a: Seq<char>, b: Seq<char>, ns: Namespace)
    ensures
        match (globals(w, i, a, ns), globals(w, i, b, ns)) {
            (Ok(x), Ok(y)) => x.0 == y.0 && x.2 == y.2 && (x.1 == y.1 || (x.1 == a && y.1 == b)),
            (Err(x), Err(y)) => x == y,
            _ => false,
        },
    decreases w.len() - i,
{
    if i < w.len() {
        if w[i] == "--socket"@ || w[i] == "-s"@ {
        } else if w[i] == "--namespace"@ || w[i] == "-n"@ {
            if i + 1 < w.len() {
                lemma_globals_socket(w, i + 2, a, b, Namespace::Trusted);
                lemma_globals_socket(w, i + 2, a, b, Namespace::User);
            }
        }
    }
}

/// Reading shifted words gives the shifted result.
proof fn lemma_globals_shift(v: Words, w: Words, i: int, n: int, s: Seq<char>, ns: Namespace)
    requires
        0 <= i,
        0 <= n <= w.len(),
        v == w.skip(n),
    ensures
        match (globals(v, i, s, ns), globals(w, i + n, s, ns)) {
            (Ok(x), Ok(y)) => y.0 == x.0 + n && x.1 == y.1 && x.2 == y.2,
            (Err(x), Err(y)) => x == y,
            _ => false,
        },
    decreases v.len() - i,
{
    if i < v.len() {
        assert(v[i] == w[i + n]);
        if i + 1 < v.len() {
            assert(v[i + 1] == w[i + 1 + n]);
            lemma_globals_shift(v, w, i + 2, n, v[i + 1], ns);
            lemma_globals_shift(v, w, i + 2, n, s, Namespace::Trusted);
            lemma_globals_shift(v, w, i + 2, n, s, Namespace::User);
        }
    }
}

/// Reading shifted filters gives the same result.
proof fn lemma_filters_shift(v: Words, w: Words, i: int, n: int, s: Seq<char>, a: u32)
    requires
        0 <= i,
        0 <= n <= w.len(),
        v == w.skip(n),
    ensures
        filters(v, i, s, a) == filters(w, i + n, s, a),
    decreases v.len() - i,
{
    if i < v.len() {
        assert(v[i] == w[i + n]);
        if i + 1 < v.len() {
            assert(v[i + 1] == w[i + 1 + n]);
            lemma_filters_shift(v, w, i + 2, n, v[i + 1], a);
            match text::parse_uint(v[i + 1], 10, u32::MAX as nat) {
                Some(x) => {
                    lemma_filters_shift(v, w, i + 2, n, s, x as u32);
                },
                None => {},
            }
        }
    }
}

/// Reading shifted import options gives the same result.
proof fn lemma_imports_shift(v: Words, w: Words, i: int, n: int, a: ImportView)
    requires
        0 <= i,
        0 <= n <= w.len(),
        v == w.skip(n),
    ensures
        imports(v, i, a) == imports(w, i + n, a),
    decreases v.len() - i,
{
    if i < v.len() {
        assert(v[i] == w[i + n]);
        lemma_imports_shift(v, w, i + 1, n, ImportView { path: Some(v[i]), ..a });
        if i + 1 < v.len() {
            assert(v[i + 1] == w[i + 1 + n]);
            lemma_imports_shift(v, w, i + 2, n, ImportView { uuid: Some(v[i + 1]), ..a });
            lemma_imports_shift(v, w, i + 2, n, ImportView { hash_hex: Some(v[i + 1]), ..a });
            lemma_imports_shift(v, w, i + 2, n, ImportView { url: Some(v[i + 1]), ..a });
        }
    }
}

/// Reading a shifted command gives the same result.
pub(crate) proof fn lemma_command_shift(v: Words, w: Words, i: int, n: int)
    requires
        0 <= i,
        0 <= n <= w.len(),
        v == w.skip(n),
    ensures
        command(v, i) == command(w, i + n),
{
    if i < v.len() {
        assert(v[i] == w[i + n]);
        if i + 1 < v.len() {
            assert(v[i + 1] == w[i + 1 + n]);
        }
        if i + 2 < v.len() {
            assert(v[i + 2] == w[i + 2 + n]);
        }
        lemma_filters_shift(v, w, i + 1, n, Seq::empty(), 0);
        lemma_imports_shift(
            v,
            w,
            i + 1,
            n,
            ImportView { uuid: None, hash_hex: None, url: None, path: None },
        );
    }
}

/// A socket given first changes nothing but the socket, and only where no later
/// one is given.
pub proof fn lemma_socket_flag(path: Seq<char>, rest: Words)
    ensures
        match (meaning(rest), meaning(seq!["--socket"@, path] + rest)) {
            (Ok(a), Ok(b)) => a.cmd == b.cmd && a.namespace == b.namespace && (b.socket == a.socket
                || (a.socket == DEFAULT_SOCKET@ && b.socket == path)),
            (Err(x), Err(y)) => x == y,
            _ => false,
        },
{
    let w = seq!["--socket"@, path] + rest;
    assert(w.skip(2) =~= rest);
    assert(w[0] == "--socket"@ && w[1] == path);
    let ns = Namespace::Trusted;
    lemma_globals_shift(rest, w, 0, 2, path, ns);
    lemma_globals_socket(rest, 0, DEFAULT_SOCKET@, path, ns);
    match globals(rest, 0, path, ns) {
        Ok(x) => {
            lemma_globals_bounds(rest, 0, path, ns);
            lemma_command_shift(rest, w, x.0, 2);
        },
        Err(_) => {},
    }
}

/// The command is not before the words that were read.
proof fn lemma_globals_bounds(w: Words, i: int, s: Seq<char>, ns: Namespace)
    requires
        0 <= i,
    ensures
        globals(w, i, s, ns) matches Ok(x) ==> x.0 >= i,
    decreases w.len() - i,
{
    if i + 1 < w.len() {
        lemma_globals_bounds(w, i + 2, w[i + 1], ns);
        lemma_globals_bounds(w, i + 2, s, Namespace::Trusted);
        lemma_globals_bounds(w, i + 2, s, Namespace::User);
    }
}

} // verus!
