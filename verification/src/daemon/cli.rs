//! The daemon's command line.

use crate::daemon::agent;
use crate::text;
use vstd::prelude::*;

verus! {

/// What `--help` prints.
pub const USAGE: &'static str = "usage: hsmd --config <path-to-hsmd.toml>";

/// Why the daemon does not start.
#[derive(Debug, PartialEq, Eq)]
pub enum CliError {
    /// Print [`USAGE`] and stop.
    Help,
    /// Print that message and [`USAGE`].
    Invalid(String),
}

/// Model of [`CliError`].
#[verifier::ext_equal]
pub enum CliErrorView {
    Help,
    Invalid(Seq<char>),
}

impl View for CliError {
    type V = CliErrorView;

    open spec fn view(&self) -> CliErrorView {
        match *self {
            CliError::Help => CliErrorView::Help,
            CliError::Invalid(m) => CliErrorView::Invalid(m@),
        }
    }
}

/// The configuration file that words `i` on name, where `path` has been named
/// before. The last one named counts.
pub open spec fn config_named(w: Seq<Seq<char>>, i: int, path: Option<Seq<char>>) -> Result<
    Seq<char>,
    CliErrorView,
>
    decreases w.len() - i,
{
    if i >= w.len() {
        match path {
            Some(p) => Ok(p),
            None => Err(CliErrorView::Invalid("missing --config"@)),
        }
    } else if w[i] == "--config"@ || w[i] == "-c"@ {
        if i + 1 < w.len() {
            config_named(w, i + 2, Some(w[i + 1]))
        } else {
            Err(CliErrorView::Invalid("--config requires a path argument"@))
        }
    } else if w[i] == "--help"@ || w[i] == "-h"@ {
        Err(CliErrorView::Help)
    } else {
        Err(CliErrorView::Invalid("unknown argument: "@ + w[i]))
    }
}

/// The configuration file that a command line, without the name of the program,
/// names.
pub fn parse_args(raw: &Vec<String>) -> (r: Result<String, CliError>)
    ensures
        match config_named(text::views(raw@), 0, None) {
            Ok(p) => r matches Ok(x) && x@ == p,
            Err(e) => r matches Err(x) && x@ == e,
        },
{
    let ghost w = text::views(raw@);
    let mut path: Option<String> = None;
    let mut i: usize = 0;
    while i < raw.len()
        invariant
            i <= raw@.len(),
            w == text::views(raw@),
            config_named(w, 0, None) == config_named(w, i as int, agent::text_opt(path)),
        decreases raw.len() - i,
    {
        let arg = raw[i].as_str();
        proof {
            assert(w[i as int] == arg@);
            assert(i + 1 < raw@.len() ==> w[i + 1] == raw@[i + 1]@);
        }
        if text::same(arg, "--config") || text::same(arg, "-c") {
            if raw.len() - i < 2 {
                return Err(CliError::Invalid("--config requires a path argument".to_owned()));
            }
            path = Some(raw[i + 1].clone());
            i = i + 2;
        } else if text::same(arg, "--help") || text::same(arg, "-h") {
            return Err(CliError::Help);
        } else {
            let mut m = "unknown argument: ".to_owned();
            m.append(arg);
            return Err(CliError::Invalid(m));
        }
    }
    match path {
        Some(p) => Ok(p),
        None => Err(CliError::Invalid("missing --config".to_owned())),
    }
}

} // verus!
