//! Which part of the program a command line reaches.
use vstd::prelude::*;

use crate::diff_parse::texts;
use crate::openai::StreamOutput;
use crate::text::{chars_of, equals_str};

verus! {

/// Where a command line goes.
#[derive(Clone, Copy, Debug, PartialEq, Eq, Structural)]
pub enum CliRoute {
    /// Print the version.
    Version,
    /// Print the help.
    Help,
    /// Commit, with all the arguments passed on.
    Commit,
    /// A subcommand names what to do.
    Subcommand,
}

/// Where a command line goes: no arguments, or a first argument that is a flag,
/// means committing, unless it asks for the version or the help.
pub open spec fn route_of(args: Seq<Seq<char>>) -> CliRoute {
    if args.len() == 0 {
        CliRoute::Commit
    } else if args[0].len() > 0 && args[0][0] == '-' {
        if args[0] == "-V"@ || args[0] == "--version"@ {
            CliRoute::Version
        } else if args[0] == "-h"@ || args[0] == "--help"@ {
            CliRoute::Help
        } else {
            CliRoute::Commit
        }
    } else {
        CliRoute::Subcommand
    }
}

/// Where a command line goes.
pub fn cli_route(args: &[String]) -> (r: CliRoute)
    ensures
        r == route_of(texts(args@)),
{
    if args.len() == 0 {
        return CliRoute::Commit;
    }
    let first = chars_of(args[0].as_str());
    assert(texts(args@)[0] == first@);
    if !(first.len() > 0 && first[0] == '-') {
        return CliRoute::Subcommand;
    }
    let f = first.as_slice();
    if equals_str(f, "-V") || equals_str(f, "--version") {
        CliRoute::Version
    } else if equals_str(f, "-h") || equals_str(f, "--help") {
        CliRoute::Help
    } else {
        CliRoute::Commit
    }
}

/// Where a generated message streams: stdout when the session is interactive (for
/// `git ai-commit`) or stdout is a terminal (for `generate`); nowhere otherwise.
pub fn resolve_stream_output(interactive_mode: bool, interactive: bool, stdout_terminal: bool) -> (r:
    StreamOutput)
    ensures
        r == if (interactive_mode && interactive) || (!interactive_mode && stdout_terminal) {
            StreamOutput::Stdout
        } else {
            StreamOutput::Silent
        },
{
    if (interactive_mode && interactive) || (!interactive_mode && stdout_terminal) {
        StreamOutput::Stdout
    } else {
        StreamOutput::Silent
    }
}

} // verus!
