//! Command-line options, as plain records. The front-end parses `argv` and
//! fills these in; `config` defaults to `gateway.yaml` there.

use vstd::prelude::*;

verus! {

/// Parsed command line: the configuration file path and the subcommand.
pub struct Args {
    pub config: String,
    pub command: Command,
}

/// The two subcommands: check the configuration file, or serve.
#[derive(Clone, Copy, PartialEq, Eq, Structural, Debug)]
pub enum Command {
    ValidateConfig,
    Run,
}

} // verus!
