use vstd::prelude::*;

verus! {

/// The arguments of a transfer.
pub struct TransferArgs {
    /// The timesheet table to read; `-` reads standard input.
    pub file: String,
    /// Decide every record but submit nothing.
    pub dry_run: bool,
    /// Where the configuration file is, where not in its default place.
    pub config_path: Option<String>,
}

/// The commands besides a transfer.
pub enum Commands {
    /// Print a configuration template.
    ConfigTemplate,
    /// Create a configuration file.
    Init { config_path: Option<String> },
}

/// The command line: the arguments of a transfer, or another command.
pub struct Cli {
    pub args: Option<TransferArgs>,
    pub command: Option<Commands>,
}

} // verus!
