use vstd::prelude::*;

pub mod activate;
pub mod checkout;
pub mod commit;
pub mod common;
pub mod envs;
pub mod init;
pub mod list;
pub mod pull;
pub mod push;
pub mod save;
pub mod shell;
pub mod shim;
pub mod tag;

verus! {

/// The command line: a command, or none.
pub struct Cli {
    pub command: Option<Command>,
}

pub enum Command {
    /// Check out a tag or commit of the environment.
    Checkout(checkout::Args),
    /// List checkpoints or tags.
    List(list::Args),
    /// Take changes from the remote.
    Pull(pull::Args),
    /// Send changes to the remote.
    Push(push::Args),
    /// Configure the shell.
    Shell(shell::Args),
    /// Run a shimmed tool.
    Shim(shim::Args),
    /// Checkpoint and tag the environment.
    Tag(tag::Args),
}

} // verus!
