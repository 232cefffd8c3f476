use vstd::prelude::*;

verus! {

/// Arguments of the `envs` command.
pub struct Args {
    pub subcommand: EnvsSubcommand,
}

pub enum EnvsSubcommand {
    /// List the environments.
    List(ListArgs),
}

pub struct ListArgs {}

} // verus!
