use vstd::prelude::*;

verus! {

/// Arguments of the `commit` command: a checkpoint, optionally tagged.
pub struct Args {
    pub message: String,
    pub tag: Option<String>,
    pub describe_tag: Option<String>,
}

} // verus!
