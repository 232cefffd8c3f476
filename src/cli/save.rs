use vstd::prelude::*;

verus! {

/// Arguments of the `save` command: a checkpoint whose message is the tag name.
pub struct Args {
    pub tag: String,
}

} // verus!
