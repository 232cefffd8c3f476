use vstd::prelude::*;

use crate::cli::push::{tag_ref, tag_ref_of};

verus! {

/// Arguments of the `checkout` command.
pub struct Args {
    pub tag_or_commit: String,
}

/// Where to look a name up, in order.
#[derive(Debug)]
pub enum Lookup {
    /// The main branch's tip.
    MainBranch,
    /// The tag ref given, then the name as a raw commit identifier.
    TagThenId(String),
}

/// How `name` is resolved: `latest` is the main branch; anything else is a tag
/// name first and a commit identifier second.
pub fn lookup_for(name: &str) -> (r: Lookup)
    ensures
        name@ == "latest"@ ==> r is MainBranch,
        name@ != "latest"@ ==> (r matches Lookup::TagThenId(t) && t@ == tag_ref(name@)),
{
    if String::from_str(name) == String::from_str("latest") {
        Lookup::MainBranch
    } else {
        Lookup::TagThenId(tag_ref_of(name))
    }
}

} // verus!
