use vstd::prelude::*;

use crate::store::{opt_view, tag_message};

verus! {

/// Arguments of the `tag` command: checkpoint and tag the result.
pub struct Args {
    pub tag: String,
    pub description: Option<String>,
}

/// The message of a new annotated tag: the description when given, else a
/// default one that names the tag.
pub fn tag_message_text(name: &str, description: Option<&str>) -> (r: String)
    ensures
        r@ == tag_message(name@, opt_view(description)),
{
    match description {
        Some(d) => String::from_str(d),
        None => {
            let mut m = String::from_str("araki environment tag: ");
            m.append(name);
            m
        },
    }
}

} // verus!
