use vstd::prelude::*;

verus! {

/// Arguments of the `init` command.
pub struct Args {
    /// Name of the lockspec.
    pub name: String,
    /// Message of the first checkpoint.
    pub message: Option<String>,
    /// The directory to put under version control; the current one by default.
    pub path: Option<String>,
}

/// The message of the first checkpoint.
pub fn initial_message(message: Option<&str>) -> (r: String)
    ensures
        message matches Some(m) ==> r@ == m@,
        message is None ==> r@ == "Initial commit"@,
{
    match message {
        Some(m) => String::from_str(m),
        None => String::from_str("Initial commit"),
    }
}

} // verus!
