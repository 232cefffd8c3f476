use vstd::prelude::*;

verus! {

/// Arguments of the `list` command.
pub struct Args {
    /// Show the checkpoints as a tree.
    pub tree: bool,
    /// Show the tags.
    pub tags: bool,
}

/// What `list` shows.
#[derive(Clone, Copy, Debug, PartialEq, Eq, Structural)]
pub enum ListMode {
    Tree,
    Tags,
    History,
}

/// The tree switch wins over the tags switch; the history is the default.
pub fn mode(args: &Args) -> (r: ListMode)
    ensures
        args.tree ==> r == ListMode::Tree,
        !args.tree && args.tags ==> r == ListMode::Tags,
        !args.tree && !args.tags ==> r == ListMode::History,
{
    if args.tree {
        ListMode::Tree
    } else if args.tags {
        ListMode::Tags
    } else {
        ListMode::History
    }
}

pub open spec fn history_entry_spec(id: Seq<char>, name: Seq<char>, email: Seq<char>, summary: Seq<char>) -> Seq<char> {
    "Commit: "@ + id + "\nAuthor: "@ + name + " <"@ + email + ">\nSummary: "@ + summary + "\n"@
}

/// One commit of the history listing.
pub fn history_entry(id: &str, name: &str, email: &str, summary: &str) -> (r: String)
    ensures
        r@ == history_entry_spec(id@, name@, email@, summary@),
{
    let mut s = String::from_str("Commit: ");
    s.append(id);
    s.append("\nAuthor: ");
    s.append(name);
    s.append(" <");
    s.append(email);
    s.append(">\nSummary: ");
    s.append(summary);
    s.append("\n");
    s
}

} // verus!
