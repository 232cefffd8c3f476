use vstd::prelude::*;

verus! {

/// Arguments of the `activate` command.
pub struct Args {
    pub name: String,
}

pub open spec fn prompt_line_spec(name: Seq<char>) -> Seq<char> {
    "export prompt=\"("@ + name + ":\\$(__araki_env_checkout)) $prompt\""@
}

/// The shell line that shows the environment and its checkout in the prompt.
pub fn prompt_line(name: &str) -> (r: String)
    ensures
        r@ == prompt_line_spec(name@),
{
    let mut s = String::from_str("export prompt=\"(");
    s.append(name);
    s.append(":\\$(__araki_env_checkout)) $prompt\"");
    s
}

} // verus!
