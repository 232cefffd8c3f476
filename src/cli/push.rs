use vstd::prelude::*;

verus! {

/// Arguments of the `push` command: one tag to push, or all of them.
pub struct Args {
    pub tag: Option<String>,
}

/// The refs that a push updates on the remote, in order: the branch first, then
/// the tags, only once the branch went through.
pub struct PushPlan {
    pub branch: String,
    pub tags: Vec<String>,
}

pub open spec fn tag_ref(name: Seq<char>) -> Seq<char> {
    "refs/tags/"@ + name
}

pub fn tag_ref_of(name: &str) -> (r: String)
    ensures
        r@ == tag_ref(name@),
{
    let mut s = String::from_str("refs/tags/");
    s.append(name);
    s
}

/// The refs to push: the main branch, and the named tag or else every tag in
/// `tag_names` (the tags known when the push starts).
pub fn push_plan(tag: Option<&str>, tag_names: &Vec<String>) -> (r: PushPlan)
    ensures
        r.branch@ == "refs/heads/main"@,
        tag matches Some(t) ==> r.tags@.len() == 1 && r.tags@[0]@ == tag_ref(t@),
        tag is None ==> r.tags@.len() == tag_names@.len()
            && forall|i: int| 0 <= i < tag_names@.len() ==> (#[trigger] r.tags@[i])@ == tag_ref(tag_names@[i]@),
{
    let branch = String::from_str("refs/heads/main");
    let mut tags: Vec<String> = Vec::new();
    match tag {
        Some(t) => {
            tags.push(tag_ref_of(t));
        },
        None => {
            let mut i: usize = 0;
            while i < tag_names.len()
                invariant
                    i <= tag_names@.len(),
                    tags@.len() == i,
                    forall|k: int| 0 <= k < i ==> (#[trigger] tags@[k])@ == tag_ref(tag_names@[k]@),
                decreases tag_names@.len() - i,
            {
                tags.push(tag_ref_of(tag_names[i].as_str()));
                i = i + 1;
            }
        },
    }
    PushPlan { branch, tags }
}

} // verus!
