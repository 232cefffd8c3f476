use vstd::prelude::*;

use crate::text::{join_spec, join_with, split_on, split_spec, views};

verus! {

/// Arguments of the `shim` command: the tool and what it was called with.
pub struct Args {
    pub args: Vec<String>,
}

/// The pieces other than `x`, in their order.
pub open spec fn without_entry(ps: Seq<Seq<char>>, x: Seq<char>) -> Seq<Seq<char>>
    decreases ps.len(),
{
    if ps.len() == 0 {
        ps
    } else {
        let w = without_entry(ps.drop_last(), x);
        if ps.last() == x {
            w
        } else {
            w.push(ps.last())
        }
    }
}

/// The PATH value `path` without its entries that are the shim directory
/// `bin_dir`; the other entries keep their order.
pub open spec fn stripped_path(path: Seq<char>, bin_dir: Seq<char>) -> Seq<char> {
    join_spec(without_entry(split_spec(path, ':'), bin_dir), ':')
}

pub proof fn lemma_without_entry_excludes(ps: Seq<Seq<char>>, x: Seq<char>)
    ensures
        forall|k: int| 0 <= k < without_entry(ps, x).len() ==> #[trigger] without_entry(ps, x)[k] != x,
    decreases ps.len(),
{
    if ps.len() > 0 {
        lemma_without_entry_excludes(ps.drop_last(), x);
        let w = without_entry(ps.drop_last(), x);
        assert forall|k: int| 0 <= k < without_entry(ps, x).len() implies #[trigger] without_entry(ps, x)[k] != x by {
            if k < w.len() {
                assert(w[k] != x);
            }
        }
    }
}

/// Removes the shim directory from a colon-separated PATH value, so that the
/// real tools are found.
pub fn strip_araki_shim_path(path: &str, bin_dir: &str) -> (r: String)
    ensures
        r@ == stripped_path(path@, bin_dir@),
        forall|k: int| 0 <= k < without_entry(split_spec(path@, ':'), bin_dir@).len()
            ==> #[trigger] without_entry(split_spec(path@, ':'), bin_dir@)[k] != bin_dir@,
{
    let parts = split_on(path, ':');
    let ghost ps = views(parts@);
    let dir = String::from_str(bin_dir);
    let mut kept: Vec<String> = Vec::new();
    let mut i: usize = 0;
    while i < parts.len()
        invariant
            ps == views(parts@),
            dir@ == bin_dir@,
            i <= parts@.len(),
            views(kept@) == without_entry(ps.take(i as int), bin_dir@),
        decreases parts@.len() - i,
    {
        proof {
            assert(ps.take(i + 1).drop_last() =~= ps.take(i as int));
            assert(ps.take(i + 1).last() == parts@[i as int]@);
        }
        if parts[i] != dir {
            let ghost before = kept@;
            kept.push(parts[i].clone());
            assert(views(kept@) =~= views(before).push(parts@[i as int]@));
        }
        i = i + 1;
    }
    proof {
        assert(ps.take(i as int) =~= ps);
        assert(views(kept@).skip(0) =~= views(kept@));
        lemma_without_entry_excludes(ps, bin_dir@);
        reveal_strlit(":");
    }
    join_with(&kept, 0, ":")
}

} // verus!
