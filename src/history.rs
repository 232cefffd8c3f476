use vstd::prelude::*;

use crate::snapshot::Snapshot;

verus! {

/// An immutable commit: a tree, up to two parents and a message.
#[derive(Clone, Debug)]
pub struct Commit {
    pub tree: Snapshot,
    pub parents: Vec<usize>,
    pub message: String,
}

pub open spec fn parent_ok(cs: Seq<Commit>, i: int) -> bool {
    &&& cs[i].parents@.len() <= 2
    &&& forall|j: int| 0 <= j < cs[i].parents@.len() ==> (#[trigger] cs[i].parents@[j]) < i
}

/// Whether `a` is `d` or one of its ancestors.
pub open spec fn is_ancestor(cs: Seq<Commit>, a: int, d: int) -> bool
    decreases d,
{
    if a == d {
        true
    } else if d < 0 || d >= cs.len() {
        false
    } else {
        let ps = cs[d].parents@;
        ||| (ps.len() >= 1 && 0 <= ps[0] < d && is_ancestor(cs, a, ps[0] as int))
        ||| (ps.len() >= 2 && 0 <= ps[1] < d && is_ancestor(cs, a, ps[1] as int))
    }
}

pub open spec fn is_parent(cs: Seq<Commit>, j: int, c: int) -> bool {
    let ps = cs[c].parents@;
    ||| (ps.len() >= 1 && ps[0] == j)
    ||| (ps.len() >= 2 && ps[1] == j)
}

pub open spec fn history_ok(cs: Seq<Commit>) -> bool {
    forall|i: int| 0 <= i < cs.len() ==> parent_ok(cs, i)
}

pub proof fn lemma_ancestor_le(cs: Seq<Commit>, a: int, d: int)
    requires
        is_ancestor(cs, a, d),
    ensures
        a <= d,
    decreases d,
{
    if a != d {
        let ps = cs[d].parents@;
        if ps.len() >= 1 && 0 <= ps[0] < d && is_ancestor(cs, a, ps[0] as int) {
            lemma_ancestor_le(cs, a, ps[0] as int);
        } else {
            lemma_ancestor_le(cs, a, ps[1] as int);
        }
    }
}

proof fn lemma_ancestor_trans(cs: Seq<Commit>, a: int, b: int, c: int)
    requires
        is_ancestor(cs, a, b),
        is_ancestor(cs, b, c),
    ensures
        is_ancestor(cs, a, c),
    decreases c,
{
    if b != c && a != c {
        let ps = cs[c].parents@;
        if ps.len() >= 1 && 0 <= ps[0] < c && is_ancestor(cs, b, ps[0] as int) {
            lemma_ancestor_trans(cs, a, b, ps[0] as int);
        } else {
            lemma_ancestor_trans(cs, a, b, ps[1] as int);
        }
    }
}

proof fn lemma_parent_is_ancestor(cs: Seq<Commit>, j: int, c: int)
    requires
        history_ok(cs),
        0 <= c < cs.len(),
        is_parent(cs, j, c),
    ensures
        is_ancestor(cs, j, c),
        j < c,
{
    assert(parent_ok(cs, c));
    let ps = cs[c].parents@;
    if ps.len() >= 1 && ps[0] == j {
        assert(ps[0] < c);
    } else {
        assert(ps[1] < c);
    }
    assert(is_ancestor(cs, j, j));
}

/// An ancestor other than `d` itself is a parent of some ancestor of `d`.
pub proof fn lemma_ancestor_via_parent(cs: Seq<Commit>, j: int, d: int)
    requires
        history_ok(cs),
        0 <= j < d < cs.len(),
    ensures
        is_ancestor(cs, j, d) <==> exists|c: int|
            j < c <= d && #[trigger] is_ancestor(cs, c, d) && is_parent(cs, j, c),
    decreases d,
{
    if is_ancestor(cs, j, d) {
        let ps = cs[d].parents@;
        let p: int = if ps.len() >= 1 && 0 <= ps[0] < d && is_ancestor(cs, j, ps[0] as int) {
            ps[0] as int
        } else {
            ps[1] as int
        };
        assert(is_parent(cs, p, d));
        assert(is_ancestor(cs, d, d));
        if p == j {
            assert(is_ancestor(cs, d, d) && is_parent(cs, j, d));
        } else {
            lemma_ancestor_le(cs, j, p);
            lemma_ancestor_via_parent(cs, j, p);
            let c = choose|c: int| j < c <= p && #[trigger] is_ancestor(cs, c, p) && is_parent(cs, j, c);
            lemma_parent_is_ancestor(cs, p, d);
            lemma_ancestor_trans(cs, c, p, d);
            assert(is_ancestor(cs, c, d) && is_parent(cs, j, c));
        }
    }
    if exists|c: int| j < c <= d && #[trigger] is_ancestor(cs, c, d) && is_parent(cs, j, c) {
        let c = choose|c: int| j < c <= d && #[trigger] is_ancestor(cs, c, d) && is_parent(cs, j, c);
        lemma_parent_is_ancestor(cs, j, c);
        lemma_ancestor_trans(cs, j, c, d);
    }
}

/// How a fetched commit relates to the local head.
#[derive(Clone, Copy, Debug, PartialEq, Eq, Structural)]
pub enum MergeAnalysis {
    /// Both are the same commit.
    UpToDate,
    /// The local head is a strict ancestor of the fetched commit.
    FastForward,
    /// The fetched commit is a strict ancestor of the local head: nothing to take.
    LocalAhead,
    /// Neither is an ancestor of the other.
    ThreeWay,
}

pub open spec fn analysis_of(cs: Seq<Commit>, local: int, fetched: int) -> MergeAnalysis {
    if local == fetched {
        MergeAnalysis::UpToDate
    } else if is_ancestor(cs, local, fetched) {
        MergeAnalysis::FastForward
    } else if is_ancestor(cs, fetched, local) {
        MergeAnalysis::LocalAhead
    } else {
        MergeAnalysis::ThreeWay
    }
}

pub open spec fn is_common_ancestor(cs: Seq<Commit>, m: int, a: int, b: int) -> bool {
    0 <= m < cs.len() && is_ancestor(cs, m, a) && is_ancestor(cs, m, b)
}

} // verus!
