use vstd::prelude::*;

use crate::order::{lemma_name_less_irreflexive, lemma_name_less_total, name_less};
use crate::store::{
    listing, tag_views, tags_sorted,
};
use crate::cli::common::{metadata_result, parsed_keys, MetadataError};
use crate::history::{
    analysis_of, history_ok, is_ancestor, is_common_ancestor, lemma_ancestor_le, Commit, MergeAnalysis,
};
use crate::snapshot::{conflict_workdir_content, conflicts_of, merged_content, TrackedPath};
use crate::store::{Head, PullOutcome, Store, StoreError};

verus! {

/// A checkpoint's tree holds exactly the working directory's contents at the
/// time it was made.
pub proof fn lemma_checkpoint_round_trip(pre: Store, post: Store, id: int, message: Seq<char>)
    requires
        Store::checkpointed(pre, post, id, message),
    ensures
        post.commits@[id].tree.spec@ == pre.workdir.spec@,
        post.commits@[id].tree.lock@ == pre.workdir.lock@,
{
}

/// `latest` names the main branch's tip, whatever tags were created: any change
/// that keeps the main branch keeps what `latest` resolves to.
pub proof fn lemma_latest_ignores_tags(pre: Store, post: Store)
    requires
        post.main == pre.main,
    ensures
        post.resolve_spec("latest"@) == pre.main,
        post.resolve_spec("latest"@) == pre.resolve_spec("latest"@),
{
}

/// After a checkpoint on the main branch, `latest` resolves to the new commit.
pub proof fn lemma_latest_after_checkpoint(pre: Store, post: Store, id: int, message: Seq<char>)
    requires
        Store::checkpointed(pre, post, id, message),
        pre.head == Head::Main,
    ensures
        post.resolve_spec("latest"@) == Some(id as usize),
{
}

/// Fast-forward exactly when the local head is a strict ancestor of the fetched
/// commit, three-way merge exactly when neither is an ancestor of the other,
/// nothing to do exactly when they are the same commit.
pub proof fn lemma_analysis_cases(cs: Seq<Commit>, local: int, fetched: int)
    requires
        history_ok(cs),
        0 <= local < cs.len(),
        0 <= fetched < cs.len(),
    ensures
        (analysis_of(cs, local, fetched) == MergeAnalysis::UpToDate) <==> local == fetched,
        (analysis_of(cs, local, fetched) == MergeAnalysis::FastForward) <==> (local != fetched
            && is_ancestor(cs, local, fetched)),
        (analysis_of(cs, local, fetched) == MergeAnalysis::LocalAhead) <==> (local != fetched
            && is_ancestor(cs, fetched, local)),
        (analysis_of(cs, local, fetched) == MergeAnalysis::ThreeWay) <==> (!is_ancestor(cs, local, fetched)
            && !is_ancestor(cs, fetched, local)),
{
    if is_ancestor(cs, local, fetched) && is_ancestor(cs, fetched, local) {
        lemma_ancestor_le(cs, local, fetched);
        lemma_ancestor_le(cs, fetched, local);
    }
}

/// Pulling `fetched` fast-forwards exactly when the local head is a strict
/// ancestor of it, and reports the store up to date exactly when both are the
/// same commit.
pub proof fn lemma_pull_outcome(pre: Store, post: Store, fetched: usize, r: Result<PullOutcome, StoreError>, local: usize)
    requires
        pre.wf(),
        Store::pulled(pre, post, fetched, r),
        pre.main == Some(local),
        fetched < pre.commits@.len(),
    ensures
        (r == Ok::<PullOutcome, StoreError>(PullOutcome::FastForward)) <==> (local != fetched
            && is_ancestor(pre.commits@, local as int, fetched as int)),
        (r == Ok::<PullOutcome, StoreError>(PullOutcome::UpToDate)) <==> local == fetched,
        (r == Ok::<PullOutcome, StoreError>(PullOutcome::UpToDate)) ==> post.main == pre.main
            && post.commits@ == pre.commits@ && post.workdir == pre.workdir && post.head == pre.head,
{
    lemma_analysis_cases(pre.commits@, local as int, fetched as int);
}

/// A three-way pull whose sides changed disjoint paths makes exactly one commit,
/// with parents local and fetched, holding each side's changes; one where a path
/// changed on both sides makes none and reports those paths.
pub proof fn lemma_pull_three_way(pre: Store, post: Store, fetched: usize, r: Result<PullOutcome, StoreError>, local: usize, base: int)
    requires
        pre.wf(),
        Store::pulled(pre, post, fetched, r),
        pre.main == Some(local),
        fetched < pre.commits@.len(),
        analysis_of(pre.commits@, local as int, fetched as int) == MergeAnalysis::ThreeWay,
        is_common_ancestor(pre.commits@, base, local as int, fetched as int),
        forall|k: int| #[trigger] is_common_ancestor(pre.commits@, k, local as int, fetched as int) ==> k <= base,
    ensures
        ({
            let cs = pre.commits@;
            let b = cs[base].tree;
            let o = cs[local as int].tree;
            let t = cs[fetched as int].tree;
            &&& conflicts_of(b, o, t).len() == 0 ==> {
                &&& r == Ok::<PullOutcome, StoreError>(PullOutcome::Merged(cs.len() as usize))
                &&& post.commits@.len() == cs.len() + 1
                &&& post.commits@.subrange(0, cs.len() as int) == cs
                &&& post.commits@[cs.len() as int].parents@ == seq![local, fetched]
                &&& post.commits@[cs.len() as int].tree.spec@ == merged_content(b, o, t, TrackedPath::Specfile)
                &&& post.commits@[cs.len() as int].tree.lock@ == merged_content(b, o, t, TrackedPath::Lockfile)
                &&& post.main == Some(cs.len() as usize)
            }
            &&& conflicts_of(b, o, t).len() > 0 ==> {
                &&& r matches Err(StoreError::ConflictDetected(ps)) && ps@ == conflicts_of(b, o, t)
                &&& post.commits@ == cs
                &&& post.main == pre.main
                &&& post.head == pre.head
            }
        }),
{
    let cs = pre.commits@;
    assert(is_common_ancestor(cs, base, local as int, fetched as int));
    match r {
        Ok(PullOutcome::Merged(id)) => {
            let m = choose|m: int| #[trigger] is_common_ancestor(cs, m, local as int, fetched as int)
                && (forall|k: int| #[trigger] is_common_ancestor(cs, k, local as int, fetched as int) ==> k <= m)
                && conflicts_of(cs[m].tree, cs[local as int].tree, cs[fetched as int].tree).len() == 0
                && Store::merged(pre, post, id as int, cs[m].tree, local, fetched);
            assert(m == base);
        },
        Err(StoreError::ConflictDetected(ps)) => {
            let m = choose|m: int| #[trigger] is_common_ancestor(cs, m, local as int, fetched as int)
                && (forall|k: int| #[trigger] is_common_ancestor(cs, k, local as int, fetched as int) ==> k <= m)
                && ps@ == conflicts_of(cs[m].tree, cs[local as int].tree, cs[fetched as int].tree)
                && ps@.len() > 0
                && post.workdir.spec@ == conflict_workdir_content(cs[m].tree, cs[local as int].tree, cs[fetched as int].tree, TrackedPath::Specfile)
                && post.workdir.lock@ == conflict_workdir_content(cs[m].tree, cs[local as int].tree, cs[fetched as int].tree, TrackedPath::Lockfile);
            assert(m == base);
        },
        _ => {},
    }
}

pub open spec fn names_sorted(vs: Seq<(Seq<char>, usize, Option<Seq<char>>)>) -> bool {
    forall|i: int, j: int| 0 <= i < j < vs.len() ==> name_less(#[trigger] vs[i].0, #[trigger] vs[j].0)
}

proof fn lemma_sorted_views(ts: Seq<crate::store::Tag>)
    requires
        tags_sorted(ts),
    ensures
        names_sorted(tag_views(ts)),
{
    let vs = tag_views(ts);
    assert forall|i: int, j: int| 0 <= i < j < vs.len() implies name_less(#[trigger] vs[i].0, #[trigger] vs[j].0) by {
        assert(name_less(ts[i].name@, ts[j].name@));
    }
}

/// Two sequences sorted strictly by name that hold the same elements are equal.
proof fn lemma_sorted_unique(a: Seq<(Seq<char>, usize, Option<Seq<char>>)>, b: Seq<(Seq<char>, usize, Option<Seq<char>>)>)
    requires
        names_sorted(a),
        names_sorted(b),
        a.to_set() == b.to_set(),
    ensures
        a == b,
    decreases a.len(),
{
    if a.len() == 0 {
        if b.len() > 0 {
            assert(b.to_set().contains(b[0]));
        }
        assert(a =~= b);
    } else {
        assert(a.to_set().contains(a[0]));
        let j = choose|j: int| 0 <= j < b.len() && b[j] == a[0];
        let i = choose|i: int| 0 <= i < a.len() && a[i] == b[0];
        assert(b.to_set().contains(b[0]));
        if j > 0 {
            assert(name_less(b[0].0, b[j].0));
            if i > 0 {
                assert(name_less(a[0].0, a[i].0));
                lemma_name_less_total(a[0].0, a[i].0);
            } else {
                lemma_name_less_irreflexive(a[0].0);
            }
        }
        assert(b[0] == a[0]);
        let ta = a.drop_first();
        let tb = b.drop_first();
        assert forall|x| ta.to_set().contains(x) implies tb.to_set().contains(x) by {
            let k = choose|k: int| 0 <= k < ta.len() && ta[k] == x;
            assert(a[k + 1] == x);
            assert(name_less(a[0].0, x.0));
            lemma_name_less_irreflexive(x.0);
            assert(b.to_set().contains(x));
            let m = choose|m: int| 0 <= m < b.len() && b[m] == x;
            assert(m != 0);
            assert(tb[m - 1] == x);
        }
        assert forall|x| tb.to_set().contains(x) implies ta.to_set().contains(x) by {
            let k = choose|k: int| 0 <= k < tb.len() && tb[k] == x;
            assert(b[k + 1] == x);
            assert(name_less(b[0].0, x.0));
            lemma_name_less_irreflexive(x.0);
            assert(a.to_set().contains(x));
            let m = choose|m: int| 0 <= m < a.len() && a[m] == x;
            assert(m != 0);
            assert(ta[m - 1] == x);
        }
        assert(ta.to_set() =~= tb.to_set());
        assert(names_sorted(ta));
        assert(names_sorted(tb));
        lemma_sorted_unique(ta, tb);
        assert(a =~= seq![a[0]] + ta);
        assert(b =~= seq![b[0]] + tb);
    }
}

/// The tag listing depends only on the set of tags: two stores holding the same
/// tags list them identically, in order of name.
pub proof fn lemma_listing_deterministic(a: Store, b: Store)
    requires
        a.wf(),
        b.wf(),
        tag_views(a.tags@).to_set() == tag_views(b.tags@).to_set(),
    ensures
        listing(tag_views(a.tags@)) == listing(tag_views(b.tags@)),
{
    lemma_sorted_views(a.tags@);
    lemma_sorted_views(b.tags@);
    lemma_sorted_unique(tag_views(a.tags@), tag_views(b.tags@));
}

/// Writing the lockspec metadata is idempotent: on the text that a first call
/// wrote, a second call (with any name) leaves the file as it is.
pub proof fn lemma_metadata_idempotent(
    text: Seq<char>,
    name: Seq<char>,
    written: String,
    again: Seq<char>,
    r: Result<Option<String>, MetadataError>,
)
    requires
        metadata_result(text, name, Ok(Some(written))),
        metadata_result(written@, again, r),
    ensures
        r matches Ok(None),
{
    assert(parsed_keys(written@).unwrap().contains("araki"@));
}

} // verus!
