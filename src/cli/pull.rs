use vstd::prelude::*;

use crate::history::MergeAnalysis;

verus! {

/// Arguments of the `pull` command (none).
pub struct Args {}

/// The merge analysis from the ancestry facts about the local head and the
/// fetched commit.
pub fn classify(same: bool, local_is_ancestor: bool, fetched_is_ancestor: bool) -> (r: MergeAnalysis)
    ensures
        same ==> r == MergeAnalysis::UpToDate,
        !same && local_is_ancestor ==> r == MergeAnalysis::FastForward,
        !same && !local_is_ancestor && fetched_is_ancestor ==> r == MergeAnalysis::LocalAhead,
        !same && !local_is_ancestor && !fetched_is_ancestor ==> r == MergeAnalysis::ThreeWay,
{
    if same {
        MergeAnalysis::UpToDate
    } else if local_is_ancestor {
        MergeAnalysis::FastForward
    } else if fetched_is_ancestor {
        MergeAnalysis::LocalAhead
    } else {
        MergeAnalysis::ThreeWay
    }
}

} // verus!
