//! The blocking facade: from the entries of a traversal to the pairs, in one
//! call that returns when every chosen path has been mapped.

use crate::engine::resolved_workers;
use crate::model::items_of;
use crate::parallel::{admits, all_mapped, parallelize, runs_through};
use crate::runs::Step;
use crate::select::{
    accepts, candidate, chosen, judged, judges, lemma_chosen_from_candidates, select, Entry,
};
use vstd::prelude::*;

verus! {

/// Whether the mapping operation can be called on every path that can become
/// a work item: the path of every candidate that the filter can accept.
pub open spec fn admits_accepted<P: Clone, F: FnMut(&P) -> bool, C: Clone, O, M: FnMut(P, C) -> O>(
    filter: F,
    map: M,
    context: C,
    entries: Seq<Entry<P>>,
) -> bool {
    forall|i: int|
        0 <= i < entries.len() && candidate(#[trigger] entries[i]) && filter.ensures(
            (&entries[i]->path,),
            true,
        ) ==> admits(map, context, entries[i]->path)
}

/// Processes the entries of a traversal: selects the paths that the filter
/// accepts, maps each of them with its own clone of the context, and returns
/// the paths paired with their outcomes, in no promised order. The pairs are
/// what an engine with the resolved number of workers emits, in a faultless
/// run to its end, when it was loaded with the chosen paths.
///
/// * `entries` is what the traversal of the location reported;
/// * `filter` chooses among the paths, and is invoked sequentially;
/// * `map` processes a chosen path, and is invoked on chosen paths only;
/// * `context` is handed to each invocation of `map`;
/// * `workers` is the number of workers to use, `None` or zero for as many as
///   the machine offers; and
/// * `ambient` is the number of execution units that the machine offers.
pub fn scan<P, F, M, C, O>(
    entries: Vec<Entry<P>>,
    filter: F,
    map: M,
    context: C,
    workers: Option<usize>,
    ambient: usize,
) -> (pairs: Vec<(P, O)>) where
    P: Clone,
    C: Clone,
    F: FnMut(&P) -> bool,
    M: FnMut(P, C) -> O + Copy,

    requires
        judges(filter, entries@),
        admits_accepted(filter, map, context, entries@),
    ensures
        exists|verdicts: Seq<bool>, steps: Seq<Step<P, O>>|
            judged(filter, entries@, verdicts) && pairs.len() == chosen(entries@, verdicts).len()
                && items_of(pairs@).to_multiset() =~= chosen(entries@, verdicts).to_multiset()
                && #[trigger] runs_through(
                map,
                context,
                resolved_workers(workers, ambient) as nat,
                chosen(entries@, verdicts),
                steps,
                pairs@,
            ),
        all_mapped(map, context, pairs@),
{
    let paths = select(entries, filter);
    let ghost verdicts = choose|verdicts: Seq<bool>| #[trigger]
        judged(filter, entries@, verdicts) && paths@ == chosen(entries@, verdicts);
    proof {
        lemma_chosen_from_candidates(entries@, verdicts);
        assert forall|k: int| 0 <= k < paths.len() implies admits(
            map,
            context,
            #[trigger] paths[k],
        ) by {
            // The path is that of a candidate which the filter accepted.
            assert(accepts(entries@, verdicts, paths@[k]));
            let i = choose|i: int|
                0 <= i < entries@.len() && verdicts[i] && candidate(#[trigger] entries@[i])
                    && entries@[i]->path == paths@[k];
            assert(filter.ensures((&entries@[i]->path,), verdicts[i]));
        }
    }
    let pairs = parallelize(paths, map, context, workers, ambient);
    proof {
        let steps = choose|steps: Seq<Step<P, O>>| #[trigger]
            runs_through(
                map,
                context,
                resolved_workers(workers, ambient) as nat,
                paths@,
                steps,
                pairs@,
            );
        assert(runs_through(
            map,
            context,
            resolved_workers(workers, ambient) as nat,
            chosen(entries@, verdicts),
            steps,
            pairs@,
        ));
    }
    pairs
}

} // verus!
