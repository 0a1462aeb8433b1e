//! The suspension facade: from the entries of a traversal to an engine that
//! holds every chosen path, for a scheduler whose mapping operation may
//! suspend.

use crate::engine::{resolved_workers, Engine};
use crate::model::State;
use crate::select::{chosen, judged, judges, select, Entry};
use vstd::prelude::*;

verus! {

/// Prepares the processing of the entries of a traversal: selects the paths
/// that the filter accepts and dispatches all of them, in order, into an
/// engine of the resolved size, whose forward conduit is then closed.
///
/// The caller drives the engine from there. It asks `schedule` what to do
/// next, starts the mapping of a path where it is told to run a worker,
/// reports each outcome with `complete` when the mapping has finished, and
/// pushes each pair that it is told to yield to its consumer.
pub fn scan<P, F, O>(
    entries: Vec<Entry<P>>,
    filter: F,
    workers: Option<usize>,
    ambient: usize,
) -> (engine: Engine<P, O>) where F: FnMut(&P) -> bool
    requires
        judges(filter, entries@),
    ensures
        engine.wf(),
        exists|verdicts: Seq<bool>| #[trigger]
            judged(filter, entries@, verdicts) && engine@ == State::<P, O>::initial(
                resolved_workers(workers, ambient) as nat,
            ).load(chosen(entries@, verdicts)),
{
    let paths = select(entries, filter);
    Engine::load(paths, workers, ambient)
}

} // verus!
