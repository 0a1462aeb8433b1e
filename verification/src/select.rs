//! The candidate filter: which entries of a traversal become work items.

use vstd::prelude::*;

verus! {

/// One entry of a traversal, as the enumerator reported it.
#[derive(Debug, PartialEq, Eq)]
pub enum Entry<P> {
    /// The traversal could not read the entry.
    Unreadable,
    /// The traversal read the entry: where it is, and whether it is a
    /// directory (a link counts as what it leads to).
    Found { path: P, directory: bool },
}

/// Whether the entry can become a work item at all: it was read and it is no
/// directory.
pub open spec fn candidate<P>(entry: Entry<P>) -> bool {
    entry matches Entry::Found { directory, .. } && !directory
}

/// Whether the filter can be called on the path of every candidate.
pub open spec fn judges<P, F: FnMut(&P) -> bool>(filter: F, entries: Seq<Entry<P>>) -> bool {
    forall|i: int|
        0 <= i < entries.len() && candidate(#[trigger] entries[i]) ==> filter.requires(
            (&entries[i]->path,),
        )
}

/// Whether the verdicts, one for each entry, are verdicts of the filter: for
/// a candidate what the filter can return on its path, for any other entry a
/// refusal.
pub open spec fn judged<P, F: FnMut(&P) -> bool>(
    filter: F,
    entries: Seq<Entry<P>>,
    verdicts: Seq<bool>,
) -> bool {
    &&& verdicts.len() == entries.len()
    &&& forall|i: int|
        0 <= i < entries.len() ==> if candidate(entries[i]) {
            filter.ensures((&entries[i]->path,), #[trigger] verdicts[i])
        } else {
            !verdicts[i]
        }
}

/// The paths of the entries whose verdict is an acceptance, in the order of
/// the entries.
pub open spec fn chosen<P>(entries: Seq<Entry<P>>, verdicts: Seq<bool>) -> Seq<P>
    decreases entries.len(),
{
    if entries.len() == 0 || verdicts.len() != entries.len() {
        Seq::empty()
    } else if verdicts.last() {
        chosen(entries.drop_last(), verdicts.drop_last()).push(entries.last()->path)
    } else {
        chosen(entries.drop_last(), verdicts.drop_last())
    }
}

/// Selects the work items among the entries of a traversal: unreadable
/// entries and directories are skipped, and the filter is asked about the
/// path of each remaining entry, one after the other, in the order of the
/// entries. The accepted paths are returned in that order.
pub fn select<P, F>(entries: Vec<Entry<P>>, filter: F) -> (paths: Vec<P>) where
    F: FnMut(&P) -> bool,

    requires
        judges(filter, entries@),
    ensures
        exists|verdicts: Seq<bool>| #[trigger]
            judged(filter, entries@, verdicts) && paths@ == chosen(entries@, verdicts),
{
    let mut ask = filter;
    let mut paths: Vec<P> = Vec::new();
    let ghost mut verdicts: Seq<bool> = Seq::empty();
    for entry in iter: entries
        invariant
            iter.seq() == entries@,
            ask == filter,
            judges(filter, entries@),
            verdicts.len() == iter.index(),
            judged(filter, entries@.take(iter.index()), verdicts),
            paths@ == chosen(entries@.take(iter.index()), verdicts),
    {
        let ghost seen = entries@.take(iter.index());
        let ghost next = entries@.take(iter.index() + 1);
        let ghost earlier = verdicts;
        let keep = match entry {
            Entry::Found { path, directory } => {
                if !directory && ask(&path) {
                    paths.push(path);
                    true
                } else {
                    false
                }
            },
            Entry::Unreadable => false,
        };
        proof {
            verdicts = earlier.push(keep);
            assert(next.drop_last() =~= seen);
            assert(verdicts.drop_last() =~= earlier);
        }
    }
    proof {
        assert(entries@.take(entries@.len() as int) =~= entries@);
    }
    paths
}

/// Whether the path is that of a candidate whose verdict is an acceptance.
pub open spec fn accepts<P>(entries: Seq<Entry<P>>, verdicts: Seq<bool>, path: P) -> bool {
    exists|i: int|
        0 <= i < entries.len() && verdicts[i] && candidate(#[trigger] entries[i])
            && entries[i]->path == path
}

/// Every chosen path is the path of a candidate whose verdict is an
/// acceptance, and there are no more chosen paths than entries.
pub proof fn lemma_chosen_from_candidates<P>(entries: Seq<Entry<P>>, verdicts: Seq<bool>)
    requires
        verdicts.len() == entries.len(),
        forall|i: int| 0 <= i < entries.len() && #[trigger] verdicts[i] ==> candidate(entries[i]),
    ensures
        chosen(entries, verdicts).len() <= entries.len(),
        forall|k: int|
            0 <= k < chosen(entries, verdicts).len() ==> accepts(
                entries,
                verdicts,
                #[trigger] chosen(entries, verdicts)[k],
            ),
    decreases entries.len(),
{
    if entries.len() > 0 {
        let front = entries.drop_last();
        let heads = verdicts.drop_last();
        lemma_chosen_from_candidates(front, heads);
        let before = chosen(front, heads);
        let all = chosen(entries, verdicts);
        assert forall|k: int| 0 <= k < all.len() implies accepts(
            entries,
            verdicts,
            #[trigger] all[k],
        ) by {
            if k < before.len() {
                // The witness among the earlier entries serves again.
                let i = choose|i: int|
                    0 <= i < front.len() && heads[i] && candidate(#[trigger] front[i])
                        && front[i]->path == before[k];
                assert(entries[i] == front[i]);
            } else {
                assert(candidate(entries[entries.len() - 1]));
            }
        }
    }
}

/// Where the filter is a predicate (on each path it can return one value
/// only) the verdicts are determined, and so is the selection: the paths of
/// the candidates that the predicate accepts, in the order of the entries.
pub proof fn law_selection_is_determined<P, F: FnMut(&P) -> bool>(
    filter: F,
    accept: spec_fn(P) -> bool,
    entries: Seq<Entry<P>>,
    verdicts: Seq<bool>,
)
    requires
        forall|path: P, verdict: bool| #[trigger]
            filter.ensures((&path,), verdict) ==> verdict == accept(path),
        judged(filter, entries, verdicts),
    ensures
        verdicts =~= Seq::new(
            entries.len(),
            |i: int| candidate(entries[i]) && accept(entries[i]->path),
        ),
        chosen(entries, verdicts) =~= entries.filter(
            |entry: Entry<P>| candidate(entry) && accept(entry->path),
        ).map_values(|entry: Entry<P>| entry->path),
    decreases entries.len(),
{
    reveal(Seq::filter);
    if entries.len() > 0 {
        law_selection_is_determined(filter, accept, entries.drop_last(), verdicts.drop_last());
    }
}

} // verus!
