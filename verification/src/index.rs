//! The indexing decision: compare the current fingerprint with the persisted
//! snapshot and either answer from the cache or ask for a fresh collection.
//! The shell around the library performs the reads and writes; every
//! decision is made here.

use crate::fingerprint::fingerprint_of;
use crate::model::{AppList, AppListView, CacheFile, CacheFileView};
use vstd::prelude::*;

verus! {

/// What an indexing run must do next: return the cached records unchanged,
/// or run the full collection pipeline.
pub enum IndexOutcome {
    /// The persisted snapshot matches the current source state; these are
    /// its records, to be returned without any collection work.
    Cached(Vec<AppList>),
    /// No usable snapshot: collect, normalize, then persist a new snapshot.
    Collect,
}

/// The mathematical value of an `IndexOutcome`.
pub enum IndexOutcomeView {
    Cached(Seq<AppListView>),
    Collect,
}

impl View for IndexOutcome {
    type V = IndexOutcomeView;

    open spec fn view(&self) -> IndexOutcomeView {
        match self {
            IndexOutcome::Cached(apps) => IndexOutcomeView::Cached(apps.deep_view()),
            IndexOutcome::Collect => IndexOutcomeView::Collect,
        }
    }
}

impl DeepView for IndexOutcome {
    type V = IndexOutcomeView;

    open spec fn deep_view(&self) -> IndexOutcomeView {
        self.view()
    }
}

/// The cache rule: answer from the snapshot exactly when one exists and its
/// fingerprint equals the current one; anything else — absent, unreadable or
/// stale — forces a fresh collection.
pub open spec fn index_decision_spec(current: u64, cached: Option<CacheFileView>) -> IndexOutcomeView {
    match cached {
        Some(snap) => if snap.hash == current {
            IndexOutcomeView::Cached(snap.apps)
        } else {
            IndexOutcomeView::Collect
        },
        None => IndexOutcomeView::Collect,
    }
}

/// Decide whether the persisted snapshot answers this run. `cached` is
/// `None` when the cache file is absent or could not be read or decoded:
/// both count as a miss, never as an error.
pub fn index_decision(current_fingerprint: u64, cached: Option<CacheFile>) -> (r: IndexOutcome)
    ensures
        r.deep_view() == index_decision_spec(current_fingerprint, cached.deep_view()),
{
    match cached {
        Some(snap) => {
            if snap.hash == current_fingerprint {
                IndexOutcome::Cached(snap.apps)
            } else {
                IndexOutcome::Collect
            }
        },
        None => IndexOutcome::Collect,
    }
}

/// Pair a fresh record list with the fingerprint of the source state it was
/// collected from. The snapshot is built whole and replaced whole: it is
/// internally consistent by construction.
pub fn make_snapshot(fingerprint: u64, apps: Vec<AppList>) -> (r: CacheFile)
    ensures
        r@ == (CacheFileView { hash: fingerprint, apps: apps.deep_view() }),
{
    CacheFile { hash: fingerprint, apps }
}

/// Law: indexing is idempotent. A second run over unchanged sources computes
/// the same fingerprint (the fingerprint is a function of the change signals
/// alone), finds the snapshot the first run persisted, and is answered from
/// it: the records are identical and the collector is not invoked — the
/// outcome is `Cached`, never `Collect`.
pub proof fn lemma_indexing_idempotent(signals: Seq<u64>, apps: Seq<AppListView>)
    ensures
        index_decision_spec(
            fingerprint_of(signals),
            Some((CacheFileView { hash: fingerprint_of(signals), apps })),
        ) == IndexOutcomeView::Cached(apps),
{
}

} // verus!
