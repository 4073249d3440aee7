//! The import driver: processes an ordered sequence of source entries in
//! batches, containing per-entry failures without aborting the run.
//!
//! `run_import` is proved equal to folding `apply_entry` over the whole
//! sequence; each batch is applied to a working copy of the store and
//! committed whole, so a batch that never commits leaves the committed
//! store exactly where the previous commit left it.

use vstd::prelude::*;

use crate::model::{
    apply_entries, has_visit_at, lemma_apply_entries_concat, lemma_apply_entry,
    resolve_place_model, EntryModel, StoreModel,
};
use crate::store::{title_view, HistoryStore, VisitOutcome};
use crate::urlinfo::{display_title, spec_display_title, UrlParts};
use crate::ImportError;

verus! {

/// One source entry: the parsed URL, the raw title (possibly empty), and
/// the visit timestamp in microseconds.
pub struct ImportEntry {
    pub url: UrlParts,
    pub title: String,
    pub time_usec: u64,
}

/// The model of one entry: its URL view, the derived display title, and
/// the timestamp.
pub open spec fn entry_model_of(e: ImportEntry) -> EntryModel {
    EntryModel { url: e.url@, title: spec_display_title(e.title@), time: e.time_usec }
}

/// The models of a sequence of entries, in order.
pub open spec fn models_of(es: Seq<ImportEntry>) -> Seq<EntryModel> {
    es.map_values(|e: ImportEntry| entry_model_of(e))
}

/// What the driver reports for one entry: a fresh visit, a duplicate
/// timestamp skipped, or a contained per-entry failure.
#[derive(Clone, Copy, Debug, PartialEq, Eq, Structural)]
pub enum EntryOutcome {
    Recorded,
    DuplicateSkipped,
    Failed(ImportError),
}

/// The outcome one entry has against a given store state.
#[verifier::opaque]
pub open spec fn spec_entry_outcome(m: StoreModel, e: EntryModel) -> EntryOutcome {
    if has_visit_at(m, e.time) {
        EntryOutcome::DuplicateSkipped
    } else {
        match resolve_place_model(m, e.url, e.title) {
            Err(err) => EntryOutcome::Failed(err),
            Ok(_) => EntryOutcome::Recorded,
        }
    }
}

/// Applies the entries at indices `start..end` to the store, in order,
/// containing each entry's failure; returns one outcome per entry.
pub fn apply_batch(
    store: &mut HistoryStore,
    entries: &Vec<ImportEntry>,
    start: usize,
    end: usize,
) -> (outcomes: Vec<EntryOutcome>)
    requires
        old(store).wf(),
        start <= end <= entries@.len(),
        old(store)@.headroom((end - start) as int),
    ensures
        final(store).wf(),
        final(store)@ == apply_entries(
            old(store)@,
            models_of(entries@).subrange(start as int, end as int),
        ),
        outcomes@.len() == end - start,
        forall|k: int|
            0 <= k < outcomes@.len() ==> #[trigger] outcomes@[k] == spec_entry_outcome(
                apply_entries(
                    old(store)@,
                    models_of(entries@).subrange(start as int, start + k),
                ),
                models_of(entries@)[start + k],
            ),
{
    let ghost m0 = old(store)@;
    let ghost models = models_of(entries@);
    let mut outcomes: Vec<EntryOutcome> = Vec::new();
    let mut i: usize = start;
    proof {
        assert(models.subrange(start as int, start as int) =~= Seq::<EntryModel>::empty());
    }
    while i < end
        invariant
            store.wf(),
            start <= i <= end <= entries@.len(),
            models == models_of(entries@),
            store@ == apply_entries(m0, models.subrange(start as int, i as int)),
            store@.headroom((end - i) as int),
            outcomes@.len() == i - start,
            forall|k: int|
                0 <= k < outcomes@.len() ==> #[trigger] outcomes@[k] == spec_entry_outcome(
                    apply_entries(m0, models.subrange(start as int, start + k)),
                    models[start + k],
                ),
        decreases end - i,
    {
        let ghost pre = store@;
        let e = &entries[i];
        let title = display_title(e.title.as_str());
        let ghost em = EntryModel { url: e.url@, title: title_view(title), time: e.time_usec };
        proof {
            assert(em == entry_model_of(entries@[i as int]));
            assert(models[i as int] == em);
        }
        let r = store.insert_visit(&e.url, title, e.time_usec);
        let outcome = match r {
            Ok(VisitOutcome::Recorded) => EntryOutcome::Recorded,
            Ok(VisitOutcome::AlreadyExists) => EntryOutcome::DuplicateSkipped,
            Err(err) => EntryOutcome::Failed(err),
        };
        outcomes.push(outcome);
        proof {
            reveal(spec_entry_outcome);
            assert(outcome == spec_entry_outcome(pre, em));
            assert(models.subrange(start as int, i + 1).drop_last() =~= models.subrange(
                start as int,
                i as int,
            ));
            assert(models.subrange(start as int, i + 1).last() == models[i as int]);
            assert(store@ == apply_entries(m0, models.subrange(start as int, i + 1)));
            lemma_apply_entry(pre, em);
        }
        i = i + 1;
    }
    outcomes
}

/// Outcomes reported against the state a prefix of entries left are the
/// outcomes of the same entries in the single uninterrupted run.
proof fn lemma_batch_outcomes_shift(
    m0: StoreModel,
    models: Seq<EntryModel>,
    i: int,
    end: int,
    bo: Seq<EntryOutcome>,
)
    requires
        0 <= i <= end <= models.len(),
        bo.len() == end - i,
        forall|k: int|
            0 <= k < bo.len() ==> #[trigger] bo[k] == spec_entry_outcome(
                apply_entries(apply_entries(m0, models.take(i)), models.subrange(i, i + k)),
                models[i + k],
            ),
    ensures
        forall|k: int|
            i <= k < end ==> bo[k - i] == spec_entry_outcome(
                apply_entries(m0, #[trigger] models.take(k)),
                models[k],
            ),
{
    assert forall|k: int| i <= k < end implies bo[k - i] == spec_entry_outcome(
        apply_entries(m0, models.take(k)),
        models[k],
    ) by {
        assert(models.take(k) =~= models.take(i) + models.subrange(i, k));
        lemma_apply_entries_concat(m0, models.take(i), models.subrange(i, k));
        assert(bo[k - i] == spec_entry_outcome(
            apply_entries(apply_entries(m0, models.take(i)), models.subrange(i, i + (k - i))),
            models[i + (k - i)],
        ));
        assert(models.subrange(i, i + (k - i)) == models.subrange(i, k));
    }
}

/// Appending a batch's outcomes to the outcomes already reported yields
/// the outcome list of the longer prefix.
proof fn lemma_outcomes_extend(
    m0: StoreModel,
    models: Seq<EntryModel>,
    i: int,
    end: int,
    prev: Seq<EntryOutcome>,
    bo: Seq<EntryOutcome>,
    combined: Seq<EntryOutcome>,
)
    requires
        0 <= i <= end <= models.len(),
        prev.len() == i,
        bo.len() == end - i,
        combined == prev + bo,
        forall|k: int|
            0 <= k < i ==> #[trigger] prev[k] == spec_entry_outcome(
                apply_entries(m0, models.take(k)),
                models[k],
            ),
        forall|k: int|
            0 <= k < bo.len() ==> #[trigger] bo[k] == spec_entry_outcome(
                apply_entries(apply_entries(m0, models.take(i)), models.subrange(i, i + k)),
                models[i + k],
            ),
    ensures
        combined.len() == end,
        forall|k: int|
            0 <= k < end ==> #[trigger] combined[k] == spec_entry_outcome(
                apply_entries(m0, models.take(k)),
                models[k],
            ),
{
    lemma_batch_outcomes_shift(m0, models, i, end, bo);
    assert forall|k: int| 0 <= k < end implies combined[k] == spec_entry_outcome(
        apply_entries(m0, models.take(k)),
        models[k],
    ) by {
        if k < i {
            assert(combined[k] == prev[k]);
        } else {
            assert(combined[k] == bo[k - i]);
        }
    }
}

/// Runs the whole import: the entries are processed in order, in batches
/// of at most `batch_size`; each batch is applied to a working copy of
/// the store and committed whole. The final store is exactly the fold of
/// `apply_entry` over all entries, and one outcome is reported per entry.
#[verifier::rlimit(100)]
#[verifier::spinoff_prover]
pub fn run_import(
    store: &mut HistoryStore,
    entries: &Vec<ImportEntry>,
    batch_size: usize,
) -> (outcomes: Vec<EntryOutcome>)
    requires
        old(store).wf(),
        batch_size >= 1,
        old(store)@.headroom(entries@.len() as int),
    ensures
        final(store).wf(),
        final(store)@ == apply_entries(old(store)@, models_of(entries@)),
        outcomes@.len() == entries@.len(),
        forall|k: int|
            0 <= k < outcomes@.len() ==> #[trigger] outcomes@[k] == spec_entry_outcome(
                apply_entries(old(store)@, models_of(entries@).take(k)),
                models_of(entries@)[k],
            ),
{
    let ghost m0 = old(store)@;
    let ghost models = models_of(entries@);
    let n = entries.len();
    let mut outcomes: Vec<EntryOutcome> = Vec::new();
    let mut i: usize = 0;
    proof {
        assert(models.take(0) =~= Seq::<EntryModel>::empty());
    }
    while i < n
        invariant
            store.wf(),
            0 <= i <= n == entries@.len(),
            batch_size >= 1,
            models == models_of(entries@),
            store@ == apply_entries(m0, models.take(i as int)),
            store@.headroom((n - i) as int),
            outcomes@.len() == i,
            forall|k: int|
                0 <= k < outcomes@.len() ==> #[trigger] outcomes@[k] == spec_entry_outcome(
                    apply_entries(m0, models.take(k)),
                    models[k],
                ),
        decreases n - i,
    {
        let end = if n - i >= batch_size {
            i + batch_size
        } else {
            n
        };
        let ghost pre = store@;
        let ghost prev_outcomes = outcomes@;
        let mut working = store.duplicate();
        let mut batch_outcomes = apply_batch(&mut working, entries, i, end);
        let ghost bo = batch_outcomes@;
        *store = working;
        outcomes.append(&mut batch_outcomes);
        proof {
            assert(models.take(end as int) =~= models.take(i as int) + models.subrange(
                i as int,
                end as int,
            ));
            lemma_apply_entries_concat(
                m0,
                models.take(i as int),
                models.subrange(i as int, end as int),
            );
            assert(store@ == apply_entries(m0, models.take(end as int)));
            crate::model::lemma_apply_entries(pre, models.subrange(i as int, end as int));
            assert(store@.headroom((n - end) as int));
            lemma_outcomes_extend(m0, models, i as int, end as int, prev_outcomes, bo, outcomes@);
        }
        i = end;
    }
    proof {
        assert(models.take(n as int) =~= models);
    }
    outcomes
}

} // verus!
