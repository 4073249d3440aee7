use history_import::driver::{apply_batch, run_import, EntryOutcome, ImportEntry};
use history_import::store::HistoryStore;
use history_import::urlinfo::parse_url;
use history_import::ImportError;

fn entry(url: &str, title: &str, time: u64) -> ImportEntry {
    ImportEntry {
        url: parse_url(url).unwrap(),
        title: String::from(title),
        time_usec: time,
    }
}

#[test]
fn three_entries_end_to_end() {
    // Two entries with the same URL and different timestamps, one with a
    // different URL on the same host: two places, one origin, three visits.
    let mut store = HistoryStore::new();
    let entries = vec![
        entry("https://example.com/a", "A", 10),
        entry("https://example.com/a", "A again", 20),
        entry("https://example.com/b", "", 30),
    ];
    let outcomes = run_import(&mut store, &entries, 1000);
    assert_eq!(outcomes, vec![
        EntryOutcome::Recorded,
        EntryOutcome::Recorded,
        EntryOutcome::Recorded,
    ]);
    assert_eq!(store.places.len(), 2);
    assert_eq!(store.origins.len(), 1);
    assert_eq!(store.visits.len(), 3);
    assert_eq!(store.places[0].visit_count, 2);
    assert_eq!(store.places[0].last_visit_date, Some(20));
    assert_eq!(store.places[0].title.as_deref(), Some("A"));
    assert_eq!(store.places[1].visit_count, 1);
    assert_eq!(store.places[1].title, None);
}

#[test]
fn distinct_hosts_make_distinct_origins() {
    let mut store = HistoryStore::new();
    let entries = vec![
        entry("https://example.com/a", "", 10),
        entry("https://example.org/b", "", 20),
    ];
    run_import(&mut store, &entries, 1000);
    assert_eq!(store.origins.len(), 2);
    assert_eq!(store.places.len(), 2);
}

#[test]
fn rerunning_the_import_changes_nothing() {
    let mut store = HistoryStore::new();
    let entries = vec![
        entry("https://example.com/a", "A", 10),
        entry("https://example.com/a", "A", 20),
        entry("https://example.com/b", "B", 30),
        entry("javascript:alert(1)", "bad", 40),
    ];
    let first = run_import(&mut store, &entries, 2);
    assert_eq!(first[3], EntryOutcome::Failed(ImportError::MissingHost));
    let places = store.places.len();
    let origins = store.origins.len();
    let visits = store.visits.len();
    let count0 = store.places[0].visit_count;

    let entries_again = vec![
        entry("https://example.com/a", "A", 10),
        entry("https://example.com/a", "A", 20),
        entry("https://example.com/b", "B", 30),
        entry("javascript:alert(1)", "bad", 40),
    ];
    let second = run_import(&mut store, &entries_again, 2);
    assert_eq!(second, vec![
        EntryOutcome::DuplicateSkipped,
        EntryOutcome::DuplicateSkipped,
        EntryOutcome::DuplicateSkipped,
        EntryOutcome::Failed(ImportError::MissingHost),
    ]);
    assert_eq!(store.places.len(), places);
    assert_eq!(store.origins.len(), origins);
    assert_eq!(store.visits.len(), visits);
    assert_eq!(store.places[0].visit_count, count0);
}

#[test]
fn per_entry_failures_do_not_abort_the_run() {
    let mut store = HistoryStore::new();
    let entries = vec![
        entry("https://example.com/a", "", 10),
        entry("foo://example.com/opaque", "", 20),
        entry("https://example.com/b", "", 30),
    ];
    let outcomes = run_import(&mut store, &entries, 1000);
    assert_eq!(outcomes, vec![
        EntryOutcome::Recorded,
        EntryOutcome::Failed(ImportError::OpaqueOrigin),
        EntryOutcome::Recorded,
    ]);
    assert_eq!(store.places.len(), 2);
    assert_eq!(store.visits.len(), 2);
}

#[test]
fn failed_batch_leaves_committed_batches_intact() {
    // Run the first batch to completion and commit it; start a second
    // batch on a working copy and fail before its commit: the committed
    // store holds exactly the first batch, none of the second.
    let mut committed = HistoryStore::new();
    let entries = vec![
        entry("https://example.com/a", "", 10),
        entry("https://example.com/b", "", 20),
        entry("https://example.com/c", "", 30),
        entry("https://example.com/d", "", 40),
    ];
    let outcomes = apply_batch(&mut committed, &entries, 0, 2);
    assert_eq!(outcomes.len(), 2);
    assert_eq!(committed.visits.len(), 2);
    assert_eq!(committed.places.len(), 2);

    // Second batch: apply only its first entry to the working copy, then
    // drop the copy instead of committing it (the injected failure).
    let mut working = committed.duplicate();
    apply_batch(&mut working, &entries, 2, 3);
    assert_eq!(working.visits.len(), 3);
    drop(working);

    // The committed store still holds the first batch and nothing more.
    assert_eq!(committed.visits.len(), 2);
    assert_eq!(committed.places.len(), 2);
    assert_eq!(committed.visits[0].visit_date, 10);
    assert_eq!(committed.visits[1].visit_date, 20);

    // A restart over the whole file recovers: the first batch is skipped
    // as duplicates, the rest is imported.
    let outcomes = run_import(&mut committed, &entries, 2);
    assert_eq!(outcomes, vec![
        EntryOutcome::DuplicateSkipped,
        EntryOutcome::DuplicateSkipped,
        EntryOutcome::Recorded,
        EntryOutcome::Recorded,
    ]);
    assert_eq!(committed.visits.len(), 4);
    assert_eq!(committed.places.len(), 4);
}

#[test]
fn batch_size_one_commits_per_entry() {
    let mut a = HistoryStore::new();
    let mut b = HistoryStore::new();
    let entries = vec![
        entry("https://example.com/a", "", 10),
        entry("https://example.com/b", "", 20),
        entry("https://example.com/a", "", 30),
    ];
    let oa = run_import(&mut a, &entries, 1);
    let ob = run_import(&mut b, &entries, 1000);
    assert_eq!(oa, ob);
    assert_eq!(a.places.len(), b.places.len());
    assert_eq!(a.visits.len(), b.visits.len());
    assert_eq!(a.places[0].visit_count, b.places[0].visit_count);
}
