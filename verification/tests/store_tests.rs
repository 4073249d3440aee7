use history_import::store::{HistoryStore, VisitOutcome};
use history_import::urlinfo::{parse_url, OriginKind, UrlParts};
use history_import::ImportError;

#[test]
fn origin_resolved_twice_reuses_row() {
    let mut store = HistoryStore::new();
    let parts = parse_url("https://example.com/a").unwrap();
    let id1 = store.find_or_insert_origin(&parts.origin).unwrap();
    let parts2 = parse_url("https://example.com/b").unwrap();
    let id2 = store.find_or_insert_origin(&parts2.origin).unwrap();
    assert_eq!(id1, id2);
    assert_eq!(store.origins.len(), 1);
    assert_eq!(store.origins[0].prefix, "https://");
    assert_eq!(store.origins[0].host, "example.com");
    assert_eq!(store.origins[0].frecency, 0);
    assert!(store.origins[0].recalc_frecency);
}

#[test]
fn default_port_resolves_to_same_origin() {
    let mut store = HistoryStore::new();
    let plain = parse_url("https://host/").unwrap();
    let with_port = parse_url("https://host:443/").unwrap();
    let id1 = store.find_or_insert_origin(&plain.origin).unwrap();
    let id2 = store.find_or_insert_origin(&with_port.origin).unwrap();
    assert_eq!(id1, id2);
    assert_eq!(store.origins.len(), 1);
}

#[test]
fn non_default_port_is_distinct_origin() {
    let mut store = HistoryStore::new();
    let plain = parse_url("https://host/").unwrap();
    let with_port = parse_url("https://host:8443/").unwrap();
    let id1 = store.find_or_insert_origin(&plain.origin).unwrap();
    let id2 = store.find_or_insert_origin(&with_port.origin).unwrap();
    assert_ne!(id1, id2);
    assert_eq!(store.origins.len(), 2);
}

#[test]
fn opaque_origin_is_rejected() {
    let mut store = HistoryStore::new();
    let parts = parse_url("javascript:alert(1)").unwrap();
    assert_eq!(
        store.find_or_insert_origin(&parts.origin),
        Err(ImportError::OpaqueOrigin)
    );
    assert_eq!(store.origins.len(), 0);
}

#[test]
fn place_resolved_twice_reuses_row_without_touching_aggregates() {
    let mut store = HistoryStore::new();
    let parts = parse_url("https://example.com/page").unwrap();
    let id1 = store.find_or_insert_place(&parts, Some("Title")).unwrap();
    let id2 = store.find_or_insert_place(&parts, Some("Other")).unwrap();
    assert_eq!(id1, id2);
    assert_eq!(store.places.len(), 1);
    assert_eq!(store.places[0].visit_count, 0);
    assert_eq!(store.places[0].last_visit_date, None);
    assert_eq!(store.places[0].url, "https://example.com/page");
    assert_eq!(store.places[0].rev_host, "moc.elpmaxe.");
    assert_eq!(store.places[0].title.as_deref(), Some("Title"));
    assert_eq!(store.places[0].guid.chars().count(), 12);
    assert_eq!(
        store.places[0].url_hash,
        history_import::hash::hash("https://example.com/page").unwrap()
    );
}

#[test]
fn trailing_slash_is_a_distinct_place() {
    let mut store = HistoryStore::new();
    let a = parse_url("https://example.com/page").unwrap();
    let b = parse_url("https://example.com/page/").unwrap();
    let id1 = store.find_or_insert_place(&a, None).unwrap();
    let id2 = store.find_or_insert_place(&b, None).unwrap();
    assert_ne!(id1, id2);
    assert_eq!(store.places.len(), 2);
    assert_eq!(store.origins.len(), 1);
}

#[test]
fn place_without_host_is_rejected() {
    let mut store = HistoryStore::new();
    let parts = parse_url("javascript:alert(1)").unwrap();
    assert_eq!(
        store.find_or_insert_place(&parts, None),
        Err(ImportError::MissingHost)
    );
    assert_eq!(store.places.len(), 0);
    assert_eq!(store.origins.len(), 0);
}

#[test]
fn place_with_opaque_origin_is_rejected() {
    let mut store = HistoryStore::new();
    let parts = parse_url("foo://example.com/thing").unwrap();
    assert!(parts.host.is_some());
    assert_eq!(
        store.find_or_insert_place(&parts, None),
        Err(ImportError::OpaqueOrigin)
    );
    assert_eq!(store.places.len(), 0);
}

#[test]
fn place_without_protocol_separator_is_rejected() {
    let mut store = HistoryStore::new();
    let parts = UrlParts {
        spelling: String::from("no-separator-at-all"),
        host: Some(String::from("example.com")),
        origin: OriginKind::Tuple {
            scheme: String::from("https"),
            host: String::from("example.com"),
            port: 443,
        },
    };
    assert_eq!(
        store.find_or_insert_place(&parts, None),
        Err(ImportError::MissingProtocol)
    );
    assert_eq!(store.places.len(), 0);
}

#[test]
fn two_distinct_timestamps_bump_count_twice() {
    let mut store = HistoryStore::new();
    let parts = parse_url("https://example.com/page").unwrap();
    let pid = store.find_or_insert_place(&parts, None).unwrap();
    assert_eq!(store.record_visit(pid, 100), VisitOutcome::Recorded);
    assert_eq!(store.record_visit(pid, 50), VisitOutcome::Recorded);
    assert_eq!(store.visits.len(), 2);
    assert_eq!(store.places[0].visit_count, 2);
    assert_eq!(store.places[0].last_visit_date, Some(100));
    assert_eq!(store.visits[0].visit_date, 100);
    assert_eq!(store.visits[1].visit_date, 50);
    assert_eq!(store.visits[0].place_id, pid);
    assert_eq!(store.visits[0].visit_type, 1);
    assert_eq!(store.visits[0].from_visit, 0);
    assert_eq!(store.visits[0].session, 0);
    assert_eq!(store.visits[0].source, 0);
    assert_eq!(store.visits[0].triggering_place_id, None);
}

#[test]
fn identical_timestamp_recorded_once() {
    let mut store = HistoryStore::new();
    let parts = parse_url("https://example.com/page").unwrap();
    let pid = store.find_or_insert_place(&parts, None).unwrap();
    assert_eq!(store.record_visit(pid, 777), VisitOutcome::Recorded);
    assert_eq!(store.record_visit(pid, 777), VisitOutcome::AlreadyExists);
    assert_eq!(store.visits.len(), 1);
    assert_eq!(store.places[0].visit_count, 1);
    assert_eq!(store.places[0].last_visit_date, Some(777));
}

#[test]
fn duplicate_timestamp_across_places_is_skipped() {
    // The deduplication key is the timestamp alone, not (place, timestamp):
    // a second place visited at the same microsecond is dropped.
    let mut store = HistoryStore::new();
    let a = parse_url("https://example.com/a").unwrap();
    let b = parse_url("https://example.com/b").unwrap();
    let pa = store.find_or_insert_place(&a, None).unwrap();
    let pb = store.find_or_insert_place(&b, None).unwrap();
    assert_eq!(store.record_visit(pa, 42), VisitOutcome::Recorded);
    assert_eq!(store.record_visit(pb, 42), VisitOutcome::AlreadyExists);
    assert_eq!(store.visits.len(), 1);
    assert_eq!(store.places[0].visit_count, 1);
    assert_eq!(store.places[1].visit_count, 0);
}

#[test]
fn insert_visit_skips_duplicate_before_resolving() {
    let mut store = HistoryStore::new();
    let a = parse_url("https://example.com/a").unwrap();
    assert_eq!(store.insert_visit(&a, None, 9), Ok(VisitOutcome::Recorded));
    // Same timestamp with a new URL: skipped before any place is created.
    let b = parse_url("https://example.com/b").unwrap();
    assert_eq!(store.insert_visit(&b, None, 9), Ok(VisitOutcome::AlreadyExists));
    assert_eq!(store.places.len(), 1);
    assert_eq!(store.visits.len(), 1);
}

#[test]
fn duplicate_preserves_whole_store() {
    let mut store = HistoryStore::new();
    let a = parse_url("https://example.com/a").unwrap();
    store.insert_visit(&a, Some("t"), 1).unwrap();
    let copy = store.duplicate();
    assert_eq!(copy.origins.len(), store.origins.len());
    assert_eq!(copy.places.len(), store.places.len());
    assert_eq!(copy.visits.len(), store.visits.len());
    assert_eq!(copy.places[0].url, store.places[0].url);
    assert_eq!(copy.places[0].guid, store.places[0].guid);
    assert_eq!(copy.next_origin_id, store.next_origin_id);
    assert_eq!(copy.next_place_id, store.next_place_id);
}
