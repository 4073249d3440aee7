//! The engine's cross-call laws, proved over the store model.
//!
//! Each public proof function here states one guarantee of the engine that
//! spans more than one call: resolving the same origin or place twice,
//! recording pairs of visits, and re-running a whole import.

use vstd::prelude::*;

use crate::model::{
    apply_entries, apply_entry, bump_place, has_origin_key, has_place_id, has_place_url,
    has_visit_at, intrinsic_fail, origin_index, origin_key_matches, place_index,
    place_index_by_id, record_visit_model, resolve_origin_model, resolve_place_model,
    spec_max_visit, EntryModel, StoreModel,
};
use crate::urlinfo::UrlPartsSpec;

verus! {

/// Resolving the same `(prefix, host)` key twice returns the same origin
/// id and creates no second row: the store after the second resolution is
/// the store after the first, which holds at most one new row.
pub proof fn lemma_origin_resolution_idempotent(m: StoreModel, prefix: Seq<char>, host: Seq<char>)
    requires
        m.wf(),
    ensures
        ({
            let (m1, id1) = resolve_origin_model(m, prefix, host);
            let (m2, id2) = resolve_origin_model(m1, prefix, host);
            &&& m2 == m1
            &&& id2 == id1
            &&& m.origins.len() <= m1.origins.len() <= m.origins.len() + 1
        }),
{
    let (m1, id1) = resolve_origin_model(m, prefix, host);
    if !has_origin_key(m, prefix, host) {
        let n = m.origins.len() as int;
        assert(origin_key_matches(m1.origins[n], prefix, host));
        assert(has_origin_key(m1, prefix, host));
        let k = origin_index(m1, prefix, host);
        assert(0 <= k < m1.origins.len() && origin_key_matches(m1.origins[k], prefix, host));
        if k < n {
            assert(origin_key_matches(m.origins[k], prefix, host));
            assert(false);
        }
        assert(m1.origins[k].id == id1);
    }
}

/// Resolving the same exact URL twice returns the same place id and leaves
/// the store exactly as the first resolution left it: in particular no
/// visit aggregate moves, and two URLs are the same place only when their
/// spellings match byte for byte.
pub proof fn lemma_place_resolution_idempotent(
    m: StoreModel,
    u: UrlPartsSpec,
    title: Option<Seq<char>>,
)
    requires
        m.wf(),
    ensures
        ({
            match resolve_place_model(m, u, title) {
                Ok((m1, id1)) => match resolve_place_model(m1, u, title) {
                    Ok((m2, id2)) => m2 == m1 && id2 == id1 && m.places.len() <= m1.places.len()
                        <= m.places.len() + 1,
                    Err(_) => false,
                },
                Err(_) => true,
            }
        }),
{
    match resolve_place_model(m, u, title) {
        Err(_) => {},
        Ok((m1, id1)) => {
            if has_place_url(m, u.spelling) {
                let i = place_index(m, u.spelling);
                assert(0 <= i < m.places.len() && m.places[i].url == u.spelling);
            } else {
                match u.origin {
                    crate::urlinfo::OriginKindSpec::Opaque => {},
                    crate::urlinfo::OriginKindSpec::Tuple { scheme, host, port } => {
                        let n = m.places.len() as int;
                        assert(m1.places[n].url == u.spelling);
                        assert(has_place_url(m1, u.spelling));
                        let k = place_index(m1, u.spelling);
                        assert(0 <= k < m1.places.len() && m1.places[k].url == u.spelling);
                        if k < n {
                            assert(m.places[k].url == u.spelling);
                            assert(false);
                        }
                        assert(m1.places[k].id == id1);
                    },
                }
            }
        },
    }
}

/// Recording two visits with distinct fresh timestamps for the same place
/// adds two visit rows, raises the place's visit count by two, and leaves
/// its last visit date at the maximum of the old date (or zero) and both
/// timestamps.
pub proof fn lemma_two_distinct_visits(m: StoreModel, pid: u32, t1: u64, t2: u64)
    requires
        m.wf(),
        has_place_id(m, pid),
        t1 != t2,
        !has_visit_at(m, t1),
        !has_visit_at(m, t2),
        m.visits.len() + 2 <= u64::MAX,
    ensures
        ({
            let m1 = record_visit_model(m, pid, t1);
            let m2 = record_visit_model(m1, pid, t2);
            let p0 = m.places[place_index_by_id(m, pid)];
            let p2 = m2.places[place_index_by_id(m2, pid)];
            &&& m2.visits.len() == m.visits.len() + 2
            &&& p2.visit_count == p0.visit_count + 2
            &&& p2.last_visit_date == Some(
                spec_max_visit(Some(spec_max_visit(p0.last_visit_date, t1)), t2),
            )
        }),
{
    let m1 = record_visit_model(m, pid, t1);
    let i = place_index_by_id(m, pid);
    assert(0 <= i < m.places.len() && m.places[i].id == pid);
    assert(m.places[i].visit_count <= m.visits.len());
    assert(!has_visit_at(m1, t2)) by {
        if has_visit_at(m1, t2) {
            let j = choose|j: int|
                0 <= j < m1.visits.len() && (#[trigger] m1.visits[j]).visit_date == t2;
            if j < m.visits.len() {
                assert(m.visits[j].visit_date == t2);
            }
            assert(false);
        }
    }
    // The place keeps its id under the bump, so the second lookup finds
    // the same index.
    assert(m1.places[i].id == pid);
    assert(has_place_id(m1, pid));
    let k = place_index_by_id(m1, pid);
    assert(0 <= k < m1.places.len() && m1.places[k].id == pid);
    if k != i {
        assert(m.places[k].id == pid);
        assert(false);
    }
    let m2 = record_visit_model(m1, pid, t2);
    assert(m2.places[i].id == pid);
    assert(has_place_id(m2, pid));
    let k2 = place_index_by_id(m2, pid);
    assert(0 <= k2 < m2.places.len() && m2.places[k2].id == pid);
    if k2 != i {
        assert(m.places[k2].id == pid);
        assert(false);
    }
    assert(m2.places[i] == bump_place(bump_place(m.places[i], t1), t2));
}

/// Recording two visits with the identical timestamp leaves exactly one
/// visit row: the first recording wins, and the second changes nothing at
/// all, whichever place it names.
pub proof fn lemma_duplicate_visit_skipped(m: StoreModel, pid: u32, pid2: u32, t: u64)
    requires
        m.wf(),
        has_place_id(m, pid),
        !has_visit_at(m, t),
        m.visits.len() + 1 <= u64::MAX,
    ensures
        ({
            let m1 = record_visit_model(m, pid, t);
            let m2 = record_visit_model(m1, pid2, t);
            &&& m2 == m1
            &&& m1.visits.len() == m.visits.len() + 1
            &&& m1.places[place_index_by_id(m1, pid)].visit_count == m.places[place_index_by_id(
                m,
                pid,
            )].visit_count + 1
        }),
{
    let m1 = record_visit_model(m, pid, t);
    let i = place_index_by_id(m, pid);
    assert(0 <= i < m.places.len() && m.places[i].id == pid);
    assert(m.places[i].visit_count <= m.visits.len());
    let n = m.visits.len() as int;
    assert(m1.visits[n].visit_date == t);
    assert(has_visit_at(m1, t));
    assert(m1.places[i].id == pid);
    assert(has_place_id(m1, pid));
    let k = place_index_by_id(m1, pid);
    assert(0 <= k < m1.places.len() && m1.places[k].id == pid);
    if k != i {
        assert(m.places[k].id == pid);
        assert(false);
    }
}

/// Entries whose equal URL spellings always carry equal parsed parts: true
/// of any sequence whose URL parts all come from the same parser.
pub open spec fn url_consistent(es: Seq<EntryModel>) -> bool {
    forall|i: int, j: int|
        0 <= i < es.len() && 0 <= j < es.len() && (#[trigger] es[i]).url.spelling == (
        #[trigger] es[j]).url.spelling ==> es[i].url == es[j].url
}

/// An entry is settled in a store: its timestamp is already recorded, or
/// its URL can never make a place row and none exists for it.
pub open spec fn entry_settled(m: StoreModel, e: EntryModel) -> bool {
    has_visit_at(m, e.time) || (!has_place_url(m, e.url.spelling) && intrinsic_fail(e.url)
        is Some)
}

/// Shape of one entry's effect: recorded visits persist, a place row
/// appears only for the entry's own URL, and only when that URL has no
/// intrinsic failure.
proof fn lemma_apply_entry_shape(m: StoreModel, f: EntryModel)
    ensures
        ({
            let m1 = apply_entry(m, f);
            &&& (forall|t: u64| has_visit_at(m, t) ==> has_visit_at(m1, t))
            &&& (forall|url: Seq<char>|
                has_place_url(m1, url) ==> has_place_url(m, url) || url == f.url.spelling)
            &&& (!has_place_url(m, f.url.spelling) && intrinsic_fail(f.url) is Some ==> m1 == m)
        }),
{
    let m1 = apply_entry(m, f);
    if !has_visit_at(m, f.time) {
        match resolve_place_model(m, f.url, f.title) {
            Err(_) => {},
            Ok((mr, pid)) => {
                assert forall|t: u64| has_visit_at(m, t) implies has_visit_at(m1, t) by {
                    let j = choose|j: int|
                        0 <= j < m.visits.len() && (#[trigger] m.visits[j]).visit_date == t;
                    assert(mr.visits[j].visit_date == t);
                    assert(m1.visits[j].visit_date == t);
                }
                assert(has_place_id(mr, pid)) by {
                    if has_place_url(m, f.url.spelling) {
                        let pi = place_index(m, f.url.spelling);
                        assert(0 <= pi < m.places.len() && m.places[pi].url == f.url.spelling);
                        assert(mr.places[pi].id == pid);
                    } else {
                        let n = mr.places.len() - 1;
                        assert(mr.places[n].id == pid);
                    }
                }
                let i = place_index_by_id(mr, pid);
                assert(0 <= i < mr.places.len() && mr.places[i].id == pid);
                assert forall|j: int| 0 <= j < m1.places.len() implies (
                #[trigger] m1.places[j]).url == mr.places[j].url by {
                    if !has_visit_at(mr, f.time) && j == i {
                        assert(m1.places[j] == bump_place(mr.places[i], f.time));
                    }
                }
                assert forall|url: Seq<char>| has_place_url(m1, url) implies has_place_url(m, url)
                    || url == f.url.spelling by {
                    let j = choose|j: int|
                        0 <= j < m1.places.len() && (#[trigger] m1.places[j]).url == url;
                    assert(m1.places[j].url == mr.places[j].url);
                    if has_place_url(m, f.url.spelling) {
                        assert(mr == m);
                        assert(m.places[j].url == url);
                    } else {
                        if j < m.places.len() {
                            assert(mr.places[j].url == m.places[j].url);
                        } else {
                            assert(mr.places[j].url == f.url.spelling);
                        }
                    }
                }
            },
        }
    }
}

/// Applying an entry settles it: its timestamp ends up recorded, or its
/// URL fails intrinsically and still has no place row.
proof fn lemma_apply_entry_settles(m: StoreModel, e: EntryModel)
    ensures
        entry_settled(apply_entry(m, e), e),
{
    let m1 = apply_entry(m, e);
    if has_visit_at(m, e.time) {
        lemma_apply_entry_shape(m, e);
    } else {
        match resolve_place_model(m, e.url, e.title) {
            Err(_) => {
                assert(!has_place_url(m, e.url.spelling));
                if intrinsic_fail(e.url) is None {
                    assert(e.url.origin is Tuple);
                    assert(false);
                }
            },
            Ok((mr, pid)) => {
                assert(mr.visits == m.visits);
                assert(!has_visit_at(mr, e.time)) by {
                    if has_visit_at(mr, e.time) {
                        let j = choose|j: int|
                            0 <= j < mr.visits.len() && (#[trigger] mr.visits[j]).visit_date
                                == e.time;
                        assert(m.visits[j].visit_date == e.time);
                        assert(false);
                    }
                }
                let n = mr.visits.len() as int;
                assert(m1.visits[n].visit_date == e.time);
                assert(has_visit_at(m1, e.time));
            },
        }
    }
}

/// A settled entry is a no-op: applying it changes nothing.
proof fn lemma_settled_entry_identity(m: StoreModel, e: EntryModel)
    requires
        entry_settled(m, e),
    ensures
        apply_entry(m, e) == m,
{
}

/// Applying any entry with consistent URL parts keeps a settled entry
/// settled.
proof fn lemma_apply_entry_preserves_settled(m: StoreModel, e: EntryModel, f: EntryModel)
    requires
        entry_settled(m, e),
        e.url.spelling == f.url.spelling ==> e.url == f.url,
    ensures
        entry_settled(apply_entry(m, f), e),
{
    lemma_apply_entry_shape(m, f);
    let m1 = apply_entry(m, f);
    if has_visit_at(m, e.time) {
    } else {
        if has_place_url(m1, e.url.spelling) {
            assert(e.url.spelling == f.url.spelling);
            assert(intrinsic_fail(f.url) is Some);
            assert(!has_place_url(m, f.url.spelling));
            assert(m1 == m);
            assert(false);
        }
    }
}

/// After a whole run, every entry of the run is settled.
proof fn lemma_run_settles_all(m: StoreModel, es: Seq<EntryModel>)
    requires
        url_consistent(es),
    ensures
        forall|i: int| 0 <= i < es.len() ==> entry_settled(apply_entries(m, es), #[trigger] es[i]),
    decreases es.len(),
{
    if es.len() > 0 {
        let prefix = es.drop_last();
        assert(url_consistent(prefix)) by {
            assert(forall|i: int| 0 <= i < prefix.len() ==> prefix[i] == es[i]);
        }
        lemma_run_settles_all(m, prefix);
        let mp = apply_entries(m, prefix);
        lemma_apply_entry_settles(mp, es.last());
        assert forall|i: int| 0 <= i < es.len() implies entry_settled(
            apply_entries(m, es),
            #[trigger] es[i],
        ) by {
            if i < es.len() - 1 {
                assert(entry_settled(mp, prefix[i]));
                assert(es[i].url.spelling == es.last().url.spelling ==> es[i].url
                    == es.last().url);
                lemma_apply_entry_preserves_settled(mp, es[i], es.last());
            }
        }
    }
}

/// Applying settled entries changes nothing.
proof fn lemma_settled_entries_identity(m: StoreModel, es: Seq<EntryModel>)
    requires
        forall|i: int| 0 <= i < es.len() ==> entry_settled(m, #[trigger] es[i]),
    ensures
        apply_entries(m, es) == m,
    decreases es.len(),
{
    if es.len() > 0 {
        lemma_settled_entries_identity(m, es.drop_last());
        lemma_settled_entry_identity(m, es.last());
    }
}

/// Re-running the full import over the same entries changes nothing: every
/// entry is either already recorded or fails the same way again, so no new
/// origin, place or visit row appears. The entries must carry consistent
/// URL parts, as any one parser produces.
pub proof fn lemma_import_idempotent(m: StoreModel, es: Seq<EntryModel>)
    requires
        url_consistent(es),
    ensures
        apply_entries(apply_entries(m, es), es) == apply_entries(m, es),
{
    lemma_run_settles_all(m, es);
    lemma_settled_entries_identity(apply_entries(m, es), es);
}

} // verus!
