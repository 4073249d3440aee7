//! The mathematical model of the destination history store and of the
//! engine's transitions over it.
//!
//! A `StoreModel` holds the origin, place and visit rows as plain ghost
//! values. The spec functions here say exactly what origin resolution,
//! place resolution, visit recording and whole-entry processing do to the
//! model; the executable store proves its methods against them.

use vstd::prelude::*;
use vstd::utf8::encode_utf8;

use crate::hash::{has_colon, spec_hash};
use crate::urlinfo::{spec_origin_key, spec_reverse_host, OriginKindSpec, UrlPartsSpec};
use crate::ImportError;

verus! {

/// One origin row: the `(prefix, host)` identity, the frecency bookkeeping
/// columns, and the destination-assigned id.
#[verifier::ext_equal]
pub struct OriginModel {
    pub id: u32,
    pub prefix: Seq<char>,
    pub host: Seq<char>,
    pub frecency: i64,
    pub recalc_frecency: bool,
    pub alt_frecency: Option<i64>,
    pub recalc_alt_frecency: bool,
}

/// One place row: the exact URL identity, its columns and aggregates.
/// The GUID is not part of the model: it is drawn from a random source,
/// and no rule of the engine depends on its value.
#[verifier::ext_equal]
pub struct PlaceModel {
    pub id: u32,
    pub url: Seq<char>,
    pub title: Option<Seq<char>>,
    pub rev_host: Seq<char>,
    pub visit_count: u64,
    pub last_visit_date: Option<u64>,
    pub url_hash: u64,
    pub origin_id: u32,
    pub recalc_frecency: bool,
    pub alt_frecency: i64,
    pub recalc_alt_frecency: bool,
}

/// One visit row: a place reference, the timestamp, and the fixed
/// type/session/source markers.
#[verifier::ext_equal]
pub struct VisitModel {
    pub place_id: u32,
    pub visit_date: u64,
    pub from_visit: u32,
    pub visit_type: u32,
    pub session: u32,
    pub source: u32,
    pub triggering_place_id: Option<u32>,
}

/// The whole store: the three tables and the next ids the store will
/// assign to new origin and place rows.
#[verifier::ext_equal]
pub struct StoreModel {
    pub origins: Seq<OriginModel>,
    pub places: Seq<PlaceModel>,
    pub visits: Seq<VisitModel>,
    pub next_origin_id: u32,
    pub next_place_id: u32,
}

/// One source entry as the driver hands it to the engine: the parsed URL,
/// the already-derived display title, and the visit timestamp.
#[verifier::ext_equal]
pub struct EntryModel {
    pub url: UrlPartsSpec,
    pub title: Option<Seq<char>>,
    pub time: u64,
}

/// Whether an origin row carries exactly this `(prefix, host)` key.
pub open spec fn origin_key_matches(o: OriginModel, prefix: Seq<char>, host: Seq<char>) -> bool {
    o.prefix == prefix && o.host == host
}

/// Whether the store holds an origin row with this key.
pub open spec fn has_origin_key(m: StoreModel, prefix: Seq<char>, host: Seq<char>) -> bool {
    exists|i: int|
        0 <= i < m.origins.len() && origin_key_matches(#[trigger] m.origins[i], prefix, host)
}

/// The index of the origin row with this key (unique in a well-formed
/// store).
pub open spec fn origin_index(m: StoreModel, prefix: Seq<char>, host: Seq<char>) -> int {
    choose|i: int|
        0 <= i < m.origins.len() && origin_key_matches(#[trigger] m.origins[i], prefix, host)
}

/// Whether the store holds an origin row with this id.
pub open spec fn has_origin_id(m: StoreModel, id: u32) -> bool {
    exists|i: int| 0 <= i < m.origins.len() && (#[trigger] m.origins[i]).id == id
}

/// Whether the store holds a place row with exactly this URL.
pub open spec fn has_place_url(m: StoreModel, url: Seq<char>) -> bool {
    exists|i: int| 0 <= i < m.places.len() && (#[trigger] m.places[i]).url == url
}

/// The index of the place row with this URL (unique in a well-formed
/// store).
pub open spec fn place_index(m: StoreModel, url: Seq<char>) -> int {
    choose|i: int| 0 <= i < m.places.len() && (#[trigger] m.places[i]).url == url
}

/// Whether the store holds a place row with this id.
pub open spec fn has_place_id(m: StoreModel, id: u32) -> bool {
    exists|i: int| 0 <= i < m.places.len() && (#[trigger] m.places[i]).id == id
}

/// The index of the place row with this id (unique in a well-formed
/// store).
pub open spec fn place_index_by_id(m: StoreModel, id: u32) -> int {
    choose|i: int| 0 <= i < m.places.len() && (#[trigger] m.places[i]).id == id
}

/// Whether any visit row carries exactly this timestamp. This is the
/// engine's whole deduplication key: it is deliberately not scoped to a
/// place.
pub open spec fn has_visit_at(m: StoreModel, t: u64) -> bool {
    exists|i: int| 0 <= i < m.visits.len() && (#[trigger] m.visits[i]).visit_date == t
}

impl StoreModel {
    /// Origin rows have pairwise distinct `(prefix, host)` keys and
    /// pairwise distinct ids, all below the next id to assign.
    pub open spec fn origins_wf(self) -> bool {
        &&& forall|i: int, j: int|
            0 <= i < j < self.origins.len() ==> !origin_key_matches(
                #[trigger] self.origins[i],
                (#[trigger] self.origins[j]).prefix,
                self.origins[j].host,
            )
        &&& forall|i: int, j: int|
            0 <= i < j < self.origins.len() ==> (#[trigger] self.origins[i]).id != (
            #[trigger] self.origins[j]).id
        &&& forall|i: int|
            0 <= i < self.origins.len() ==> (#[trigger] self.origins[i]).id
                < self.next_origin_id
    }

    /// Place rows have pairwise distinct URLs and ids, ids below the next
    /// id to assign, each references an existing origin, and no visit
    /// count exceeds the total number of visit rows.
    pub open spec fn places_wf(self) -> bool {
        &&& forall|i: int, j: int|
            0 <= i < j < self.places.len() ==> (#[trigger] self.places[i]).url != (
            #[trigger] self.places[j]).url
        &&& forall|i: int, j: int|
            0 <= i < j < self.places.len() ==> (#[trigger] self.places[i]).id != (
            #[trigger] self.places[j]).id
        &&& forall|i: int|
            0 <= i < self.places.len() ==> (#[trigger] self.places[i]).id < self.next_place_id
        &&& forall|i: int|
            0 <= i < self.places.len() ==> has_origin_id(self, (#[trigger] self.places[i]).origin_id)
        &&& forall|i: int|
            0 <= i < self.places.len() ==> (#[trigger] self.places[i]).visit_count
                <= self.visits.len()
    }

    /// Every visit row references an existing place.
    pub open spec fn visits_wf(self) -> bool {
        forall|i: int|
            0 <= i < self.visits.len() ==> has_place_id(self, (#[trigger] self.visits[i]).place_id)
    }

    /// Well-formedness of the whole store.
    pub open spec fn wf(self) -> bool {
        self.origins_wf() && self.places_wf() && self.visits_wf()
    }

    /// Room for `n` more entries: id counters and the visit table can
    /// absorb one new row per entry without exceeding machine limits.
    pub open spec fn headroom(self, n: int) -> bool {
        &&& self.next_origin_id + n <= u32::MAX
        &&& self.next_place_id + n <= u32::MAX
        &&& self.visits.len() + n <= usize::MAX
    }
}

/// A fresh origin row: frecency zero and marked for recalculation.
pub open spec fn new_origin_model(id: u32, prefix: Seq<char>, host: Seq<char>) -> OriginModel {
    OriginModel {
        id,
        prefix,
        host,
        frecency: 0,
        recalc_frecency: true,
        alt_frecency: None,
        recalc_alt_frecency: true,
    }
}

/// Find-or-create of an origin row by its key: reuse the existing row's
/// id, or append a fresh row under the next origin id.
pub open spec fn resolve_origin_model(m: StoreModel, prefix: Seq<char>, host: Seq<char>) -> (
    StoreModel,
    u32,
) {
    if has_origin_key(m, prefix, host) {
        (m, m.origins[origin_index(m, prefix, host)].id)
    } else {
        (
            StoreModel {
                origins: m.origins.push(new_origin_model(m.next_origin_id, prefix, host)),
                next_origin_id: (m.next_origin_id + 1) as u32,
                ..m
            },
            m.next_origin_id,
        )
    }
}

/// The failure a URL forces regardless of store state, if any: no host for
/// the reversed-host column, no `:` for the hash, or an opaque origin.
/// The order mirrors the engine: the host is consulted first, then the
/// hash, then the origin.
pub open spec fn intrinsic_fail(u: UrlPartsSpec) -> Option<ImportError> {
    if u.host is None {
        Some(ImportError::MissingHost)
    } else if !has_colon(encode_utf8(u.spelling)) {
        Some(ImportError::MissingProtocol)
    } else if u.origin is Opaque {
        Some(ImportError::OpaqueOrigin)
    } else {
        None
    }
}

/// A fresh place row for a URL: zero visits, no last visit date, the
/// reversed host, the URL hash, and the frecency recalculation flags.
pub open spec fn new_place_model(
    id: u32,
    u: UrlPartsSpec,
    title: Option<Seq<char>>,
    origin_id: u32,
) -> PlaceModel {
    PlaceModel {
        id,
        url: u.spelling,
        title,
        rev_host: spec_reverse_host(u.host.unwrap()),
        visit_count: 0,
        last_visit_date: None,
        url_hash: spec_hash(encode_utf8(u.spelling)),
        origin_id,
        recalc_frecency: true,
        alt_frecency: 0,
        recalc_alt_frecency: true,
    }
}

/// Find-or-create of a place row by exact URL: reuse the existing row's id
/// without touching its aggregates, or fail on a URL that cannot make a
/// row, or resolve the origin and append a fresh place row.
pub open spec fn resolve_place_model(
    m: StoreModel,
    u: UrlPartsSpec,
    title: Option<Seq<char>>,
) -> Result<(StoreModel, u32), ImportError> {
    if has_place_url(m, u.spelling) {
        Ok((m, m.places[place_index(m, u.spelling)].id))
    } else if intrinsic_fail(u) is Some {
        Err(intrinsic_fail(u).unwrap())
    } else {
        match u.origin {
            OriginKindSpec::Opaque => Err(ImportError::OpaqueOrigin),
            OriginKindSpec::Tuple { scheme, host, port } => {
                let key = spec_origin_key(scheme, host, port);
                let (m1, oid) = resolve_origin_model(m, key.0, key.1);
                Ok(
                    (
                        StoreModel {
                            places: m1.places.push(
                                new_place_model(m1.next_place_id, u, title, oid),
                            ),
                            next_place_id: (m1.next_place_id + 1) as u32,
                            ..m1
                        },
                        m1.next_place_id,
                    ),
                )
            },
        }
    }
}

/// A visit row with the fixed default markers: visit type one, session
/// zero, source zero, no referrer and no triggering place.
pub open spec fn visit_defaults(place_id: u32, t: u64) -> VisitModel {
    VisitModel {
        place_id,
        visit_date: t,
        from_visit: 0,
        visit_type: 1,
        session: 0,
        source: 0,
        triggering_place_id: None,
    }
}

/// The larger of a place's last visit date (or zero) and a new timestamp.
pub open spec fn spec_max_visit(lvd: Option<u64>, t: u64) -> u64 {
    let base = match lvd {
        Some(d) => d,
        None => 0u64,
    };
    if base >= t {
        base
    } else {
        t
    }
}

/// A place row after one more visit at `t`: the count is one higher, the
/// last visit date is the maximum of the old date (or zero) and `t`, and
/// the row is marked for frecency recalculation.
pub open spec fn bump_place(p: PlaceModel, t: u64) -> PlaceModel {
    PlaceModel {
        visit_count: (p.visit_count + 1) as u64,
        last_visit_date: Some(spec_max_visit(p.last_visit_date, t)),
        recalc_frecency: true,
        ..p
    }
}

/// Recording one visit: if any visit row already carries the timestamp,
/// nothing changes; otherwise the place's aggregates are bumped and a
/// visit row with the default markers is appended.
pub open spec fn record_visit_model(m: StoreModel, place_id: u32, t: u64) -> StoreModel {
    if has_visit_at(m, t) {
        m
    } else {
        let i = place_index_by_id(m, place_id);
        StoreModel {
            places: m.places.update(i, bump_place(m.places[i], t)),
            visits: m.visits.push(visit_defaults(place_id, t)),
            ..m
        }
    }
}

/// Processing one entry: a timestamp already present is skipped before
/// anything else; a failing URL leaves the store unchanged; otherwise the
/// place is resolved and the visit recorded.
pub open spec fn apply_entry(m: StoreModel, e: EntryModel) -> StoreModel {
    if has_visit_at(m, e.time) {
        m
    } else {
        match resolve_place_model(m, e.url, e.title) {
            Err(_) => m,
            Ok((m1, pid)) => record_visit_model(m1, pid, e.time),
        }
    }
}

/// Processing a sequence of entries in order.
pub open spec fn apply_entries(m: StoreModel, es: Seq<EntryModel>) -> StoreModel
    decreases es.len(),
{
    if es.len() == 0 {
        m
    } else {
        apply_entry(apply_entries(m, es.drop_last()), es.last())
    }
}

/// Processing entries batch by batch is the same as processing them in
/// one run: entries after a prefix start from the state the prefix left.
/// In particular, the committed state after any whole number of batches
/// is exactly the result of the entries of those batches, whatever
/// happens to a later, uncommitted batch.
pub proof fn lemma_apply_entries_concat(m: StoreModel, a: Seq<EntryModel>, b: Seq<EntryModel>)
    ensures
        apply_entries(m, a + b) == apply_entries(apply_entries(m, a), b),
    decreases b.len(),
{
    if b.len() == 0 {
        assert(a + b =~= a);
    } else {
        lemma_apply_entries_concat(m, a, b.drop_last());
        assert((a + b).drop_last() =~= a + b.drop_last());
        assert((a + b).last() == b.last());
    }
}

/// Origin resolution preserves well-formedness, leaves places and visits
/// alone, answers with the id of a row carrying the key, and changes the
/// store exactly when the key was absent.
pub proof fn lemma_resolve_origin(m: StoreModel, prefix: Seq<char>, host: Seq<char>)
    requires
        m.wf(),
        m.next_origin_id < u32::MAX,
    ensures
        ({
            let (m1, id) = resolve_origin_model(m, prefix, host);
            &&& m1.wf()
            &&& m1.places == m.places
            &&& m1.visits == m.visits
            &&& m1.next_place_id == m.next_place_id
            &&& m.next_origin_id <= m1.next_origin_id <= m.next_origin_id + 1
            &&& has_origin_key(m1, prefix, host)
            &&& has_origin_id(m1, id)
            &&& forall|oid: u32| has_origin_id(m, oid) ==> has_origin_id(m1, oid)
            &&& (has_origin_key(m, prefix, host) ==> m1 == m && id == m.origins[origin_index(
                m,
                prefix,
                host,
            )].id)
            &&& (!has_origin_key(m, prefix, host) ==> m1.origins == m.origins.push(
                new_origin_model(m.next_origin_id, prefix, host),
            ) && id == m.next_origin_id && m1.next_origin_id == m.next_origin_id + 1)
        }),
{
    let (m1, id) = resolve_origin_model(m, prefix, host);
    if has_origin_key(m, prefix, host) {
        let i = origin_index(m, prefix, host);
        assert(0 <= i < m.origins.len() && origin_key_matches(m.origins[i], prefix, host));
        assert(has_origin_id(m, m.origins[i].id));
    } else {
        let n = m.origins.len() as int;
        assert(m1.origins[n] == new_origin_model(m.next_origin_id, prefix, host));
        assert(origin_key_matches(m1.origins[n], prefix, host));
        assert(has_origin_id(m1, id));
        assert forall|oid: u32| has_origin_id(m, oid) implies has_origin_id(m1, oid) by {
            let i = choose|i: int| 0 <= i < m.origins.len() && (#[trigger] m.origins[i]).id == oid;
            assert(m1.origins[i].id == oid);
        }
        assert(m1.origins_wf());
        assert forall|i: int| 0 <= i < m1.places.len() implies has_origin_id(
            m1,
            (#[trigger] m1.places[i]).origin_id,
        ) by {
            assert(has_origin_id(m, m.places[i].origin_id));
        }
        assert forall|i: int| 0 <= i < m1.visits.len() implies has_place_id(
            m1,
            (#[trigger] m1.visits[i]).place_id,
        ) by {
            assert(has_place_id(m, m.visits[i].place_id));
            let j = choose|j: int|
                0 <= j < m.places.len() && (#[trigger] m.places[j]).id == m.visits[i].place_id;
            assert(m1.places[j].id == m.visits[i].place_id);
        }
    }
}

/// Place resolution preserves well-formedness, leaves visits alone, and on
/// success answers with the id of the row carrying the URL; the store
/// gains at most one origin and one place row, and errors change nothing.
pub proof fn lemma_resolve_place(m: StoreModel, u: UrlPartsSpec, title: Option<Seq<char>>)
    requires
        m.wf(),
        m.next_origin_id < u32::MAX,
        m.next_place_id < u32::MAX,
    ensures
        ({
            match resolve_place_model(m, u, title) {
                Ok((m1, pid)) => {
                    &&& m1.wf()
                    &&& m1.visits == m.visits
                    &&& m.next_origin_id <= m1.next_origin_id <= m.next_origin_id + 1
                    &&& m.next_place_id <= m1.next_place_id <= m.next_place_id + 1
                    &&& has_place_id(m1, pid)
                    &&& has_place_url(m1, u.spelling)
                    &&& m1.places[place_index_by_id(m1, pid)].url == u.spelling
                    &&& (has_place_url(m, u.spelling) ==> m1 == m && pid == m.places[place_index(
                        m,
                        u.spelling,
                    )].id)
                    &&& (!has_place_url(m, u.spelling) ==> pid == m.next_place_id
                        && m1.places.len() == m.places.len() + 1)
                },
                Err(_) => true,
            }
        }),
{
    if has_place_url(m, u.spelling) {
        let i = place_index(m, u.spelling);
        assert(0 <= i < m.places.len() && m.places[i].url == u.spelling);
        assert(has_place_id(m, m.places[i].id));
        let j = place_index_by_id(m, m.places[i].id);
        assert(0 <= j < m.places.len() && m.places[j].id == m.places[i].id);
        if i != j {
            assert(false);
        }
    } else if intrinsic_fail(u) is Some {
    } else {
        match u.origin {
            OriginKindSpec::Opaque => {},
            OriginKindSpec::Tuple { scheme, host, port } => {
                let key = spec_origin_key(scheme, host, port);
                lemma_resolve_origin(m, key.0, key.1);
                let (mo, oid) = resolve_origin_model(m, key.0, key.1);
                let r = resolve_place_model(m, u, title);
                let (m1, pid) = r.unwrap();
                let n = mo.places.len() as int;
                let newp = new_place_model(mo.next_place_id, u, title, oid);
                assert(m1.places[n] == newp);
                assert(has_place_url(m1, u.spelling));
                assert(has_place_id(m1, pid));
                // Well-formedness of the grown place table.
                assert forall|i: int, j: int| 0 <= i < j < m1.places.len() implies (
                #[trigger] m1.places[i]).url != (#[trigger] m1.places[j]).url by {
                    if j == n {
                        assert(!has_place_url(m, m.places[i].url) ==> false);
                    }
                }
                assert forall|i: int| 0 <= i < m1.places.len() implies has_origin_id(
                    m1,
                    (#[trigger] m1.places[i]).origin_id,
                ) by {
                    if i < n {
                        assert(has_origin_id(mo, mo.places[i].origin_id));
                    } else {
                        assert(has_origin_id(mo, oid));
                    }
                }
                assert forall|i: int| 0 <= i < m1.visits.len() implies has_place_id(
                    m1,
                    (#[trigger] m1.visits[i]).place_id,
                ) by {
                    assert(has_place_id(mo, mo.visits[i].place_id));
                    let j = choose|j: int|
                        0 <= j < mo.places.len() && (#[trigger] mo.places[j]).id == mo.visits[i].place_id;
                    assert(m1.places[j].id == mo.visits[i].place_id);
                }
                assert(m1.wf());
                // The new id is unique, so looking it up finds the new row.
                let k = place_index_by_id(m1, pid);
                assert(0 <= k < m1.places.len() && m1.places[k].id == pid);
                if k != n {
                    assert(m1.places[k].id < m.next_place_id);
                    assert(false);
                }
            },
        }
    }
}

/// Visit recording preserves well-formedness; it appends exactly one visit
/// row and bumps the referenced place when the timestamp is fresh, and
/// changes nothing otherwise.
pub proof fn lemma_record_visit(m: StoreModel, pid: u32, t: u64)
    requires
        m.wf(),
        has_place_id(m, pid),
        m.visits.len() < usize::MAX,
    ensures
        ({
            let m1 = record_visit_model(m, pid, t);
            &&& m1.wf()
            &&& m1.origins == m.origins
            &&& m1.next_origin_id == m.next_origin_id
            &&& m1.next_place_id == m.next_place_id
            &&& m.visits.len() <= m1.visits.len() <= m.visits.len() + 1
            &&& has_visit_at(m1, t)
            &&& (has_visit_at(m, t) ==> m1 == m)
            &&& (!has_visit_at(m, t) ==> m1.visits == m.visits.push(visit_defaults(pid, t))
                && m1.places.len() == m.places.len())
        }),
{
    let m1 = record_visit_model(m, pid, t);
    if !has_visit_at(m, t) {
        let i = place_index_by_id(m, pid);
        assert(0 <= i < m.places.len() && m.places[i].id == pid);
        let nv = m.visits.len() as int;
        assert(m1.visits[nv] == visit_defaults(pid, t));
        assert(has_visit_at(m1, t));
        assert(forall|k: int|
            0 <= k < m1.places.len() ==> (#[trigger] m1.places[k]).url == m.places[k].url
                && m1.places[k].id == m.places[k].id && m1.places[k].origin_id
                == m.places[k].origin_id);
        assert forall|k: int| 0 <= k < m1.places.len() implies has_origin_id(
            m1,
            (#[trigger] m1.places[k]).origin_id,
        ) by {
            assert(has_origin_id(m, m.places[k].origin_id));
        }
        assert forall|k: int| 0 <= k < m1.places.len() implies (#[trigger] m1.places[k]).visit_count
            <= m1.visits.len() by {
            assert(m.places[k].visit_count <= m.visits.len());
        }
        assert forall|k: int| 0 <= k < m1.visits.len() implies has_place_id(
            m1,
            (#[trigger] m1.visits[k]).place_id,
        ) by {
            if k < nv {
                assert(has_place_id(m, m.visits[k].place_id));
                let j = choose|j: int|
                    0 <= j < m.places.len() && (#[trigger] m.places[j]).id == m.visits[k].place_id;
                assert(m1.places[j].id == m.visits[k].place_id);
            } else {
                assert(m1.places[i].id == pid);
            }
        }
        assert(m1.wf());
    }
}

/// Processing one entry preserves well-formedness and grows each id
/// counter and the visit table by at most one row.
pub proof fn lemma_apply_entry(m: StoreModel, e: EntryModel)
    requires
        m.wf(),
        m.next_origin_id < u32::MAX,
        m.next_place_id < u32::MAX,
        m.visits.len() < usize::MAX,
    ensures
        ({
            let m1 = apply_entry(m, e);
            &&& m1.wf()
            &&& m.next_origin_id <= m1.next_origin_id <= m.next_origin_id + 1
            &&& m.next_place_id <= m1.next_place_id <= m.next_place_id + 1
            &&& m.visits.len() <= m1.visits.len() <= m.visits.len() + 1
        }),
{
    if !has_visit_at(m, e.time) {
        lemma_resolve_place(m, e.url, e.title);
        match resolve_place_model(m, e.url, e.title) {
            Err(_) => {},
            Ok((m1, pid)) => {
                lemma_record_visit(m1, pid, e.time);
            },
        }
    }
}

/// Processing a sequence of entries preserves well-formedness when the
/// store has headroom for them all, and consumes one unit of headroom per
/// entry.
pub proof fn lemma_apply_entries(m: StoreModel, es: Seq<EntryModel>)
    requires
        m.wf(),
        m.headroom(es.len() as int),
    ensures
        ({
            let m1 = apply_entries(m, es);
            &&& m1.wf()
            &&& m.next_origin_id <= m1.next_origin_id <= m.next_origin_id + es.len()
            &&& m.next_place_id <= m1.next_place_id <= m.next_place_id + es.len()
            &&& m.visits.len() <= m1.visits.len() <= m.visits.len() + es.len()
        }),
    decreases es.len(),
{
    if es.len() > 0 {
        lemma_apply_entries(m, es.drop_last());
        lemma_apply_entry(apply_entries(m, es.drop_last()), es.last());
    }
}

} // verus!
