//! The executable history store and the engine's resolvers over it.
//!
//! `HistoryStore` holds the origin, place and visit rows as plain values;
//! every method is proved against the transition functions of the model
//! module: `resolve_origin_model`, `resolve_place_model`,
//! `record_visit_model` and `apply_entry`.

use vstd::prelude::*;
use vstd::string::StringExecFns;

use crate::guid::{generate_guid, GUID_LENGTH};
use crate::hash::hash;
use crate::model::{
    apply_entry, has_origin_key, has_place_id, has_place_url, has_visit_at, origin_index,
    origin_key_matches, place_index, place_index_by_id, record_visit_model, resolve_origin_model,
    resolve_place_model, EntryModel, OriginModel, PlaceModel, StoreModel, VisitModel,
};
use crate::urlinfo::{origin_key, reverse_host, OriginKind, UrlParts};
use crate::ImportError;

verus! {

/// One origin row of the destination store.
pub struct OriginRow {
    pub id: u32,
    pub prefix: String,
    pub host: String,
    pub frecency: i64,
    pub recalc_frecency: bool,
    pub alt_frecency: Option<i64>,
    pub recalc_alt_frecency: bool,
}

impl View for OriginRow {
    type V = OriginModel;

    open spec fn view(&self) -> OriginModel {
        OriginModel {
            id: self.id,
            prefix: self.prefix@,
            host: self.host@,
            frecency: self.frecency,
            recalc_frecency: self.recalc_frecency,
            alt_frecency: self.alt_frecency,
            recalc_alt_frecency: self.recalc_alt_frecency,
        }
    }
}

/// One place row of the destination store. The GUID is carried here but is
/// no part of the model: no rule of the engine depends on its value.
pub struct PlaceRow {
    pub id: u32,
    pub url: String,
    pub title: Option<String>,
    pub rev_host: String,
    pub visit_count: u64,
    pub last_visit_date: Option<u64>,
    pub guid: String,
    pub url_hash: u64,
    pub origin_id: u32,
    pub recalc_frecency: bool,
    pub alt_frecency: i64,
    pub recalc_alt_frecency: bool,
}

impl View for PlaceRow {
    type V = PlaceModel;

    open spec fn view(&self) -> PlaceModel {
        PlaceModel {
            id: self.id,
            url: self.url@,
            title: match self.title {
                Some(ref t) => Some(t@),
                None => None,
            },
            rev_host: self.rev_host@,
            visit_count: self.visit_count,
            last_visit_date: self.last_visit_date,
            url_hash: self.url_hash,
            origin_id: self.origin_id,
            recalc_frecency: self.recalc_frecency,
            alt_frecency: self.alt_frecency,
            recalc_alt_frecency: self.recalc_alt_frecency,
        }
    }
}

/// One visit row of the destination store.
pub struct VisitRow {
    pub place_id: u32,
    pub visit_date: u64,
    pub from_visit: u32,
    pub visit_type: u32,
    pub session: u32,
    pub source: u32,
    pub triggering_place_id: Option<u32>,
}

impl View for VisitRow {
    type V = VisitModel;

    open spec fn view(&self) -> VisitModel {
        VisitModel {
            place_id: self.place_id,
            visit_date: self.visit_date,
            from_visit: self.from_visit,
            visit_type: self.visit_type,
            session: self.session,
            source: self.source,
            triggering_place_id: self.triggering_place_id,
        }
    }
}

/// Outcome of recording one visit: a fresh row was inserted, or a visit
/// with the same timestamp already existed and the entry was skipped.
#[derive(Clone, Copy, Debug, PartialEq, Eq, Structural)]
pub enum VisitOutcome {
    Recorded,
    AlreadyExists,
}

/// The destination history store held as plain values: three row tables
/// and the ids the store will assign next.
pub struct HistoryStore {
    pub origins: Vec<OriginRow>,
    pub places: Vec<PlaceRow>,
    pub visits: Vec<VisitRow>,
    pub next_origin_id: u32,
    pub next_place_id: u32,
}

impl View for HistoryStore {
    type V = StoreModel;

    open spec fn view(&self) -> StoreModel {
        StoreModel {
            origins: self.origins@.map_values(|r: OriginRow| r@),
            places: self.places@.map_values(|r: PlaceRow| r@),
            visits: self.visits@.map_values(|r: VisitRow| r@),
            next_origin_id: self.next_origin_id,
            next_place_id: self.next_place_id,
        }
    }
}

/// The ghost view of a title argument.
pub open spec fn title_view(title: Option<&str>) -> Option<Seq<char>> {
    match title {
        Some(t) => Some(t@),
        None => None,
    }
}

impl HistoryStore {
    /// Well-formed store: the model invariants hold and every place row
    /// carries a GUID of the destination's length.
    pub open spec fn wf(self) -> bool {
        &&& self@.wf()
        &&& forall|i: int|
            0 <= i < self.places@.len() ==> (#[trigger] self.places@[i]).guid@.len() == GUID_LENGTH
    }

    /// An empty store, assigning ids from one upward.
    pub fn new() -> (s: Self)
        ensures
            s.wf(),
            s@.origins.len() == 0,
            s@.places.len() == 0,
            s@.visits.len() == 0,
            s@.next_origin_id == 1,
            s@.next_place_id == 1,
    {
        HistoryStore {
            origins: Vec::new(),
            places: Vec::new(),
            visits: Vec::new(),
            next_origin_id: 1,
            next_place_id: 1,
        }
    }

    /// An exact copy of the store, row by row.
    pub fn duplicate(&self) -> (r: Self)
        ensures
            r@ == self@,
            r.wf() == self.wf(),
    {
        let mut origins: Vec<OriginRow> = Vec::new();
        let n_o = self.origins.len();
        for i in 0..n_o
            invariant
                n_o == self.origins@.len(),
                origins@ =~= self.origins@.take(i as int),
        {
            let r = &self.origins[i];
            origins.push(
                OriginRow {
                    id: r.id,
                    prefix: r.prefix.clone(),
                    host: r.host.clone(),
                    frecency: r.frecency,
                    recalc_frecency: r.recalc_frecency,
                    alt_frecency: r.alt_frecency,
                    recalc_alt_frecency: r.recalc_alt_frecency,
                },
            );
            proof {
                assert(origins@ =~= self.origins@.take(i + 1));
            }
        }
        let mut places: Vec<PlaceRow> = Vec::new();
        let n_p = self.places.len();
        for i in 0..n_p
            invariant
                n_p == self.places@.len(),
                places@ =~= self.places@.take(i as int),
        {
            let r = &self.places[i];
            places.push(
                PlaceRow {
                    id: r.id,
                    url: r.url.clone(),
                    title: match &r.title {
                        Some(t) => Some(t.clone()),
                        None => None,
                    },
                    rev_host: r.rev_host.clone(),
                    visit_count: r.visit_count,
                    last_visit_date: r.last_visit_date,
                    guid: r.guid.clone(),
                    url_hash: r.url_hash,
                    origin_id: r.origin_id,
                    recalc_frecency: r.recalc_frecency,
                    alt_frecency: r.alt_frecency,
                    recalc_alt_frecency: r.recalc_alt_frecency,
                },
            );
            proof {
                assert(places@ =~= self.places@.take(i + 1));
            }
        }
        let mut visits: Vec<VisitRow> = Vec::new();
        let n_v = self.visits.len();
        for i in 0..n_v
            invariant
                n_v == self.visits@.len(),
                visits@ =~= self.visits@.take(i as int),
        {
            let r = &self.visits[i];
            visits.push(
                VisitRow {
                    place_id: r.place_id,
                    visit_date: r.visit_date,
                    from_visit: r.from_visit,
                    visit_type: r.visit_type,
                    session: r.session,
                    source: r.source,
                    triggering_place_id: r.triggering_place_id,
                },
            );
            proof {
                assert(visits@ =~= self.visits@.take(i + 1));
            }
        }
        let r = HistoryStore {
            origins,
            places,
            visits,
            next_origin_id: self.next_origin_id,
            next_place_id: self.next_place_id,
        };
        proof {
            assert(r.origins@ =~= self.origins@);
            assert(r.places@ =~= self.places@);
            assert(r.visits@ =~= self.visits@);
            assert(r@ =~= self@);
        }
        r
    }

    /// Looks an origin row up by its exact `(prefix, host)` key.
    fn find_origin(&self, prefix: &String, host: &String) -> (r: Option<u32>)
        requires
            self.wf(),
        ensures
            r is Some <==> has_origin_key(self@, prefix@, host@),
            r matches Some(id) ==> id == self@.origins[origin_index(self@, prefix@, host@)].id,
    {
        let n = self.origins.len();
        for i in 0..n
            invariant
                self.wf(),
                n == self.origins@.len(),
                forall|j: int|
                    0 <= j < i ==> !origin_key_matches(#[trigger] self@.origins[j], prefix@, host@),
        {
            if self.origins[i].prefix.eq(prefix) && self.origins[i].host.eq(host) {
                proof {
                    assert(origin_key_matches(self@.origins[i as int], prefix@, host@));
                    assert(has_origin_key(self@, prefix@, host@));
                    let k = origin_index(self@, prefix@, host@);
                    assert(0 <= k < self@.origins.len() && origin_key_matches(
                        self@.origins[k],
                        prefix@,
                        host@,
                    ));
                    if k != i as int {
                        assert(false);
                    }
                }
                return Some(self.origins[i].id);
            }
        }
        None
    }

    /// Looks a place row up by its exact URL.
    fn find_place(&self, url: &String) -> (r: Option<u32>)
        requires
            self.wf(),
        ensures
            r is Some <==> has_place_url(self@, url@),
            r matches Some(id) ==> id == self@.places[place_index(self@, url@)].id,
    {
        let n = self.places.len();
        for i in 0..n
            invariant
                self.wf(),
                n == self.places@.len(),
                forall|j: int| 0 <= j < i ==> (#[trigger] self@.places[j]).url != url@,
        {
            if self.places[i].url.eq(url) {
                proof {
                    assert(self@.places[i as int].url == url@);
                    assert(has_place_url(self@, url@));
                    let k = place_index(self@, url@);
                    assert(0 <= k < self@.places.len() && self@.places[k].url == url@);
                    if k != i as int {
                        assert(false);
                    }
                }
                return Some(self.places[i].id);
            }
        }
        None
    }

    /// Whether any visit row carries exactly this timestamp.
    fn has_visit(&self, time: u64) -> (r: bool)
        ensures
            r == has_visit_at(self@, time),
    {
        let n = self.visits.len();
        for i in 0..n
            invariant
                n == self.visits@.len(),
                forall|j: int| 0 <= j < i ==> (#[trigger] self@.visits[j]).visit_date != time,
        {
            if self.visits[i].visit_date == time {
                proof {
                    assert(self@.visits[i as int].visit_date == time);
                }
                return true;
            }
        }
        false
    }

    /// Find-or-create of the origin row for a URL's origin: an opaque
    /// origin is rejected; otherwise the existing row's id is returned, or
    /// a fresh row with frecency zero and the recalculation flags set is
    /// inserted under the next origin id.
    pub fn find_or_insert_origin(&mut self, origin: &OriginKind) -> (r: Result<u32, ImportError>)
        requires
            old(self).wf(),
            old(self)@.next_origin_id < u32::MAX,
        ensures
            final(self).wf(),
            origin@ is Opaque ==> r == Err::<u32, ImportError>(ImportError::OpaqueOrigin)
                && final(self)@ == old(self)@,
            origin@ matches crate::urlinfo::OriginKindSpec::Tuple { scheme, host, port } ==> ({
                let key = crate::urlinfo::spec_origin_key(scheme, host, port);
                let (m1, id) = resolve_origin_model(old(self)@, key.0, key.1);
                final(self)@ == m1 && r == Ok::<u32, ImportError>(id)
            }),
    {
        match origin {
            OriginKind::Opaque => Err(ImportError::OpaqueOrigin),
            OriginKind::Tuple { scheme, host, port } => {
                proof {
                    crate::model::lemma_resolve_origin(
                        self@,
                        crate::urlinfo::spec_origin_key(scheme@, host@, *port).0,
                        crate::urlinfo::spec_origin_key(scheme@, host@, *port).1,
                    );
                }
                let key = origin_key(scheme, host, *port);
                match self.find_origin(&key.0, &key.1) {
                    Some(id) => Ok(id),
                    None => {
                        let id = self.next_origin_id;
                        self.origins.push(
                            OriginRow {
                                id,
                                prefix: key.0,
                                host: key.1,
                                frecency: 0,
                                recalc_frecency: true,
                                alt_frecency: None,
                                recalc_alt_frecency: true,
                            },
                        );
                        self.next_origin_id = id + 1;
                        proof {
                            let key0 = crate::urlinfo::spec_origin_key(scheme@, host@, *port);
                            let (m1, mid) = resolve_origin_model(old(self)@, key0.0, key0.1);
                            assert(self@.origins =~= m1.origins);
                            assert(self@ =~= m1);
                        }
                        Ok(id)
                    },
                }
            },
        }
    }

    /// Find-or-create of the place row for a URL: an existing row's id is
    /// returned with its aggregates untouched; otherwise the reversed
    /// host, a fresh GUID, the URL hash and the origin are derived and a
    /// fresh row with zero visits is inserted under the next place id.
    /// Fails exactly as `resolve_place_model` says: no host, then no `:`
    /// in the URL, then an opaque origin.
    pub fn find_or_insert_place(&mut self, parts: &UrlParts, title: Option<&str>) -> (r: Result<
        u32,
        ImportError,
    >)
        requires
            old(self).wf(),
            old(self)@.next_origin_id < u32::MAX,
            old(self)@.next_place_id < u32::MAX,
        ensures
            final(self).wf(),
            match resolve_place_model(old(self)@, parts@, title_view(title)) {
                Ok((m1, pid)) => final(self)@ == m1 && r == Ok::<u32, ImportError>(pid),
                Err(e) => final(self)@ == old(self)@ && r == Err::<u32, ImportError>(e),
            },
    {
        proof {
            crate::model::lemma_resolve_place(self@, parts@, title_view(title));
        }
        if let Some(id) = self.find_place(&parts.spelling) {
            return Ok(id);
        }
        let host = match &parts.host {
            Some(h) => h,
            None => {
                return Err(ImportError::MissingHost);
            },
        };
        let rev = reverse_host(host.as_str());
        let guid = generate_guid();
        let url_hash = match hash(parts.spelling.as_str()) {
            Ok(h) => h,
            Err(e) => {
                return Err(e);
            },
        };
        let origin_id = match self.find_or_insert_origin(&parts.origin) {
            Ok(i) => i,
            Err(e) => {
                return Err(e);
            },
        };
        let id = self.next_place_id;
        let title_string = match title {
            Some(t) => Some(String::from_str(t)),
            None => None,
        };
        self.places.push(
            PlaceRow {
                id,
                url: parts.spelling.clone(),
                title: title_string,
                rev_host: rev,
                visit_count: 0,
                last_visit_date: None,
                guid,
                url_hash,
                origin_id,
                recalc_frecency: true,
                alt_frecency: 0,
                recalc_alt_frecency: true,
            },
        );
        self.next_place_id = id + 1;
        proof {
            let tv = title_view(title);
            let r0 = resolve_place_model(old(self)@, parts@, tv);
            let (m1, pid) = r0.unwrap();
            assert(self@.places =~= m1.places);
            assert(self@ =~= m1);
        }
        Ok(id)
    }

    /// Records one visit for an existing place: a timestamp already seen
    /// anywhere in the visit table is skipped; otherwise the place's
    /// aggregates are bumped (count up one, last visit date to the
    /// maximum, recalculation flag set) and a visit row with the default
    /// markers is inserted.
    pub fn record_visit(&mut self, place_id: u32, time: u64) -> (r: VisitOutcome)
        requires
            old(self).wf(),
            has_place_id(old(self)@, place_id),
            old(self)@.visits.len() < usize::MAX,
        ensures
            final(self).wf(),
            final(self)@ == record_visit_model(old(self)@, place_id, time),
            r == VisitOutcome::AlreadyExists <==> has_visit_at(old(self)@, time),
    {
        proof {
            crate::model::lemma_record_visit(self@, place_id, time);
        }
        if self.has_visit(time) {
            return VisitOutcome::AlreadyExists;
        }
        let n = self.places.len();
        let mut i: usize = 0;
        while i < n && self.places[i].id != place_id
            invariant
                n == self.places@.len(),
                0 <= i <= n,
                forall|j: int| 0 <= j < i ==> (#[trigger] self@.places[j]).id != place_id,
            decreases n - i,
        {
            i = i + 1;
        }
        proof {
            if i == n {
                assert(!has_place_id(self@, place_id));
                assert(false);
            }
            let k = place_index_by_id(self@, place_id);
            assert(0 <= k < self@.places.len() && self@.places[k].id == place_id);
            if k != i as int {
                assert(false);
            }
        }
        let old_lvd = match self.places[i].last_visit_date {
            Some(d) => d,
            None => 0,
        };
        let lvd = if old_lvd >= time {
            old_lvd
        } else {
            time
        };
        let count = self.places[i].visit_count;
        proof {
            assert(self@.places[i as int].visit_count <= self@.visits.len());
        }
        self.places[i].visit_count = count + 1;
        self.places[i].last_visit_date = Some(lvd);
        self.places[i].recalc_frecency = true;
        self.visits.push(
            VisitRow {
                place_id,
                visit_date: time,
                from_visit: 0,
                visit_type: 1,
                session: 0,
                source: 0,
                triggering_place_id: None,
            },
        );
        proof {
            let m1 = record_visit_model(old(self)@, place_id, time);
            assert(self@.places =~= m1.places);
            assert(self@.visits =~= m1.visits);
            assert(self@ =~= m1);
        }
        VisitOutcome::Recorded
    }

    /// Processes one entry against the store: a duplicate timestamp is
    /// skipped before anything else; otherwise the place is resolved (or
    /// the entry fails and the store is left unchanged) and the visit is
    /// recorded. This is exactly `apply_entry` on the model.
    pub fn insert_visit(&mut self, parts: &UrlParts, title: Option<&str>, time: u64) -> (r: Result<
        VisitOutcome,
        ImportError,
    >)
        requires
            old(self).wf(),
            old(self)@.next_origin_id < u32::MAX,
            old(self)@.next_place_id < u32::MAX,
            old(self)@.visits.len() < usize::MAX,
        ensures
            final(self).wf(),
            final(self)@ == apply_entry(
                old(self)@,
                EntryModel { url: parts@, title: title_view(title), time },
            ),
            r == Ok::<VisitOutcome, ImportError>(VisitOutcome::AlreadyExists) <==> has_visit_at(
                old(self)@,
                time,
            ),
            r is Err <==> (!has_visit_at(old(self)@, time) && resolve_place_model(
                old(self)@,
                parts@,
                title_view(title),
            ) is Err),
            r matches Err(e) ==> resolve_place_model(old(self)@, parts@, title_view(title))
                == Err::<(StoreModel, u32), ImportError>(e),
    {
        if self.has_visit(time) {
            return Ok(VisitOutcome::AlreadyExists);
        }
        proof {
            crate::model::lemma_resolve_place(self@, parts@, title_view(title));
        }
        let pid = match self.find_or_insert_place(parts, title) {
            Ok(p) => p,
            Err(e) => {
                return Err(e);
            },
        };
        let out = self.record_visit(pid, time);
        proof {
            assert(out == VisitOutcome::Recorded);
        }
        Ok(out)
    }
}

} // verus!
