//! A store of tours that remembers when each tour last changed, so that its
//! answers carry `Last-Modified` and `ETag` validators. Deleting a tour keeps
//! its slot (and the time of the deletion); the tour itself is gone.

use vstd::prelude::*;
use vstd::string::*;
use vstd::utf8::encode_utf8;
use std::collections::HashMap;
use crate::text::{decimal, decimal_string};
use crate::clock::{
    Instant, instant_le, instant_max, rfc2822_writable, rfc2822_text, format_rfc2822, clock_now,
    is_rfc2822_writable,
};
use crate::cache_validation::{ETagView, etag_text, etag_data_tag, entity_tag_from_data};

verus! {

broadcast use vstd::std_specs::hash::group_hash_axioms;

/// A tour of the catalogue: its id, its name and the ids of its customers.
pub struct CatalogTour {
    pub id: u64,
    pub name: String,
    pub customers: Vec<u64>,
}

/// A tour of the catalogue, as values.
pub struct CatalogTourView {
    pub id: u64,
    pub name: Seq<char>,
    pub customers: Seq<u64>,
}

impl View for CatalogTour {
    type V = CatalogTourView;

    open spec fn view(&self) -> CatalogTourView {
        CatalogTourView { id: self.id, name: self.name@, customers: self.customers@ }
    }
}

fn copy_ids(v: &Vec<u64>) -> (r: Vec<u64>)
    ensures
        r@ == v@,
{
    let mut r: Vec<u64> = Vec::new();
    for i in 0..v.len()
        invariant
            r@ == v@.take(i as int),
    {
        r.push(v[i]);
        assert(r@ =~= v@.take(i + 1));
    }
    assert(v@.take(v.len() as int) =~= v@);
    r
}

impl CatalogTour {
    /// A copy of the tour.
    pub fn duplicate(&self) -> (r: CatalogTour)
        ensures
            r@ == self@,
    {
        CatalogTour { id: self.id, name: self.name.clone(), customers: copy_ids(&self.customers) }
    }
}

/// The tour `t` stored under `id`.
pub open spec fn with_id(t: CatalogTourView, id: u64) -> CatalogTourView {
    CatalogTourView { id, ..t }
}

/// One slot of the store: when it last changed, and its tour unless deleted.
pub struct Revision {
    pub modified: Instant,
    pub tour: Option<CatalogTour>,
}

/// A slot, as values.
pub struct RevisionView {
    pub modified: Instant,
    pub tour: Option<CatalogTourView>,
}

/// An optional tour, as values.
pub open spec fn tour_option_view(t: Option<CatalogTour>) -> Option<CatalogTourView> {
    match t {
        Some(t) => Some(t@),
        None => None,
    }
}

impl View for Revision {
    type V = RevisionView;

    open spec fn view(&self) -> RevisionView {
        RevisionView { modified: self.modified, tour: tour_option_view(self.tour) }
    }
}

/// The slots are numbered from 0 without gaps, a tour carries its slot's
/// number as id, and the time of every present tour can be written in RFC 2822.
pub open spec fn cache_wf(m: Map<u64, RevisionView>) -> bool {
    &&& forall|k: u64| #[trigger] m.contains_key(k) <==> (k as int) < m.len()
    &&& forall|k: u64| #[trigger] m.contains_key(k) && m[k].tour is Some ==> rfc2822_writable(
        m[k].modified,
    )
    &&& forall|k: u64| #[trigger] m.contains_key(k) && m[k].tour is Some ==> m[k].tour->0.id == k
}

/// Slot `id` holds a tour.
pub open spec fn is_present(m: Map<u64, RevisionView>, id: u64) -> bool {
    m.contains_key(id) && m[id].tour is Some
}

/// The id that the next created tour gets: the number of slots so far.
pub open spec fn next_slot(m: Map<u64, RevisionView>) -> u64 {
    m.len() as u64
}

/// The store after `tour` is created at time `now`.
pub open spec fn after_create(m: Map<u64, RevisionView>, tour: CatalogTourView, now: Instant) -> Map<
    u64,
    RevisionView,
> {
    m.insert(next_slot(m), RevisionView { modified: now, tour: Some(with_id(tour, next_slot(m))) })
}

/// The store after tour `id` is replaced by `tour` at time `now`, when it is present.
pub open spec fn after_update(
    m: Map<u64, RevisionView>,
    id: u64,
    tour: CatalogTourView,
    now: Instant,
) -> Map<u64, RevisionView> {
    if is_present(m, id) {
        m.insert(id, RevisionView { modified: now, tour: Some(with_id(tour, id)) })
    } else {
        m
    }
}

/// The store after tour `id` is deleted at time `now`, when it is present.
pub open spec fn after_delete(m: Map<u64, RevisionView>, id: u64, now: Instant) -> Map<
    u64,
    RevisionView,
> {
    if is_present(m, id) {
        m.insert(id, RevisionView { modified: now, tour: None })
    } else {
        m
    }
}

/// The `Location` of tour `id`: `/tour/<id>`.
pub open spec fn cached_tour_location(id: u64) -> Seq<char> {
    "/tour/"@ + decimal(id as nat)
}

/// A tour that was just written: the tour, when it was written, the
/// `Last-Modified` text and the `Location` (answered `201` on creation, `200`
/// on update).
pub struct PlacedTour {
    pub tour: CatalogTour,
    pub modified: Instant,
    pub last_modified: String,
    pub location: String,
}

/// A tour that was read, with its `Last-Modified` text (answered `200`).
pub struct DatedTour {
    pub tour: CatalogTour,
    pub last_modified: String,
}

/// Why a request failed: the tour is not there (`404`), or the time carried
/// here, which RFC 2822 cannot write, would have to be written.
pub enum StoreError {
    NotFound,
    UnwritableTime(Instant),
}

/// The whole catalogue: the present tours in id order, the weak `ETag` text
/// and the `Last-Modified` text (answered `200`).
pub struct Catalog {
    pub tours: Vec<CatalogTour>,
    pub etag: String,
    pub last_modified: String,
}

/// The tours of slots `0 .. n` that are present, in slot order.
pub open spec fn present_tours(m: Map<u64, RevisionView>, n: nat) -> Seq<CatalogTourView>
    decreases n,
{
    if n == 0 {
        Seq::empty()
    } else {
        let prev = present_tours(m, (n - 1) as nat);
        let k = (n - 1) as u64;
        if is_present(m, k) {
            prev.push(m[k].tour->0)
        } else {
            prev
        }
    }
}

/// The latest time stored in slots `0 .. n`, and never earlier than the epoch.
pub open spec fn latest_modified(m: Map<u64, RevisionView>, n: nat) -> Instant
    decreases n,
{
    if n == 0 {
        Instant { secs: 0, nanos: 0 }
    } else {
        let prev = latest_modified(m, (n - 1) as nat);
        let k = (n - 1) as u64;
        if m.contains_key(k) {
            instant_max(prev, m[k].modified)
        } else {
            prev
        }
    }
}

/// The eight bytes of `x`, least significant first.
pub open spec fn le_bytes(x: nat, n: nat) -> Seq<u8>
    decreases n,
{
    if n == 0 {
        Seq::empty()
    } else {
        seq![(x % 256) as u8] + le_bytes(x / 256, (n - 1) as nat)
    }
}

/// The bytes that stand for a tour in the catalogue's entity tag: its id in
/// eight little-endian bytes, then its name in UTF-8.
pub open spec fn tour_fingerprint(t: CatalogTourView) -> Seq<u8> {
    le_bytes(t.id as nat, 8) + encode_utf8(t.name)
}

/// The bytes of the catalogue's entity tag: the fingerprints of its tours, in order.
pub open spec fn catalog_bytes(ts: Seq<CatalogTourView>) -> Seq<u8>
    decreases ts.len(),
{
    if ts.len() == 0 {
        Seq::empty()
    } else {
        catalog_bytes(ts.drop_last()) + tour_fingerprint(ts.last())
    }
}

/// The views of a list of tours.
pub open spec fn tour_views(ts: Seq<CatalogTour>) -> Seq<CatalogTourView> {
    ts.map_values(|t: CatalogTour| t@)
}

/// The catalogue of a store, as values.
pub struct CatalogView {
    pub tours: Seq<CatalogTourView>,
    pub etag: Seq<char>,
    pub last_modified: Seq<char>,
}

impl View for Catalog {
    type V = CatalogView;

    open spec fn view(&self) -> CatalogView {
        CatalogView {
            tours: tour_views(self.tours@),
            etag: self.etag@,
            last_modified: self.last_modified@,
        }
    }
}

/// The catalogue of the store `m`.
pub open spec fn catalog_of(m: Map<u64, RevisionView>) -> CatalogView {
    let tours = present_tours(m, m.len());
    CatalogView {
        tours,
        etag: etag_text(ETagView { weak: true, tag: etag_data_tag(catalog_bytes(tours)) }),
        last_modified: rfc2822_text(latest_modified(m, m.len()).secs as int),
    }
}

/// The tours of the catalogue, by slot.
pub struct CachedTourStore {
    entries: HashMap<u64, Revision>,
}

impl View for CachedTourStore {
    type V = Map<u64, RevisionView>;

    closed spec fn view(&self) -> Map<u64, RevisionView> {
        self.entries@.map_values(|r: Revision| r@)
    }
}

fn location_of(id: u64) -> (s: String)
    ensures
        s@ == cached_tour_location(id),
{
    let mut s = String::from_str("/tour/");
    let digits = decimal_string(id);
    s.append(digits.as_str());
    s
}

fn push_le_bytes(v: &mut Vec<u8>, x: u64)
    ensures
        final(v)@ == old(v)@ + le_bytes(x as nat, 8),
{
    let mut y = x;
    let mut i: usize = 0;
    while i < 8
        invariant
            i <= 8,
            old(v)@ + le_bytes(x as nat, 8) == v@ + le_bytes(y as nat, (8 - i) as nat),
        decreases 8 - i,
    {
        let ghost before = v@;
        v.push((y % 256) as u8);
        proof {
            assert(le_bytes(y as nat, (8 - i) as nat) == seq![(y % 256) as u8] + le_bytes(
                (y / 256) as nat,
                (8 - i - 1) as nat,
            ));
            assert(v@ == before.push((y % 256) as u8));
            assert(before + (seq![(y % 256) as u8] + le_bytes((y / 256) as nat, (8 - i - 1) as nat))
                =~= v@ + le_bytes((y / 256) as nat, (8 - i - 1) as nat));
        }
        y = y / 256;
        i = i + 1;
    }
    assert(le_bytes(y as nat, 0) =~= Seq::<u8>::empty());
    assert(v@ + Seq::<u8>::empty() =~= v@);
}

fn push_bytes(v: &mut Vec<u8>, b: &[u8])
    ensures
        final(v)@ == old(v)@ + b@,
{
    let ghost start = v@;
    for j in 0..b.len()
        invariant
            v@ == start + b@.take(j as int),
    {
        v.push(b[j]);
        assert(start + b@.take(j + 1) =~= (start + b@.take(j as int)).push(b@[j as int]));
    }
    assert(b@.take(b@.len() as int) =~= b@);
}

impl CachedTourStore {
    /// The store invariant.
    pub closed spec fn wf(&self) -> bool {
        &&& cache_wf(self@)
        &&& self.entries@.dom() == self@.dom()
    }

    /// What the store invariant tells a caller: the slots are numbered
    /// `0 .. n` without gaps, a present tour carries its slot's number, and
    /// the slots fit the machine's sizes.
    pub proof fn lemma_wf(&self)
        requires
            self.wf(),
        ensures
            cache_wf(self@),
            self@.dom().finite(),
            self@.len() <= usize::MAX,
    {
        assert(self.entries@.dom().finite());
        assert(self.entries.len() == self.entries@.len());
        assert(self@.len() == self.entries@.len());
    }

    /// An empty store.
    pub fn new() -> (r: CachedTourStore)
        ensures
            r.wf(),
            r@ == Map::<u64, RevisionView>::empty(),
    {
        let r = CachedTourStore { entries: HashMap::new() };
        assert(r@ =~= Map::<u64, RevisionView>::empty());
        r
    }

    /// Creates `tour` at time `now`; its id is the number of slots so far,
    /// whatever `tour` carries. When RFC 2822 cannot write `now`, nothing is
    /// stored and the answer is `UnwritableTime(now)`.
    pub fn create_at(&mut self, tour: CatalogTour, now: Instant) -> (r: Result<
        PlacedTour,
        StoreError,
    >)
        requires
            old(self).wf(),
        ensures
            final(self).wf(),
            r is Ok <==> rfc2822_writable(now),
            match r {
                Ok(p) => final(self)@ == after_create(old(self)@, tour@, now) && p.tour@
                    == with_id(tour@, next_slot(old(self)@)) && p.modified == now
                    && p.last_modified@ == rfc2822_text(now.secs as int) && p.location@
                    == cached_tour_location(next_slot(old(self)@)),
                Err(e) => e == StoreError::UnwritableTime(now) && final(self)@ == old(self)@,
            },
    {
        if !is_rfc2822_writable(&now) {
            return Err(StoreError::UnwritableTime(now));
        }
        let ghost m = self@;
        let id = self.entries.len() as u64;
        assert(!self.entries@.contains_key(id));
        let stored = CatalogTour { id, name: tour.name, customers: tour.customers };
        let kept = stored.duplicate();
        self.entries.insert(id, Revision { modified: now.copy(), tour: Some(stored) });
        proof {
            assert(self@ =~= after_create(m, tour@, now));
            assert forall|k: u64| #[trigger] self@.contains_key(k) <==> (k as int) < self@.len() by {
                if k != id {
                    assert(self@.contains_key(k) == m.contains_key(k));
                }
            }
        }
        Ok(
            PlacedTour {
                tour: kept,
                last_modified: format_rfc2822(&now),
                modified: now,
                location: location_of(id),
            },
        )
    }

    /// Creates `tour` at the time the clock reads, as `create_at` does with
    /// that reading. When the clock reads a time that RFC 2822 cannot write,
    /// nothing is stored and the reading is returned in `UnwritableTime`.
    pub fn create(&mut self, tour: CatalogTour) -> (r: Result<PlacedTour, StoreError>)
        requires
            old(self).wf(),
        ensures
            final(self).wf(),
            match r {
                Ok(p) => rfc2822_writable(p.modified) && final(self)@ == after_create(
                    old(self)@,
                    tour@,
                    p.modified,
                ) && p.tour@ == with_id(tour@, next_slot(old(self)@)) && p.last_modified@
                    == rfc2822_text(p.modified.secs as int) && p.location@ == cached_tour_location(
                    next_slot(old(self)@),
                ),
                Err(e) => (e matches StoreError::UnwritableTime(t) && !rfc2822_writable(t))
                    && final(self)@ == old(self)@,
            },
    {
        let now = clock_now();
        self.create_at(tour, now)
    }

    /// Reads tour `id` with its `Last-Modified` text; `None` when the slot is
    /// unknown or its tour deleted.
    pub fn read(&self, id: u64) -> (r: Option<DatedTour>)
        requires
            self.wf(),
        ensures
            r is Some <==> is_present(self@, id),
            r matches Some(d) ==> d.tour@ == self@[id].tour->0 && d.last_modified@ == rfc2822_text(
                self@[id].modified.secs as int,
            ),
    {
        match self.entries.get(&id) {
            Some(rev) => match &rev.tour {
                Some(t) => Some(
                    DatedTour { tour: t.duplicate(), last_modified: format_rfc2822(&rev.modified) },
                ),
                None => None,
            },
            None => None,
        }
    }

    /// Replaces tour `id` by `tour` at time `now`; the stored tour carries `id`.
    /// An absent tour is `NotFound`; a present one with a `now` that RFC 2822
    /// cannot write is `UnwritableTime(now)`; either way nothing changes.
    pub fn update_at(&mut self, id: u64, tour: CatalogTour, now: Instant) -> (r: Result<
        PlacedTour,
        StoreError,
    >)
        requires
            old(self).wf(),
        ensures
            final(self).wf(),
            r is Ok <==> is_present(old(self)@, id) && rfc2822_writable(now),
            match r {
                Ok(p) => final(self)@ == after_update(old(self)@, id, tour@, now) && p.tour@
                    == with_id(tour@, id) && p.modified == now && p.last_modified@
                    == rfc2822_text(now.secs as int) && p.location@ == cached_tour_location(id),
                Err(e) => final(self)@ == old(self)@ && (e is NotFound <==> !is_present(
                    old(self)@,
                    id,
                )) && (is_present(old(self)@, id) ==> e == StoreError::UnwritableTime(now)),
            },
    {
        let ghost m = self@;
        let present = match self.entries.get(&id) {
            Some(rev) => rev.tour.is_some(),
            None => false,
        };
        if !present {
            return Err(StoreError::NotFound);
        }
        if !is_rfc2822_writable(&now) {
            return Err(StoreError::UnwritableTime(now));
        }
        let stored = CatalogTour { id, name: tour.name, customers: tour.customers };
        let kept = stored.duplicate();
        self.entries.insert(id, Revision { modified: now.copy(), tour: Some(stored) });
        proof {
            assert(self@ =~= after_update(m, id, tour@, now));
            assert(self@.len() == m.len());
        }
        Ok(
            PlacedTour {
                tour: kept,
                last_modified: format_rfc2822(&now),
                modified: now,
                location: location_of(id),
            },
        )
    }

    /// Replaces tour `id` by `tour` at the time the clock reads, as `update_at`
    /// does with that reading. The clock is read only when the tour is
    /// present; a reading that RFC 2822 cannot write changes nothing and is
    /// returned in `UnwritableTime`.
    pub fn update(&mut self, id: u64, tour: CatalogTour) -> (r: Result<PlacedTour, StoreError>)
        requires
            old(self).wf(),
        ensures
            final(self).wf(),
            !is_present(old(self)@, id) ==> (r matches Err(e) && e is NotFound),
            r matches Err(e) ==> (e is NotFound <==> !is_present(old(self)@, id)),
            r matches Err(e) ==> (e matches StoreError::UnwritableTime(t) ==> !rfc2822_writable(t)),
            match r {
                Ok(p) => rfc2822_writable(p.modified) && final(self)@ == after_update(
                    old(self)@,
                    id,
                    tour@,
                    p.modified,
                ) && is_present(old(self)@, id) && p.tour@ == with_id(tour@, id)
                    && p.last_modified@ == rfc2822_text(p.modified.secs as int) && p.location@
                    == cached_tour_location(id),
                Err(_) => final(self)@ == old(self)@,
            },
    {
        let present = match self.entries.get(&id) {
            Some(rev) => rev.tour.is_some(),
            None => false,
        };
        if !present {
            return Err(StoreError::NotFound);
        }
        let now = clock_now();
        self.update_at(id, tour, now)
    }

    /// Deletes tour `id` at time `now`: the slot keeps the time, the tour is gone.
    pub fn delete_at(&mut self, id: u64, now: Instant) -> (r: bool)
        requires
            old(self).wf(),
        ensures
            final(self).wf(),
            final(self)@ == after_delete(old(self)@, id, now),
            r == is_present(old(self)@, id),
    {
        let ghost m = self@;
        let present = match self.entries.get(&id) {
            Some(rev) => rev.tour.is_some(),
            None => false,
        };
        if !present {
            return false;
        }
        self.entries.insert(id, Revision { modified: now, tour: None });
        proof {
            assert(self@ =~= after_delete(m, id, now));
            assert(self@.len() == m.len());
        }
        true
    }

    /// Deletes tour `id` at the time the clock reads, which is returned. The
    /// clock is read only when the tour is present, and then the delete
    /// always succeeds.
    pub fn delete(&mut self, id: u64) -> (r: Result<Instant, StoreError>)
        requires
            old(self).wf(),
        ensures
            final(self).wf(),
            r is Ok <==> is_present(old(self)@, id),
            match r {
                Ok(t) => final(self)@ == after_delete(old(self)@, id, t),
                Err(e) => e is NotFound && final(self)@ == old(self)@,
            },
    {
        let present = match self.entries.get(&id) {
            Some(rev) => rev.tour.is_some(),
            None => false,
        };
        if !present {
            return Err(StoreError::NotFound);
        }
        let now = clock_now();
        let kept = now.copy();
        self.delete_at(id, now);
        Ok(kept)
    }

    /// The whole catalogue: the present tours in id order, a weak entity tag
    /// computed from their ids and names, and the latest change of any slot.
    /// When that latest change (a deletion) has a time that RFC 2822 cannot
    /// write, the answer is `UnwritableTime` with that time.
    pub fn read_all(&self) -> (r: Result<Catalog, StoreError>)
        requires
            self.wf(),
        ensures
            r is Ok <==> rfc2822_writable(latest_modified(self@, self@.len())),
            match r {
                Ok(c) => c@ == catalog_of(self@),
                Err(e) => e == StoreError::UnwritableTime(latest_modified(self@, self@.len())),
            },
    {
        let ghost m = self@;
        let n = self.entries.len();
        let mut tours: Vec<CatalogTour> = Vec::new();
        let mut latest = Instant::epoch();
        let mut bytes: Vec<u8> = Vec::new();
        let mut i: usize = 0;
        assert(m.len() == n);
        while i < n
            invariant
                i <= n,
                n == m.len(),
                m == self@,
                cache_wf(m),
                tour_views(tours@) == present_tours(m, i as nat),
                latest == latest_modified(m, i as nat),
                bytes@ == catalog_bytes(present_tours(m, i as nat)),
            decreases n - i,
        {
            let key = i as u64;
            assert(m.contains_key(key));
            let ghost prev_tours = tours@;
            match self.entries.get(&key) {
                Some(rev) => {
                    if latest.not_after(&rev.modified) {
                        latest = rev.modified.copy();
                    }
                    match &rev.tour {
                        Some(t) => {
                            tours.push(t.duplicate());
                            push_le_bytes(&mut bytes, t.id);
                            push_bytes(&mut bytes, t.name.as_str().as_bytes());
                            proof {
                                assert(tour_views(tours@) =~= tour_views(prev_tours).push(t@));
                                let ps = present_tours(m, (i + 1) as nat);
                                assert(ps.drop_last() =~= present_tours(m, i as nat));
                                assert(catalog_bytes(ps) == catalog_bytes(ps.drop_last())
                                    + tour_fingerprint(ps.last()));
                            }
                        },
                        None => {
                            assert(tour_views(tours@) =~= tour_views(prev_tours));
                        },
                    }
                },
                None => {},
            }
            i = i + 1;
        }
        if !is_rfc2822_writable(&latest) {
            return Err(StoreError::UnwritableTime(latest));
        }
        let mut etag = entity_tag_from_data(bytes.as_slice());
        etag.weak = true;
        Ok(Catalog { tours, etag: etag.header_value(), last_modified: format_rfc2822(&latest) })
    }
}

/// Reading a tour just created answers it, under the next id, with the time
/// of its creation.
pub proof fn law_read_after_create(m: Map<u64, RevisionView>, t: CatalogTourView, now: Instant)
    ensures
        is_present(after_create(m, t, now), next_slot(m)),
        after_create(m, t, now)[next_slot(m)] == (RevisionView {
            modified: now,
            tour: Some(with_id(t, next_slot(m))),
        }),
{
}

/// Reading a tour just updated answers the new tour, under the same id, with
/// the time of the update.
pub proof fn law_read_after_update(m: Map<u64, RevisionView>, id: u64, t: CatalogTourView, now: Instant)
    requires
        is_present(m, id),
    ensures
        is_present(after_update(m, id, t, now), id),
        after_update(m, id, t, now)[id] == (RevisionView {
            modified: now,
            tour: Some(with_id(t, id)),
        }),
{
}

/// A deleted tour is gone for good: it is not present, and updating or
/// deleting it again changes nothing.
pub proof fn law_deleted_is_gone(
    m: Map<u64, RevisionView>,
    id: u64,
    now: Instant,
    t: CatalogTourView,
    later: Instant,
)
    ensures
        !is_present(after_delete(m, id, now), id),
        after_update(after_delete(m, id, now), id, t, later) == after_delete(m, id, now),
        after_delete(after_delete(m, id, now), id, later) == after_delete(m, id, now),
{
}

/// The tours listed for slots `0 .. n` are exactly the present ones among
/// them, each once, in strictly increasing id order.
pub proof fn law_catalog_lists_present_tours(m: Map<u64, RevisionView>, n: nat)
    requires
        cache_wf(m),
        n <= m.len(),
        m.len() <= u64::MAX,
    ensures
        forall|j: int|
            0 <= j < present_tours(m, n).len() ==> {
                let t = #[trigger] present_tours(m, n)[j];
                &&& t.id < n
                &&& is_present(m, t.id)
                &&& m[t.id].tour->0 == t
            },
        forall|i: int, j: int|
            0 <= i < j < present_tours(m, n).len() ==> (#[trigger] present_tours(m, n)[i]).id
                < (#[trigger] present_tours(m, n)[j]).id,
        forall|k: u64|
            k < n && #[trigger] is_present(m, k) ==> exists|j: int|
                0 <= j < present_tours(m, n).len() && (#[trigger] present_tours(m, n)[j]).id == k,
    decreases n,
{
    if n > 0 {
        let prev = present_tours(m, (n - 1) as nat);
        law_catalog_lists_present_tours(m, (n - 1) as nat);
        let key = (n - 1) as u64;
        let cur = present_tours(m, n);
        if is_present(m, key) {
            assert(cur == prev.push(m[key].tour->0));
            assert(m[key].tour->0.id == key);
            assert forall|k: u64| k < n && #[trigger] is_present(m, k) implies exists|j: int|
                0 <= j < cur.len() && (#[trigger] cur[j]).id == k by {
                if k == key {
                    assert(cur[prev.len() as int].id == k);
                } else {
                    let j = choose|j: int| 0 <= j < prev.len() && (#[trigger] prev[j]).id == k;
                    assert(cur[j] == prev[j]);
                }
            }
        } else {
            assert(cur == prev);
        }
    }
}

/// Updating and deleting keep every slot, so an id is never given out again:
/// the next id is the same before and after.
pub proof fn law_slots_never_reused(
    m: Map<u64, RevisionView>,
    id: u64,
    t: CatalogTourView,
    now: Instant,
)
    ensures
        after_update(m, id, t, now).dom() == m.dom(),
        after_delete(m, id, now).dom() == m.dom(),
        m.dom().finite() ==> next_slot(after_update(m, id, t, now)) == next_slot(m)
            && next_slot(after_delete(m, id, now)) == next_slot(m),
{
    assert(after_update(m, id, t, now).dom() =~= m.dom());
    assert(after_delete(m, id, now).dom() =~= m.dom());
}

/// A created tour gets an id that no slot has: creating never overwrites a
/// slot, and never reuses the id of a deleted tour.
pub proof fn law_create_is_fresh(m: Map<u64, RevisionView>)
    requires
        cache_wf(m),
        m.dom().finite(),
        m.len() < u64::MAX,
    ensures
        !m.contains_key(next_slot(m)),
{
}

/// A request about one tour leaves every other slot as it was; so a read
/// gives back the last write to its slot, whatever happened elsewhere.
pub proof fn law_other_slots_unchanged(
    m: Map<u64, RevisionView>,
    id: u64,
    k: u64,
    t: CatalogTourView,
    now: Instant,
)
    requires
        cache_wf(m),
        m.dom().finite(),
        m.len() < u64::MAX,
        m.contains_key(k),
        k != id,
    ensures
        after_update(m, id, t, now).contains_key(k) && after_update(m, id, t, now)[k] == m[k],
        after_delete(m, id, now).contains_key(k) && after_delete(m, id, now)[k] == m[k],
        after_create(m, t, now).contains_key(k) && after_create(m, t, now)[k] == m[k],
{
    assert(next_slot(m) != k);
}

/// A deleted tour stays deleted: no create, update or delete changes its slot
/// (not even its time), so it keeps answering `404 Not Found`.
pub proof fn law_deleted_stays_gone(
    m: Map<u64, RevisionView>,
    deleted: u64,
    id: u64,
    t: CatalogTourView,
    now: Instant,
)
    requires
        cache_wf(m),
        m.dom().finite(),
        m.len() < u64::MAX,
        m.contains_key(deleted),
        m[deleted].tour is None,
    ensures
        after_update(m, id, t, now).contains_key(deleted) && after_update(m, id, t, now)[deleted]
            == m[deleted],
        after_delete(m, id, now).contains_key(deleted) && after_delete(m, id, now)[deleted]
            == m[deleted],
        after_create(m, t, now).contains_key(deleted) && after_create(m, t, now)[deleted]
            == m[deleted],
        !is_present(after_update(m, id, t, now), deleted),
        !is_present(after_delete(m, id, now), deleted),
        !is_present(after_create(m, t, now), deleted),
{
    assert(next_slot(m) != deleted);
}

/// The catalogue's `Last-Modified` time is the epoch or the time of some
/// slot, and no slot changed later.
pub proof fn law_latest_modified(m: Map<u64, RevisionView>, n: nat)
    requires
        n <= u64::MAX + 1,
    ensures
        forall|k: u64|
            k < n && #[trigger] m.contains_key(k) ==> instant_le(m[k].modified, latest_modified(m, n)),
        instant_le(Instant { secs: 0, nanos: 0 }, latest_modified(m, n)),
        latest_modified(m, n) == (Instant { secs: 0, nanos: 0 }) || exists|k: u64|
            k < n && #[trigger] m.contains_key(k) && m[k].modified == latest_modified(m, n),
    decreases n,
{
    if n > 0 {
        law_latest_modified(m, (n - 1) as nat);
        let key = (n - 1) as u64;
        let prev = latest_modified(m, (n - 1) as nat);
        if m.contains_key(key) {
            if prev != (Instant { secs: 0, nanos: 0 }) {
                let k0 = choose|k: u64| k < n - 1 && #[trigger] m.contains_key(k) && m[k].modified == prev;
                assert(k0 < n && m.contains_key(k0));
            }
        }
    }
}

} // verus!
