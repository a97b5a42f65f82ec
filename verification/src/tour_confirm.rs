//! A store of tours whose deletion takes two steps: a delete request marks a
//! tour for deletion, and a later confirmation deletes it. A tour marked for
//! deletion can still be read; a deleted tour cannot.

use vstd::prelude::*;
use vstd::string::*;
use std::collections::HashMap;
use crate::text::{decimal, decimal_string};

verus! {

broadcast use vstd::std_specs::hash::group_hash_axioms;

/// `200 OK`
pub const STATUS_OK: u16 = 200;
/// `201 Created`
pub const STATUS_CREATED: u16 = 201;
/// `204 No Content`
pub const STATUS_NO_CONTENT: u16 = 204;
/// `400 Bad Request`
pub const STATUS_BAD_REQUEST: u16 = 400;
/// `404 Not Found`
pub const STATUS_NOT_FOUND: u16 = 404;

/// A tour: its id and its name.
pub struct Tour {
    pub id: u64,
    pub name: String,
}

/// A tour as values.
pub struct TourView {
    pub id: u64,
    pub name: Seq<char>,
}

impl View for Tour {
    type V = TourView;

    open spec fn view(&self) -> TourView {
        TourView { id: self.id, name: self.name@ }
    }
}

impl Tour {
    /// A copy of the tour.
    pub fn duplicate(&self) -> (r: Tour)
        ensures
            r@ == self@,
    {
        Tour { id: self.id, name: self.name.clone() }
    }
}

/// Where a tour stands in its deletion.
pub enum TourState {
    Present(Tour),
    ToDelete(Tour),
    Deleted(Tour),
}

/// Where a tour stands in its deletion, as values.
pub enum TourStateView {
    Present(TourView),
    ToDelete(TourView),
    Deleted(TourView),
}

impl TourStateView {
    /// The tour, whatever its state.
    pub open spec fn tour(self) -> TourView {
        match self {
            TourStateView::Present(t) => t,
            TourStateView::ToDelete(t) => t,
            TourStateView::Deleted(t) => t,
        }
    }

    /// How far the tour has gone towards deletion: 0, 1 or 2.
    pub open spec fn stage(self) -> int {
        match self {
            TourStateView::Present(_) => 0,
            TourStateView::ToDelete(_) => 1,
            TourStateView::Deleted(_) => 2,
        }
    }
}

impl View for TourState {
    type V = TourStateView;

    open spec fn view(&self) -> TourStateView {
        match self {
            TourState::Present(t) => TourStateView::Present(t@),
            TourState::ToDelete(t) => TourStateView::ToDelete(t@),
            TourState::Deleted(t) => TourStateView::Deleted(t@),
        }
    }
}

/// The answer to a request: a status code, the `Location` header, and the tour
/// in the body, if any.
pub struct TourReply {
    pub status: u16,
    pub location: String,
    pub tour: Option<Tour>,
}

/// A reply as values.
pub struct ReplyView {
    pub status: u16,
    pub location: Seq<char>,
    pub tour: Option<TourView>,
}

/// The body of a reply, as values.
pub open spec fn body_view(t: Option<Tour>) -> Option<TourView> {
    match t {
        Some(t) => Some(t@),
        None => None,
    }
}

impl View for TourReply {
    type V = ReplyView;

    open spec fn view(&self) -> ReplyView {
        ReplyView { status: self.status, location: self.location@, tour: body_view(self.tour) }
    }
}

/// The `Location` of the tour `id`: `/tours/<id>`.
pub open spec fn tour_location(id: u64) -> Seq<char> {
    "/tours/"@ + decimal(id as nat)
}

/// The reply with the given status and body, located at tour `id`.
pub open spec fn reply(status: u16, id: u64, tour: Option<TourView>) -> ReplyView {
    ReplyView { status, location: tour_location(id), tour }
}

/// The tours are numbered from 0 without gaps, and each carries its number as id.
pub open spec fn store_wf(m: Map<u64, TourStateView>) -> bool {
    &&& forall|k: u64| #[trigger] m.contains_key(k) <==> (k as int) < m.len()
    &&& forall|k: u64| #[trigger] m.contains_key(k) ==> m[k].tour().id == k
}

/// The id that the next created tour gets: the number of tours so far.
pub open spec fn next_id(m: Map<u64, TourStateView>) -> u64 {
    m.len() as u64
}

/// The store after a tour named `name` is created.
pub open spec fn after_create(m: Map<u64, TourStateView>, name: Seq<char>) -> Map<
    u64,
    TourStateView,
> {
    m.insert(next_id(m), TourStateView::Present(TourView { id: next_id(m), name }))
}

/// The reply to the creation of a tour named `name`.
pub open spec fn create_reply(m: Map<u64, TourStateView>, name: Seq<char>) -> ReplyView {
    reply(STATUS_CREATED, next_id(m), Some(TourView { id: next_id(m), name }))
}

/// The reply to a read of tour `id`: the tour, unless it is unknown or deleted.
pub open spec fn read_reply(m: Map<u64, TourStateView>, id: u64) -> ReplyView {
    if !m.contains_key(id) {
        reply(STATUS_NOT_FOUND, id, None)
    } else {
        match m[id] {
            TourStateView::Present(t) => reply(STATUS_OK, id, Some(t)),
            TourStateView::ToDelete(t) => reply(STATUS_OK, id, Some(t)),
            TourStateView::Deleted(_) => reply(STATUS_NOT_FOUND, id, None),
        }
    }
}

/// The store after a delete request for tour `id`: a present tour is marked for deletion.
pub open spec fn after_delete(m: Map<u64, TourStateView>, id: u64) -> Map<u64, TourStateView> {
    if m.contains_key(id) && m[id] is Present {
        m.insert(id, TourStateView::ToDelete(m[id].tour()))
    } else {
        m
    }
}

/// The reply to a delete request for tour `id`.
pub open spec fn delete_reply(m: Map<u64, TourStateView>, id: u64) -> ReplyView {
    if !m.contains_key(id) {
        reply(STATUS_NOT_FOUND, id, None)
    } else {
        match m[id] {
            TourStateView::Present(t) => reply(STATUS_OK, id, Some(t)),
            TourStateView::ToDelete(t) => reply(STATUS_OK, id, Some(t)),
            TourStateView::Deleted(_) => reply(STATUS_NO_CONTENT, id, None),
        }
    }
}

/// The store after a confirmation for tour `id`: a tour marked for deletion is deleted.
pub open spec fn after_confirm(m: Map<u64, TourStateView>, id: u64) -> Map<u64, TourStateView> {
    if m.contains_key(id) && m[id] is ToDelete {
        m.insert(id, TourStateView::Deleted(m[id].tour()))
    } else {
        m
    }
}

/// The reply to a confirmation for tour `id`.
pub open spec fn confirm_reply(m: Map<u64, TourStateView>, id: u64) -> ReplyView {
    if !m.contains_key(id) {
        reply(STATUS_NOT_FOUND, id, None)
    } else {
        match m[id] {
            TourStateView::Present(_) => reply(STATUS_BAD_REQUEST, id, None),
            TourStateView::ToDelete(_) => reply(STATUS_NO_CONTENT, id, None),
            TourStateView::Deleted(_) => reply(STATUS_NO_CONTENT, id, None),
        }
    }
}

/// The tours, by id, with the state of their deletion.
pub struct ConfirmingTourStore {
    tours: HashMap<u64, TourState>,
}

impl View for ConfirmingTourStore {
    type V = Map<u64, TourStateView>;

    closed spec fn view(&self) -> Map<u64, TourStateView> {
        self.tours@.map_values(|s: TourState| s@)
    }
}

fn location_of(id: u64) -> (s: String)
    ensures
        s@ == tour_location(id),
{
    let mut s = String::from_str("/tours/");
    let digits = decimal_string(id);
    s.append(digits.as_str());
    s
}

fn make_reply(status: u16, id: u64, tour: Option<Tour>) -> (r: TourReply)
    ensures
        r@ == reply(status, id, body_view(tour)),
{
    TourReply { status, location: location_of(id), tour }
}

impl ConfirmingTourStore {
    /// The store invariant.
    pub closed spec fn wf(&self) -> bool {
        &&& store_wf(self@)
        &&& self.tours@.dom() == self@.dom()
    }

    /// What the store invariant tells a caller: the tours are numbered
    /// `0 .. n` without gaps, each carries its own number, and they fit the
    /// machine's sizes.
    pub proof fn lemma_wf(&self)
        requires
            self.wf(),
        ensures
            store_wf(self@),
            self@.dom().finite(),
            self@.len() <= usize::MAX,
    {
        assert(self.tours@.dom().finite());
        assert(self.tours.len() == self.tours@.len());
        assert(self@.len() == self.tours@.len());
    }

    /// An empty store.
    pub fn new() -> (r: ConfirmingTourStore)
        ensures
            r.wf(),
            r@ == Map::<u64, TourStateView>::empty(),
    {
        let r = ConfirmingTourStore { tours: HashMap::new() };
        assert(r@ =~= Map::<u64, TourStateView>::empty());
        r
    }

    /// Creates a tour with the name of `tour`; its id is the number of tours
    /// so far, whatever `tour` carries.
    pub fn create(&mut self, tour: Tour) -> (r: TourReply)
        requires
            old(self).wf(),
        ensures
            final(self).wf(),
            final(self)@ == after_create(old(self)@, tour.name@),
            r@ == create_reply(old(self)@, tour.name@),
    {
        let ghost m = self@;
        let id = self.tours.len() as u64;
        assert(!self.tours@.contains_key(id));
        let new_tour = Tour { id, name: tour.name };
        let kept = new_tour.duplicate();
        self.tours.insert(id, TourState::Present(new_tour));
        proof {
            assert(self@ =~= after_create(m, tour.name@));
            assert forall|k: u64| #[trigger] self@.contains_key(k) <==> (k as int) < self@.len() by {
                if k == id {
                } else {
                    assert(self@.contains_key(k) == m.contains_key(k));
                }
            }
        }
        make_reply(STATUS_CREATED, id, Some(kept))
    }

    /// Reads tour `id`.
    pub fn read(&self, id: u64) -> (r: TourReply)
        requires
            self.wf(),
        ensures
            r@ == read_reply(self@, id),
    {
        match self.tours.get(&id) {
            Some(TourState::Present(t)) => make_reply(STATUS_OK, id, Some(t.duplicate())),
            Some(TourState::ToDelete(t)) => make_reply(STATUS_OK, id, Some(t.duplicate())),
            _ => make_reply(STATUS_NOT_FOUND, id, None),
        }
    }

    /// A delete request for tour `id`: marks a present tour for deletion.
    pub fn delete(&mut self, id: u64) -> (r: TourReply)
        requires
            old(self).wf(),
        ensures
            final(self).wf(),
            final(self)@ == after_delete(old(self)@, id),
            r@ == delete_reply(old(self)@, id),
    {
        let ghost m = self@;
        let found = match self.tours.get(&id) {
            Some(TourState::Present(t)) => Some((t.duplicate(), true)),
            Some(TourState::ToDelete(t)) => Some((t.duplicate(), false)),
            Some(TourState::Deleted(_)) => None,
            None => {
                return make_reply(STATUS_NOT_FOUND, id, None);
            },
        };
        match found {
            Some((t, present)) => {
                if present {
                    let marked = t.duplicate();
                    self.tours.insert(id, TourState::ToDelete(marked));
                    proof {
                        assert(self@ =~= after_delete(m, id));
                        assert(self@.len() == m.len());
                    }
                } else {
                    assert(self@ =~= after_delete(m, id));
                }
                make_reply(STATUS_OK, id, Some(t))
            },
            None => {
                assert(self@ =~= after_delete(m, id));
                make_reply(STATUS_NO_CONTENT, id, None)
            },
        }
    }

    /// A confirmation for tour `id`: deletes a tour marked for deletion.
    pub fn confirm_delete(&mut self, id: u64) -> (r: TourReply)
        requires
            old(self).wf(),
        ensures
            final(self).wf(),
            final(self)@ == after_confirm(old(self)@, id),
            r@ == confirm_reply(old(self)@, id),
    {
        let ghost m = self@;
        let marked = match self.tours.get(&id) {
            Some(TourState::ToDelete(t)) => Some(t.duplicate()),
            Some(TourState::Deleted(_)) => {
                return make_reply(STATUS_NO_CONTENT, id, None);
            },
            Some(TourState::Present(_)) => {
                return make_reply(STATUS_BAD_REQUEST, id, None);
            },
            None => {
                return make_reply(STATUS_NOT_FOUND, id, None);
            },
        };
        match marked {
            Some(t) => {
                self.tours.insert(id, TourState::Deleted(t));
                proof {
                    assert(self@ =~= after_confirm(m, id));
                    assert(self@.len() == m.len());
                }
            },
            None => {},
        }
        make_reply(STATUS_NO_CONTENT, id, None)
    }
}

/// Reading the tour just created answers it, with `200 OK`.
pub proof fn law_read_after_create(m: Map<u64, TourStateView>, name: Seq<char>)
    ensures
        read_reply(after_create(m, name), next_id(m)) == reply(
            STATUS_OK,
            next_id(m),
            Some(TourView { id: next_id(m), name }),
        ),
{
}

/// Creating a tour keeps the numbering: the ids stay `0 .. n` without gaps,
/// each tour carrying its own, and the count grows by one.
pub proof fn law_create_keeps_numbering(m: Map<u64, TourStateView>, name: Seq<char>)
    requires
        store_wf(m),
        m.dom().finite(),
        m.len() < u64::MAX,
    ensures
        store_wf(after_create(m, name)),
        after_create(m, name).len() == m.len() + 1,
{
    let id = next_id(m);
    assert(!m.contains_key(id));
    let n = after_create(m, name);
    assert(n.len() == m.len() + 1);
    assert forall|k: u64| #[trigger] n.contains_key(k) <==> (k as int) < n.len() by {
        if k != id {
            assert(n.contains_key(k) == m.contains_key(k));
        }
    }
}

/// A present tour that is asked to be deleted can still be read; once the
/// deletion is confirmed, reads answer `404 Not Found`.
pub proof fn law_delete_then_confirm(m: Map<u64, TourStateView>, id: u64)
    requires
        m.contains_key(id),
        m[id] is Present,
    ensures
        delete_reply(m, id) == reply(STATUS_OK, id, Some(m[id].tour())),
        read_reply(after_delete(m, id), id) == reply(STATUS_OK, id, Some(m[id].tour())),
        confirm_reply(after_delete(m, id), id) == reply(STATUS_NO_CONTENT, id, None),
        read_reply(after_confirm(after_delete(m, id), id), id) == reply(STATUS_NOT_FOUND, id, None),
{
}

/// A confirmation that no delete request preceded is refused with
/// `400 Bad Request`, and changes nothing.
pub proof fn law_confirm_needs_request(m: Map<u64, TourStateView>, id: u64)
    requires
        m.contains_key(id),
        m[id] is Present,
    ensures
        confirm_reply(m, id) == reply(STATUS_BAD_REQUEST, id, None),
        after_confirm(m, id) == m,
{
}

/// Asking twice to delete a tour is the same as asking once, and a tour that
/// is not yet deleted is answered alike both times.
pub proof fn law_delete_idempotent(m: Map<u64, TourStateView>, id: u64)
    ensures
        after_delete(after_delete(m, id), id) == after_delete(m, id),
        m.contains_key(id) && !(m[id] is Deleted) ==> delete_reply(after_delete(m, id), id)
            == delete_reply(m, id),
{
    assert(after_delete(after_delete(m, id), id) =~= after_delete(m, id));
}

/// No request loses a tour, changes its id or name, or moves it back
/// towards being present: deletion stages only advance.
pub proof fn law_stages_only_advance(m: Map<u64, TourStateView>, id: u64, name: Seq<char>, k: u64)
    requires
        store_wf(m),
        m.len() < u64::MAX,
        m.contains_key(k),
    ensures
        after_delete(m, id).contains_key(k),
        after_delete(m, id)[k].tour() == m[k].tour(),
        after_delete(m, id)[k].stage() >= m[k].stage(),
        after_confirm(m, id).contains_key(k),
        after_confirm(m, id)[k].tour() == m[k].tour(),
        after_confirm(m, id)[k].stage() >= m[k].stage(),
        after_create(m, name).contains_key(k),
        after_create(m, name)[k] == m[k],
{
    assert(!m.contains_key(next_id(m))) by {
        if m.contains_key(next_id(m)) {
            assert((next_id(m) as int) < m.len());
        }
    }
}

} // verus!
