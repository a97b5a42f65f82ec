//! A store of flight bookings, keyed by the booking id that the store gives
//! out: the decimal numerals `1`, `2`, `3`, ... in order of creation. A
//! removed booking keeps its id, which is never given out again.
//!
//! What a booking holds besides its id is carried through untouched (`D`).

use vstd::prelude::*;
use vstd::string::*;
use crate::text::{
    chars_of, decimal, decimal_string, parse_decimal, is_canonical_numeral, numeral_value,
    lemma_decimal_canonical, lemma_canonical_decimal,
};

verus! {

/// A flight booking: its id and the rest of the booking.
pub struct FlightBooking<D> {
    pub booking_id: String,
    pub details: D,
}

/// A flight booking, as values.
pub struct FlightBookingView<D> {
    pub booking_id: Seq<char>,
    pub details: D,
}

impl<D> View for FlightBooking<D> {
    type V = FlightBookingView<D>;

    open spec fn view(&self) -> FlightBookingView<D> {
        FlightBookingView { booking_id: self.booking_id@, details: self.details }
    }
}

/// `b` is a copy of `a`: the same id, and details cloned from those of `a`.
pub open spec fn is_copy<D: Clone>(a: FlightBookingView<D>, b: FlightBookingView<D>) -> bool {
    a.booking_id == b.booking_id && cloned(a.details, b.details)
}

impl<D: Clone> FlightBooking<D> {
    /// A copy of the booking.
    pub fn duplicate(&self) -> (r: FlightBooking<D>)
        ensures
            is_copy(self@, r@),
    {
        FlightBooking { booking_id: self.booking_id.clone(), details: self.details.clone() }
    }
}

/// Why a booking request failed: no booking has the id (`NOT_FOUND`).
pub enum BookingError {
    NotFound,
}

impl BookingError {
    /// The message of the error.
    pub fn message(&self) -> (s: String)
        ensures
            s@ == "booking not found"@,
    {
        String::from_str("booking not found")
    }
}

/// The id of the booking in slot `i`: the numeral of `i + 1`.
pub open spec fn slot_key(i: int) -> Seq<char> {
    decimal((i + 1) as nat)
}

/// The slot of the booking with id `k` among `n` slots, if `k` is an id the
/// store gave out.
pub open spec fn key_slot(k: Seq<char>, n: int) -> Option<int> {
    if is_canonical_numeral(k) && 1 <= numeral_value(k) <= n {
        Some(numeral_value(k) - 1)
    } else {
        None
    }
}

/// The slots as a map from booking id to booking (`None` once removed).
pub open spec fn keyed<V>(s: Seq<Option<V>>) -> Map<Seq<char>, Option<V>> {
    Map::new(|k: Seq<char>| key_slot(k, s.len() as int) is Some, |k: Seq<char>| s[key_slot(k, s.len() as int)->0])
}

/// The id of slot `i` leads back to slot `i`.
pub proof fn lemma_slot_key(i: int, n: int)
    requires
        0 <= i < n,
    ensures
        key_slot(slot_key(i), n) == Some(i),
{
    lemma_decimal_canonical((i + 1) as nat);
}

/// A slot found for an id is in range, and its id is that id.
pub proof fn lemma_key_slot(k: Seq<char>, n: int)
    ensures
        key_slot(k, n) matches Some(i) ==> 0 <= i < n && slot_key(i) == k,
{
    if is_canonical_numeral(k) {
        lemma_canonical_decimal(k);
    }
}

/// The bookings, one slot per id given out.
pub struct BookingStore<D> {
    slots: Vec<Option<FlightBooking<D>>>,
}

/// A slot, as values.
pub open spec fn slot_view<D>(s: Option<FlightBooking<D>>) -> Option<FlightBookingView<D>> {
    match s {
        Some(b) => Some(b@),
        None => None,
    }
}

impl<D> View for BookingStore<D> {
    type V = Seq<Option<FlightBookingView<D>>>;

    closed spec fn view(&self) -> Seq<Option<FlightBookingView<D>>> {
        self.slots@.map_values(|s: Option<FlightBooking<D>>| slot_view(s))
    }
}

/// The bookings present in slots `0 .. n`, in slot order.
pub open spec fn present_bookings<D>(s: Seq<Option<FlightBookingView<D>>>, n: nat) -> Seq<
    FlightBookingView<D>,
>
    decreases n,
{
    if n == 0 {
        Seq::empty()
    } else {
        let prev = present_bookings(s, (n - 1) as nat);
        match s[n - 1] {
            Some(b) => prev.push(b),
            None => prev,
        }
    }
}

/// Each present booking carries the id of its slot.
pub open spec fn bookings_wf<D>(s: Seq<Option<FlightBookingView<D>>>) -> bool {
    forall|i: int| 0 <= i < s.len() && (#[trigger] s[i]) is Some ==> s[i]->0.booking_id == slot_key(i)
}

/// The views of a list of bookings.
pub open spec fn booking_views<D>(v: Seq<FlightBooking<D>>) -> Seq<FlightBookingView<D>> {
    v.map_values(|b: FlightBooking<D>| b@)
}

/// A present booking has the id `id`.
pub open spec fn booking_found<D>(s: Seq<Option<FlightBookingView<D>>>, id: Seq<char>) -> bool {
    match key_slot(id, s.len() as int) {
        Some(i) => s[i] is Some,
        None => false,
    }
}

/// The slots after a booking with `details` is added under the next id.
pub open spec fn after_add_booking<D>(s: Seq<Option<FlightBookingView<D>>>, details: D) -> Seq<
    Option<FlightBookingView<D>>,
> {
    s.push(Some(FlightBookingView { booking_id: slot_key(s.len() as int), details }))
}

/// The slots after the present booking with `request`'s id is replaced by it.
pub open spec fn after_update_booking<D>(
    s: Seq<Option<FlightBookingView<D>>>,
    request: FlightBookingView<D>,
) -> Seq<Option<FlightBookingView<D>>> {
    if booking_found(s, request.booking_id) {
        s.update(key_slot(request.booking_id, s.len() as int)->0, Some(request))
    } else {
        s
    }
}

/// The slots after the present booking with id `id` is removed.
pub open spec fn after_remove_booking<D>(s: Seq<Option<FlightBookingView<D>>>, id: Seq<char>) -> Seq<
    Option<FlightBookingView<D>>,
> {
    if booking_found(s, id) {
        s.update(key_slot(id, s.len() as int)->0, None)
    } else {
        s
    }
}

impl<D: Clone> BookingStore<D> {
    /// The store invariant: each present booking carries the id of its slot.
    pub open spec fn wf(&self) -> bool {
        bookings_wf(self@)
    }

    /// An empty store.
    pub fn new() -> (r: BookingStore<D>)
        ensures
            r.wf(),
            r@ == Seq::<Option<FlightBookingView<D>>>::empty(),
    {
        let r = BookingStore { slots: Vec::new() };
        assert(r@ =~= Seq::<Option<FlightBookingView<D>>>::empty());
        r
    }

    /// The number of ids given out so far.
    pub fn len(&self) -> (n: usize)
        ensures
            n == self@.len(),
    {
        self.slots.len()
    }

    fn slot_of(&self, id: &str) -> (r: Option<usize>)
        ensures
            match r {
                Some(i) => key_slot(id@, self@.len() as int) == Some(i as int),
                None => key_slot(id@, self@.len() as int) is None,
            },
    {
        let chars = chars_of(id);
        let n = self.slots.len();
        match parse_decimal(&chars) {
            Some(v) => {
                proof {
                    lemma_decimal_canonical(v as nat);
                }
                if 1 <= v && v <= n as u64 {
                    Some((v - 1) as usize)
                } else {
                    None
                }
            },
            None => {
                proof {
                    if is_canonical_numeral(id@) && 1 <= numeral_value(id@) <= n {
                        lemma_canonical_decimal(id@);
                    }
                }
                None
            },
        }
    }

    /// Adds `request` as a new booking; its id is the numeral of the number of
    /// ids given out so far, plus one. Returns a copy of the stored booking.
    pub fn add_booking(&mut self, request: FlightBooking<D>) -> (r: FlightBooking<D>)
        requires
            old(self).wf(),
            old(self)@.len() < u64::MAX,
        ensures
            final(self).wf(),
            final(self)@ == old(self)@.push(
                Some(FlightBookingView { booking_id: slot_key(old(self)@.len() as int), details: request.details }),
            ),
            final(self)@ == after_add_booking(old(self)@, request.details),
            is_copy(
                FlightBookingView { booking_id: slot_key(old(self)@.len() as int), details: request.details },
                r@,
            ),
    {
        let ghost before = self@;
        let key = decimal_string((self.slots.len() as u64) + 1);
        let stored = FlightBooking { booking_id: key, details: request.details };
        let copy = stored.duplicate();
        self.slots.push(Some(stored));
        proof {
            assert(self@ =~= before.push(Some(stored@)));
        }
        copy
    }

    /// Replaces the present booking whose id is `request`'s by `request`.
    /// Returns a copy of it, or `NotFound` when no present booking has the id.
    pub fn update_booking(&mut self, request: FlightBooking<D>) -> (r: Result<
        FlightBooking<D>,
        BookingError,
    >)
        requires
            old(self).wf(),
        ensures
            final(self).wf(),
            match key_slot(request.booking_id@, old(self)@.len() as int) {
                Some(i) => if old(self)@[i] is Some {
                    final(self)@ == old(self)@.update(i, Some(request@)) && (r matches Ok(b)
                        && is_copy(request@, b@))
                } else {
                    final(self)@ == old(self)@ && r is Err
                },
                None => final(self)@ == old(self)@ && r is Err,
            },
            final(self)@ == after_update_booking(old(self)@, request@),
            r is Ok <==> booking_found(old(self)@, request.booking_id@),
    {
        let ghost before = self@;
        match self.slot_of(request.booking_id.as_str()) {
            Some(i) => {
                let present = self.slots[i].is_some();
                if present {
                    proof {
                        lemma_key_slot(request.booking_id@, before.len() as int);
                    }
                    let copy = request.duplicate();
                    self.slots.set(i, Some(request));
                    proof {
                        assert(self@ =~= before.update(i as int, Some(request@)));
                    }
                    Ok(copy)
                } else {
                    Err(BookingError::NotFound)
                }
            },
            None => Err(BookingError::NotFound),
        }
    }

    /// Removes the present booking with id `booking_id`, keeping its slot.
    /// Returns it, or `NotFound` when no present booking has the id.
    pub fn remove_booking(&mut self, booking_id: &str) -> (r: Result<FlightBooking<D>, BookingError>)
        requires
            old(self).wf(),
        ensures
            final(self).wf(),
            match key_slot(booking_id@, old(self)@.len() as int) {
                Some(i) => if old(self)@[i] is Some {
                    final(self)@ == old(self)@.update(i, None) && (r matches Ok(b) && is_copy(
                        old(self)@[i]->0,
                        b@,
                    ))
                } else {
                    final(self)@ == old(self)@ && r is Err
                },
                None => final(self)@ == old(self)@ && r is Err,
            },
            final(self)@ == after_remove_booking(old(self)@, booking_id@),
            r is Ok <==> booking_found(old(self)@, booking_id@),
    {
        let ghost before = self@;
        match self.slot_of(booking_id) {
            Some(i) => {
                let found = match &self.slots[i] {
                    Some(b) => Some(b.duplicate()),
                    None => None,
                };
                match found {
                    Some(b) => {
                        self.slots.set(i, None);
                        proof {
                            assert(self@ =~= before.update(i as int, None));
                        }
                        Ok(b)
                    },
                    None => Err(BookingError::NotFound),
                }
            },
            None => Err(BookingError::NotFound),
        }
    }

    /// Copies of the present bookings, in the order their ids were given out.
    pub fn list_bookings(&self) -> (r: Vec<FlightBooking<D>>)
        requires
            self.wf(),
        ensures
            r@.len() == present_bookings(self@, self@.len()).len(),
            forall|j: int|
                0 <= j < r@.len() ==> is_copy(
                    #[trigger] present_bookings(self@, self@.len())[j],
                    r@[j]@,
                ),
    {
        let mut r: Vec<FlightBooking<D>> = Vec::new();
        let n = self.slots.len();
        let mut i: usize = 0;
        while i < n
            invariant
                i <= n,
                n == self@.len(),
                r@.len() == present_bookings(self@, i as nat).len(),
                forall|j: int|
                    0 <= j < r@.len() ==> is_copy(
                        #[trigger] present_bookings(self@, i as nat)[j],
                        r@[j]@,
                    ),
            decreases n - i,
        {
            let ghost prev = present_bookings(self@, i as nat);
            assert(self@[i as int] == slot_view(self.slots@[i as int]));
            match &self.slots[i] {
                Some(b) => {
                    let c = b.duplicate();
                    let ghost old_r = r@;
                    r.push(c);
                    proof {
                        let next = present_bookings(self@, (i + 1) as nat);
                        assert(next == prev.push(b@));
                        assert forall|j: int| 0 <= j < r@.len() implies is_copy(
                            #[trigger] present_bookings(self@, (i + 1) as nat)[j],
                            r@[j]@,
                        ) by {
                            if j < prev.len() {
                                assert(next[j] == prev[j]);
                                assert(r@[j] == old_r[j]);
                                assert(is_copy(present_bookings(self@, i as nat)[j], old_r[j]@));
                            } else {
                                assert(j == prev.len());
                                assert(r@[j] == c);
                            }
                        }
                    }
                },
                None => {
                    assert(present_bookings(self@, (i + 1) as nat) == prev);
                },
            }
            i = i + 1;
        }
        r
    }
}

/// Every id given out is a key of the map, and it maps to its slot.
pub proof fn law_keyed_lookup<V>(s: Seq<Option<V>>, i: int)
    requires
        0 <= i < s.len(),
    ensures
        keyed(s).contains_key(slot_key(i)),
        keyed(s)[slot_key(i)] == s[i],
{
    lemma_slot_key(i, s.len() as int);
}

/// The map has no key but the ids given out.
pub proof fn law_keyed_keys<V>(s: Seq<Option<V>>, k: Seq<char>)
    requires
        keyed(s).contains_key(k),
    ensures
        exists|i: int| 0 <= i < s.len() && slot_key(i) == k,
{
    lemma_key_slot(k, s.len() as int);
    let i = key_slot(k, s.len() as int)->0;
    assert(0 <= i < s.len() && slot_key(i) == k);
}

/// Distinct slots have distinct ids: no id is given out twice.
pub proof fn law_ids_distinct(i: int, j: int)
    requires
        0 <= i,
        0 <= j,
        i != j,
    ensures
        slot_key(i) != slot_key(j),
{
    crate::text::lemma_decimal_injective((i + 1) as nat, (j + 1) as nat);
}

/// Adding a booking is inserting it into the map under the next id.
pub proof fn law_add_inserts<V>(s: Seq<Option<V>>, b: V)
    ensures
        keyed(s.push(Some(b))) == keyed(s).insert(slot_key(s.len() as int), Some(b)),
{
    let n = s.len() as int;
    let t = s.push(Some(b));
    let key = slot_key(n);
    lemma_slot_key(n, n + 1);
    assert forall|k: Seq<char>| #[trigger] keyed(t).contains_key(k) <==> keyed(s).insert(
        key,
        Some(b),
    ).contains_key(k) by {
        lemma_key_slot(k, n + 1);
        lemma_key_slot(k, n);
        if key_slot(k, n + 1) is Some && key_slot(k, n) is None {
            assert(key_slot(k, n + 1) == Some(n));
        }
    }
    assert forall|k: Seq<char>| #[trigger] keyed(t).contains_key(k) implies keyed(t)[k] == keyed(
        s,
    ).insert(key, Some(b))[k] by {
        lemma_key_slot(k, n + 1);
        if k == key {
        } else {
            let i = key_slot(k, n + 1)->0;
            assert(i != n);
        }
    }
    assert(keyed(t) =~= keyed(s).insert(key, Some(b)));
}

/// Changing the booking of a slot is changing the map under that slot's id.
pub proof fn law_update_inserts<V>(s: Seq<Option<V>>, i: int, x: Option<V>)
    requires
        0 <= i < s.len(),
    ensures
        keyed(s.update(i, x)) == keyed(s).insert(slot_key(i), x),
{
    let n = s.len() as int;
    let t = s.update(i, x);
    lemma_slot_key(i, n);
    assert forall|k: Seq<char>| #[trigger] keyed(t).contains_key(k) implies keyed(t)[k] == keyed(
        s,
    ).insert(slot_key(i), x)[k] by {
        lemma_key_slot(k, n);
        let j = key_slot(k, n)->0;
        if j != i {
            law_ids_distinct(i, j);
        }
    }
    assert(keyed(t) =~= keyed(s).insert(slot_key(i), x));
}

/// The id that an add gives out is not yet a key: adding never overwrites a
/// booking and never reuses the id of a removed one.
pub proof fn law_add_is_fresh<V>(s: Seq<Option<V>>)
    ensures
        !keyed(s).contains_key(slot_key(s.len() as int)),
{
    lemma_slot_key(s.len() as int, s.len() as int + 1);
}

/// Every request keeps the store invariant: each present booking carries the
/// id of its slot.
pub proof fn law_requests_keep_ids<D>(s: Seq<Option<FlightBookingView<D>>>, d: D, req: FlightBookingView<D>, id: Seq<char>)
    requires
        bookings_wf(s),
    ensures
        bookings_wf(after_add_booking(s, d)),
        bookings_wf(after_update_booking(s, req)),
        bookings_wf(after_remove_booking(s, id)),
{
    lemma_key_slot(req.booking_id, s.len() as int);
    let t = after_add_booking(s, d);
    assert forall|i: int| 0 <= i < t.len() && (#[trigger] t[i]) is Some implies t[i]->0.booking_id == slot_key(i) by {
        if i < s.len() {
            assert(t[i] == s[i]);
        }
    }
}

/// A removed booking stays removed: no add, update or remove brings it back,
/// and updates and removals of its id keep answering `NotFound`.
pub proof fn law_removed_stays_removed<D>(
    s: Seq<Option<FlightBookingView<D>>>,
    i: int,
    d: D,
    req: FlightBookingView<D>,
    id: Seq<char>,
)
    requires
        0 <= i < s.len(),
        s[i] is None,
    ensures
        !booking_found(s, slot_key(i)),
        after_add_booking(s, d)[i] is None,
        after_update_booking(s, req)[i] is None,
        after_remove_booking(s, id)[i] is None,
        !booking_found(after_add_booking(s, d), slot_key(i)),
        !booking_found(after_update_booking(s, req), slot_key(i)),
        !booking_found(after_remove_booking(s, id), slot_key(i)),
{
    let n = s.len() as int;
    lemma_slot_key(i, n);
    lemma_slot_key(i, n + 1);
    lemma_key_slot(req.booking_id, n);
    lemma_key_slot(id, n);
    if booking_found(s, req.booking_id) {
        assert(key_slot(req.booking_id, n)->0 != i);
    }
    if booking_found(s, id) {
        assert(key_slot(id, n)->0 != i);
    }
}

/// The listing of slots `0 .. n` holds every booking present there: for each
/// slot that holds a booking, some entry of the listing is that booking.
pub proof fn law_listing_holds_every_present_booking<D>(
    s: Seq<Option<FlightBookingView<D>>>,
    n: nat,
    i: int,
)
    requires
        n <= s.len(),
        0 <= i < n,
        s[i] is Some,
    ensures
        exists|j: int|
            0 <= j < present_bookings(s, n).len() && present_bookings(s, n)[j] == s[i]->0,
    decreases n,
{
    let prev = present_bookings(s, (n - 1) as nat);
    if i == n - 1 {
        let j = prev.len() as int;
        assert(present_bookings(s, n)[j] == s[i]->0);
    } else {
        law_listing_holds_every_present_booking(s, (n - 1) as nat, i);
        let j = choose|j: int| 0 <= j < prev.len() && prev[j] == s[i]->0;
        assert(present_bookings(s, n)[j] == prev[j]);
    }
}

/// The listing of slots `0 .. n` holds nothing else: each entry is the
/// booking of some slot below `n`, and there are at most `n` entries.
pub proof fn law_listing_holds_only_present_bookings<D>(
    s: Seq<Option<FlightBookingView<D>>>,
    n: nat,
    j: int,
)
    requires
        n <= s.len(),
        0 <= j < present_bookings(s, n).len(),
    ensures
        present_bookings(s, n).len() <= n,
        exists|i: int| 0 <= i < n && s[i] == Some(present_bookings(s, n)[j]),
    decreases n,
{
    let prev = present_bookings(s, (n - 1) as nat);
    lemma_listing_len(s, (n - 1) as nat);
    if j < prev.len() {
        law_listing_holds_only_present_bookings(s, (n - 1) as nat, j);
        assert(present_bookings(s, n)[j] == prev[j]);
        let i = choose|i: int| 0 <= i < n - 1 && s[i] == Some(prev[j]);
        assert(s[i] == Some(present_bookings(s, n)[j]));
    } else {
        let i = n - 1;
        assert(s[i] == Some(present_bookings(s, n)[j]));
    }
}

proof fn lemma_listing_len<D>(s: Seq<Option<FlightBookingView<D>>>, n: nat)
    ensures
        present_bookings(s, n).len() <= n,
    decreases n,
{
    if n > 0 {
        lemma_listing_len(s, (n - 1) as nat);
    }
}

/// The listing of slots `0 .. n` has exactly as many entries as slots below
/// `n` hold a booking: none is left out and none is listed twice.
pub proof fn law_listing_counts_present_slots<D>(s: Seq<Option<FlightBookingView<D>>>, n: nat)
    requires
        n <= s.len(),
    ensures
        present_bookings(s, n).len() == Set::new(|i: int| 0 <= i < n && s[i] is Some).len(),
    decreases n,
{
    let cur = Set::new(|i: int| 0 <= i < n && s[i] is Some);
    if n == 0 {
        assert(cur =~= Set::empty());
    } else {
        let prev = Set::new(|i: int| 0 <= i < n - 1 && s[i] is Some);
        law_listing_counts_present_slots(s, (n - 1) as nat);
        lemma_present_slots_finite(s, (n - 1) as nat);
        if s[n - 1] is Some {
            assert(cur =~= prev.insert(n - 1));
        } else {
            assert(cur =~= prev);
        }
    }
}

proof fn lemma_present_slots_finite<D>(s: Seq<Option<FlightBookingView<D>>>, n: nat)
    ensures
        Set::new(|i: int| 0 <= i < n && s[i] is Some).finite(),
{
    let a = Set::new(|i: int| 0 <= i < n && s[i] is Some);
    let r = Set::new(|i: int| 0 <= i < n);
    vstd::set_lib::lemma_int_range(0, n as int);
    assert(r =~= vstd::set_lib::set_int_range(0, n as int));
    assert(a.subset_of(r));
    vstd::set_lib::lemma_len_subset(a, r);
}

} // verus!
