use webservices::flight_booking::{BookingStore, FlightBooking};

fn booking(id: &str, details: &str) -> FlightBooking<String> {
    FlightBooking { booking_id: id.to_string(), details: details.to_string() }
}

#[test]
fn ids_are_given_out_from_one() {
    let mut s: BookingStore<String> = BookingStore::new();
    let a = s.add_booking(booking("ignored", "PRG-LHR"));
    assert_eq!(a.booking_id, "1");
    assert_eq!(a.details, "PRG-LHR");
    let b = s.add_booking(booking("", "VIE-JFK"));
    assert_eq!(b.booking_id, "2");
    assert_eq!(s.len(), 2);
}

#[test]
fn update_replaces_present_bookings_only() {
    let mut s: BookingStore<String> = BookingStore::new();
    s.add_booking(booking("", "PRG-LHR"));
    let u = s.update_booking(booking("1", "PRG-CDG")).ok().unwrap();
    assert_eq!(u.details, "PRG-CDG");
    assert_eq!(s.list_bookings()[0].details, "PRG-CDG");
    assert!(s.update_booking(booking("2", "x")).is_err());
    assert!(s.update_booking(booking("01", "x")).is_err());
    assert!(s.update_booking(booking("one", "x")).is_err());
}

#[test]
fn remove_keeps_the_id_used() {
    let mut s: BookingStore<String> = BookingStore::new();
    s.add_booking(booking("", "A"));
    s.add_booking(booking("", "B"));
    let r = s.remove_booking("1").ok().unwrap();
    assert_eq!(r.details, "A");
    assert!(s.remove_booking("1").is_err());
    let e = s.update_booking(booking("1", "C")).err().unwrap();
    assert_eq!(e.message(), "booking not found");
    let c = s.add_booking(booking("", "C"));
    assert_eq!(c.booking_id, "3");
    let listed: Vec<String> = s.list_bookings().into_iter().map(|b| b.booking_id).collect();
    assert_eq!(listed, vec!["2".to_string(), "3".to_string()]);
}
