use webservices::tour_confirm::{
    ConfirmingTourStore, Tour, STATUS_BAD_REQUEST, STATUS_CREATED, STATUS_NOT_FOUND,
    STATUS_NO_CONTENT, STATUS_OK,
};

fn tour(name: &str) -> Tour {
    Tour { id: 999, name: name.to_string() }
}

#[test]
fn create_numbers_tours_from_zero() {
    let mut s = ConfirmingTourStore::new();
    let a = s.create(tour("Alps"));
    assert_eq!(a.status, STATUS_CREATED);
    assert_eq!(a.location, "/tours/0");
    let t = a.tour.unwrap();
    assert_eq!(t.id, 0);
    assert_eq!(t.name, "Alps");
    let b = s.create(tour("Tatra"));
    assert_eq!(b.location, "/tours/1");
    assert_eq!(b.tour.unwrap().id, 1);
}

#[test]
fn read_unknown_is_not_found() {
    let s = ConfirmingTourStore::new();
    let r = s.read(5);
    assert_eq!(r.status, STATUS_NOT_FOUND);
    assert_eq!(r.location, "/tours/5");
    assert!(r.tour.is_none());
}

#[test]
fn deletion_takes_a_request_and_a_confirmation() {
    let mut s = ConfirmingTourStore::new();
    s.create(tour("Alps"));
    let d = s.delete(0);
    assert_eq!(d.status, STATUS_OK);
    assert_eq!(d.tour.unwrap().name, "Alps");
    let r = s.read(0);
    assert_eq!(r.status, STATUS_OK);
    let again = s.delete(0);
    assert_eq!(again.status, STATUS_OK);
    assert_eq!(again.tour.unwrap().name, "Alps");
    let c = s.confirm_delete(0);
    assert_eq!(c.status, STATUS_NO_CONTENT);
    assert!(c.tour.is_none());
    assert_eq!(s.read(0).status, STATUS_NOT_FOUND);
    assert_eq!(s.delete(0).status, STATUS_NO_CONTENT);
    assert_eq!(s.confirm_delete(0).status, STATUS_NO_CONTENT);
}

#[test]
fn confirmation_without_request_is_refused() {
    let mut s = ConfirmingTourStore::new();
    s.create(tour("Alps"));
    assert_eq!(s.confirm_delete(0).status, STATUS_BAD_REQUEST);
    assert_eq!(s.read(0).status, STATUS_OK);
    assert_eq!(s.confirm_delete(3).status, STATUS_NOT_FOUND);
    assert_eq!(s.delete(3).status, STATUS_NOT_FOUND);
}
