use webservices::clock::Instant;
use webservices::tour_cache::{CachedTourStore, CatalogTour, StoreError};

fn tour(id: u64, name: &str, customers: &[u64]) -> CatalogTour {
    CatalogTour { id, name: name.to_string(), customers: customers.to_vec() }
}

fn at(secs: i64) -> Instant {
    Instant { secs, nanos: 0 }
}

fn rfc2822(secs: i64) -> String {
    chrono::DateTime::from_timestamp(secs, 0).unwrap().to_rfc2822()
}

#[test]
fn create_then_read() {
    let mut s = CachedTourStore::new();
    let p = s.create_at(tour(77, "Alps", &[1, 2]), at(1_000_000)).ok().unwrap();
    assert_eq!(p.tour.id, 0);
    assert_eq!(p.tour.customers, vec![1, 2]);
    assert_eq!(p.location, "/tour/0");
    assert_eq!(p.last_modified, rfc2822(1_000_000));
    assert_eq!(p.last_modified, "Mon, 12 Jan 1970 13:46:40 +0000");
    let r = s.read(0).unwrap();
    assert_eq!(r.tour.name, "Alps");
    assert_eq!(r.last_modified, rfc2822(1_000_000));
    assert!(s.read(1).is_none());
}

#[test]
fn update_and_delete() {
    let mut s = CachedTourStore::new();
    s.create_at(tour(0, "Alps", &[]), at(100)).ok().unwrap();
    let u = s.update_at(0, tour(9, "Alps II", &[3]), at(200)).ok().unwrap();
    assert_eq!(u.tour.id, 0);
    assert_eq!(u.tour.name, "Alps II");
    assert_eq!(u.location, "/tour/0");
    assert_eq!(s.read(0).unwrap().last_modified, rfc2822(200));
    assert!(matches!(s.update_at(4, tour(0, "x", &[]), at(300)), Err(StoreError::NotFound)));
    assert!(s.delete_at(0, at(300)));
    assert!(s.read(0).is_none());
    assert!(!s.delete_at(0, at(400)));
    assert!(matches!(s.update_at(0, tour(0, "x", &[]), at(500)), Err(StoreError::NotFound)));
}

#[test]
fn clock_operations_use_the_current_time() {
    let mut s = CachedTourStore::new();
    let before = chrono::Utc::now().timestamp();
    let p = s.create(tour(0, "Alps", &[])).ok().unwrap();
    assert!(p.modified.secs >= before);
    assert!(matches!(s.delete(1), Err(StoreError::NotFound)));
    assert!(s.update(0, tour(0, "B", &[])).is_ok());
    assert!(s.delete(0).is_ok());
    assert!(s.read(0).is_none());
}

#[test]
fn catalogue_lists_present_tours_with_validators() {
    let mut s = CachedTourStore::new();
    s.create_at(tour(0, "Alps", &[]), at(100)).ok().unwrap();
    s.create_at(tour(0, "Tatra", &[5]), at(300)).ok().unwrap();
    s.create_at(tour(0, "Šumava", &[]), at(200)).ok().unwrap();
    s.delete_at(1, at(400));
    let c = s.read_all().ok().unwrap();
    let names: Vec<&str> = c.tours.iter().map(|t| t.name.as_str()).collect();
    assert_eq!(names, vec!["Alps", "Šumava"]);
    let ids: Vec<u64> = c.tours.iter().map(|t| t.id).collect();
    assert_eq!(ids, vec![0, 2]);
    assert_eq!(c.last_modified, rfc2822(400));
    let mut bytes = Vec::new();
    for t in &c.tours {
        bytes.extend(t.id.to_le_bytes());
        bytes.extend(t.name.as_bytes());
    }
    let mut expected = etag::EntityTag::from_data(&bytes);
    expected.weak = true;
    assert_eq!(c.etag, expected.to_string());
    assert!(c.etag.starts_with("W/\""));
}

#[test]
fn empty_catalogue_dates_from_the_epoch() {
    let s = CachedTourStore::new();
    let c = s.read_all().ok().unwrap();
    assert!(c.tours.is_empty());
    assert_eq!(c.last_modified, rfc2822(0));
    let mut expected = etag::EntityTag::from_data(&[]);
    expected.weak = true;
    assert_eq!(c.etag, expected.to_string());
}

#[test]
fn delete_of_present_tour_always_succeeds() {
    let mut s = CachedTourStore::new();
    s.create_at(tour(0, "Alps", &[]), at(100)).ok().unwrap();
    assert!(s.delete_at(0, Instant { secs: i64::MAX, nanos: 0 }));
    assert!(s.read(0).is_none());
    assert!(matches!(s.read_all(), Err(StoreError::UnwritableTime(t)) if t.secs == i64::MAX));
    assert!(matches!(s.delete(0), Err(StoreError::NotFound)));
}

#[test]
fn unwritable_times_are_refused_and_returned() {
    let mut s = CachedTourStore::new();
    let far = Instant { secs: i64::MAX, nanos: 0 };
    assert!(matches!(
        s.create_at(tour(0, "Alps", &[]), Instant { secs: i64::MAX, nanos: 0 }),
        Err(StoreError::UnwritableTime(t)) if t.secs == far.secs
    ));
    assert!(s.read(0).is_none());
    s.create_at(tour(0, "Alps", &[]), at(100)).ok().unwrap();
    assert!(matches!(
        s.update_at(0, tour(0, "Tatra", &[]), Instant { secs: i64::MAX, nanos: 0 }),
        Err(StoreError::UnwritableTime(t)) if t.secs == far.secs
    ));
    assert!(matches!(
        s.update_at(1, tour(0, "Tatra", &[]), Instant { secs: i64::MAX, nanos: 0 }),
        Err(StoreError::NotFound)
    ));
    let r = s.read(0).unwrap();
    assert_eq!(r.tour.name, "Alps");
    assert_eq!(r.last_modified, rfc2822(100));
}
