use webservices::booking_format::{apply_line, transform_lines, Booking, BookingPatterns, BookingReader};

fn lines(text: &[&str]) -> Vec<String> {
    text.iter().map(|l| l.to_string()).collect()
}

#[test]
fn block_fields_are_copied() {
    let pats = BookingPatterns::new().expect("the format's patterns compile");
    let input = lines(&[
        "Some preamble",
        "===",
        "Tour id: \"T-42\"",
        "Location: \"Prague\"",
        "Person: \"John Smith\"",
        "===",
        "Tour id: \"ignored\"",
    ]);
    let b = transform_lines(&pats, &input);
    assert_eq!(b.id, "T-42");
    assert_eq!(b.location, "Prague");
    assert_eq!(b.person.name, "John");
    assert_eq!(b.person.surname, "Smith");
}

#[test]
fn surname_keeps_later_blanks() {
    let pats = BookingPatterns::new().unwrap();
    let b = transform_lines(&pats, &lines(&["===", "Person: \"Anna Maria von Trapp\"", "==="]));
    assert_eq!(b.person.name, "Anna");
    assert_eq!(b.person.surname, "Maria von Trapp");
}

#[test]
fn lines_outside_blocks_are_ignored() {
    let pats = BookingPatterns::new().unwrap();
    let b = transform_lines(
        &pats,
        &lines(&["Tour id: \"A\"", "===", "===", "Location: \"Brno\"", "===", "Location: \"Plzen\""]),
    );
    assert_eq!(b.id, "");
    assert_eq!(b.location, "Plzen");
}

#[test]
fn unmatched_and_unquoted_lines_change_nothing() {
    let pats = BookingPatterns::new().unwrap();
    let b = transform_lines(
        &pats,
        &lines(&["===", "Tour id: T-1", "Tour id: \"\"", "Comment: \"x\"", "Person: \"Nobody\"", "==="]),
    );
    assert_eq!(b.id, "");
    assert_eq!(b.location, "");
    assert_eq!(b.person.name, "");
    assert_eq!(b.person.surname, "");
}

#[test]
fn later_lines_overwrite_earlier_ones() {
    let pats = BookingPatterns::new().unwrap();
    let b = transform_lines(&pats, &lines(&["===", "Tour id: \"first\"", "Tour id: \"second\"", "==="]));
    assert_eq!(b.id, "second");
}

#[test]
fn value_spans_first_to_last_quote() {
    let pats = BookingPatterns::new().unwrap();
    let b = transform_lines(&pats, &lines(&["===", "Location: \"Old \"Town\" Square\""]));
    assert_eq!(b.location, "Old \"Town\" Square");
}

#[test]
fn reader_feeds_line_by_line() {
    let pats = BookingPatterns::new().unwrap();
    let mut r = BookingReader::new();
    assert!(!r.reading);
    r.feed(&pats, "===");
    assert!(r.reading);
    r.feed(&pats, "Tour id: \"X9\"");
    assert_eq!(r.booking.id, "X9");
    r.feed(&pats, "===");
    assert!(!r.reading);
}

#[test]
fn apply_line_uses_the_given_matches() {
    let mut b = Booking::new();
    apply_line(&mut b, "anything \"v\"", false, true, false);
    assert_eq!(b.location, "v");
    apply_line(&mut b, "x \"a b\"", false, false, true);
    assert_eq!(b.person.name, "a");
    assert_eq!(b.person.surname, "b");
    apply_line(&mut b, "x \"q\"", false, false, false);
    assert_eq!(b.id, "");
}
