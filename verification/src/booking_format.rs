//! Conversion of a booking written in the line-oriented text format into a
//! structured booking record.
//!
//! The text holds blocks delimited by lines that read `===`. Inside a block,
//! a line is recognised by three regular expressions (tour id, location,
//! person), and the quoted value it carries is copied into the booking.
//! Lines outside blocks are ignored.

use vstd::prelude::*;
use vstd::string::*;
use crate::line_pattern::{LinePattern, regex_compiles, regex_is_match};
use crate::text::{
    chars_of, find_char_from, first_index, first_index_from, last_index, lemma_first_index_from,
    lemma_last_index_before, rfind_char,
};

verus! {

/// The pattern of a tour-id line: `Tour id: "<id>"`.
pub open spec fn tour_id_pattern() -> Seq<char> {
    "^Tour id: \".+\"$"@
}

/// The pattern of a location line: `Location: "<location>"`.
pub open spec fn location_pattern() -> Seq<char> {
    "^Location: \".+\"$"@
}

/// The pattern of a person line: `Person: "<name> <surname>"`.
pub open spec fn person_pattern() -> Seq<char> {
    "^Person: \".+ .+\"$"@
}

/// The three line patterns of the format, compiled.
pub struct BookingPatterns {
    tour_id: LinePattern,
    location: LinePattern,
    person: LinePattern,
}

/// The texts of the three patterns: tour id, location, person.
pub struct PatternTexts {
    pub tour_id: Seq<char>,
    pub location: Seq<char>,
    pub person: Seq<char>,
}

impl View for BookingPatterns {
    type V = PatternTexts;

    closed spec fn view(&self) -> PatternTexts {
        PatternTexts { tour_id: self.tour_id@, location: self.location@, person: self.person@ }
    }
}

/// The pattern texts of the booking format.
pub open spec fn booking_pattern_texts() -> PatternTexts {
    PatternTexts {
        tour_id: tour_id_pattern(),
        location: location_pattern(),
        person: person_pattern(),
    }
}

impl BookingPatterns {
    /// Compiles the three patterns of the format; `None` when one of them is refused.
    pub fn new() -> (r: Option<BookingPatterns>)
        ensures
            r is Some <==> regex_compiles(tour_id_pattern()) && regex_compiles(location_pattern())
                && regex_compiles(person_pattern()),
            r matches Some(p) ==> p@ == booking_pattern_texts(),
    {
        let tour_id = LinePattern::compile("^Tour id: \".+\"$");
        let location = LinePattern::compile("^Location: \".+\"$");
        let person = LinePattern::compile("^Person: \".+ .+\"$");
        match (tour_id, location, person) {
            (Some(tour_id), Some(location), Some(person)) => Some(
                BookingPatterns { tour_id, location, person },
            ),
            _ => None,
        }
    }
}

/// The person of a booking.
pub struct Person {
    pub name: String,
    pub surname: String,
}

/// A booking: the tour, where it takes place, and who booked it.
pub struct Booking {
    pub id: String,
    pub location: String,
    pub person: Person,
}

/// The text of each field of a booking.
pub struct BookingView {
    pub id: Seq<char>,
    pub location: Seq<char>,
    pub name: Seq<char>,
    pub surname: Seq<char>,
}

impl View for Booking {
    type V = BookingView;

    open spec fn view(&self) -> BookingView {
        BookingView {
            id: self.id@,
            location: self.location@,
            name: self.person.name@,
            surname: self.person.surname@,
        }
    }
}

/// The booking with every field empty.
pub open spec fn empty_booking() -> BookingView {
    BookingView {
        id: Seq::empty(),
        location: Seq::empty(),
        name: Seq::empty(),
        surname: Seq::empty(),
    }
}

impl Booking {
    /// A booking with every field empty.
    pub fn new() -> (b: Booking)
        ensures
            b@ == empty_booking(),
    {
        Booking {
            id: String::new(),
            location: String::new(),
            person: Person { name: String::new(), surname: String::new() },
        }
    }
}

/// Which of the three patterns decides a line: the first one that matches.
pub enum LineKind {
    TourId,
    Location,
    Person,
    Other,
}

/// The kind of a line, from whether each pattern matches it (tried in order).
pub open spec fn line_kind(tour_id: bool, location: bool, person: bool) -> LineKind {
    if tour_id {
        LineKind::TourId
    } else if location {
        LineKind::Location
    } else if person {
        LineKind::Person
    } else {
        LineKind::Other
    }
}

/// The first and the last double quote of a line, when it has one.
pub open spec fn quote_span(line: Seq<char>) -> Option<(int, int)> {
    match (first_index(line, '"'), last_index(line, '"')) {
        (Some(l), Some(r)) => Some((l, r)),
        _ => None,
    }
}

/// The value of a line can be cut out of it: the span between the quotes is
/// not empty-or-reversed, and for a person line a blank follows the first
/// quote before the last one.
pub open spec fn line_is_applicable(line: Seq<char>, kind: LineKind) -> bool {
    match quote_span(line) {
        None => true,
        Some((l, r)) => match kind {
            LineKind::TourId => l < r,
            LineKind::Location => l < r,
            LineKind::Person => match first_index_from(line, ' ', l) {
                Some(sp) => sp < r,
                None => false,
            },
            LineKind::Other => true,
        },
    }
}

/// What a line inside a block does to the booking: the text between the first
/// and the last quote becomes the tour id or the location; for a person line,
/// the text up to the first blank is the name and the rest the surname.
pub open spec fn apply_line_spec(b: BookingView, line: Seq<char>, kind: LineKind) -> BookingView {
    match quote_span(line) {
        None => b,
        Some((l, r)) => match kind {
            LineKind::TourId => BookingView { id: line.subrange(l + 1, r), ..b },
            LineKind::Location => BookingView { location: line.subrange(l + 1, r), ..b },
            LineKind::Person => match first_index_from(line, ' ', l) {
                Some(sp) => BookingView {
                    name: line.subrange(l + 1, sp),
                    surname: line.subrange(sp + 1, r),
                    ..b
                },
                None => b,
            },
            LineKind::Other => b,
        },
    }
}

/// Applies one line inside a block to `booking`, given which patterns match it.
pub fn apply_line(booking: &mut Booking, line: &str, tour_id: bool, location: bool, person: bool)
    requires
        line_is_applicable(line@, line_kind(tour_id, location, person)),
    ensures
        final(booking)@ == apply_line_spec(old(booking)@, line@, line_kind(tour_id, location, person)),
{
    let chars = chars_of(line);
    let first = find_char_from(&chars, '"', 0);
    let last = rfind_char(&chars, '"');
    proof {
        lemma_first_index_from(line@, '"', 0);
        lemma_last_index_before(line@, '"', line@.len() as int);
    }
    match (first, last) {
        (Some(l), Some(r)) => {
            if tour_id {
                booking.id = line.substring_char(l + 1, r).to_owned();
            } else if location {
                booking.location = line.substring_char(l + 1, r).to_owned();
            } else if person {
                let blank = find_char_from(&chars, ' ', l);
                proof {
                    lemma_first_index_from(line@, ' ', l as int);
                }
                match blank {
                    Some(sp) => {
                        booking.person.name = line.substring_char(l + 1, sp).to_owned();
                        booking.person.surname = line.substring_char(sp + 1, r).to_owned();
                    },
                    None => {},
                }
            }
        },
        _ => {},
    }
}

/// The state of a reader: the booking so far, and whether it is inside a block.
pub struct BookingReader {
    pub booking: Booking,
    pub reading: bool,
}

/// The state of a reader, as values.
pub struct ReaderView {
    pub booking: BookingView,
    pub reading: bool,
}

impl View for BookingReader {
    type V = ReaderView;

    open spec fn view(&self) -> ReaderView {
        ReaderView { booking: self.booking@, reading: self.reading }
    }
}

/// The line that opens and closes a block.
pub open spec fn separator() -> Seq<char> {
    seq!['=', '=', '=']
}

/// What one line does to a reader: the separator toggles the block; a line
/// inside a block that holds a quote is classified by the patterns and applied.
pub open spec fn reader_step(pats: PatternTexts, st: ReaderView, line: Seq<char>) -> ReaderView {
    if line == separator() {
        ReaderView { reading: !st.reading, ..st }
    } else if !st.reading {
        st
    } else {
        match quote_span(line) {
            None => st,
            Some(_) => {
                let kind = line_kind(
                    regex_is_match(pats.tour_id, line),
                    regex_is_match(pats.location, line),
                    regex_is_match(pats.person, line),
                );
                if line_is_applicable(line, kind) {
                    ReaderView { booking: apply_line_spec(st.booking, line, kind), ..st }
                } else {
                    st
                }
            },
        }
    }
}

/// The reader before any line.
pub open spec fn initial_reader() -> ReaderView {
    ReaderView { booking: empty_booking(), reading: false }
}

/// The reader after the given lines, in order.
pub open spec fn read_lines(pats: PatternTexts, lines: Seq<Seq<char>>) -> ReaderView
    decreases lines.len(),
{
    if lines.len() == 0 {
        initial_reader()
    } else {
        reader_step(pats, read_lines(pats, lines.drop_last()), lines.last())
    }
}

fn is_separator(chars: &Vec<char>) -> (r: bool)
    ensures
        r == (chars@ == separator()),
{
    let r = chars.len() == 3 && chars[0] == '=' && chars[1] == '=' && chars[2] == '=';
    proof {
        if r {
            assert(chars@ =~= separator());
        }
    }
    r
}

impl BookingReader {
    /// A reader outside any block, with an empty booking.
    pub fn new() -> (r: BookingReader)
        ensures
            r@ == initial_reader(),
    {
        BookingReader { booking: Booking::new(), reading: false }
    }

    /// Reads one line. A line inside a block whose value cannot be cut out of
    /// it (which the patterns of the format never let through) leaves the
    /// reader as it was.
    pub fn feed(&mut self, pats: &BookingPatterns, line: &str)
        ensures
            final(self)@ == reader_step(pats@, old(self)@, line@),
    {
        let chars = chars_of(line);
        if is_separator(&chars) {
            self.reading = !self.reading;
            return;
        }
        if !self.reading {
            return;
        }
        let first = find_char_from(&chars, '"', 0);
        let last = rfind_char(&chars, '"');
        proof {
            lemma_first_index_from(line@, '"', 0);
            lemma_last_index_before(line@, '"', line@.len() as int);
        }
        let (l, r) = match (first, last) {
            (Some(l), Some(r)) => (l, r),
            _ => {
                return;
            },
        };
        let tour_id = pats.tour_id.is_match(line);
        let location = if tour_id {
            false
        } else {
            pats.location.is_match(line)
        };
        let person = if tour_id || location {
            false
        } else {
            pats.person.is_match(line)
        };
        let applicable = if tour_id || location {
            l < r
        } else if person {
            match find_char_from(&chars, ' ', l) {
                Some(sp) => sp < r,
                None => false,
            }
        } else {
            true
        };
        if applicable {
            apply_line(&mut self.booking, line, tour_id, location, person);
        }
    }
}

/// The views of a list of lines.
pub open spec fn line_views(lines: Seq<String>) -> Seq<Seq<char>> {
    lines.map_values(|l: String| l@)
}

/// Reads every line in order and returns the booking they describe.
pub fn transform_lines(pats: &BookingPatterns, lines: &Vec<String>) -> (b: Booking)
    ensures
        b@ == read_lines(pats@, line_views(lines@)).booking,
{
    let mut reader = BookingReader::new();
    let mut i: usize = 0;
    while i < lines.len()
        invariant
            i <= lines.len(),
            reader@ == read_lines(pats@, line_views(lines@).take(i as int)),
        decreases lines.len() - i,
    {
        reader.feed(pats, lines[i].as_str());
        proof {
            let vs = line_views(lines@);
            assert(vs.take(i + 1).drop_last() =~= vs.take(i as int));
            assert(vs.take(i + 1).last() == lines@[i as int]@);
        }
        i = i + 1;
    }
    proof {
        assert(line_views(lines@).take(lines.len() as int) =~= line_views(lines@));
    }
    reader.booking
}

/// The separator line opens a block when outside one and closes it when
/// inside, and leaves the booking as it is.
pub proof fn law_separator_toggles(pats: PatternTexts, st: ReaderView)
    ensures
        reader_step(pats, st, separator()).reading == !st.reading,
        reader_step(pats, st, separator()).booking == st.booking,
{
}

/// Outside a block, every line but the separator is ignored.
pub proof fn law_outside_block_ignored(pats: PatternTexts, st: ReaderView, line: Seq<char>)
    requires
        !st.reading,
        line != separator(),
    ensures
        reader_step(pats, st, line) == st,
{
}

/// A line without a double quote never changes the booking.
pub proof fn law_unquoted_line_keeps_booking(pats: PatternTexts, st: ReaderView, line: Seq<char>)
    requires
        !line.contains('"'),
    ensures
        reader_step(pats, st, line).booking == st.booking,
{
    lemma_first_index_from(line, '"', 0);
    if first_index(line, '"') is Some {
        let k = first_index(line, '"')->0;
        assert(line[k] == '"');
        assert(line.contains('"'));
    }
}

/// Inside a block, a line recognised by the tour-id pattern (and not
/// otherwise) sets the tour id to the text between its first and its last
/// quote, and nothing else.
pub proof fn law_tour_id_line(pats: PatternTexts, st: ReaderView, line: Seq<char>, l: int, r: int)
    requires
        st.reading,
        line != separator(),
        quote_span(line) == Some((l, r)),
        l < r,
        regex_is_match(pats.tour_id, line),
    ensures
        reader_step(pats, st, line) == (ReaderView {
            booking: BookingView { id: line.subrange(l + 1, r), ..st.booking },
            reading: true,
        }),
{
}

/// Inside a block, a line recognised by the location pattern (and not by the
/// tour-id pattern) sets the location to the text between its first and its
/// last quote, whatever location the booking held before, and nothing else.
pub proof fn law_location_line(pats: PatternTexts, st: ReaderView, line: Seq<char>, l: int, r: int)
    requires
        st.reading,
        line != separator(),
        quote_span(line) == Some((l, r)),
        l < r,
        !regex_is_match(pats.tour_id, line),
        regex_is_match(pats.location, line),
    ensures
        reader_step(pats, st, line) == (ReaderView {
            booking: BookingView { location: line.subrange(l + 1, r), ..st.booking },
            reading: true,
        }),
{
}

/// Inside a block, a line recognised by the person pattern alone, with a
/// blank at `sp` after its first quote and before its last, sets the name
/// to the text between the first quote and that blank and the surname to
/// the text between that blank and the last quote, whatever the booking
/// held before, and nothing else.
pub proof fn law_person_line(
    pats: PatternTexts,
    st: ReaderView,
    line: Seq<char>,
    l: int,
    r: int,
    sp: int,
)
    requires
        st.reading,
        line != separator(),
        quote_span(line) == Some((l, r)),
        first_index_from(line, ' ', l) == Some(sp),
        sp < r,
        !regex_is_match(pats.tour_id, line),
        !regex_is_match(pats.location, line),
        regex_is_match(pats.person, line),
    ensures
        reader_step(pats, st, line) == (ReaderView {
            booking: BookingView {
                name: line.subrange(l + 1, sp),
                surname: line.subrange(sp + 1, r),
                ..st.booking
            },
            reading: true,
        }),
{
}

/// Of two location lines read in turn inside a block, the later one decides
/// the location.
pub proof fn law_later_location_wins(
    pats: PatternTexts,
    st: ReaderView,
    a: Seq<char>,
    la: int,
    ra: int,
    b: Seq<char>,
    lb: int,
    rb: int,
)
    requires
        st.reading,
        a != separator(),
        b != separator(),
        quote_span(a) == Some((la, ra)),
        la < ra,
        quote_span(b) == Some((lb, rb)),
        lb < rb,
        !regex_is_match(pats.tour_id, a),
        regex_is_match(pats.location, a),
        !regex_is_match(pats.tour_id, b),
        regex_is_match(pats.location, b),
    ensures
        reader_step(pats, reader_step(pats, st, a), b).booking.location == b.subrange(lb + 1, rb),
        reader_step(pats, reader_step(pats, st, a), b).reading,
{
    law_location_line(pats, st, a, la, ra);
    law_location_line(pats, reader_step(pats, st, a), b, lb, rb);
}

} // verus!
