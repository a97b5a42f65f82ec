//! Points in time, as the services store and compare them, and their
//! RFC 2822 text (the form of the `Last-Modified` and `If-Modified-Since`
//! headers), through `chrono`.

use vstd::prelude::*;

verus! {

/// A point in time: whole seconds since 1970-01-01T00:00:00Z and the
/// nanoseconds past that second.
pub struct Instant {
    pub secs: i64,
    pub nanos: u32,
}

impl Instant {
    /// The Unix epoch.
    pub fn epoch() -> (t: Instant)
        ensures
            t.secs == 0 && t.nanos == 0,
    {
        Instant { secs: 0, nanos: 0 }
    }

    /// A copy of the instant.
    pub fn copy(&self) -> (t: Instant)
        ensures
            t == *self,
    {
        Instant { secs: self.secs, nanos: self.nanos }
    }

    /// Whether `self` is not later than `other`.
    pub fn not_after(&self, other: &Instant) -> (r: bool)
        ensures
            r == instant_le(*self, *other),
    {
        self.secs < other.secs || (self.secs == other.secs && self.nanos <= other.nanos)
    }
}

/// `a` is not later than `b` (the order of `chrono` date-times).
pub open spec fn instant_le(a: Instant, b: Instant) -> bool {
    a.secs < b.secs || (a.secs == b.secs && a.nanos <= b.nanos)
}

/// The later of two instants.
pub open spec fn instant_max(a: Instant, b: Instant) -> Instant {
    if instant_le(b, a) {
        a
    } else {
        b
    }
}

/// The first second of the year 0, UTC.
pub const FIRST_RFC2822_SECOND: i64 = -62167219200;

/// The last second of the year 9999, UTC.
pub const LAST_RFC2822_SECOND: i64 = 253402300799;

/// `t` falls in the years 0 to 9999, which RFC 2822 can write, and its
/// nanoseconds are below one second.
pub open spec fn rfc2822_writable(t: Instant) -> bool {
    &&& FIRST_RFC2822_SECOND <= t.secs <= LAST_RFC2822_SECOND
    &&& t.nanos < 1_000_000_000
}

/// Whether `t` can be written in RFC 2822.
pub fn is_rfc2822_writable(t: &Instant) -> (r: bool)
    ensures
        r == rfc2822_writable(*t),
{
    FIRST_RFC2822_SECOND <= t.secs && t.secs <= LAST_RFC2822_SECOND && t.nanos < 1_000_000_000
}

/// The RFC 2822 text of the UTC date-time `secs` seconds after the epoch
/// (`chrono::DateTime::<Utc>::to_rfc2822`, which ignores the sub-second part).
pub uninterp spec fn rfc2822_text(secs: int) -> Seq<char>;

/// The instant that `chrono::DateTime::parse_from_rfc2822` reads in `text`,
/// as seconds and nanoseconds, or `None` when it refuses the text.
pub uninterp spec fn rfc2822_parse(text: Seq<char>) -> Option<(i64, u32)>;

/// Writes `t` with `chrono::DateTime::<Utc>::to_rfc2822`. `chrono` builds the
/// date-time with `DateTime::from_timestamp`, which accepts every writable
/// instant, and panics on years outside 0 to 9999, which `requires` excludes.
/// The text is the named one of the seconds.
#[verifier::external_body]
pub(crate) fn format_rfc2822(t: &Instant) -> (s: String)
    requires
        rfc2822_writable(*t),
    ensures
        s@ == rfc2822_text(t.secs as int),
{
    chrono::DateTime::from_timestamp(t.secs, t.nanos).unwrap().to_rfc2822()
}

/// Reads an RFC 2822 date with `chrono::DateTime::parse_from_rfc2822`, and
/// gives its instant (`timestamp` and `timestamp_subsec_nanos`).
#[verifier::external_body]
pub(crate) fn parse_rfc2822(text: &str) -> (r: Option<Instant>)
    ensures
        r is None <==> rfc2822_parse(text@) is None,
        r matches Some(t) ==> rfc2822_parse(text@) == Some((t.secs, t.nanos)),
{
    match chrono::DateTime::parse_from_rfc2822(text) {
        Ok(d) => Some(Instant { secs: d.timestamp(), nanos: d.timestamp_subsec_nanos() }),
        Err(_) => None,
    }
}

/// The current time, from `chrono::Utc::now`. Of the result only this is
/// stated: its nanoseconds are below one second (`timestamp_subsec_nanos`
/// of a non-leap instant read from the system clock).
#[verifier::external_body]
pub(crate) fn clock_now() -> (t: Instant)
    ensures
        t.nanos < 1_000_000_000,
{
    let d = chrono::Utc::now();
    Instant { secs: d.timestamp(), nanos: d.timestamp_subsec_nanos() }
}

} // verus!
