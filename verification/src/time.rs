//! Time spans, wall-clock timestamps and readings of the monotonic clock.

use chrono::{Offset, TimeZone};
use std::time::Instant;
use vstd::prelude::*;

verus! {

// ---------------------------------------------------------------------------
// Spans
// ---------------------------------------------------------------------------

/// A length of time, in nanoseconds.
#[derive(Debug, Clone, Copy, PartialEq, Eq, Structural)]
pub struct Span {
    pub nanos: u128,
}

impl Span {
    /// A span of whole seconds.
    pub fn from_secs(secs: u64) -> (r: Span)
        ensures
            r.nanos == secs * 1_000_000_000,
    {
        Span { nanos: secs as u128 * 1_000_000_000 }
    }

    /// A span of whole milliseconds.
    pub fn from_millis(millis: u64) -> (r: Span)
        ensures
            r.nanos == millis * 1_000_000,
    {
        Span { nanos: millis as u128 * 1_000_000 }
    }
}

// ---------------------------------------------------------------------------
// Timestamps
// ---------------------------------------------------------------------------

/// The last second that a timestamp can hold: the end of the year 262142.
pub const MAX_UNIX_SECS: i64 = 8_210_266_876_799;

/// Whether the parts are those of a point in time with a local offset.
pub open spec fn timestamp_parts(secs: int, nanos: int, offset: int) -> bool {
    &&& 0 <= secs <= MAX_UNIX_SECS
    &&& 0 <= nanos < 1_000_000_000
    &&& -86_400 < offset < 86_400
}

/// The RFC 3339 text of the point `secs` seconds and `nanos` nanoseconds behind
/// the Unix epoch, at `offset` seconds east of Greenwich: the result of
/// `DateTime::to_rfc3339`.
pub uninterp spec fn rfc3339(secs: int, nanos: int, offset: int) -> Seq<char>;

/// `chrono::DateTime::to_rfc3339` on the point in time with these parts. The
/// text depends on the parts alone.
#[verifier::external_body]
fn format_rfc3339(secs: i64, nanos: u32, offset: i32) -> (r: String)
    requires
        timestamp_parts(secs as int, nanos as int, offset as int),
    ensures
        r@ == rfc3339(secs as int, nanos as int, offset as int),
{
    let zone = chrono::FixedOffset::east_opt(offset).unwrap();
    zone.timestamp_opt(secs, nanos).unwrap().to_rfc3339()
}

/// A point in time with the local offset that held then.
#[derive(Debug, Clone, Copy, Eq)]
pub struct Timestamp {
    secs: i64,
    nanos: u32,
    offset: i32,
    read: bool,
}

impl Timestamp {
    #[verifier::type_invariant]
    spec fn valid(self) -> bool {
        timestamp_parts(self.secs as int, self.nanos as int, self.offset as int)
    }

    /// Seconds since the Unix epoch.
    pub closed spec fn secs(self) -> int {
        self.secs as int
    }

    /// Nanoseconds behind the second.
    pub closed spec fn nanos(self) -> int {
        self.nanos as int
    }

    /// Seconds east of Greenwich.
    pub closed spec fn offset(self) -> int {
        self.offset as int
    }

    /// Whether the machine's clock was read for it, rather than its parts given.
    pub closed spec fn from_clock(self) -> bool {
        self.read
    }

    /// The RFC 3339 text of this point in time.
    pub open spec fn text(self) -> Seq<char> {
        rfc3339(self.secs(), self.nanos(), self.offset())
    }

    /// The point in time with these parts, if they are valid ones.
    pub fn new(secs: i64, nanos: u32, offset: i32) -> (r: Option<Timestamp>)
        ensures
            r is Some <==> timestamp_parts(secs as int, nanos as int, offset as int),
            r matches Some(t) ==> t.secs() == secs && t.nanos() == nanos && t.offset() == offset
                && !t.from_clock(),
    {
        if 0 <= secs && secs <= MAX_UNIX_SECS && nanos < 1_000_000_000 && -86_400 < offset
            && offset < 86_400 {
            Some(Timestamp { secs, nanos, offset, read: false })
        } else {
            None
        }
    }

    /// The RFC 3339 text with the local offset, such as
    /// `2026-09-09T02:30:00+07:00`.
    pub fn to_rfc3339(&self) -> (r: String)
        ensures
            r@ == self.text(),
    {
        proof {
            use_type_invariant(self);
        }
        format_rfc3339(self.secs, self.nanos, self.offset)
    }
}

/// `chrono::Local::now`: the seconds and nanoseconds since the Unix epoch and
/// the local offset in seconds. Which point in time it is depends on the
/// clock and the time zone of the machine. Nothing else makes a timestamp that
/// counts as read from the clock.
#[verifier::external_body]
pub(crate) fn local_now() -> (r: Timestamp)
    ensures
        timestamp_parts(r.secs(), r.nanos(), r.offset()),
        r.from_clock(),
{
    let now = chrono::Local::now();
    let offset = now.offset().fix().local_minus_utc();
    Timestamp { secs: now.timestamp(), nanos: now.timestamp_subsec_nanos(), offset, read: true }
}

/// Two points in time are the same by their parts, wherever these come from.
impl PartialEq for Timestamp {
    fn eq(&self, other: &Timestamp) -> (r: bool) {
        self.secs == other.secs && self.nanos == other.nanos && self.offset == other.offset
    }
}

impl vstd::std_specs::cmp::PartialEqSpecImpl for Timestamp {
    open spec fn obeys_eq_spec() -> bool {
        true
    }

    open spec fn eq_spec(&self, other: &Timestamp) -> bool {
        self.secs() == other.secs() && self.nanos() == other.nanos() && self.offset()
            == other.offset()
    }
}

// ---------------------------------------------------------------------------
// Monotonic clock
// ---------------------------------------------------------------------------

/// `std::time::Instant`, an opaque reading of the monotonic clock.
#[verifier::external_type_specification]
#[verifier::external_body]
pub struct ExInstant(std::time::Instant);

/// `Instant::now` reads the monotonic clock. Nothing is claimed of the reading.
pub assume_specification[ std::time::Instant::now ]() -> std::time::Instant
;

/// What a clock read: nanoseconds since it was started. None can be made but by
/// looking at a clock, nor copied, so that each is a look of its own.
#[derive(Debug)]
pub struct Reading {
    nanos: u128,
    start: Instant,
}

impl Reading {
    /// Nanoseconds since the clock was started.
    pub closed spec fn nanos(&self) -> nat {
        self.nanos as nat
    }

    /// The clock that was read, by the moment it was started.
    pub closed spec fn clock(&self) -> Instant {
        self.start
    }

    /// Nanoseconds since the clock was started.
    pub fn value(&self) -> (r: u128)
        ensures
            r == self.nanos(),
    {
        self.nanos
    }
}

/// `Instant::elapsed`, in nanoseconds. How far the clock has got is left unsaid;
/// the reading is one of the clock that was started at `start`. Nothing else
/// makes a reading.
#[verifier::external_body]
pub(crate) fn elapsed_nanos(start: &Instant) -> (r: Reading)
    ensures
        r.clock() == *start,
{
    Reading { nanos: start.elapsed().as_nanos(), start: *start }
}

/// A reading is a number that 128 bits can hold.
pub proof fn lemma_reading_fits(reading: Reading)
    ensures
        reading.nanos() <= u128::MAX,
{
}

/// The text of a point in time tells all of its parts.
pub proof fn law_text_tells_every_part(t: Timestamp)
    ensures
        t.text() == rfc3339(t.secs(), t.nanos(), t.offset()),
{
}

/// A reading is its clock and its number: two of one clock that show the same
/// number show the same in everything.
pub proof fn law_readings_differ_in_their_number(a: Reading, b: Reading)
    requires
        a.clock() == b.clock(),
        a.nanos() == b.nanos(),
    ensures
        a == b,
{
}

/// A point in time is its parts, and whether the clock was read for it.
pub proof fn law_timestamps_differ_in_their_parts(a: Timestamp, b: Timestamp)
    requires
        a.secs() == b.secs(),
        a.nanos() == b.nanos(),
        a.offset() == b.offset(),
        a.from_clock() == b.from_clock(),
    ensures
        a == b,
{
}

} // verus!
