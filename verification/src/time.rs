//! Points in time.

use vstd::prelude::*;

use crate::text::is_white;
use crate::views::Duplicate;

verus! {

/// A point in time: seconds since the start of 1970 and nanoseconds on top. During a leap second
/// the nanoseconds run on past one second.
pub struct Instant {
    pub secs: int,
    pub nanos: int,
}

/// Whether the calendar of the `chrono` crate holds a point in time.
pub open spec fn in_calendar(secs: int, nanos: int) -> bool {
    &&& -8334601228800 <= secs <= 8210266876799
    &&& 0 <= nanos < 2000000000
    &&& nanos >= 1000000000 ==> secs % 60 == 59
}

/// Whether a point in time lies in a year of four digits.
pub open spec fn four_digit_year(secs: int) -> bool {
    -62167219200 <= secs <= 253402300799
}

/// Whether one point in time lies before another.
pub open spec fn before(a: Instant, b: Instant) -> bool {
    a.secs < b.secs || (a.secs == b.secs && a.nanos < b.nanos)
}

/// A point in time that the calendar holds.
#[derive(Debug, Clone, Copy, PartialEq, Eq)]
pub struct Timestamp {
    secs: i64,
    nanos: u32,
}

impl Timestamp {
    #[verifier::type_invariant]
    closed spec fn holds(self) -> bool {
        in_calendar(self.secs as int, self.nanos as int)
    }
}

impl DeepView for Timestamp {
    type V = Instant;

    closed spec fn deep_view(&self) -> Instant {
        Instant { secs: self.secs as int, nanos: self.nanos as int }
    }
}

impl Duplicate for Timestamp {
    fn duplicate(&self) -> (copy: Self) {
        *self
    }
}

impl Timestamp {
    /// The given point in time, where the calendar holds it.
    pub fn new(secs: i64, nanos: u32) -> (r: Option<Self>)
        ensures
            r.deep_view() == (if in_calendar(secs as int, nanos as int) {
                Some(Instant { secs: secs as int, nanos: nanos as int })
            } else {
                None
            }),
    {
        let leap: bool = nanos >= 1000000000;
        if -8334601228800 <= secs && secs <= 8210266876799 && nanos < 2000000000 && (!leap
            || (secs + 8334601228800) % 60 == 59) {
            Some(Timestamp { secs, nanos })
        } else {
            None
        }
    }

    /// The seconds since the start of 1970.
    pub fn secs(&self) -> (r: i64)
        ensures
            r == self.deep_view().secs,
    {
        self.secs
    }

    /// The nanoseconds on top.
    pub fn nanos(&self) -> (r: u32)
        ensures
            r == self.deep_view().nanos,
    {
        self.nanos
    }

    /// Whether this point in time lies before `other`.
    pub fn is_before(&self, other: &Timestamp) -> (r: bool)
        ensures
            r == before(self.deep_view(), other.deep_view()),
    {
        self.secs < other.secs || (self.secs == other.secs && self.nanos < other.nanos)
    }

    /// The point in time as RFC 3339 writes it, with an offset of zero hours and as many digits
    /// behind the seconds as it takes.
    pub fn rfc3339(&self) -> (r: String)
        ensures
            r@ == rfc3339_text(self.deep_view().secs, self.deep_view().nanos),
            four_digit_year(self.deep_view().secs) ==> parsed_instant(rfc3339_instant(r@)) == Some(
                self.deep_view(),
            ),
    {
        proof {
            use_type_invariant(self);
        }
        to_rfc3339(self.secs, self.nanos)
    }

    /// The point in time as RFC 3339 writes it, with milliseconds and a `Z`.
    pub fn rfc3339_millis(&self) -> (r: String)
        ensures
            r@ == rfc3339_millis_text(self.deep_view().secs, self.deep_view().nanos),
            unbroken(r@),
            four_digit_year(self.deep_view().secs) ==> parsed_instant(rfc3339_instant(r@)) == Some(
                Instant {
                    secs: self.deep_view().secs,
                    nanos: whole_millis(self.deep_view().nanos),
                },
            ),
    {
        proof {
            use_type_invariant(self);
        }
        to_rfc3339_millis(self.secs, self.nanos)
    }

    /// The point in time that a text in the form of RFC 3339 stands for.
    pub fn parse(text: &str) -> (r: Option<Self>)
        ensures
            r.deep_view() == parsed_instant(rfc3339_instant(text@)),
    {
        match parse_rfc3339(text) {
            Some((secs, nanos)) => Timestamp::new(secs, nanos),
            None => None,
        }
    }
}

/// What reading a point in time gives.
pub open spec fn parsed_instant(read: Option<(int, int)>) -> Option<Instant> {
    match read {
        Some((secs, nanos)) => if in_calendar(secs, nanos) {
            Some(Instant { secs, nanos })
        } else {
            None
        },
        None => None,
    }
}

/// Nanoseconds cut off after the milliseconds.
pub open spec fn whole_millis(nanos: int) -> int {
    nanos / 1000000 * 1000000
}

/// Whether a text holds no white space and no `|`.
pub open spec fn unbroken(text: Seq<char>) -> bool {
    text.len() > 0 && forall|i: int|
        0 <= i < text.len() ==> !is_white(#[trigger] text[i]) && text[i] != '|'
}

// ---------------------------------------------------------------------------
// The calendar
// ---------------------------------------------------------------------------

/// What `chrono::DateTime::to_rfc3339` writes for a point in time in UTC.
pub uninterp spec fn rfc3339_text(secs: int, nanos: int) -> Seq<char>;

/// What `chrono::DateTime::to_rfc3339_opts` writes for a point in time in UTC, with milliseconds
/// and a `Z`.
pub uninterp spec fn rfc3339_millis_text(secs: int, nanos: int) -> Seq<char>;

/// The point in time that `chrono::DateTime::parse_from_rfc3339` reads from a text.
pub uninterp spec fn rfc3339_instant(text: Seq<char>) -> Option<(int, int)>;

/// Writes a point in time with `chrono::DateTime::to_rfc3339`. What it writes depends on the point
/// in time alone and has the name [`rfc3339_text`]. `DateTime::from_timestamp` knows every point
/// that [`in_calendar`] admits. In a year of four digits `chrono::DateTime::parse_from_rfc3339`
/// reads it back.
#[verifier::external_body]
fn to_rfc3339(secs: i64, nanos: u32) -> (r: String)
    requires
        in_calendar(secs as int, nanos as int),
    ensures
        r@ == rfc3339_text(secs as int, nanos as int),
        four_digit_year(secs as int) ==> rfc3339_instant(r@) == Some((secs as int, nanos as int)),
{
    chrono::DateTime::<chrono::Utc>::from_timestamp(secs, nanos).unwrap().to_rfc3339()
}

/// Writes a point in time with `chrono::DateTime::to_rfc3339_opts`, with milliseconds and a `Z`.
/// What it writes depends on the point in time alone and has the name [`rfc3339_millis_text`]. It
/// is made of digits, signs, colons, a point, a `T` and a `Z`, so it holds neither white space nor
/// a `|`; in a year of four digits `chrono::DateTime::parse_from_rfc3339` reads it back, cut off
/// after the milliseconds.
#[verifier::external_body]
fn to_rfc3339_millis(secs: i64, nanos: u32) -> (r: String)
    requires
        in_calendar(secs as int, nanos as int),
    ensures
        r@ == rfc3339_millis_text(secs as int, nanos as int),
        unbroken(r@),
        four_digit_year(secs as int) ==> rfc3339_instant(r@) == Some(
            (secs as int, whole_millis(nanos as int)),
        ),
{
    let time = chrono::DateTime::<chrono::Utc>::from_timestamp(secs, nanos).unwrap();
    time.to_rfc3339_opts(chrono::SecondsFormat::Millis, true)
}

/// Reads a point in time with `chrono::DateTime::parse_from_rfc3339` and gives its seconds and
/// nanoseconds in UTC. What it reads depends on the text alone and has the name
/// [`rfc3339_instant`].
#[verifier::external_body]
fn parse_rfc3339(text: &str) -> (r: Option<(i64, u32)>)
    ensures
        (match r {
            Some((secs, nanos)) => Some((secs as int, nanos as int)),
            None => None,
        }) == rfc3339_instant(text@),
{
    let time = chrono::DateTime::parse_from_rfc3339(text).ok()?;
    Some((time.timestamp(), time.timestamp_subsec_nanos()))
}

// ---------------------------------------------------------------------------
// Laws
// ---------------------------------------------------------------------------

/// Of two points in time that differ one lies before the other, and never both.
pub proof fn time_is_ordered(a: Instant, b: Instant)
    ensures
        !(before(a, b) && before(b, a)),
        before(a, b) || before(b, a) || a == b,
{
}

/// A point in time is read as it was told, unless it lies outside the calendar.
pub proof fn time_is_read_as_told(secs: int, nanos: int)
    ensures
        parsed_instant(Some((secs, nanos))) matches Some(time) ==> time.secs == secs && time.nanos
            == nanos,
        four_digit_year(secs) && 0 <= nanos < 1000000000 ==> parsed_instant(Some((secs, nanos)))
            is Some,
        parsed_instant(None) is None,
{
}

/// Of three points in time the first lies before the third where each lies before the next.
pub proof fn time_goes_on(a: Instant, b: Instant, c: Instant)
    requires
        before(a, b),
        before(b, c),
    ensures
        before(a, c),
        a.secs <= c.secs,
{
}

} // verus!
