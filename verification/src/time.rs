//! Points in time, in UTC, and their RFC 3339 text.
use vstd::prelude::*;

verus! {

/// A point in time: whole seconds since the Unix epoch and the nanoseconds after them.
///
/// A leap second counts as nanoseconds past one billion of the last second of its minute.
#[derive(Clone, Copy, Debug, PartialEq, Eq, Structural)]
pub struct Timestamp {
    secs: i64,
    nanos: u32,
}

/// Whether seconds and nanoseconds name a point in time: a day of the years -262143 to 262142,
/// and nanoseconds past one billion only in the last second of a minute.
pub open spec fn valid_parts(secs: i64, nanos: u32) -> bool {
    &&& -8_334_601_228_800 <= secs <= 8_210_266_876_799
    &&& nanos < 2_000_000_000
    &&& nanos >= 1_000_000_000 ==> (secs as int) % 60 == 59
}

/// Whether the seconds lie in the years 0 to 9999, which RFC 3339 writes with four digits.
pub open spec fn four_digit_year(secs: i64) -> bool {
    -62_167_219_200 <= secs <= 253_402_300_799
}

/// The RFC 3339 text that `DateTime::to_rfc3339` gives for a point in time in UTC.
pub uninterp spec fn rfc3339_text(secs: i64, nanos: u32) -> Seq<char>;

/// The seconds and nanoseconds that `DateTime::parse_from_rfc3339` reads from a text, in UTC.
pub uninterp spec fn rfc3339_value(text: Seq<char>) -> Option<(i64, u32)>;

/// Calls `chrono::DateTime::to_rfc3339` on the point in time in UTC.
///
/// The text is a function of the point in time. For the years that have four digits,
/// `DateTime::parse_from_rfc3339` reads the same point in time back from it.
#[verifier::external_body]
fn format_rfc3339(secs: i64, nanos: u32) -> (s: String)
    requires
        valid_parts(secs, nanos),
    ensures
        s@ == rfc3339_text(secs, nanos),
        four_digit_year(secs) ==> rfc3339_value(s@) == Some((secs, nanos)),
{
    chrono::DateTime::from_timestamp(secs, nanos).expect("a valid point in time").to_rfc3339()
}

/// Calls `chrono::DateTime::parse_from_rfc3339` and moves the result to UTC.
///
/// The result is a function of the text, and names a point in time where there is one.
#[verifier::external_body]
fn parse_rfc3339(text: &str) -> (r: Option<(i64, u32)>)
    ensures
        r == rfc3339_value(text@),
        r matches Some(p) ==> valid_parts(p.0, p.1),
{
    match chrono::DateTime::parse_from_rfc3339(text) {
        Ok(time) => Some((time.timestamp(), time.timestamp_subsec_nanos())),
        Err(_) => None,
    }
}

/// Calls `chrono::Utc::now`, which reads the system clock.
///
/// What holds of every outcome is that it names a point in time and that it counts no leap second:
/// the nanoseconds are a fraction of a second. Which time it is depends on the clock and is left
/// unsaid; where the clock stands before the Unix epoch, the call panics.
#[verifier::external_body]
fn current_parts() -> (r: (i64, u32))
    ensures
        valid_parts(r.0, r.1),
        r.1 < 1_000_000_000,
{
    let now = chrono::Utc::now();
    (now.timestamp(), now.timestamp_subsec_nanos())
}

/// A stored text that is no RFC 3339 point in time.
#[derive(Debug)]
pub struct InvalidTimestamp {
    pub value: String,
}

impl Timestamp {
    /// The whole seconds since the Unix epoch.
    pub closed spec fn seconds(self) -> i64 {
        self.secs
    }

    /// The nanoseconds after the whole seconds.
    pub closed spec fn nanoseconds(self) -> u32 {
        self.nanos
    }

    #[verifier::type_invariant]
    closed spec fn valid(self) -> bool {
        valid_parts(self.secs, self.nanos)
    }

    /// Whether this point in time comes before `other`.
    pub open spec fn before(self, other: Timestamp) -> bool {
        self.seconds() < other.seconds() || (self.seconds() == other.seconds()
            && self.nanoseconds() < other.nanoseconds())
    }

    /// The RFC 3339 text of this point in time.
    pub open spec fn text(self) -> Seq<char> {
        rfc3339_text(self.seconds(), self.nanoseconds())
    }

    /// The point in time with these seconds and nanoseconds, where they name one.
    pub fn from_parts(secs: i64, nanos: u32) -> (r: Option<Timestamp>)
        ensures
            r is Some <==> valid_parts(secs, nanos),
            r matches Some(t) ==> t.seconds() == secs && t.nanoseconds() == nanos,
    {
        if secs < -8_334_601_228_800 || secs > 8_210_266_876_799 || nanos >= 2_000_000_000 {
            return None;
        }
        if nanos >= 1_000_000_000 {
            // Seconds may be negative: shift them by whole minutes first.
            let shifted: i64 = secs + 8_334_601_228_800;
            if shifted % 60 != 59 {
                return None;
            }
        }
        Some(Timestamp { secs, nanos })
    }

    /// The whole seconds since the Unix epoch.
    pub fn secs(&self) -> (r: i64)
        ensures
            r == self.seconds(),
    {
        self.secs
    }

    /// The nanoseconds after the whole seconds.
    pub fn nanos(&self) -> (r: u32)
        ensures
            r == self.nanoseconds(),
            valid_parts(self.seconds(), r),
    {
        proof {
            use_type_invariant(self);
        }
        self.nanos
    }

    /// The current time. What holds of every outcome is that it is a point in time and counts no
    /// leap second.
    pub fn now() -> (r: Timestamp)
        ensures
            valid_parts(r.seconds(), r.nanoseconds()),
            r.nanoseconds() < 1_000_000_000,
    {
        let (secs, nanos) = current_parts();
        Timestamp { secs, nanos }
    }

    /// Whether this point in time comes before `other`.
    pub fn is_before(&self, other: &Timestamp) -> (r: bool)
        ensures
            r == self.before(*other),
    {
        self.secs < other.secs || (self.secs == other.secs && self.nanos < other.nanos)
    }

    /// The RFC 3339 text of this point in time.
    pub fn to_rfc3339(&self) -> (s: String)
        ensures
            s@ == self.text(),
            four_digit_year(self.seconds()) ==> parsed_text(s@) == Some(*self),
    {
        proof {
            use_type_invariant(self);
        }
        let s = format_rfc3339(self.secs, self.nanos);
        s
    }
}

/// The point in time that a stored text names.
pub closed spec fn parsed_text(text: Seq<char>) -> Option<Timestamp> {
    match rfc3339_value(text) {
        Some(p) => Some(Timestamp { secs: p.0, nanos: p.1 }),
        None => None,
    }
}

/// Reads a stored point in time.
pub fn parse_datetime(value: &str) -> (r: Result<Timestamp, InvalidTimestamp>)
    ensures
        match r {
            Ok(t) => {
                &&& parsed_text(value@) == Some(t)
                &&& rfc3339_value(value@) == Some((t.seconds(), t.nanoseconds()))
            },
            Err(e) => {
                &&& parsed_text(value@) is None
                &&& rfc3339_value(value@) is None
                &&& e.value@ == value@
            },
        },
{
    match parse_rfc3339(value) {
        Some((secs, nanos)) => Ok(Timestamp { secs, nanos }),
        None => Err(InvalidTimestamp { value: value.to_owned() }),
    }
}

/// Reads a stored point in time that may be absent; a text that is none counts as absent.
pub fn parse_optional_datetime(value: Option<&String>) -> (r: Option<Timestamp>)
    ensures
        r == (match value {
            Some(text) => parsed_text(text@),
            None => None,
        }),
{
    match value {
        Some(text) => match parse_datetime(text.as_str()) {
            Ok(t) => Some(t),
            Err(_) => None,
        },
        None => None,
    }
}

/// One point in time comes before another exactly if its seconds are fewer, or the same with fewer
/// nanoseconds. A time of a year with four digits lies between the first second of the year 0 and
/// the last of the year 9999.
pub proof fn law_times_are_ordered(a: Timestamp, b: Timestamp)
    ensures
        a.seconds() < b.seconds() ==> a.before(b),
        a.seconds() > b.seconds() ==> !a.before(b),
        a.seconds() == b.seconds() ==> (a.before(b) <==> a.nanoseconds() < b.nanoseconds()),
        four_digit_year(a.seconds()) <==> -62_167_219_200 <= a.seconds() <= 253_402_300_799,
{
}

} // verus!
