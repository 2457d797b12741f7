//! Instants in UTC, and the calls into chrono that make, read and write them.

use vstd::prelude::*;

verus! {

/// The earliest second that an instant can fall in.
pub const MIN_SECS: i64 = -8334601228800;

/// The latest second that an instant can fall in.
pub const MAX_SECS: i64 = 8210266876799;

/// The instants that exist: `secs` counts non-leap seconds from the start of
/// 1970 in UTC, `nanos` the nanoseconds behind that second. The nanoseconds of a
/// leap second run on past a thousand million, in the last second of a minute.
pub open spec fn valid_instant(secs: int, nanos: int) -> bool {
    &&& MIN_SECS <= secs <= MAX_SECS
    &&& 0 <= nanos < 2_000_000_000
    &&& nanos >= 1_000_000_000 ==> secs % 60 == 59
}

/// The instants that the clock can show: none before 1970, and no leap second.
pub open spec fn clock_time(instant: (int, int)) -> bool {
    &&& valid_instant(instant.0, instant.1)
    &&& 0 <= instant.0
    &&& instant.1 < 1_000_000_000
}

/// The instants whose year has four digits.
pub open spec fn four_digit_year(secs: int) -> bool {
    -62167219200 <= secs <= 253402300799
}

/// `a` lies before `b`; both are pairs of seconds and nanoseconds.
pub open spec fn earlier(a: (int, int), b: (int, int)) -> bool {
    a.0 < b.0 || (a.0 == b.0 && a.1 < b.1)
}

/// The nanoseconds from `b` to `a`. A leap second on the way is counted where
/// one of the two instants lies in it, by the time of day.
pub open spec fn nanos_between(a: (int, int), b: (int, int)) -> int {
    let leap: int = if a.0 % 86400 > b.0 % 86400 && b.1 >= 1_000_000_000 {
        1
    } else if a.0 % 86400 < b.0 % 86400 && a.1 >= 1_000_000_000 {
        -1
    } else {
        0
    };
    (a.0 - b.0 + leap) * 1_000_000_000 + (a.1 - b.1)
}

/// Division that drops the fraction on either side of zero.
pub open spec fn truncating_div(n: int, d: int) -> int {
    if n >= 0 {
        n / d
    } else {
        -((-n) / d)
    }
}

/// One instant in UTC.
#[derive(Debug, Clone, Copy, PartialEq, Eq, Hash, PartialOrd, Ord, Structural)]
pub struct Timestamp {
    secs: i64,
    nanos: u32,
}

impl View for Timestamp {
    type V = (int, int);

    closed spec fn view(&self) -> (int, int) {
        (self.secs as int, self.nanos as int)
    }
}

impl DeepView for Timestamp {
    type V = Timestamp;

    open spec fn deep_view(&self) -> Timestamp {
        *self
    }
}

/// What `chrono::DateTime::to_rfc3339` writes for an instant in UTC.
pub uninterp spec fn rfc3339_text(instant: (int, int)) -> Seq<char>;

/// The instant that `chrono::DateTime::parse_from_rfc3339` reads, in UTC.
pub uninterp spec fn rfc3339_instant(text: Seq<char>) -> Option<(int, int)>;

/// The instant that `chrono::NaiveDateTime::parse_from_str` reads, taken as UTC.
pub uninterp spec fn naive_instant(text: Seq<char>, format: Seq<char>) -> Option<(int, int)>;

/// An optional instant by its seconds and nanoseconds.
pub open spec fn instant_of(t: Option<Timestamp>) -> Option<(int, int)> {
    match t {
        Some(t) => Some(t@),
        None => None,
    }
}

impl Timestamp {
    #[verifier::type_invariant]
    spec fn well_formed(self) -> bool {
        valid_instant(self.secs as int, self.nanos as int)
    }

    /// The clock's reading, from `chrono::Utc::now`, which takes the time since the
    /// start of 1970 from std's `SystemTime`: it is not negative, and its
    /// nanoseconds are less than a second. Which instant it is, and how two readings
    /// compare, is not stated. A clock set before 1970 makes chrono panic.
    #[verifier::external_body]
    fn clock_reading() -> (r: Timestamp)
        ensures
            0 <= r@.0,
            r@.1 < 1_000_000_000,
    {
        let now = chrono::Utc::now();
        Timestamp { secs: now.timestamp(), nanos: now.timestamp_subsec_nanos() }
    }

    /// The instant `secs` non-leap seconds and `nanos` nanoseconds from the start
    /// of 1970, from `chrono::DateTime::from_timestamp`: it exists exactly within
    /// chrono's range, and a leap second only ends a minute.
    #[verifier::external_body]
    fn of_timestamp(secs: i64, nanos: u32) -> (r: Option<Timestamp>)
        ensures
            r is Some <==> valid_instant(secs as int, nanos as int),
            r is Some ==> r->0@ == (secs as int, nanos as int),
    {
        chrono::DateTime::from_timestamp(secs, nanos).map(
            |t| Timestamp { secs: t.timestamp(), nanos: t.timestamp_subsec_nanos() },
        )
    }

    /// The instant as RFC 3339 text, from `chrono::DateTime::to_rfc3339`. The
    /// text depends on the instant alone, and for a year of four digits reading
    /// it back gives the instant.
    #[verifier::external_body]
    pub(crate) fn to_rfc3339(self) -> (r: String)
        ensures
            r@ == rfc3339_text(self@),
            four_digit_year(self@.0) ==> rfc3339_instant(r@) == Some(self@),
    {
        let t = chrono::DateTime::from_timestamp(self.secs, self.nanos).unwrap_or_default();
        t.to_rfc3339()
    }

    /// Reads RFC 3339 text, with `chrono::DateTime::parse_from_rfc3339`; the
    /// offset is dropped, the instant kept.
    #[verifier::external_body]
    pub(crate) fn parse_rfc3339(text: &str) -> (r: Option<Timestamp>)
        ensures
            instant_of(r) == rfc3339_instant(text@),
    {
        chrono::DateTime::parse_from_rfc3339(text).ok().map(
            |t| Timestamp { secs: t.timestamp(), nanos: t.timestamp_subsec_nanos() },
        )
    }

    /// Reads a date and a time without an offset, with
    /// `chrono::NaiveDateTime::parse_from_str`, and takes them as UTC.
    #[verifier::external_body]
    pub(crate) fn parse_naive(text: &str, format: &str) -> (r: Option<Timestamp>)
        ensures
            instant_of(r) == naive_instant(text@, format@),
    {
        chrono::NaiveDateTime::parse_from_str(text, format).ok().map(
            |t| Timestamp {
                secs: t.and_utc().timestamp(),
                nanos: t.and_utc().timestamp_subsec_nanos(),
            },
        )
    }

    /// The whole minutes from `earlier` to `self`, from chrono's difference of
    /// two `DateTime`s and `chrono::TimeDelta::num_minutes`: the fraction is
    /// dropped, and the number is negative when `self` is the earlier one.
    #[verifier::external_body]
    pub(crate) fn minutes_since(self, earlier: Timestamp) -> (r: i64)
        ensures
            r == truncating_div(nanos_between(self@, earlier@), 60_000_000_000),
    {
        let a = chrono::DateTime::from_timestamp(self.secs, self.nanos).unwrap_or_default();
        let b = chrono::DateTime::from_timestamp(earlier.secs, earlier.nanos).unwrap_or_default();
        (a - b).num_minutes()
    }

    /// The instant at which the call is made, as the clock tells it.
    pub fn now() -> (r: Timestamp)
        ensures
            clock_time(r@),
    {
        let r: Timestamp = Timestamp::clock_reading();
        proof {
            use_type_invariant(&r);
        }
        r
    }

    /// The instant `secs` seconds and `nanos` nanoseconds from the start of 1970,
    /// when there is one.
    pub fn from_unix(secs: i64, nanos: u32) -> (r: Option<Timestamp>)
        ensures
            r is Some <==> valid_instant(secs as int, nanos as int),
            r is Some ==> r->0@ == (secs as int, nanos as int),
    {
        Timestamp::of_timestamp(secs, nanos)
    }

    /// The seconds since the start of 1970.
    pub fn unix_secs(self) -> (r: i64)
        ensures
            r == self@.0,
    {
        self.secs
    }

    /// The nanoseconds behind the second.
    pub fn subsec_nanos(self) -> (r: u32)
        ensures
            r == self@.1,
    {
        self.nanos
    }

    /// Whether `self` lies strictly before `other`.
    pub fn is_before(self, other: Timestamp) -> (r: bool)
        ensures
            r == earlier(self@, other@),
    {
        self.secs < other.secs || (self.secs == other.secs && self.nanos < other.nanos)
    }
}

/// Of two readings of a clock the one with fewer nanoseconds since the start of time is
/// the earlier one.
pub proof fn law_earlier_means_fewer_nanoseconds(a: (int, int), b: (int, int))
    requires
        0 <= a.1 < 1_000_000_000,
        0 <= b.1 < 1_000_000_000,
    ensures
        earlier(a, b) <==> a.0 * 1_000_000_000 + a.1 < b.0 * 1_000_000_000 + b.1,
        nanos_between(a, b) == (a.0 * 1_000_000_000 + a.1) - (b.0 * 1_000_000_000 + b.1),
{
}

/// Dividing cuts off what is left over, towards zero.
pub proof fn law_division_cuts_towards_zero(n: int, d: int)
    requires
        d > 0,
    ensures
        n >= 0 ==> truncating_div(n, d) * d <= n < truncating_div(n, d) * d + d,
        truncating_div(-n, d) == -truncating_div(n, d),
{
    vstd::arithmetic::div_mod::lemma_fundamental_div_mod(n, d);
    vstd::arithmetic::div_mod::lemma_mod_bound(n, d);
    vstd::arithmetic::mul::lemma_mul_is_commutative(n / d, d);
    vstd::arithmetic::div_mod::lemma_div_basics(d);
}

} // verus!
