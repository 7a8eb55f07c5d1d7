//! Points in UTC time and signed time spans, both at nanosecond resolution.
//!
//! A `Timestamp` covers exactly the instants that `chrono::DateTime<Utc>` can
//! hold, so that it can always be handed to chrono for formatting.
use vstd::prelude::*;

verus! {

/// Epoch second of the earliest instant chrono can hold: January 1, 262144 BCE
/// (astronomical year -262143), 00:00:00 UTC.
pub const MIN_EPOCH_SECONDS: i64 = -8_334_601_228_800;

/// Epoch second of the latest instant chrono can hold: December 31, 262142 CE,
/// 23:59:59 UTC.
pub const MAX_EPOCH_SECONDS: i64 = 8_210_266_876_799;

pub const NANOS_PER_SECOND: u32 = 1_000_000_000;

pub open spec fn nanos_per_second() -> int {
    1_000_000_000
}

pub open spec fn in_epoch_range(seconds: int) -> bool {
    MIN_EPOCH_SECONDS <= seconds <= MAX_EPOCH_SECONDS
}

/// A nanosecond part as a `Timestamp` holds it: one of a leap second (a second
/// or more) becomes the last nanosecond of the second it extends.
pub open spec fn leap_folded(nanos: u32) -> int {
    if nanos < NANOS_PER_SECOND {
        nanos as int
    } else {
        nanos_per_second() - 1
    }
}

/// What chrono's `FromStr` for `DateTime<Utc>` reads from a text: the epoch
/// second and the nanosecond within it, or nothing when the text is refused.
pub uninterp spec fn utc_parse_of(text: Seq<char>) -> Option<(i64, u32)>;

/// The RFC 3339 text that chrono writes for an instant.
pub uninterp spec fn rfc3339_text_of(seconds: i64, nanos: u32) -> Seq<char>;

#[verifier::external_type_specification]
#[verifier::external_body]
pub struct ExParseError(chrono::ParseError);

/// Relies on chrono's `FromStr` for `DateTime<Utc>` (and on `timestamp` /
/// `timestamp_subsec_nanos`): a value it yields lies within chrono's date range,
/// and its nanosecond part is below 2,000,000,000 (above one second only on a
/// leap second).
#[verifier::external_body]
fn parse_utc(text: &str) -> (r: Result<(i64, u32), chrono::ParseError>)
    ensures
        match r {
            Ok(parts) => utc_parse_of(text@) == Some(parts),
            Err(_) => utc_parse_of(text@) is None,
        },
        r is Ok ==> in_epoch_range(r->Ok_0.0 as int) && r->Ok_0.1 < 2 * nanos_per_second(),
{
    text.parse::<chrono::DateTime<chrono::Utc>>().map(|d| (d.timestamp(), d.timestamp_subsec_nanos()))
}

/// Relies on chrono's `DateTime::from_timestamp`, which accepts every second
/// of its date range with a nanosecond part below one second, and on
/// `DateTime::to_rfc3339`.
#[verifier::external_body]
fn format_rfc3339(seconds: i64, nanos: u32) -> (r: String)
    requires
        in_epoch_range(seconds as int),
        nanos < NANOS_PER_SECOND,
    ensures
        r@ == rfc3339_text_of(seconds, nanos),
{
    chrono::DateTime::from_timestamp(seconds, nanos).unwrap().to_rfc3339()
}

/// An instant in UTC: seconds since the Unix epoch and the nanoseconds past
/// that second.
#[derive(Clone, Copy, Debug, PartialEq, Eq, Structural)]
pub struct Timestamp {
    seconds: i64,
    nanos: u32,
}

impl Timestamp {
    #[verifier::type_invariant]
    spec fn inv(self) -> bool {
        in_epoch_range(self.seconds as int) && self.nanos < NANOS_PER_SECOND
    }

    pub closed spec fn epoch_seconds(self) -> int {
        self.seconds as int
    }

    pub closed spec fn subsec(self) -> int {
        self.nanos as int
    }

    /// Nanoseconds since the Unix epoch.
    pub open spec fn total_nanos(self) -> int {
        self.epoch_seconds() * nanos_per_second() + self.subsec()
    }

    pub fn seconds(&self) -> (r: i64)
        ensures
            r == self.epoch_seconds(),
            in_epoch_range(r as int),
    {
        proof {
            use_type_invariant(self);
        }
        self.seconds
    }

    pub fn subsec_nanos(&self) -> (r: u32)
        ensures
            r == self.subsec(),
            r < NANOS_PER_SECOND,
    {
        proof {
            use_type_invariant(self);
        }
        self.nanos
    }

    /// The instant at a whole epoch second; `None` outside chrono's range.
    pub fn from_epoch_seconds(seconds: i64) -> (r: Option<Timestamp>)
        ensures
            r is Some <==> in_epoch_range(seconds as int),
            r is Some ==> r->0.epoch_seconds() == seconds && r->0.subsec() == 0,
    {
        if MIN_EPOCH_SECONDS <= seconds && seconds <= MAX_EPOCH_SECONDS {
            Some(Timestamp { seconds, nanos: 0 })
        } else {
            None
        }
    }

    /// The instant from an epoch second and a nanosecond part as chrono reports
    /// them. A nanosecond part of a second or more marks a leap second; it is
    /// held as the last nanosecond of the second it extends. `None` when the
    /// second is outside chrono's range or the nanosecond part is two seconds
    /// or more.
    pub fn from_parts(seconds: i64, nanos: u32) -> (r: Option<Timestamp>)
        ensures
            r is Some <==> in_epoch_range(seconds as int) && nanos < 2 * nanos_per_second(),
            r is Some ==> r->0.epoch_seconds() == seconds,
            r is Some ==> r->0.subsec() == leap_folded(nanos),
    {
        if MIN_EPOCH_SECONDS <= seconds && seconds <= MAX_EPOCH_SECONDS && nanos < 2
            * NANOS_PER_SECOND {
            let nanos = if nanos < NANOS_PER_SECOND {
                nanos
            } else {
                NANOS_PER_SECOND - 1
            };
            Some(Timestamp { seconds, nanos })
        } else {
            None
        }
    }

    /// Reads an ISO-8601 / RFC 3339 text through chrono.
    pub fn parse(text: &str) -> (r: Result<Timestamp, chrono::ParseError>)
        ensures
            r is Ok <==> utc_parse_of(text@) is Some,
            r is Ok ==> {
                let parts = utc_parse_of(text@).unwrap();
                r->Ok_0.epoch_seconds() == parts.0 && r->Ok_0.subsec() == leap_folded(parts.1)
            },
    {
        match parse_utc(text) {
            Ok((seconds, nanos)) => {
                let t = Timestamp::from_parts(seconds, nanos);
                Ok(t.unwrap())
            },
            Err(e) => Err(e),
        }
    }

    /// The instant as RFC 3339 text, written by chrono.
    pub fn to_rfc3339(&self) -> (r: String)
        ensures
            r@ == rfc3339_text_of(self.epoch_seconds() as i64, self.subsec() as u32),
    {
        proof {
            use_type_invariant(self);
        }
        format_rfc3339(self.seconds, self.nanos)
    }

    /// Whether `self` comes strictly before `other`.
    pub fn is_before(&self, other: &Timestamp) -> (r: bool)
        ensures
            r == (self.total_nanos() < other.total_nanos()),
    {
        proof {
            use_type_invariant(self);
            use_type_invariant(other);
            lemma_split_order(self.epoch_seconds(), self.subsec(), other.epoch_seconds(), other.subsec());
        }
        self.seconds < other.seconds || (self.seconds == other.seconds && self.nanos < other.nanos)
    }

    /// The span from `earlier` to `self` (negative when `earlier` is later).
    pub fn since(&self, earlier: &Timestamp) -> (r: TimeSpan)
        ensures
            r.total_nanos() == self.total_nanos() - earlier.total_nanos(),
    {
        proof {
            use_type_invariant(self);
            use_type_invariant(earlier);
        }
        let seconds = self.seconds - earlier.seconds;
        if self.nanos >= earlier.nanos {
            TimeSpan { seconds, nanos: self.nanos - earlier.nanos }
        } else {
            TimeSpan { seconds: seconds - 1, nanos: NANOS_PER_SECOND - (earlier.nanos - self.nanos) }
        }
    }
}

/// A signed span of time, held as whole seconds (rounded down) and the
/// nanoseconds past them.
#[derive(Clone, Copy, Debug, PartialEq, Eq, Structural)]
pub struct TimeSpan {
    seconds: i64,
    nanos: u32,
}

impl TimeSpan {
    #[verifier::type_invariant]
    spec fn inv(self) -> bool {
        self.nanos < NANOS_PER_SECOND
    }

    pub closed spec fn floor_seconds(self) -> int {
        self.seconds as int
    }

    pub closed spec fn nanos_past(self) -> int {
        self.nanos as int
    }

    pub open spec fn total_nanos(self) -> int {
        self.floor_seconds() * nanos_per_second() + self.nanos_past()
    }

    /// Whole seconds of the span, rounded toward zero.
    pub open spec fn whole_seconds(self) -> int {
        if self.total_nanos() >= 0 {
            self.total_nanos() / nanos_per_second()
        } else {
            -((-self.total_nanos()) / nanos_per_second())
        }
    }

    pub fn zero() -> (r: TimeSpan)
        ensures
            r.total_nanos() == 0,
    {
        TimeSpan { seconds: 0, nanos: 0 }
    }

    /// The sum of two spans; `None` when its whole seconds leave the range of `i64`.
    pub fn checked_add(&self, other: &TimeSpan) -> (r: Option<TimeSpan>)
        ensures
            r is Some <==> span_fits(self.total_nanos() + other.total_nanos()),
            r is Some ==> r->0.total_nanos() == self.total_nanos() + other.total_nanos(),
    {
        proof {
            use_type_invariant(self);
            use_type_invariant(other);
        }
        let nanos = self.nanos + other.nanos;
        let (carry, nanos) = if nanos >= NANOS_PER_SECOND {
            (1i128, nanos - NANOS_PER_SECOND)
        } else {
            (0i128, nanos)
        };
        let seconds = self.seconds as i128 + other.seconds as i128 + carry;
        proof {
            lemma_floor_seconds(seconds as int, nanos as int);
        }
        if seconds < i64::MIN as i128 || seconds > i64::MAX as i128 {
            None
        } else {
            Some(TimeSpan { seconds: seconds as i64, nanos })
        }
    }

    pub fn from_seconds(seconds: i64) -> (r: TimeSpan)
        ensures
            r.total_nanos() == seconds * nanos_per_second(),
            r.floor_seconds() == seconds,
            r.nanos_past() == 0,
    {
        TimeSpan { seconds, nanos: 0 }
    }

    /// Whole seconds of the span, rounded toward zero.
    pub fn num_seconds(&self) -> (r: i64)
        ensures
            r == self.whole_seconds(),
    {
        proof {
            use_type_invariant(self);
        }
        if self.seconds < 0 && self.nanos > 0 {
            proof {
                lemma_whole_seconds_negative(self.seconds as int, self.nanos as int);
            }
            self.seconds + 1
        } else {
            proof {
                lemma_whole_seconds_exact(self.seconds as int, self.nanos as int);
            }
            self.seconds
        }
    }

    /// The part of the span below a whole second, with the sign of the span.
    pub fn subsec_nanos(&self) -> (r: i32)
        ensures
            r == self.total_nanos() - self.whole_seconds() * nanos_per_second(),
    {
        proof {
            use_type_invariant(self);
        }
        if self.seconds < 0 && self.nanos > 0 {
            proof {
                lemma_whole_seconds_negative(self.seconds as int, self.nanos as int);
            }
            self.nanos as i32 - 1_000_000_000
        } else {
            proof {
                lemma_whole_seconds_exact(self.seconds as int, self.nanos as int);
            }
            self.nanos as i32
        }
    }
}

/// A span of `nanos` nanoseconds has whole seconds (rounded down) that fit in `i64`.
pub open spec fn span_fits(nanos: int) -> bool {
    i64::MIN <= nanos / nanos_per_second() <= i64::MAX
}

proof fn lemma_floor_seconds(s: int, n: int)
    requires
        0 <= n < nanos_per_second(),
    ensures
        (s * nanos_per_second() + n) / nanos_per_second() == s,
{
    assert((s * nanos_per_second() + n) / nanos_per_second() == s) by (nonlinear_arith)
        requires
            0 <= n < nanos_per_second(),
    ;
}

proof fn lemma_split_order(s1: int, n1: int, s2: int, n2: int)
    requires
        0 <= n1 < nanos_per_second(),
        0 <= n2 < nanos_per_second(),
    ensures
        (s1 * nanos_per_second() + n1 < s2 * nanos_per_second() + n2) == (s1 < s2 || (s1 == s2
            && n1 < n2)),
{
    if s1 < s2 {
        assert(s1 * nanos_per_second() + n1 < s2 * nanos_per_second() + n2) by (nonlinear_arith)
            requires
                s1 < s2,
                0 <= n1 < nanos_per_second(),
                0 <= n2,
        ;
    } else if s1 > s2 {
        assert(s1 * nanos_per_second() + n1 > s2 * nanos_per_second() + n2) by (nonlinear_arith)
            requires
                s1 > s2,
                0 <= n2 < nanos_per_second(),
                0 <= n1,
        ;
    }
}

proof fn lemma_whole_seconds_negative(s: int, n: int)
    requires
        s < 0,
        0 < n < nanos_per_second(),
    ensures
        -((-(s * nanos_per_second() + n)) / nanos_per_second()) == s + 1,
{
    let t = -(s * nanos_per_second() + n);
    assert(t == (-s - 1) * nanos_per_second() + (nanos_per_second() - n)) by (nonlinear_arith)
        requires
            t == -(s * nanos_per_second() + n),
    ;
    assert(t / nanos_per_second() == -s - 1) by (nonlinear_arith)
        requires
            t == (-s - 1) * nanos_per_second() + (nanos_per_second() - n),
            0 < nanos_per_second() - n < nanos_per_second(),
    ;
}

proof fn lemma_whole_seconds_exact(s: int, n: int)
    requires
        0 <= n < nanos_per_second(),
        s >= 0 || n == 0,
    ensures
        ({
            let t = s * nanos_per_second() + n;
            if t >= 0 {
                t / nanos_per_second()
            } else {
                -((-t) / nanos_per_second())
            }
        }) == s,
{
    let t = s * nanos_per_second() + n;
    if s >= 0 {
        assert(t >= 0) by (nonlinear_arith)
            requires
                s >= 0,
                n >= 0,
                t == s * nanos_per_second() + n,
        ;
        assert(t / nanos_per_second() == s) by (nonlinear_arith)
            requires
                t == s * nanos_per_second() + n,
                0 <= n < nanos_per_second(),
        ;
    } else {
        assert(-t == (-s) * nanos_per_second()) by (nonlinear_arith)
            requires
                t == s * nanos_per_second() + n,
                n == 0,
        ;
        assert((-t) / nanos_per_second() == -s) by (nonlinear_arith)
            requires
                -t == (-s) * nanos_per_second(),
        ;
    }
}

} // verus!
