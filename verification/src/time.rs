//! Points in time with a fixed UTC offset, as the services store them.
use vstd::prelude::*;

verus! {

/// Earliest UTC second that a date-time can hold (-262143-01-01T00:00:00Z).
pub const EARLIEST_SECOND: i64 = -8334601228800;

/// Latest UTC second that a date-time can hold (+262142-12-31T23:59:59Z).
pub const LATEST_SECOND: i64 = 8210266876799;

/// A point in time: whole seconds since 1970-01-01T00:00:00Z, the nanoseconds
/// past that second (a leap second runs past a billion), and the offset of the
/// local clock east of UTC in seconds.
pub struct Timestamp {
    seconds: i64,
    nanos: u32,
    offset: i32,
}

/// The parts of a date-time that can be represented: the UTC and the local
/// second both in range, a nanosecond count of at most one leap second that
/// only the 59th second of a minute carries, and an offset under a day.
pub open spec fn representable(seconds: int, nanos: int, offset: int) -> bool {
    &&& EARLIEST_SECOND <= seconds <= LATEST_SECOND
    &&& EARLIEST_SECOND <= seconds + offset <= LATEST_SECOND
    &&& -86400 < offset < 86400
    &&& 0 <= nanos
    &&& (nanos < 1_000_000_000 || (nanos < 2_000_000_000 && seconds % 60 == 59))
}

impl Timestamp {
    #[verifier::type_invariant]
    spec fn well_formed(self) -> bool {
        representable(self.seconds as int, self.nanos as int, self.offset as int)
    }

    /// The UTC second.
    pub closed spec fn spec_seconds(self) -> i64 {
        self.seconds
    }

    /// The nanoseconds past the UTC second.
    pub closed spec fn spec_nanos(self) -> u32 {
        self.nanos
    }

    /// The offset east of UTC, in seconds.
    pub closed spec fn spec_offset(self) -> i32 {
        self.offset
    }

    /// The three parts as a tuple.
    pub open spec fn parts(self) -> (i64, u32, i32) {
        (self.spec_seconds(), self.spec_nanos(), self.spec_offset())
    }

    /// A timestamp from its parts, when they are representable.
    pub fn from_parts(seconds: i64, nanos: u32, offset: i32) -> (out: Option<Timestamp>)
        ensures
            out is Some <==> representable(seconds as int, nanos as int, offset as int),
            out matches Some(t) ==> t.parts() == (seconds, nanos, offset),
    {
        if seconds < EARLIEST_SECOND || seconds > LATEST_SECOND {
            return None;
        }
        if offset <= -86400 || offset >= 86400 {
            return None;
        }
        let local = seconds as i128 + offset as i128;
        if local < EARLIEST_SECOND as i128 || local > LATEST_SECOND as i128 {
            return None;
        }
        if nanos >= 2_000_000_000 {
            return None;
        }
        if nanos >= 1_000_000_000 {
            let r = match seconds.checked_rem_euclid(60) {
                Some(r) => r,
                None => 0,
            };
            if r != 59 {
                return None;
            }
        }
        Some(Timestamp { seconds, nanos, offset })
    }

    /// The UTC second.
    pub fn seconds(&self) -> (out: i64)
        ensures
            out == self.spec_seconds(),
    {
        self.seconds
    }

    /// The nanoseconds past the UTC second.
    pub fn nanos(&self) -> (out: u32)
        ensures
            out == self.spec_nanos(),
    {
        self.nanos
    }

    /// The offset east of UTC, in seconds.
    pub fn offset(&self) -> (out: i32)
        ensures
            out == self.spec_offset(),
    {
        self.offset
    }

    /// A copy of the timestamp.
    pub fn copy(&self) -> (out: Timestamp)
        ensures
            out.parts() == self.parts(),
    {
        proof {
            use_type_invariant(self);
        }
        Timestamp { seconds: self.seconds, nanos: self.nanos, offset: self.offset }
    }
}

/// `a <= b` on date-times: the earlier instant comes first, whatever the
/// offsets; equal instants compare equal.
pub open spec fn not_after(a: (i64, u32, i32), b: (i64, u32, i32)) -> bool {
    a.0 < b.0 || (a.0 == b.0 && a.1 <= b.1)
}

/// Whether `a` is at or before `b`.
pub fn is_not_after(a: &Timestamp, b: &Timestamp) -> (out: bool)
    ensures
        out == not_after(a.parts(), b.parts()),
{
    a.seconds() < b.seconds() || (a.seconds() == b.seconds() && a.nanos() <= b.nanos())
}

/// What `DateTime::parse_from_rfc3339` makes of a text: the UTC second, the
/// nanoseconds and the offset of the date-time it reads, or nothing.
pub uninterp spec fn rfc3339_reading(text: Seq<char>) -> Option<(i64, u32, i32)>;

/// What `DateTime::to_rfc3339` writes for a date-time with these parts.
pub uninterp spec fn rfc3339_writing(parts: (i64, u32, i32)) -> Seq<char>;

/// What `format("%Y-%m-%d %H:%M:%S")` writes for a date-time with these parts,
/// in its local time.
pub uninterp spec fn table_writing(parts: (i64, u32, i32)) -> Seq<char>;

/// What `TimeDelta::num_seconds` gives for `later.signed_duration_since(earlier)`.
pub uninterp spec fn whole_seconds_between(later: (i64, u32, i32), earlier: (i64, u32, i32)) -> i64;

/// `chrono::DateTime::parse_from_rfc3339`, read into its parts. The result is
/// named by `rfc3339_reading`; it is a date-time that chrono holds, so its
/// parts are representable.
#[verifier::external_body]
pub fn parse_rfc3339(text: &str) -> (out: Option<Timestamp>)
    ensures
        match out {
            Some(t) => rfc3339_reading(text@) == Some(t.parts()),
            None => rfc3339_reading(text@) is None,
        },
{
    chrono::DateTime::parse_from_rfc3339(text).ok().map(
        |dt| Timestamp {
            seconds: dt.timestamp(),
            nanos: dt.timestamp_subsec_nanos(),
            offset: dt.offset().local_minus_utc(),
        },
    )
}

/// `chrono::DateTime::to_rfc3339` of the date-time with these parts, named by
/// `rfc3339_writing`.
#[verifier::external_body]
pub fn rfc3339_text(t: &Timestamp) -> (out: String)
    ensures
        out@ == rfc3339_writing(t.parts()),
{
    let utc = chrono::DateTime::from_timestamp(t.seconds, t.nanos).unwrap();
    let offset = chrono::FixedOffset::east_opt(t.offset).unwrap();
    utc.with_timezone(&offset).to_rfc3339()
}

/// `format("%Y-%m-%d %H:%M:%S").to_string()` of the date-time with these
/// parts, named by `table_writing`.
#[verifier::external_body]
pub fn table_text(t: &Timestamp) -> (out: String)
    ensures
        out@ == table_writing(t.parts()),
{
    let utc = chrono::DateTime::from_timestamp(t.seconds, t.nanos).unwrap();
    let offset = chrono::FixedOffset::east_opt(t.offset).unwrap();
    utc.with_timezone(&offset).format("%Y-%m-%d %H:%M:%S").to_string()
}

/// `later.signed_duration_since(earlier).num_seconds()`, named by
/// `whole_seconds_between`. Away from leap seconds it is the difference of
/// the instants in seconds, rounded toward zero.
#[verifier::external_body]
pub fn seconds_between(later: &Timestamp, earlier: &Timestamp) -> (out: i64)
    ensures
        out == whole_seconds_between(later.parts(), earlier.parts()),
        later.spec_nanos() < 1_000_000_000 && earlier.spec_nanos() < 1_000_000_000 ==> out as int
            == truncated_seconds(
            (later.spec_seconds() - earlier.spec_seconds()) * 1_000_000_000 + (later.spec_nanos()
                - earlier.spec_nanos()),
        ),
{
    let a = chrono::DateTime::from_timestamp(later.seconds, later.nanos).unwrap();
    let b = chrono::DateTime::from_timestamp(earlier.seconds, earlier.nanos).unwrap();
    a.signed_duration_since(b).num_seconds()
}

/// A count of nanoseconds as whole seconds, rounded toward zero.
pub open spec fn truncated_seconds(nanos: int) -> int {
    if nanos >= 0 {
        nanos / 1_000_000_000
    } else {
        -((-nanos) / 1_000_000_000)
    }
}

/// `Utc::now().fixed_offset()`: the current time at offset zero. Nothing is
/// stated of which instant it is.
#[verifier::external_body]
pub fn now() -> (out: Timestamp)
    ensures
        out.spec_offset() == 0,
{
    let dt = chrono::Utc::now();
    Timestamp { seconds: dt.timestamp(), nanos: dt.timestamp_subsec_nanos(), offset: 0 }
}

} // verus!
