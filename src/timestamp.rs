use vstd::prelude::*;

verus! {

/// The earliest second the calendar library represents: -262143-01-01T00:00:00Z.
pub const MIN_UNIX_SECONDS: i64 = -8_334_601_228_800;

/// The latest second the calendar library represents: +262142-12-31T23:59:59Z.
pub const MAX_UNIX_SECONDS: i64 = 8_210_266_876_799;

/// The text `YYYY-MM-DDTHH:MM:SSZ` that chrono writes for a Unix time in seconds.
pub uninterp spec fn iso8601_utc(secs: int) -> Seq<char>;

/// A point in time, in whole seconds since 1970-01-01T00:00:00Z.
#[derive(Debug, Clone, Copy, PartialEq, Eq, Structural)]
pub struct Timestamp {
    secs: i64,
}

impl Timestamp {
    #[verifier::type_invariant]
    spec fn in_range(self) -> bool {
        MIN_UNIX_SECONDS <= self.secs <= MAX_UNIX_SECONDS
    }

    /// Seconds since the Unix epoch.
    pub closed spec fn seconds(self) -> int {
        self.secs as int
    }

    /// The timestamp of a Unix time, when the calendar can represent it.
    pub fn from_unix_seconds(secs: i64) -> (r: Option<Timestamp>)
        ensures
            r is Some <==> MIN_UNIX_SECONDS <= secs <= MAX_UNIX_SECONDS,
            r matches Some(t) ==> t.seconds() == secs,
    {
        if MIN_UNIX_SECONDS <= secs && secs <= MAX_UNIX_SECONDS {
            Some(Timestamp { secs })
        } else {
            None
        }
    }

    /// Seconds since the Unix epoch.
    pub fn unix_seconds(&self) -> (r: i64)
        ensures
            r == self.seconds(),
    {
        self.secs
    }

    /// The current time, to the second.
    pub fn now() -> (r: Timestamp) {
        Timestamp { secs: current_unix_seconds() }
    }

    /// This time written as `YYYY-MM-DDTHH:MM:SSZ`.
    pub fn to_iso8601(&self) -> (r: String)
        ensures
            r@ == iso8601_utc(self.seconds()),
    {
        proof {
            use_type_invariant(self);
        }
        format_utc_seconds(self.secs)
    }
}

/// Relies on chrono's `From<SystemTime> for DateTime<Utc>` and
/// `DateTime::timestamp`: the system clock read in whole Unix seconds, before
/// the epoch as well as after it.  Every `DateTime<Utc>` lies between
/// `MIN_UTC` and `MAX_UTC`, whose timestamps are the two bounds.
#[verifier::external_body]
fn current_unix_seconds() -> (r: i64)
    ensures
        MIN_UNIX_SECONDS <= r <= MAX_UNIX_SECONDS,
{
    chrono::DateTime::<chrono::Utc>::from(std::time::SystemTime::now()).timestamp()
}

/// Relies on chrono's `DateTime::from_timestamp`, which gives a date for every
/// second between the two bounds, and on `DateTime::format` with
/// `%Y-%m-%dT%H:%M:%SZ`.
#[verifier::external_body]
fn format_utc_seconds(secs: i64) -> (r: String)
    requires
        MIN_UNIX_SECONDS <= secs <= MAX_UNIX_SECONDS,
    ensures
        r@ == iso8601_utc(secs as int),
{
    match chrono::DateTime::from_timestamp(secs, 0) {
        Some(t) => t.format("%Y-%m-%dT%H:%M:%SZ").to_string(),
        None => String::new(),
    }
}

} // verus!
