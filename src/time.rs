use vstd::prelude::*;

verus! {

/// 0001-01-01T00:00:00Z, the first instant that RFC 3339 can write.
pub const MIN_SECS: i64 = -62135596800;

/// 9999-12-31T23:59:59Z, the last instant that RFC 3339 can write.
pub const MAX_SECS: i64 = 253402300799;

/// A UTC instant, in whole seconds since 1970-01-01T00:00:00Z, within the
/// years that RFC 3339 can write.
#[derive(Clone, Copy, Debug, PartialEq, Eq, Structural)]
pub struct Timestamp {
    secs: i64,
}

impl View for Timestamp {
    type V = int;

    open spec fn view(&self) -> int {
        self.spec_secs() as int
    }
}

/// The text that chrono writes for an instant in RFC 3339 form.
pub uninterp spec fn rfc3339_of(secs: int) -> Seq<char>;

/// Relies on chrono's `DateTime::<Utc>::from_timestamp`, which gives `Some` for
/// every second of years 1 to 9999, and on `DateTime::to_rfc3339`, whose text
/// depends on the instant alone.
#[verifier::external_body]
fn format_rfc3339(secs: i64) -> (r: String)
    requires
        MIN_SECS <= secs <= MAX_SECS,
    ensures
        r@ == rfc3339_of(secs as int),
{
    chrono::DateTime::<chrono::Utc>::from_timestamp(secs, 0).unwrap().to_rfc3339()
}

/// The instant, in seconds since the epoch, that chrono reads from RFC 3339
/// text; `None` for text that chrono rejects.
pub uninterp spec fn rfc3339_secs(s: Seq<char>) -> Option<int>;

/// Relies on chrono's `DateTime::parse_from_rfc3339`, whose result depends on
/// the text alone, read as an instant by `DateTime::timestamp`.
#[verifier::external_body]
fn parse_rfc3339(s: &str) -> (r: Option<i64>)
    ensures
        r is Some <==> rfc3339_secs(s@) is Some,
        r matches Some(t) ==> rfc3339_secs(s@) == Some(t as int),
{
    chrono::DateTime::parse_from_rfc3339(s).ok().map(|d| d.timestamp())
}

impl Timestamp {
    #[verifier::type_invariant]
    spec fn in_range(self) -> bool {
        MIN_SECS <= self.secs <= MAX_SECS
    }

    pub closed spec fn spec_secs(&self) -> i64 {
        self.secs
    }

    /// The instant `secs` seconds after the epoch, where RFC 3339 can write it.
    pub fn from_secs(secs: i64) -> (r: Option<Timestamp>)
        ensures
            r is Some <==> MIN_SECS <= secs <= MAX_SECS,
            r matches Some(t) ==> t@ == secs as int,
    {
        if MIN_SECS <= secs && secs <= MAX_SECS {
            Some(Timestamp { secs })
        } else {
            None
        }
    }

    pub fn secs(&self) -> (r: i64)
        ensures
            r as int == self@,
            MIN_SECS <= r <= MAX_SECS,
    {
        proof {
            use_type_invariant(self);
        }
        self.secs
    }

    /// Whether this instant is strictly later than `other`.
    pub fn is_after(&self, other: &Timestamp) -> (r: bool)
        ensures
            r == (self@ > other@),
    {
        self.secs > other.secs
    }

    /// Reads an instant in RFC 3339 form, down to whole seconds; `None` when
    /// chrono rejects the text or the instant lies outside years 1 to 9999.
    pub fn parse_rfc3339(s: &str) -> (r: Option<Timestamp>)
        ensures
            r matches Some(t) ==> rfc3339_secs(s@) == Some(t@),
            r is None <==> (match rfc3339_secs(s@) {
                None => true,
                Some(x) => !(MIN_SECS <= x <= MAX_SECS),
            }),
    {
        match parse_rfc3339(s) {
            None => None,
            Some(secs) => Timestamp::from_secs(secs),
        }
    }

    /// The instant in RFC 3339 form.
    pub fn to_rfc3339(&self) -> (r: String)
        ensures
            r@ == rfc3339_of(self@),
    {
        proof {
            use_type_invariant(self);
        }
        format_rfc3339(self.secs)
    }
}

} // verus!
