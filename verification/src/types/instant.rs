//! Points in time on the UTC time line.

use vstd::prelude::*;

verus! {

/// The error with which `chrono` rejects a text, carried as it is.
#[verifier::external_type_specification]
#[verifier::external_body]
pub struct ExChronoParseError(chrono::ParseError);

/// An instant in UTC with nanosecond precision: whole non-leap seconds since
/// 1970-01-01T00:00:00Z and nanoseconds since the last whole second. During a
/// leap second the nanoseconds exceed 999,999,999.
///
/// Every instant is one that `chrono` can hold as a `DateTime<Utc>`.
#[derive(Clone, Copy, Debug, PartialEq, Eq, Structural)]
pub struct Instant {
    pub(crate) secs: i64,
    pub(crate) nanos: u32,
}

/// The instant that `chrono` reads from a text in its relaxed RFC 3339 form,
/// converted to UTC; `None` for a text that it rejects.
pub uninterp spec fn parsed_instant(text: Seq<char>) -> Option<Instant>;

/// The text that `chrono` writes for the instant `nanos` nanoseconds after
/// the second `secs`, in RFC 3339 form, with `Z` as the offset and as many
/// fraction digits (none, three, six or nine) as the nanoseconds need; `None`
/// where `chrono` has no date for these numbers.
pub uninterp spec fn rfc3339_text(secs: i64, nanos: u32) -> Option<Seq<char>>;

/// Parses with `<chrono::DateTime<chrono::Utc> as FromStr>::from_str` and
/// reads the result back with `timestamp` and `timestamp_subsec_nanos`. The
/// outcome is a function of the text alone, named by `parsed_instant`. What
/// these two methods return of a date, `DateTime::from_timestamp` accepts.
#[verifier::external_body]
fn chrono_parse(text: &str) -> (outcome: Result<Instant, chrono::ParseError>)
    ensures
        match outcome {
            Ok(instant) => parsed_instant(text@) == Some(instant) && rfc3339_text(
                instant.secs,
                instant.nanos,
            ) is Some,
            Err(_) => parsed_instant(text@) is None,
        },
{
    match text.parse::<chrono::DateTime<chrono::Utc>>() {
        Ok(t) => Ok(Instant { secs: t.timestamp(), nanos: t.timestamp_subsec_nanos() }),
        Err(e) => Err(e),
    }
}

/// Builds the date with `chrono::DateTime::from_timestamp` and writes it with
/// `to_rfc3339_opts(SecondsFormat::AutoSi, true)`. The outcome is a function
/// of the two numbers alone, named by `rfc3339_text`.
#[verifier::external_body]
fn chrono_format(secs: i64, nanos: u32) -> (text: Option<String>)
    ensures
        match text {
            Some(t) => rfc3339_text(secs, nanos) == Some(t@),
            None => rfc3339_text(secs, nanos) is None,
        },
{
    match chrono::DateTime::from_timestamp(secs, nanos) {
        Some(t) => Some(t.to_rfc3339_opts(chrono::SecondsFormat::AutoSi, true)),
        None => None,
    }
}

impl Instant {
    #[verifier::type_invariant]
    spec fn has_date(self) -> bool {
        rfc3339_text(self.secs, self.nanos) is Some
    }

    /// Whole seconds since the epoch.
    pub closed spec fn seconds(&self) -> int {
        self.secs as int
    }

    /// Nanoseconds since the last whole second.
    pub closed spec fn subsec_nanos(&self) -> int {
        self.nanos as int
    }

    /// The instant in RFC 3339 form.
    pub closed spec fn text(&self) -> Seq<char> {
        rfc3339_text(self.secs, self.nanos).unwrap()
    }

    /// The nanoseconds from the epoch to the instant.
    pub open spec fn nanos_since_epoch(&self) -> int {
        self.seconds() * 1_000_000_000 + self.subsec_nanos()
    }

    /// The instant `nanos` nanoseconds after the second `secs`, or `None`
    /// where `chrono` has no date for these numbers: the seconds are beyond
    /// its calendar, or the nanoseconds are too many.
    pub fn from_timestamp(secs: i64, nanos: u32) -> (instant: Option<Instant>)
        ensures
            instant is Some <==> rfc3339_text(secs, nanos) is Some,
            instant is Some ==> instant.unwrap().seconds() == secs
                && instant.unwrap().subsec_nanos() == nanos,
    {
        match chrono_format(secs, nanos) {
            Some(_) => Some(Instant { secs, nanos }),
            None => None,
        }
    }

    /// Whole seconds since the epoch.
    pub fn timestamp(&self) -> (secs: i64)
        ensures
            secs == self.seconds(),
    {
        self.secs
    }

    /// Nanoseconds since the last whole second.
    pub fn timestamp_subsec_nanos(&self) -> (nanos: u32)
        ensures
            nanos == self.subsec_nanos(),
    {
        self.nanos
    }

    /// Reads an instant from a text such as `2017-03-01T00:16:18Z`.
    pub fn parse(text: &str) -> (outcome: Result<Instant, chrono::ParseError>)
        ensures
            match outcome {
                Ok(instant) => parsed_instant(text@) == Some(instant),
                Err(_) => parsed_instant(text@) is None,
            },
    {
        chrono_parse(text)
    }

    /// The instant as text such as `2021-03-07T21:00:00Z`.
    pub fn to_rfc3339(&self) -> (text: String)
        ensures
            text@ == self.text(),
    {
        proof {
            use_type_invariant(self);
        }
        match chrono_format(self.secs, self.nanos) {
            Some(text) => text,
            None => unreached(),
        }
    }

    /// Nanoseconds since the epoch, or `None` where they do not fit in 64
    /// bits.
    pub fn timestamp_nanos(&self) -> (total: Option<i64>)
        ensures
            match total {
                Some(n) => n == self.nanos_since_epoch(),
                None => self.nanos_since_epoch() < i64::MIN || self.nanos_since_epoch() > i64::MAX,
            },
    {
        let wide: i128 = (self.secs as i128) * 1_000_000_000 + (self.nanos as i128);
        if wide < (i64::MIN as i128) || wide > (i64::MAX as i128) {
            None
        } else {
            Some(wide as i64)
        }
    }
}

} // verus!
