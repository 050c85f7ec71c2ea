//! Timestamps, as an ISO string or as seconds since the Unix epoch.
use vstd::prelude::*;
use vstd::std_specs::cmp::PartialEqSpecImpl;
use vstd::std_specs::convert::FromSpecImpl;

verus! {

/// The text that stands for `epoch` seconds after 1970-01-01T00:00:00Z in
/// RFC 3339, in UTC, to the second, with `Z` for the offset.
pub uninterp spec fn rfc3339_text(epoch: i32) -> Seq<char>;

/// The seconds since the Unix epoch of the instant that an RFC 3339 text
/// names, or `None` where the text is not RFC 3339.
pub uninterp spec fn rfc3339_seconds(text: Seq<char>) -> Option<i64>;

/// Formats seconds since the Unix epoch with chrono.
///
/// `chrono::DateTime::from_timestamp` makes the instant, which exists for
/// every 32-bit number of seconds, and `to_rfc3339_opts` writes it with whole
/// seconds and `Z`. The text depends on `epoch` alone.
#[verifier::external_body]
fn format_rfc3339(epoch: i32) -> (r: String)
    ensures
        r@ == rfc3339_text(epoch),
{
    chrono::DateTime::from_timestamp(i64::from(epoch), 0).unwrap_or_default().to_rfc3339_opts(
        chrono::SecondsFormat::Secs,
        true,
    )
}

/// Parses an RFC 3339 text with chrono.
///
/// `chrono::DateTime::parse_from_rfc3339` reads the text and `timestamp`
/// gives the seconds since the Unix epoch. The result depends on the text
/// alone.
#[verifier::external_body]
fn parse_rfc3339(text: &str) -> (r: Option<i64>)
    ensures
        r == rfc3339_seconds(text@),
{
    match chrono::DateTime::parse_from_rfc3339(text) {
        Ok(instant) => Some(instant.timestamp()),
        Err(_) => None,
    }
}

/// Timestamps can be stored as an ISO formatted string, or as a number of
/// seconds since the Unix epoch.
///
/// XML files carry ISO strings, PBF files carry integer seconds.
#[derive(Debug, Clone, Eq)]
pub enum TimestampFormat {
    ISOString(String),
    EpochNunber(i64),
}

/// What a timestamp holds.
pub enum TimestampView {
    ISOString(Seq<char>),
    EpochNunber(i64),
}

impl View for TimestampFormat {
    type V = TimestampView;

    open spec fn view(&self) -> TimestampView {
        match self {
            TimestampFormat::ISOString(s) => TimestampView::ISOString(s@),
            TimestampFormat::EpochNunber(t) => TimestampView::EpochNunber(*t),
        }
    }
}

/// The view of an optional timestamp.
pub open spec fn timestamp_view(t: Option<TimestampFormat>) -> Option<TimestampView> {
    match t {
        Some(t) => Some(t@),
        None => None,
    }
}

/// The seconds since the Unix epoch that a parsed ISO text counts as: the
/// low 32 bits of the instant, and zero where the text did not parse.
pub open spec fn iso_epoch(parsed: Option<i64>) -> i64 {
    match parsed {
        Some(t) => (t as u32) as i64,
        None => 0,
    }
}

/// The seconds that a timestamp stands for.
pub open spec fn spec_epoch_number(t: TimestampView) -> i64 {
    match t {
        TimestampView::ISOString(s) => iso_epoch(rfc3339_seconds(s)),
        TimestampView::EpochNunber(t) => t,
    }
}

/// The seconds since the Unix epoch for the outcome of parsing an ISO text.
pub fn epoch_of_parsed(parsed: Option<i64>) -> (r: i64)
    ensures
        r == iso_epoch(parsed),
{
    match parsed {
        Some(t) => {
            let low: u32 = #[verifier::truncate]
            (t as u32);
            low as i64
        },
        None => 0,
    }
}

/// The error of parsing a text that is no RFC 3339 date.
pub open spec fn invalid_date() -> Seq<char> {
    "invalid date"@
}

/// The timestamp for the outcome of parsing an ISO text.
pub fn timestamp_of_parsed(parsed: Option<i64>) -> (r: Result<TimestampFormat, String>)
    ensures
        match parsed {
            Some(t) => r matches Ok(ts) && ts@ == TimestampView::EpochNunber(t),
            None => r matches Err(e) && e@ == invalid_date(),
        },
{
    match parsed {
        Some(t) => Ok(TimestampFormat::EpochNunber(t)),
        None => Err("invalid date".to_owned()),
    }
}

impl TimestampFormat {
    /// The timestamp as an ISO string. A number of seconds is formatted in
    /// UTC from its low 32 bits.
    pub fn to_iso_string(&self) -> (r: String)
        ensures
            r@ == match self@ {
                TimestampView::ISOString(s) => s,
                TimestampView::EpochNunber(t) => rfc3339_text(t as i32),
            },
    {
        match self {
            TimestampFormat::ISOString(s) => s.clone(),
            TimestampFormat::EpochNunber(t) => {
                let low: i32 = #[verifier::truncate]
                (*t as i32);
                format_rfc3339(low)
            },
        }
    }

    /// The timestamp as seconds since the Unix epoch. An ISO string that does
    /// not parse counts as zero.
    pub fn to_epoch_number(&self) -> (r: i64)
        ensures
            r == spec_epoch_number(self@),
    {
        match self {
            TimestampFormat::ISOString(s) => epoch_of_parsed(parse_rfc3339(s.as_str())),
            TimestampFormat::EpochNunber(t) => *t,
        }
    }

    /// Reads an RFC 3339 date into a number of seconds.
    pub fn parse_iso(s: &str) -> (r: Result<TimestampFormat, String>)
        ensures
            match rfc3339_seconds(s@) {
                Some(t) => r matches Ok(ts) && ts@ == TimestampView::EpochNunber(t),
                None => r matches Err(e) && e@ == invalid_date(),
            },
    {
        timestamp_of_parsed(parse_rfc3339(s))
    }
}

impl From<i64> for TimestampFormat {
    fn from(v: i64) -> (r: Self) {
        TimestampFormat::EpochNunber(v)
    }
}

impl FromSpecImpl<i64> for TimestampFormat {
    open spec fn obeys_from_spec() -> bool {
        true
    }

    open spec fn from_spec(v: i64) -> Self {
        TimestampFormat::EpochNunber(v)
    }
}

impl std::str::FromStr for TimestampFormat {
    type Err = String;

    /// Reads an RFC 3339 date into a number of seconds. A text that is no
    /// such date gives the message `invalid date`.
    fn from_str(s: &str) -> (r: Result<Self, String>)
        ensures
            match rfc3339_seconds(s@) {
                Some(t) => r matches Ok(ts) && ts@ == TimestampView::EpochNunber(t),
                None => r matches Err(e) && e@ == invalid_date(),
            },
    {
        TimestampFormat::parse_iso(s)
    }
}

impl PartialEq for TimestampFormat {
    /// Two ISO strings are equal when their texts are, two numbers when they
    /// are the same; a string and a number when they stand for the same second.
    fn eq(&self, other: &Self) -> (r: bool) {
        match self {
            TimestampFormat::ISOString(a) => match other {
                TimestampFormat::ISOString(b) => *a == *b,
                TimestampFormat::EpochNunber(_) => self.to_epoch_number()
                    == other.to_epoch_number(),
            },
            TimestampFormat::EpochNunber(a) => match other {
                TimestampFormat::ISOString(_) => self.to_epoch_number()
                    == other.to_epoch_number(),
                TimestampFormat::EpochNunber(b) => *a == *b,
            },
        }
    }
}

impl PartialEqSpecImpl for TimestampFormat {
    open spec fn obeys_eq_spec() -> bool {
        true
    }

    open spec fn eq_spec(&self, other: &Self) -> bool {
        match (self@, other@) {
            (TimestampView::ISOString(a), TimestampView::ISOString(b)) => a == b,
            (TimestampView::EpochNunber(a), TimestampView::EpochNunber(b)) => a == b,
            (a, b) => spec_epoch_number(a) == spec_epoch_number(b),
        }
    }
}

} // verus!
