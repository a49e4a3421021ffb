//! The dates of a document: instants in UTC, read from text that states its
//! offset from UTC.
use crate::error::BuildError;
use crate::text::to_chars;
use vstd::prelude::*;

verus! {

/// An instant in UTC: the whole seconds since 1970-01-01T00:00:00Z, and the
/// nanoseconds that follow them.
#[derive(Debug, Clone, Copy, PartialEq, Eq, Structural)]
pub struct Timestamp {
    pub secs: i64,
    pub nanos: u32,
}

/// The two dates that a front matter has to give.
#[derive(Debug, Clone, Copy, PartialEq, Eq, Structural)]
pub enum DateField {
    Created,
    Updated,
}

impl DateField {
    /// The error for a front matter that does not give this date.
    pub open spec fn missing(self) -> BuildError {
        match self {
            DateField::Created => BuildError::MissingCreated,
            DateField::Updated => BuildError::MissingUpdated,
        }
    }

    /// The error for a date text that is not accepted.
    pub open spec fn invalid(self) -> BuildError {
        match self {
            DateField::Created => BuildError::InvalidCreatedFormat,
            DateField::Updated => BuildError::InvalidUpdatedFormat,
        }
    }
}

/// Whether `c` is a decimal digit.
pub open spec fn is_digit(c: char) -> bool {
    '0' <= c <= '9'
}

/// Whether `c` is a sign that can open a numeric offset: plus, hyphen-minus or
/// the minus sign U+2212.
pub open spec fn is_offset_sign(c: char) -> bool {
    c == '+' || c == '-' || c == '\u{2212}'
}

/// Whether `text` ends in the letter Z, the marker of UTC.
pub open spec fn ends_in_utc_marker(text: Seq<char>) -> bool {
    text.len() >= 1 && (text.last() == 'Z' || text.last() == 'z')
}

/// Whether `text` ends in a numeric offset: a sign, two digits of hours, a
/// colon, two digits of minutes.
pub open spec fn ends_in_numeric_offset(text: Seq<char>) -> bool {
    let n = text.len() as int;
    &&& n >= 6
    &&& is_offset_sign(text[n - 6])
    &&& is_digit(text[n - 5])
    &&& is_digit(text[n - 4])
    &&& text[n - 3] == ':'
    &&& is_digit(text[n - 2])
    &&& is_digit(text[n - 1])
}

/// Whether `text` ends in an explicit offset from UTC.
pub open spec fn has_utc_offset(text: Seq<char>) -> bool {
    ends_in_utc_marker(text) || ends_in_numeric_offset(text)
}

/// What chrono's RFC 3339 parser makes of `text`: the seconds and nanoseconds
/// of the instant in UTC, or `None` where it rejects the text.
pub uninterp spec fn rfc3339_instant(text: Seq<char>) -> Option<(i64, u32)>;

/// The instant that a parsed pair of seconds and nanoseconds stands for.
pub open spec fn instant_of(parsed: Option<(i64, u32)>) -> Option<Timestamp> {
    match parsed {
        Some((secs, nanos)) => Some(Timestamp { secs, nanos }),
        None => None,
    }
}

/// The instant that the date text `text` denotes: only a text that ends in an
/// explicit offset from UTC denotes one, and then the one that the RFC 3339
/// parser reads.
pub open spec fn date_instant(text: Seq<char>) -> Option<Timestamp> {
    if has_utc_offset(text) {
        instant_of(rfc3339_instant(text))
    } else {
        None
    }
}

/// The outcome for the date `field` whose text denotes `instant`.
pub open spec fn date_result(field: DateField, instant: Option<Timestamp>) -> Result<
    Timestamp,
    BuildError,
> {
    match instant {
        Some(t) => Ok(t),
        None => Err(field.invalid()),
    }
}

/// Whether `text` is a calendar date and time of day with nothing after it:
/// `YYYY-MM-DD`, a `T` or a space, `HH:MM:SS`, and at most a fraction of a
/// second.
pub open spec fn is_local_date_time(text: Seq<char>) -> bool {
    &&& text.len() >= 19
    &&& is_digit(text[0]) && is_digit(text[1]) && is_digit(text[2]) && is_digit(text[3])
    &&& text[4] == '-'
    &&& is_digit(text[5]) && is_digit(text[6])
    &&& text[7] == '-'
    &&& is_digit(text[8]) && is_digit(text[9])
    &&& (text[10] == 'T' || text[10] == 't' || text[10] == ' ')
    &&& is_digit(text[11]) && is_digit(text[12])
    &&& text[13] == ':'
    &&& is_digit(text[14]) && is_digit(text[15])
    &&& text[16] == ':'
    &&& is_digit(text[17]) && is_digit(text[18])
    &&& text.len() > 19 ==> {
        &&& text.len() > 20
        &&& text[19] == '.'
        &&& forall|i: int| 20 <= i < text.len() ==> is_digit(#[trigger] text[i])
    }
}

/// Whether `text` is a calendar date alone: `YYYY-MM-DD`.
pub open spec fn is_date_only(text: Seq<char>) -> bool {
    &&& text.len() == 10
    &&& is_digit(text[0]) && is_digit(text[1]) && is_digit(text[2]) && is_digit(text[3])
    &&& text[4] == '-'
    &&& is_digit(text[5]) && is_digit(text[6])
    &&& text[7] == '-'
    &&& is_digit(text[8]) && is_digit(text[9])
}

/// A date text without an explicit offset from UTC denotes no instant.
pub proof fn lemma_offset_required(text: Seq<char>)
    requires
        !has_utc_offset(text),
    ensures
        date_instant(text) is None,
{
}

/// A well-formed date and time that states no offset is rejected: it is never
/// read as if it were in UTC. So is a date alone.
pub proof fn lemma_local_date_time_rejected(text: Seq<char>)
    requires
        is_local_date_time(text) || is_date_only(text),
    ensures
        !has_utc_offset(text),
        date_instant(text) is None,
{
    let n = text.len() as int;
    if is_local_date_time(text) {
        if n > 19 {
            assert(is_digit(text[n - 1]));
            if n - 3 >= 20 {
                assert(is_digit(text[n - 3]));
            }
        }
    }
}

/// Calls chrono's `DateTime::parse_from_rfc3339` on `text` and, where it
/// accepts, takes the instant in UTC apart with `to_utc`, `timestamp` and
/// `timestamp_subsec_nanos`. The contract claims only that the outcome is a
/// function of the characters of `text`, and gives that function its name.
#[verifier::external_body]
fn parse_rfc3339(text: &str) -> (parsed: Option<(i64, u32)>)
    ensures
        parsed == rfc3339_instant(text@),
{
    match chrono::DateTime::parse_from_rfc3339(text) {
        Ok(local) => {
            let utc = local.to_utc();
            Some((utc.timestamp(), utc.timestamp_subsec_nanos()))
        },
        Err(_) => None,
    }
}

/// Decides whether `c` is a decimal digit.
fn is_digit_char(c: char) -> (r: bool)
    ensures
        r == is_digit(c),
{
    '0' <= c && c <= '9'
}

/// Decides whether `text` ends in an explicit offset from UTC.
pub fn ends_with_utc_offset(text: &str) -> (r: bool)
    ensures
        r == has_utc_offset(text@),
{
    let chars: Vec<char> = to_chars(text);
    let n: usize = chars.len();
    if n >= 1 && (chars[n - 1] == 'Z' || chars[n - 1] == 'z') {
        return true;
    }
    if n < 6 {
        return false;
    }
    let sign: char = chars[n - 6];
    (sign == '+' || sign == '-' || sign == '\u{2212}') && is_digit_char(chars[n - 5])
        && is_digit_char(chars[n - 4]) && chars[n - 3] == ':' && is_digit_char(chars[n - 2])
        && is_digit_char(chars[n - 1])
}

/// Turns what the parser made of a date text into the instant it stands for.
pub fn instant_from_parts(parsed: Option<(i64, u32)>) -> (r: Option<Timestamp>)
    ensures
        r == instant_of(parsed),
{
    match parsed {
        Some((secs, nanos)) => Some(Timestamp { secs, nanos }),
        None => None,
    }
}

/// Reads the instant that the date text `text` denotes, if it denotes one.
pub fn parse_date(text: &str) -> (r: Option<Timestamp>)
    ensures
        r == date_instant(text@),
{
    if ends_with_utc_offset(text) {
        instant_from_parts(parse_rfc3339(text))
    } else {
        None
    }
}

/// Decides the outcome for the date `field` whose text denotes `instant`: the
/// instant, or the error that names the field.
pub fn date_outcome(field: DateField, instant: Option<Timestamp>) -> (r: Result<
    Timestamp,
    BuildError,
>)
    ensures
        r == date_result(field, instant),
{
    match instant {
        Some(t) => Ok(t),
        None => match field {
            DateField::Created => Err(BuildError::InvalidCreatedFormat),
            DateField::Updated => Err(BuildError::InvalidUpdatedFormat),
        },
    }
}

} // verus!
