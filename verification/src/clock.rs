//! Timestamps as storage reads them back: RFC 3339 text, through chrono.

use vstd::prelude::*;

use crate::record::{ulid_text, RecordId, Timestamp};
use crate::repository::{StorageError, StorageErrorView};

verus! {

/// The instant chrono reads from RFC 3339 `text`, as seconds and
/// nanoseconds since the Unix epoch in UTC; `None` when it refuses the text.
pub uninterp spec fn rfc3339_reading(text: Seq<char>) -> Option<(i64, u32)>;

/// The message chrono gives for refusing `text`.
pub uninterp spec fn rfc3339_refusal(text: Seq<char>) -> Seq<char>;

/// `text` as Rust's `Debug` writes a string: quoted, with escapes.
pub uninterp spec fn debug_quoted(text: Seq<char>) -> Seq<char>;

/// The RFC 3339 text chrono writes for an instant, with nine fractional
/// digits and `Z`; `None` when chrono has no date for it.
pub uninterp spec fn rfc3339_text(seconds: i64, nanos: u32) -> Option<Seq<char>>;

/// The first second of the year 0 and the first of the year 10000: chrono
/// writes the years between with four digits, as RFC 3339 asks.
pub const FIRST_SECOND: i64 = -62167219200;
pub const PAST_LAST_SECOND: i64 = 253402300800;

/// An instant chrono writes as plain RFC 3339: a four-digit year and no
/// leap second.
pub open spec fn writable(seconds: i64, nanos: u32) -> bool {
    FIRST_SECOND <= seconds < PAST_LAST_SECOND && nanos < 1_000_000_000
}

/// Writes an instant: `DateTime::from_timestamp`, then `to_rfc3339_opts`
/// with nanoseconds and `Z`. For an instant with a four-digit year and no
/// leap second, the text is always there, and `parse_from_rfc3339` reads
/// back exactly that instant: nine digits carry every nanosecond.
#[verifier::external_body]
pub(crate) fn write_rfc3339(at: Timestamp) -> (r: Option<String>)
    ensures
        match r {
            Some(t) => rfc3339_text(at.seconds, at.nanos) == Some(t@)
                && (writable(at.seconds, at.nanos) ==> rfc3339_reading(t@) == Some((at.seconds, at.nanos))),
            None => rfc3339_text(at.seconds, at.nanos) is None && !writable(at.seconds, at.nanos),
        },
{
    chrono::DateTime::from_timestamp(at.seconds, at.nanos)
        .map(|utc| utc.to_rfc3339_opts(chrono::SecondsFormat::Nanos, true))
}

/// The stored form of a timestamp: RFC 3339, always `Z`, always nine
/// fractional digits, so that it survives the round trip through the
/// database unchanged. An instant chrono has no date for is written empty.
pub fn format(at: &Timestamp) -> (r: String)
    ensures
        r@ == match rfc3339_text(at.seconds, at.nanos) {
            Some(t) => t,
            None => Seq::empty(),
        },
        writable(at.seconds, at.nanos) ==> rfc3339_reading(r@) == Some((at.seconds, at.nanos)),
{
    match write_rfc3339(*at) {
        Some(t) => t,
        None => String::new(),
    }
}

/// Whether chrono accepts `text` as an RFC 3339 timestamp.
pub open spec fn rfc3339_valid(text: Seq<char>) -> bool {
    rfc3339_reading(text) is Some
}

/// Reads RFC 3339 text: `DateTime::parse_from_rfc3339`, moved to UTC. The
/// error is the text of chrono's `ParseError`.
#[verifier::external_body]
pub(crate) fn read_rfc3339(text: &str) -> (r: Result<Timestamp, String>)
    ensures
        match r {
            Ok(t) => rfc3339_reading(text@) == Some((t.seconds, t.nanos)),
            Err(message) => rfc3339_reading(text@) is None && message@ == rfc3339_refusal(text@),
        },
{
    match chrono::DateTime::parse_from_rfc3339(text) {
        Ok(at) => {
            let utc = at.with_timezone(&chrono::Utc);
            Ok(Timestamp { seconds: utc.timestamp(), nanos: utc.timestamp_subsec_nanos() })
        },
        Err(error) => Err(error.to_string()),
    }
}

/// `format!("{:?}", text)`.
#[verifier::external_body]
pub(crate) fn quoted(text: &str) -> (s: String)
    ensures
        s@ == debug_quoted(text@),
{
    format!("{:?}", text)
}

/// What is reported of a stored timestamp chrono refuses.
pub open spec fn bad_timestamp_view(id: RecordId, text: Seq<char>) -> StorageErrorView {
    StorageErrorView::Corrupt {
        id: ulid_text(id.0),
        detail: "timestamp "@ + debug_quoted(text) + " is not RFC 3339: "@ + rfc3339_refusal(text),
    }
}

/// Reads a stored timestamp back. A row whose timestamp does not parse is
/// corrupt, and the error names the record.
pub fn parse(id: &RecordId, text: &str) -> (r: Result<Timestamp, StorageError>)
    ensures
        match r {
            Ok(t) => rfc3339_reading(text@) == Some((t.seconds, t.nanos)),
            Err(e) => rfc3339_reading(text@) is None && e@ == bad_timestamp_view(*id, text@),
        },
{
    match read_rfc3339(text) {
        Ok(t) => Ok(t),
        Err(message) => {
            let mut detail = String::new();
            detail.append("timestamp ");
            let q = quoted(text);
            detail.append(q.as_str());
            detail.append(" is not RFC 3339: ");
            detail.append(message.as_str());
            Err(StorageError::Corrupt { id: id.as_string(), detail })
        },
    }
}

} // verus!
