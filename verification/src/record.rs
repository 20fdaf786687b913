//! A record — one JSON document belonging to one collection — and its id.

use vstd::prelude::*;
use vstd::arithmetic::power2::pow2;

use crate::json::{Json, JsonView};

verus! {

/// A record's identity: a ULID, held as its 128-bit value. ULIDs sort
/// chronologically, as numbers and as text.
#[derive(Clone, Copy, Debug, PartialEq, Eq, PartialOrd, Ord, Hash, Structural)]
pub struct RecordId(pub u128);

/// The Crockford base32 digit for `d`, which is below 32.
pub open spec fn crockford_digit(d: int) -> char {
    seq!['0', '1', '2', '3', '4', '5', '6', '7', '8', '9', 'A', 'B', 'C', 'D', 'E', 'F',
        'G', 'H', 'J', 'K', 'M', 'N', 'P', 'Q', 'R', 'S', 'T', 'V', 'W', 'X', 'Y', 'Z'][d]
}

/// The 26-character text of a ULID: five bits per character, most
/// significant first.
pub open spec fn ulid_text(value: u128) -> Seq<char> {
    Seq::new(26, |j: int| crockford_digit(((value as int) / pow2((5 * (25 - j)) as nat) as int) % 32))
}

/// The value a Crockford base32 character stands for, either case; `None`
/// for a character that is not one (`I`, `L`, `O` and `U` are not).
pub open spec fn crockford_value(c: char) -> Option<int> {
    if '0' <= c && c <= '9' {
        Some(c as int - '0' as int)
    } else {
        let u = if 'a' <= c && c <= 'z' { c as int - 32 } else { c as int };
        if 'A' as int <= u && u <= 'H' as int {
            Some(u - 'A' as int + 10)
        } else if u == 'J' as int || u == 'K' as int {
            Some(u - 'J' as int + 18)
        } else if u == 'M' as int || u == 'N' as int {
            Some(u - 'M' as int + 20)
        } else if 'P' as int <= u && u <= 'T' as int {
            Some(u - 'P' as int + 22)
        } else if 'V' as int <= u && u <= 'Z' as int {
            Some(u - 'V' as int + 27)
        } else {
            None
        }
    }
}

/// The value of Crockford base32 `text`, five bits per character, keeping
/// the low 128 bits; `None` when a character is not base32.
pub open spec fn crockford_decoded(text: Seq<char>) -> Option<int>
    decreases text.len(),
{
    if text.len() == 0 {
        Some(0)
    } else {
        match (crockford_decoded(text.drop_last()), crockford_value(text.last())) {
            (Some(high), Some(low)) => Some((high * 32 + low) % pow2(128) as int),
            _ => None,
        }
    }
}

/// What `Ulid::from_string` accepts: exactly 26 base32 characters.
pub open spec fn ulid_parsed(text: Seq<char>) -> Option<int> {
    if text.len() == 26 {
        crockford_decoded(text)
    } else {
        None
    }
}

/// Returned when text is not a well-formed ULID.
#[derive(Debug, PartialEq, Eq)]
pub struct InvalidRecordId(pub String);

impl RecordId {
    /// A fresh id from the current time and randomness. Unlike the ids a
    /// repository mints, consecutive calls are not promised to ascend.
    #[verifier::external_body]
    pub fn new() -> (id: RecordId) {
        RecordId(ulid::Ulid::generate().0)
    }

    /// The 26-character Crockford base32 form: `Ulid::to_string`.
    #[verifier::external_body]
    pub fn as_string(&self) -> (s: String)
        ensures
            s@ == ulid_text(self.0),
    {
        ulid::Ulid(self.0).to_string()
    }

    /// Reads the text form back: `Ulid::from_string`, which takes exactly 26
    /// base32 characters in either case.
    #[verifier::external_body]
    pub fn parse(text: &str) -> (r: Result<RecordId, InvalidRecordId>)
        ensures
            match r {
                Ok(id) => ulid_parsed(text@) == Some(id.0 as int),
                Err(e) => ulid_parsed(text@) is None && e.0@ == text@,
            },
    {
        match ulid::Ulid::from_string(text) {
            Ok(ulid) => Ok(RecordId(ulid.0)),
            Err(_) => Err(InvalidRecordId(text.to_string())),
        }
    }
}

impl std::str::FromStr for RecordId {
    type Err = InvalidRecordId;

    fn from_str(text: &str) -> (r: Result<RecordId, InvalidRecordId>)
        ensures
            match r {
                Ok(id) => ulid_parsed(text@) == Some(id.0 as int),
                Err(e) => ulid_parsed(text@) is None && e.0@ == text@,
            },
    {
        RecordId::parse(text)
    }
}

/// What is reported when the generator offers an id that is not larger than
/// the last one it handed out, which ulid documents as never happening.
pub const ID_EXHAUSTED: &'static str = "no id larger than the last one could be minted";

/// Mints ids that ascend: each is larger than every id this generator made
/// before. The ids come from `ulid::Generator`; the order is checked here.
pub struct IdGenerator {
    inner: ulid::Generator,
    last: u128,
}

#[verifier::external_type_specification]
#[verifier::external_body]
pub struct ExUlidGenerator(ulid::Generator);

/// `Generator::new`: a generator that has made nothing yet.
#[verifier::external_body]
fn fresh_generator() -> (g: ulid::Generator) {
    ulid::Generator::new()
}

/// `Generator::generate`, with an overflow of the random bits within one
/// millisecond committed by `commit_overflow_increment`, which moves into the
/// next millisecond with the random bits at zero. The value depends on the
/// clock and on randomness; ulid documents each one as larger than the one
/// before, which [`IdGenerator::accept`] checks rather than believes.
#[verifier::external_body]
fn generate(g: &mut ulid::Generator) -> (r: u128) {
    match g.generate() {
        Ok(ulid) => ulid.0,
        Err(overflow) => overflow.commit_overflow_increment().0,
    }
}

impl IdGenerator {
    /// The largest id this generator has handed out; zero before the first.
    pub closed spec fn latest(&self) -> u128 {
        self.last
    }

    /// A generator that has made nothing yet.
    pub fn new() -> (g: IdGenerator)
        ensures
            g.latest() == 0,
    {
        IdGenerator { inner: fresh_generator(), last: 0 }
    }

    /// What a generator whose latest id is `latest` hands out when ulid
    /// offered `generated`: the offered value when it is larger, else
    /// nothing.
    pub open spec fn accepted(latest: u128, generated: Option<u128>) -> Option<u128> {
        match generated {
            Some(v) => if v > latest { Some(v) } else { None },
            None => None,
        }
    }

    /// Takes what ulid offered: a value above every id handed out before
    /// becomes the next id and the new latest; anything else is refused and
    /// changes nothing.
    pub fn accept(&mut self, generated: Option<u128>) -> (r: Option<RecordId>)
        ensures
            match IdGenerator::accepted(old(self).latest(), generated) {
                Some(v) => r == Some(RecordId(v)) && final(self).latest() == v,
                None => r is None && final(self).latest() == old(self).latest(),
            },
    {
        match generated {
            Some(value) => {
                if value > self.last {
                    self.last = value;
                    Some(RecordId(value))
                } else {
                    None
                }
            },
            None => None,
        }
    }

    /// The next id: ulid's `Generator::generate`, then [`IdGenerator::accept`].
    /// Which value ulid offers rests on the clock and on randomness;
    /// whatever it offered, the answer is what `accept` makes of it, so an
    /// id is always larger than every id handed out before.
    pub fn next(&mut self) -> (r: Option<RecordId>)
        ensures
            exists|generated: Option<u128>| #[trigger] IdGenerator::accepted(old(self).latest(), generated) == match r {
                Some(id) => Some(id.0),
                None => None::<u128>,
            },
            match r {
                Some(id) => old(self).latest() < id.0 && final(self).latest() == id.0,
                None => final(self).latest() == old(self).latest(),
            },
    {
        let generated = Some(generate(&mut self.inner));
        let r = self.accept(generated);
        assert(IdGenerator::accepted(old(self).latest(), generated) == match r {
            Some(id) => Some(id.0),
            None => None::<u128>,
        });
        r
    }
}

/// An instant, as seconds and nanoseconds since the Unix epoch, in UTC.
#[derive(Clone, Copy, Debug, PartialEq, Eq, PartialOrd, Ord, Hash, Structural)]
pub struct Timestamp {
    pub seconds: i64,
    pub nanos: u32,
}

/// Now, as storage stamps it: `chrono::Utc::now`. Which instant depends on
/// the clock; chrono reads it from `SystemTime` as whole seconds since the
/// epoch and the nanoseconds of a `Duration`, so it is never before the epoch
/// and never a leap second.
#[verifier::external_body]
pub fn clock_now() -> (t: Timestamp)
    ensures
        0 <= t.seconds && t.nanos < 1_000_000_000,
{
    let now = chrono::Utc::now();
    Timestamp { seconds: now.timestamp(), nanos: now.timestamp_subsec_nanos() }
}

/// One document, with the two timestamps storage maintains for it.
#[derive(Debug, PartialEq)]
pub struct Record {
    pub id: RecordId,
    pub collection: String,
    /// The whole document. Normally a JSON object; a row where it is not is
    /// reported as corrupt on read rather than skipped.
    pub data: Json,
    pub created_at: Timestamp,
    pub updated_at: Timestamp,
}

pub struct RecordView {
    pub id: RecordId,
    pub collection: Seq<char>,
    pub data: JsonView,
    pub created_at: Timestamp,
    pub updated_at: Timestamp,
}

impl View for Record {
    type V = RecordView;

    open spec fn view(&self) -> RecordView {
        RecordView {
            id: self.id,
            collection: self.collection@,
            data: self.data@,
            created_at: self.created_at,
            updated_at: self.updated_at,
        }
    }
}

impl Clone for Record {
    fn clone(&self) -> (r: Record)
        ensures
            r@ == self@,
    {
        Record {
            id: self.id,
            collection: self.collection.clone(),
            data: self.data.clone(),
            created_at: self.created_at,
            updated_at: self.updated_at,
        }
    }
}

pub open spec fn records_view(v: Seq<Record>) -> Seq<RecordView> {
    v.map_values(|r: Record| r@)
}

} // verus!
