//! The value semantics the two storage adapters have to agree on.
//!
//! Ordering, equality and case-insensitive matching are where an in-memory
//! store and SQLite would silently drift apart, so the rules live here once,
//! and they follow what SQLite does rather than what Rust would do by
//! default.

use vstd::prelude::*;

use vstd::std_specs::cmp::PartialEqSpecImpl;

use crate::ieee::{real_bits, real_bits_of, total_rank, NEGATIVE_ZERO};
use crate::json::{member_view, Json, JsonNumber, JsonNumberView, JsonView};
use crate::json_text::{json_text, push_json};
use crate::record::{ulid_text, RecordId};
use crate::repository::{StorageError, StorageErrorView};
use crate::schema::{identifier, is_identifier};
use crate::text::{ascii_lower_seq, chars_of, contains_chars, contains_seq, owned, push_char, push_signed_decimal, signed_decimal, to_ascii_lower};

verus! {

/// The escape character the search `LIKE` uses.
pub const LIKE_ESCAPE: char = '\\';

/// A field value as SQLite's `json_extract` yields it.
///
/// SQLite has four kinds here where JSON has six: booleans come back as the
/// numbers 1 and 0, and objects and arrays come back as their JSON text.
/// Integers and reals are kept apart even though they compare numerically,
/// because they do not render as text alike: `7` is `7` and `7.0` is `7.0`.
#[derive(Debug)]
pub enum JsonKey {
    Null,
    /// A JSON integer SQLite stores as INTEGER.
    Integer(i64),
    /// A real: its double's bits, and the text SQLite prints for it.
    Real(u64, String),
    Text(String),
}

pub enum JsonKeyView {
    Null,
    Integer(i64),
    Real(u64, Seq<char>),
    Text(Seq<char>),
}

impl View for JsonKey {
    type V = JsonKeyView;

    open spec fn view(&self) -> JsonKeyView {
        match self {
            JsonKey::Null => JsonKeyView::Null,
            JsonKey::Integer(i) => JsonKeyView::Integer(*i),
            JsonKey::Real(b, t) => JsonKeyView::Real(*b, t@),
            JsonKey::Text(t) => JsonKeyView::Text(t@),
        }
    }
}

impl Clone for JsonKey {
    fn clone(&self) -> (r: JsonKey)
        ensures
            r@ == self@,
    {
        match self {
            JsonKey::Null => JsonKey::Null,
            JsonKey::Integer(i) => JsonKey::Integer(*i),
            JsonKey::Real(b, t) => JsonKey::Real(*b, t.clone()),
            JsonKey::Text(t) => JsonKey::Text(t.clone()),
        }
    }
}

/// The key a value yields. `None` — the key was absent — is `Null`, which is
/// what `json_extract` returns for a path that is not there. Negative zero
/// is folded into zero: SQLite has one zero.
pub open spec fn key_of(value: Option<JsonView>) -> JsonKeyView {
    match value {
        None => JsonKeyView::Null,
        Some(JsonView::Null) => JsonKeyView::Null,
        Some(JsonView::Bool(b)) => JsonKeyView::Integer(if b { 1 } else { 0 }),
        Some(JsonView::Number(JsonNumberView::Int(i))) => JsonKeyView::Integer(i),
        Some(JsonView::Number(JsonNumberView::Real(r))) => JsonKeyView::Real(
            if r.bits == NEGATIVE_ZERO { 0 } else { r.bits },
            r.sql_text,
        ),
        Some(JsonView::String(s)) => JsonKeyView::Text(s),
        Some(nested) => JsonKeyView::Text(json_text(nested)),
    }
}

/// The text `lower(json_extract(...))` compares against, or `None` for
/// `Null`, which no `LIKE` ever matches.
pub open spec fn search_text(k: JsonKeyView) -> Option<Seq<char>> {
    match k {
        JsonKeyView::Null => None,
        JsonKeyView::Integer(i) => Some(signed_decimal(i as int)),
        JsonKeyView::Real(_, t) => Some(t),
        JsonKeyView::Text(t) => Some(t),
    }
}

/// The ordering of two keys.
#[derive(Clone, Copy, Debug, PartialEq, Eq, Structural)]
pub enum KeyOrder {
    Less,
    Equal,
    Greater,
}

pub open spec fn reversed(o: KeyOrder) -> KeyOrder {
    match o {
        KeyOrder::Less => KeyOrder::Greater,
        KeyOrder::Equal => KeyOrder::Equal,
        KeyOrder::Greater => KeyOrder::Less,
    }
}

/// How two integers are ordered.
pub open spec fn int_order(a: int, b: int) -> KeyOrder {
    if a < b {
        KeyOrder::Less
    } else if a == b {
        KeyOrder::Equal
    } else {
        KeyOrder::Greater
    }
}

/// Texts by their characters' code points, which is the order of their
/// UTF-8 bytes: SQLite's BINARY collation.
pub open spec fn text_order(a: Seq<char>, b: Seq<char>) -> KeyOrder
    decreases a.len(),
{
    if a.len() == 0 {
        if b.len() == 0 {
            KeyOrder::Equal
        } else {
            KeyOrder::Less
        }
    } else if b.len() == 0 {
        KeyOrder::Greater
    } else if a[0] < b[0] {
        KeyOrder::Less
    } else if a[0] > b[0] {
        KeyOrder::Greater
    } else {
        text_order(a.drop_first(), b.drop_first())
    }
}

/// The rank SQLite sorts value kinds by: NULL, then numbers, then text.
/// Integers and reals share a rank because SQL compares them numerically.
pub open spec fn key_rank(k: JsonKeyView) -> int {
    match k {
        JsonKeyView::Null => 0,
        JsonKeyView::Integer(_) => 1,
        JsonKeyView::Real(_, _) => 1,
        JsonKeyView::Text(_) => 2,
    }
}

/// SQLite's ordering: NULL first, then numbers numerically, then text by
/// bytes. Two integers compare exactly; a real compares by the total order
/// on doubles, and an integer meets a real as the double nearest to it.
pub open spec fn key_order(a: JsonKeyView, b: JsonKeyView) -> KeyOrder {
    match (a, b) {
        (JsonKeyView::Integer(l), JsonKeyView::Integer(r)) => int_order(l as int, r as int),
        (JsonKeyView::Real(l, _), JsonKeyView::Real(r, _)) => int_order(total_rank(l), total_rank(r)),
        (JsonKeyView::Integer(l), JsonKeyView::Real(r, _)) => int_order(total_rank(real_bits_of(l as int)), total_rank(r)),
        (JsonKeyView::Real(l, _), JsonKeyView::Integer(r)) => int_order(total_rank(l), total_rank(real_bits_of(r as int))),
        (JsonKeyView::Text(l), JsonKeyView::Text(r)) => text_order(l, r),
        _ => int_order(key_rank(a), key_rank(b)),
    }
}

pub proof fn lemma_text_order_reverses(a: Seq<char>, b: Seq<char>)
    ensures
        text_order(a, b) == reversed(text_order(b, a)),
    decreases a.len(),
{
    if a.len() > 0 && b.len() > 0 && a[0] == b[0] {
        lemma_text_order_reverses(a.drop_first(), b.drop_first());
    }
}

/// Two texts are equal in the text order exactly when they are the same.
pub proof fn lemma_text_order_equal(a: Seq<char>, b: Seq<char>)
    ensures
        (text_order(a, b) == KeyOrder::Equal) == (a == b),
    decreases a.len(),
{
    if a.len() > 0 && b.len() > 0 && a[0] == b[0] {
        lemma_text_order_equal(a.drop_first(), b.drop_first());
        if a.drop_first() == b.drop_first() {
            assert(a =~= seq![a[0]] + a.drop_first());
            assert(b =~= seq![b[0]] + b.drop_first());
        }
    } else if a.len() > 0 && b.len() > 0 {
        assert(a[0] != b[0]);
    } else if a.len() == 0 && b.len() == 0 {
        assert(a =~= b);
    }
}

/// Comparing two keys the other way round gives the reversed answer, so
/// sorting by keys is well defined in either direction.
pub proof fn key_order_reverses(a: JsonKeyView, b: JsonKeyView)
    ensures
        key_order(a, b) == reversed(key_order(b, a)),
{
    if let (JsonKeyView::Text(l), JsonKeyView::Text(r)) = (a, b) {
        lemma_text_order_reverses(l, r);
    }
}

proof fn lemma_text_order_transitive(a: Seq<char>, b: Seq<char>, c: Seq<char>, o: KeyOrder)
    requires
        o != KeyOrder::Equal,
        text_order(a, b) == o || text_order(a, b) == KeyOrder::Equal,
        text_order(b, c) == o || text_order(b, c) == KeyOrder::Equal,
    ensures
        text_order(a, c) == o || (text_order(a, b) == KeyOrder::Equal && text_order(b, c) == KeyOrder::Equal && text_order(a, c) == KeyOrder::Equal),
    decreases a.len(),
{
    lemma_text_order_equal(a, b);
    lemma_text_order_equal(b, c);
    lemma_text_order_equal(a, c);
    if a.len() > 0 && b.len() > 0 && c.len() > 0 && a[0] == b[0] && b[0] == c[0] {
        lemma_text_order_transitive(a.drop_first(), b.drop_first(), c.drop_first(), o);
    }
}

/// Whether `a` is an integer and `b` a real, or the other way round: the one
/// meeting where neighbouring integers past 2^53 can both equal one real.
pub open spec fn integer_meets_real(a: JsonKeyView, b: JsonKeyView) -> bool {
    (a is Integer && b is Real) || (a is Real && b is Integer)
}

/// The order is transitive, except where an integer meets a real: past 2^53
/// two different integers can each equal the same real.
pub proof fn key_order_is_transitive(a: JsonKeyView, b: JsonKeyView, c: JsonKeyView, o: KeyOrder)
    requires
        !integer_meets_real(a, b),
        !integer_meets_real(b, c),
        !integer_meets_real(a, c),
        key_order(a, b) == o,
        key_order(b, c) == o,
    ensures
        key_order(a, c) == o,
{
    if let (JsonKeyView::Text(x), JsonKeyView::Text(y), JsonKeyView::Text(z)) = (a, b, c) {
        if o == KeyOrder::Equal {
            lemma_text_order_equal(x, y);
            lemma_text_order_equal(y, z);
            lemma_text_order_equal(x, z);
        } else {
            lemma_text_order_transitive(x, y, z, o);
        }
    }
}

/// Every key is equal to itself.
pub proof fn key_order_reflexive(a: JsonKeyView)
    ensures
        key_order(a, a) == KeyOrder::Equal,
{
    if let JsonKeyView::Text(t) = a {
        lemma_text_order_reverses(t, t);
    }
}

fn order_of(a: i128, b: i128) -> (o: KeyOrder)
    ensures
        o == int_order(a as int, b as int),
{
    if a < b {
        KeyOrder::Less
    } else if a == b {
        KeyOrder::Equal
    } else {
        KeyOrder::Greater
    }
}

/// Where the total order on doubles puts these bits, as a machine integer.
fn rank_of_bits(bits: u64) -> (r: i128)
    ensures
        r == total_rank(bits),
{
    if bits < NEGATIVE_ZERO {
        bits as i128
    } else {
        -1 - ((bits - NEGATIVE_ZERO) as i128)
    }
}

pub fn compare_text(a: &str, b: &str) -> (o: KeyOrder)
    ensures
        o == text_order(a@, b@),
{
    let x = chars_of(a);
    let y = chars_of(b);
    let mut i: usize = 0;
    assert(x@.skip(0) =~= x@ && y@.skip(0) =~= y@);
    while i < x.len() && i < y.len()
        invariant
            x@ == a@,
            y@ == b@,
            0 <= i <= x.len(),
            i <= y.len(),
            text_order(x@, y@) == text_order(x@.skip(i as int), y@.skip(i as int)),
        decreases x.len() - i,
    {
        let c = x[i];
        let d = y[i];
        assert(x@.skip(i as int)[0] == c && y@.skip(i as int)[0] == d);
        if c < d {
            return KeyOrder::Less;
        }
        if c > d {
            return KeyOrder::Greater;
        }
        assert(x@.skip(i as int).drop_first() =~= x@.skip(i + 1));
        assert(y@.skip(i as int).drop_first() =~= y@.skip(i + 1));
        i = i + 1;
    }
    assert(x@.skip(i as int).len() == x.len() - i && y@.skip(i as int).len() == y.len() - i);
    if i < x.len() {
        KeyOrder::Greater
    } else if i < y.len() {
        KeyOrder::Less
    } else {
        KeyOrder::Equal
    }
}

fn rank_of_key(k: &JsonKey) -> (r: i128)
    ensures
        r == key_rank(k@),
{
    match k {
        JsonKey::Null => 0,
        JsonKey::Integer(_) => 1,
        JsonKey::Real(_, _) => 1,
        JsonKey::Text(_) => 2,
    }
}

impl JsonKey {
    /// Canonicalises a value: the key `json_extract` would yield for it.
    pub fn of(value: Option<&Json>) -> (k: JsonKey)
        ensures
            k@ == key_of(
                match value {
                    Some(v) => Some(v@),
                    None => None,
                },
            ),
    {
        match value {
            None => JsonKey::Null,
            Some(Json::Null) => JsonKey::Null,
            Some(Json::Bool(flag)) => JsonKey::Integer(if *flag { 1 } else { 0 }),
            Some(Json::Number(JsonNumber::Int(whole))) => JsonKey::Integer(*whole),
            Some(Json::Number(JsonNumber::Real(r))) => {
                let bits = if r.bits == NEGATIVE_ZERO { 0 } else { r.bits };
                JsonKey::Real(bits, r.sql_text.clone())
            },
            Some(Json::String(text)) => JsonKey::Text(text.clone()),
            Some(nested) => {
                let mut text = String::new();
                push_json(&mut text, nested);
                assert(text@ =~= json_text(nested@));
                JsonKey::Text(text)
            },
        }
    }

    /// The value at `$.<field>` of a document. A document that is not an
    /// object has no fields at all.
    pub fn at(document: &Json, field: &str) -> (k: JsonKey)
        ensures
            k@ == key_of(member_view(document@, field@)),
    {
        JsonKey::of(document.get(field))
    }

    /// The text `lower(json_extract(...))` would compare against, or `None`
    /// for `Null`.
    pub fn as_search_text(&self) -> (t: Option<String>)
        ensures
            match t {
                Some(s) => search_text(self@) == Some(s@),
                None => search_text(self@) is None,
            },
    {
        match self {
            JsonKey::Null => None,
            JsonKey::Integer(whole) => {
                let mut s = String::new();
                push_signed_decimal(&mut s, *whole);
                assert(s@ =~= signed_decimal(*whole as int));
                Some(s)
            },
            JsonKey::Real(_, printed) => Some(printed.clone()),
            JsonKey::Text(text) => Some(text.clone()),
        }
    }

    /// SQLite's ordering of two keys.
    pub fn compare(&self, other: &JsonKey) -> (o: KeyOrder)
        ensures
            o == key_order(self@, other@),
    {
        match (self, other) {
            (JsonKey::Integer(l), JsonKey::Integer(r)) => order_of(*l as i128, *r as i128),
            (JsonKey::Real(l, _), JsonKey::Real(r, _)) => order_of(rank_of_bits(*l), rank_of_bits(*r)),
            (JsonKey::Integer(l), JsonKey::Real(r, _)) => order_of(rank_of_bits(real_bits(*l)), rank_of_bits(*r)),
            (JsonKey::Real(l, _), JsonKey::Integer(r)) => order_of(rank_of_bits(*l), rank_of_bits(real_bits(*r))),
            (JsonKey::Text(l), JsonKey::Text(r)) => compare_text(l.as_str(), r.as_str()),
            _ => order_of(rank_of_key(self), rank_of_key(other)),
        }
    }
}

impl PartialEq for JsonKey {
    /// Equality is the ordering's: `1` equals `1.0`, as it does in SQL.
    fn eq(&self, other: &JsonKey) -> (r: bool) {
        self.compare(other) == KeyOrder::Equal
    }
}

impl PartialEqSpecImpl for JsonKey {
    open spec fn obeys_eq_spec() -> bool {
        true
    }

    open spec fn eq_spec(&self, other: &JsonKey) -> bool {
        key_order(self@, other@) == KeyOrder::Equal
    }
}

/// The result of [`checked_field`].
pub open spec fn checked_field_result(field: Seq<char>) -> Result<Seq<char>, StorageErrorView> {
    if identifier(field) {
        Ok(field)
    } else {
        Err(StorageErrorView::InvalidField { field })
    }
}

/// Refuses a field name that is not an identifier.
///
/// Field names reach SQL by interpolation into a `json_extract` path, not by
/// binding, so this is a security boundary: the backstop that makes a query
/// safe on its own terms.
pub fn checked_field(field: &str) -> (r: Result<&str, StorageError>)
    ensures
        match r {
            Ok(f) => checked_field_result(field@) == Ok::<Seq<char>, StorageErrorView>(f@),
            Err(e) => checked_field_result(field@) == Err::<Seq<char>, StorageErrorView>(e@),
        },
{
    if is_identifier(field) {
        Ok(field)
    } else {
        Err(StorageError::InvalidField { field: owned(field) })
    }
}

/// What is reported of a stored document that is not a JSON object.
pub open spec fn corrupt_view(id: RecordId) -> StorageErrorView {
    StorageErrorView::Corrupt { id: ulid_text(id.0), detail: "data is not a JSON object"@ }
}

/// Refuses a document that is not a JSON object, naming the row. Called
/// when a record is read, never when one is written.
pub fn require_object(id: &RecordId, data: &Json) -> (r: Result<(), StorageError>)
    ensures
        match r {
            Ok(()) => data@ is Object,
            Err(e) => !(data@ is Object) && e@ == corrupt_view(*id),
        },
{
    if data.is_object() {
        Ok(())
    } else {
        Err(StorageError::Corrupt { id: id.as_string(), detail: owned("data is not a JSON object") })
    }
}

/// Whether `c` means something to `LIKE` and must be escaped.
pub open spec fn like_special(c: char) -> bool {
    c == '%' || c == '_' || c == LIKE_ESCAPE
}

/// `s` with every `LIKE` wildcard and escape character escaped.
pub open spec fn like_escaped(s: Seq<char>) -> Seq<char>
    decreases s.len(),
{
    if s.len() == 0 {
        Seq::empty()
    } else {
        like_escaped(s.drop_last()) + if like_special(s.last()) {
            seq![LIKE_ESCAPE, s.last()]
        } else {
            seq![s.last()]
        }
    }
}

/// The pattern [`like_pattern`] builds.
pub open spec fn like_pattern_of(term: Seq<char>) -> Seq<char> {
    ascii_lower_seq(seq!['%'] + like_escaped(term) + seq!['%'])
}

/// The `LIKE` pattern for a substring search: escaped, lowercased (ASCII
/// only, as SQLite's `lower()`) and wrapped in `%`.
pub fn like_pattern(term: &str) -> (p: String)
    ensures
        p@ == like_pattern_of(term@),
{
    let chars = chars_of(term);
    let mut pattern: Vec<char> = Vec::new();
    pattern.push('%');
    let mut i: usize = 0;
    while i < chars.len()
        invariant
            0 <= i <= chars.len(),
            chars@ == term@,
            pattern@ == seq!['%'] + like_escaped(chars@.take(i as int)),
        decreases chars.len() - i,
    {
        let c = chars[i];
        assert(chars@.take(i + 1).drop_last() =~= chars@.take(i as int));
        if c == '%' || c == '_' || c == LIKE_ESCAPE {
            pattern.push(LIKE_ESCAPE);
        }
        pattern.push(c);
        assert(pattern@ =~= seq!['%'] + like_escaped(chars@.take(i + 1)));
        i = i + 1;
    }
    assert(chars@.take(chars.len() as int) =~= chars@);
    pattern.push('%');
    let lowered = to_ascii_lower(&pattern);
    let mut out = String::new();
    let mut j: usize = 0;
    while j < lowered.len()
        invariant
            0 <= j <= lowered.len(),
            out@ == lowered@.take(j as int),
        decreases lowered.len() - j,
    {
        push_char(&mut out, lowered[j]);
        assert(lowered@.take(j + 1) =~= lowered@.take(j as int).push(lowered@[j as int]));
        j = j + 1;
    }
    assert(lowered@.take(lowered.len() as int) =~= lowered@);
    out
}

/// Whether `haystack` contains `needle`, ignoring ASCII case only: the
/// comparison `lower(...) LIKE '%...%'` makes in SQLite.
pub fn contains_ignoring_ascii_case(haystack: &str, needle: &str) -> (r: bool)
    ensures
        r == contains_seq(ascii_lower_seq(haystack@), ascii_lower_seq(needle@)),
{
    let h = to_ascii_lower(&chars_of(haystack));
    let n = to_ascii_lower(&chars_of(needle));
    contains_chars(&h, &n)
}

/// Two reals compare as the doubles they are, in the IEEE total order:
/// among non-negative signs the larger bit pattern is the larger number,
/// among negative signs the larger bit pattern is the more negative number,
/// and every negative-signed real comes before every positive-signed one.
/// An integer meets a real as the double nearest to it would.
pub proof fn reals_compare_as_doubles(a: u64, ta: Seq<char>, b: u64, tb: Seq<char>, i: i64)
    ensures
        a < 0x8000_0000_0000_0000u64 && b < 0x8000_0000_0000_0000u64 ==>
            key_order(JsonKeyView::Real(a, ta), JsonKeyView::Real(b, tb)) == int_order(a as int, b as int),
        a >= 0x8000_0000_0000_0000u64 && b >= 0x8000_0000_0000_0000u64 ==>
            key_order(JsonKeyView::Real(a, ta), JsonKeyView::Real(b, tb)) == int_order(b as int, a as int),
        a >= 0x8000_0000_0000_0000u64 && b < 0x8000_0000_0000_0000u64 ==>
            key_order(JsonKeyView::Real(a, ta), JsonKeyView::Real(b, tb)) == KeyOrder::Less,
        a < 0x8000_0000_0000_0000u64 && b >= 0x8000_0000_0000_0000u64 ==>
            key_order(JsonKeyView::Real(a, ta), JsonKeyView::Real(b, tb)) == KeyOrder::Greater,
        key_order(JsonKeyView::Integer(i), JsonKeyView::Real(b, tb))
            == key_order(JsonKeyView::Real(real_bits_of(i as int), ta), JsonKeyView::Real(b, tb)),
{
}

} // verus!
