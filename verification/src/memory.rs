//! `MemoryRepository`: the storage port, backed by a vector kept in id order
//! instead of a file.
//!
//! It has to be indistinguishable from the SQLite adapter through the port,
//! so it imitates SQL rather than doing the obvious thing: values compare as
//! [`JsonKey`]s, matching is ASCII-case-insensitive like SQLite's `lower()`,
//! and rows are checked for corruption at the point where SQL would
//! materialise them.

use vstd::prelude::*;

use crate::json::{member_view, Json, JsonView};
use crate::record::{clock_now, records_view, IdGenerator, Record, RecordId, RecordView, Timestamp, ID_EXHAUSTED};
use crate::repository::{record_outcome, default_params, not_found_view, ListParams, ListParamsView, RecordRepository, SortDirection, StorageError, StorageErrorView};
use crate::schema::identifier;
use crate::text::{ascii_lower_seq, contains_seq, owned, str_eq};
use crate::values::{
    checked_field, checked_field_result, contains_ignoring_ascii_case, corrupt_view, key_of, key_order, key_order_reverses,
    require_object, reversed, search_text, JsonKey, JsonKeyView, KeyOrder,
};

verus! {

broadcast use vstd::seq_lib::group_to_multiset_ensures;

// ---------------------------------------------------------------------------
// The model
// ---------------------------------------------------------------------------

/// Ids strictly ascend along `s`: the order a map keyed by id iterates in.
pub open spec fn ids_ascend(s: Seq<RecordView>) -> bool {
    forall|i: int, j: int| 0 <= i < j < s.len() ==> s[i].id.0 < s[j].id.0
}

/// Whether the text of `$.<field>` contains `term`, ignoring ASCII case.
pub open spec fn field_matches(data: JsonView, field: Seq<char>, term: Seq<char>) -> bool {
    match search_text(key_of(member_view(data, field))) {
        Some(text) => contains_seq(ascii_lower_seq(text), ascii_lower_seq(term)),
        None => false,
    }
}

/// Whether a record satisfies the search of `p`. No search accepts every
/// record; a search with no field named accepts none.
pub open spec fn matches_search(r: RecordView, p: ListParamsView) -> bool {
    match p.search {
        None => true,
        Some(term) => exists|i: int| 0 <= i < p.search_fields.len() && field_matches(r.data, #[trigger] p.search_fields[i], term),
    }
}

/// The records of `collection` that the search accepts, in stored order.
pub open spec fn selected(s: Seq<RecordView>, collection: Seq<char>, p: ListParamsView) -> Seq<RecordView>
    decreases s.len(),
{
    if s.len() == 0 {
        Seq::empty()
    } else {
        let rest = selected(s.drop_last(), collection, p);
        if s.last().collection == collection && matches_search(s.last(), p) {
            rest.push(s.last())
        } else {
            rest
        }
    }
}

/// The key a record is sorted by.
pub open spec fn sort_key(r: RecordView, field: Seq<char>) -> JsonKeyView {
    key_of(member_view(r.data, field))
}

/// The key order that puts a record first under `direction`.
pub open spec fn ahead(direction: SortDirection) -> KeyOrder {
    match direction {
        SortDirection::Asc => KeyOrder::Less,
        SortDirection::Desc => KeyOrder::Greater,
    }
}

/// Whether `a` may stand right before `b` when sorting by `field`: its key
/// comes first, or the keys are equal and its id is smaller — the trailing
/// `id ASC` of the SQL, in both directions.
pub open spec fn comes_before(a: RecordView, b: RecordView, field: Seq<char>, direction: SortDirection) -> bool {
    let o = key_order(sort_key(a, field), sort_key(b, field));
    o == ahead(direction) || (o == KeyOrder::Equal && a.id.0 < b.id.0)
}

/// Whether `output` is `input` put in the order `p` asks for: id order (as
/// given, or reversed for a descending list) when no field is named, else
/// the same records with every neighbour in field order.
pub open spec fn arranged(input: Seq<RecordView>, p: ListParamsView, output: Seq<RecordView>) -> bool {
    match p.sort_by {
        None => output == match p.sort_direction {
            SortDirection::Asc => input,
            SortDirection::Desc => input.reverse(),
        },
        Some(field) => output.to_multiset() == input.to_multiset() && forall|i: int|
            0 <= i < output.len() - 1 ==> comes_before(#[trigger] output[i], output[i + 1], field, p.sort_direction),
    }
}

/// `LIMIT` and `OFFSET`: skip `offset` records, then keep at most `limit`.
pub open spec fn window(s: Seq<RecordView>, offset: Option<u32>, limit: Option<u32>) -> Seq<RecordView> {
    let start: int = match offset {
        Some(o) => if o < s.len() { o as int } else { s.len() as int },
        None => 0,
    };
    let rest = s.skip(start);
    match limit {
        Some(l) => if l < rest.len() { rest.take(l as int) } else { rest },
        None => rest,
    }
}

/// The first name in `fields` from `from` on that is not an identifier.
pub open spec fn first_invalid_from(fields: Seq<Seq<char>>, from: int) -> Option<Seq<char>>
    decreases fields.len() - from,
{
    if from < 0 || from >= fields.len() {
        None
    } else if !identifier(fields[from]) {
        Some(fields[from])
    } else {
        first_invalid_from(fields, from + 1)
    }
}

/// Every field name SQL would interpolate is checked: the sort field, then
/// the search fields, which are only named when there is a search.
pub open spec fn field_names_result(p: ListParamsView) -> Option<StorageErrorView> {
    match p.sort_by {
        Some(f) if !identifier(f) => Some(StorageErrorView::InvalidField { field: f }),
        _ => if p.search is Some {
            match first_invalid_from(p.search_fields, 0) {
                Some(f) => Some(StorageErrorView::InvalidField { field: f }),
                None => None,
            }
        } else {
            None
        },
    }
}

/// The first record from `from` on whose data is not an object.
pub open spec fn first_corrupt_from(s: Seq<RecordView>, from: int) -> Option<RecordId>
    decreases s.len() - from,
{
    if from < 0 || from >= s.len() {
        None
    } else if !(s[from].data is Object) {
        Some(s[from].id)
    } else {
        first_corrupt_from(s, from + 1)
    }
}

/// Rows that are read are checked: the first corrupt one is reported.
pub open spec fn materialised(s: Seq<RecordView>) -> Result<Seq<RecordView>, StorageErrorView> {
    match first_corrupt_from(s, 0) {
        Some(id) => Err(corrupt_view(id)),
        None => Ok(s),
    }
}

/// What `list` answers, once the selection is arranged as `order`.
pub open spec fn list_result(p: ListParamsView, order: Seq<RecordView>) -> Result<Seq<RecordView>, StorageErrorView> {
    match field_names_result(p) {
        Some(e) => Err(e),
        None => materialised(window(order, p.offset, p.limit)),
    }
}

/// The result of a read, as views.
pub open spec fn records_result(r: Result<Vec<Record>, StorageError>) -> Result<Seq<RecordView>, StorageErrorView> {
    match r {
        Ok(v) => Ok(records_view(v@)),
        Err(e) => Err(e@),
    }
}

/// The first position of `id` in `s`, from `from` on.
pub open spec fn position_from(s: Seq<RecordView>, id: RecordId, from: int) -> Option<int>
    decreases s.len() - from,
{
    if from < 0 || from >= s.len() {
        None
    } else if s[from].id == id {
        Some(from)
    } else {
        position_from(s, id, from + 1)
    }
}

/// Where `id` is held in `s`.
pub open spec fn position(s: Seq<RecordView>, id: RecordId) -> Option<int> {
    position_from(s, id, 0)
}

/// The record `id` of `collection`. A record of another collection is not
/// reachable under this slug.
pub open spec fn lookup(s: Seq<RecordView>, collection: Seq<char>, id: RecordId) -> Option<RecordView> {
    match position(s, id) {
        Some(i) => if s[i].collection == collection { Some(s[i]) } else { None },
        None => None,
    }
}

/// How many records of `s` have an id below `id`: where a record with that
/// id goes when `s` is in id order.
pub open spec fn insertion_point(s: Seq<RecordView>, id: RecordId) -> int
    decreases s.len(),
{
    if s.len() == 0 {
        0
    } else if s.last().id.0 < id.0 {
        s.len() as int
    } else {
        insertion_point(s.drop_last(), id)
    }
}

/// `s` with `r` stored under its id: replacing the record with that id, or
/// placed among the others in id order.
pub open spec fn stored_with(s: Seq<RecordView>, r: RecordView) -> Seq<RecordView> {
    match position(s, r.id) {
        Some(i) => s.update(i, r),
        None => s.insert(insertion_point(s, r.id), r),
    }
}

/// The records of `collection` whose `$.<field>` equals `wanted`, in stored
/// order. A null value matches an absent field: the null-safe `IS` of SQL.
pub open spec fn found(s: Seq<RecordView>, collection: Seq<char>, field: Seq<char>, wanted: JsonKeyView) -> Seq<RecordView>
    decreases s.len(),
{
    if s.len() == 0 {
        Seq::empty()
    } else {
        let rest = found(s.drop_last(), collection, field, wanted);
        if s.last().collection == collection && key_order(sort_key(s.last(), field), wanted) == KeyOrder::Equal {
            rest.push(s.last())
        } else {
            rest
        }
    }
}

// ---------------------------------------------------------------------------
// Steps of a listing
// ---------------------------------------------------------------------------

/// Putting `x` between a neighbour that does not come after it and one that
/// does keeps every pair of neighbours in order.
proof fn lemma_insert_keeps_order(v: Seq<RecordView>, x: RecordView, p: int, f: Seq<char>, dir: SortDirection)
    requires
        0 <= p <= v.len(),
        forall|k: int| 0 <= k < v.len() - 1 ==> comes_before(#[trigger] v[k], v[k + 1], f, dir),
        p > 0 ==> key_order(sort_key(v[p - 1], f), sort_key(x, f)) != reversed(ahead(dir)),
        p > 0 ==> v[p - 1].id.0 < x.id.0,
        p < v.len() ==> key_order(sort_key(v[p], f), sort_key(x, f)) == reversed(ahead(dir)),
    ensures
        forall|k: int| 0 <= k < v.len() ==> comes_before(#[trigger] v.insert(p, x)[k], v.insert(p, x)[k + 1], f, dir),
{
    let w = v.insert(p, x);
    assert(w.len() == v.len() + 1);
    if p < v.len() {
        key_order_reverses(sort_key(v[p], f), sort_key(x, f));
    }
    assert forall|k: int| 0 <= k < v.len() implies comes_before(#[trigger] w[k], w[k + 1], f, dir) by {
        if k < p - 1 {
            assert(w[k] == v[k] && w[k + 1] == v[k + 1]);
        } else if k == p - 1 {
            assert(w[k] == v[k] && w[k + 1] == x);
        } else if k == p {
            assert(w[k] == x && w[k + 1] == v[k]);
        } else {
            assert(w[k] == v[k - 1] && w[k + 1] == v[k]);
            assert(comes_before(v[k - 1], v[k], f, dir));
        }
    }
}

/// Inserting the next record of an id-ordered input keeps every placed id
/// below the ids still to come.
proof fn lemma_insert_keeps_ids_below(v: Seq<RecordView>, x: RecordView, p: int, input: Seq<RecordView>, i: int)
    requires
        0 <= p <= v.len(),
        0 <= i < input.len(),
        x == input[i],
        ids_ascend(input),
        forall|k: int, j: int| 0 <= k < v.len() && i <= j < input.len() ==> (#[trigger] v[k]).id.0 < (#[trigger] input[j]).id.0,
    ensures
        forall|k: int, j: int| 0 <= k < v.len() + 1 && i + 1 <= j < input.len() ==> (#[trigger] v.insert(p, x)[k]).id.0 < (#[trigger] input[j]).id.0,
{
    let w = v.insert(p, x);
    assert forall|k: int, j: int| 0 <= k < v.len() + 1 && i + 1 <= j < input.len() implies (#[trigger] w[k]).id.0 < (#[trigger] input[j]).id.0 by {
        if k < p {
            assert(w[k] == v[k]);
        } else if k == p {
            assert(w[k] == input[i]);
        } else {
            assert(w[k] == v[k - 1]);
        }
    }
}

/// Whether `record` satisfies the search of `params`.
pub fn record_matches(record: &Record, params: &ListParams) -> (b: bool)
    ensures
        b == matches_search(record@, params@),
{
    match &params.search {
        None => true,
        Some(term) => {
            let mut i: usize = 0;
            while i < params.search_fields.len()
                invariant
                    0 <= i <= params.search_fields.len(),
                    params@.search == Some(term@),
                    params@.search_fields.len() == params.search_fields.len(),
                    forall|k: int| 0 <= k < params.search_fields@.len() ==> #[trigger] params@.search_fields[k] == params.search_fields@[k]@,
                    forall|k: int| 0 <= k < i ==> !field_matches(record@.data, #[trigger] params@.search_fields[k], term@),
                decreases params.search_fields.len() - i,
            {
                let key = JsonKey::at(&record.data, params.search_fields[i].as_str());
                match key.as_search_text() {
                    Some(text) => {
                        if contains_ignoring_ascii_case(text.as_str(), term.as_str()) {
                            assert(field_matches(record@.data, params@.search_fields[i as int], term@));
                            return true;
                        }
                    },
                    None => {},
                }
                assert(!field_matches(record@.data, params@.search_fields[i as int], term@));
                i = i + 1;
            }
            false
        },
    }
}

/// Orders `records`, which are in id order, the way the `ORDER BY` would.
pub fn sort(records: Vec<Record>, params: &ListParams) -> (out: Vec<Record>)
    requires
        ids_ascend(records_view(records@)),
    ensures
        arranged(records_view(records@), params@, records_view(out@)),
{
    match &params.sort_by {
        None => {
            if params.sort_direction == SortDirection::Desc {
                let mut out: Vec<Record> = Vec::new();
                let n = records.len();
                let mut i: usize = n;
                while i > 0
                    invariant
                        n == records.len(),
                        0 <= i <= n,
                        records_view(out@) == records_view(records@).reverse().take(n - i),
                    decreases i,
                {
                    i = i - 1;
                    let r = records[i].clone();
                    let ghost before = records_view(out@);
                    out.push(r);
                    assert(records_view(out@) =~= before.push(r@));
                    assert(records_view(records@).reverse().take(n - i) =~= records_view(records@).reverse().take(n - i - 1).push(records@[i as int]@));
                }
                assert(records_view(records@).reverse().take(n as int) =~= records_view(records@).reverse());
                out
            } else {
                records
            }
        },
        Some(field) => {
            let ghost input = records_view(records@);
            let ghost f = field@;
            let ghost dir = params.sort_direction;
            let behind = match params.sort_direction {
                SortDirection::Asc => KeyOrder::Greater,
                SortDirection::Desc => KeyOrder::Less,
            };
            assert(behind == reversed(ahead(dir)));
            let mut out: Vec<Record> = Vec::new();
            let n = records.len();
            let mut i: usize = 0;
            while i < n
                invariant
                    n == records.len(),
                    input == records_view(records@),
                    ids_ascend(input),
                    params@.sort_by == Some(f),
                    f == field@,
                    dir == params.sort_direction,
                    behind == reversed(ahead(dir)),
                    0 <= i <= n,
                    records_view(out@).to_multiset() == input.take(i as int).to_multiset(),
                    forall|k: int| 0 <= k < out@.len() - 1 ==> comes_before(#[trigger] records_view(out@)[k], records_view(out@)[k + 1], f, dir),
                    forall|k: int, j: int| 0 <= k < out@.len() && i <= j < n ==> (#[trigger] records_view(out@)[k]).id.0 < (#[trigger] input[j]).id.0,
                decreases n - i,
            {
                let x = records[i].clone();
                let xkey = JsonKey::at(&x.data, field.as_str());
                let ghost v = records_view(out@);
                let mut p: usize = out.len();
                while p > 0
                    invariant
                        v == records_view(out@),
                        0 <= p <= out@.len(),
                        xkey@ == sort_key(x@, f),
                        behind == reversed(ahead(dir)),
                        f == field@,
                        forall|k: int| p <= k < v.len() ==> key_order(sort_key(#[trigger] v[k], f), sort_key(x@, f)) == behind,
                    ensures
                        0 <= p <= v.len(),
                        forall|k: int| p <= k < v.len() ==> key_order(sort_key(#[trigger] v[k], f), sort_key(x@, f)) == behind,
                        p > 0 ==> key_order(sort_key(v[p - 1], f), sort_key(x@, f)) != behind,
                    decreases p,
                {
                    let other = JsonKey::at(&out[p - 1].data, field.as_str());
                    if other.compare(&xkey) != behind {
                        break;
                    }
                    p = p - 1;
                }
                proof {
                    if p > 0 {
                        key_order_reverses(sort_key(v[p - 1], f), sort_key(x@, f));
                    }
                    if p < v.len() {
                        key_order_reverses(sort_key(v[p as int], f), sort_key(x@, f));
                    }
                    assert(records_view(records@)[i as int] == x@);
                }
                out.insert(p, x);
                proof {
                    let w = records_view(out@);
                    assert(w =~= v.insert(p as int, x@));
                    assert(input.take(i + 1) =~= input.take(i as int).push(x@));
                    lemma_insert_keeps_order(v, x@, p as int, f, dir);
                    lemma_insert_keeps_ids_below(v, x@, p as int, input, i as int);
                }
                i = i + 1;
            }
            assert(input.take(n as int) =~= input);
            out
        },
    }
}

/// Applies `limit` and `offset`, as the SQL clause of that name would.
pub fn paginate(records: Vec<Record>, params: &ListParams) -> (page: Vec<Record>)
    ensures
        records_view(page@) == window(records_view(records@), params.offset, params.limit),
{
    let n = records.len();
    let start: usize = match params.offset {
        Some(o) => if (o as usize) < n { o as usize } else { n },
        None => 0,
    };
    let end: usize = match params.limit {
        Some(l) => if (l as usize) < n - start { start + l as usize } else { n },
        None => n,
    };
    let mut page: Vec<Record> = Vec::new();
    let mut i: usize = start;
    while i < end
        invariant
            n == records.len(),
            start <= i <= end <= n,
            records_view(page@) == records_view(records@).subrange(start as int, i as int),
        decreases end - i,
    {
        let r = records[i].clone();
        let ghost before = records_view(page@);
        page.push(r);
        assert(records_view(page@) =~= before.push(r@));
        assert(records_view(records@).subrange(start as int, i + 1) =~= records_view(records@).subrange(start as int, i as int).push(records@[i as int]@));
        i = i + 1;
    }
    assert(records_view(page@) =~= window(records_view(records@), params.offset, params.limit));
    page
}

/// Refuses any field name that the SQL builder would interpolate.
pub fn check_field_names(params: &ListParams) -> (r: Result<(), StorageError>)
    ensures
        match r {
            Ok(()) => field_names_result(params@) is None,
            Err(e) => field_names_result(params@) == Some(e@),
        },
{
    if let Some(field) = &params.sort_by {
        match checked_field(field.as_str()) {
            Ok(_) => {},
            Err(e) => {
                return Err(e);
            },
        }
    }
    if params.search.is_some() {
        let mut i: usize = 0;
        while i < params.search_fields.len()
            invariant
                0 <= i <= params.search_fields.len(),
                params@.search is Some,
                match params@.sort_by {
                    Some(f) => identifier(f),
                    None => true,
                },
                params@.search_fields.len() == params.search_fields.len(),
                forall|k: int| 0 <= k < params.search_fields@.len() ==> #[trigger] params@.search_fields[k] == params.search_fields@[k]@,
                first_invalid_from(params@.search_fields, 0) == first_invalid_from(params@.search_fields, i as int),
            decreases params.search_fields.len() - i,
        {
            match checked_field(params.search_fields[i].as_str()) {
                Ok(_) => {},
                Err(e) => {
                    return Err(e);
                },
            }
            i = i + 1;
        }
    }
    Ok(())
}

/// Checks every record that is about to be handed out.
pub fn materialise(records: Vec<Record>) -> (r: Result<Vec<Record>, StorageError>)
    ensures
        records_result(r) == materialised(records_view(records@)),
{
    let ghost s = records_view(records@);
    let mut i: usize = 0;
    while i < records.len()
        invariant
            0 <= i <= records.len(),
            s == records_view(records@),
            first_corrupt_from(s, 0) == first_corrupt_from(s, i as int),
        decreases records.len() - i,
    {
        match require_object(&records[i].id, &records[i].data) {
            Ok(()) => {},
            Err(e) => {
                return Err(e);
            },
        }
        i = i + 1;
    }
    Ok(records)
}

// ---------------------------------------------------------------------------
// Positions in an id-ordered sequence
// ---------------------------------------------------------------------------

proof fn lemma_position_skips(s: Seq<RecordView>, id: RecordId, from: int, to: int)
    requires
        0 <= from <= to <= s.len(),
        forall|k: int| from <= k < to ==> (#[trigger] s[k]).id != id,
    ensures
        position_from(s, id, from) == position_from(s, id, to),
    decreases to - from,
{
    if from < to {
        lemma_position_skips(s, id, from + 1, to);
    }
}

/// In an id-ordered sequence, `i` — the first place whose id is not below
/// `id` — is where `id` is held, if anywhere, and where it would go.
proof fn lemma_sorted_place(s: Seq<RecordView>, id: RecordId, i: int)
    requires
        ids_ascend(s),
        0 <= i <= s.len(),
        forall|k: int| 0 <= k < i ==> (#[trigger] s[k]).id.0 < id.0,
        i < s.len() ==> s[i].id.0 >= id.0,
    ensures
        position(s, id) == (if i < s.len() && s[i].id == id { Some(i) } else { None::<int> }),
        insertion_point(s, id) == i,
    decreases s.len(),
{
    lemma_position_skips(s, id, 0, i);
    if i < s.len() && s[i].id == id {
    } else {
        lemma_position_skips(s, id, i, s.len() as int);
    }
    if s.len() > 0 && i < s.len() {
        let t = s.drop_last();
        assert forall|k: int| 0 <= k < i implies (#[trigger] t[k]).id.0 < id.0 by {
            assert(t[k] == s[k]);
        }
        if i < t.len() {
            assert(t[i] == s[i]);
        }
        assert(s.last().id.0 >= s[i].id.0);
        lemma_sorted_place(t, id, i);
    }
}

/// Storing a record under its id keeps ids ascending.
proof fn lemma_stored_with_ascends(s: Seq<RecordView>, r: RecordView, i: int)
    requires
        ids_ascend(s),
        0 <= i <= s.len(),
        forall|k: int| 0 <= k < i ==> (#[trigger] s[k]).id.0 < r.id.0,
        i < s.len() ==> s[i].id.0 >= r.id.0,
    ensures
        ids_ascend(stored_with(s, r)),
        stored_with(s, r) == (if i < s.len() && s[i].id == r.id { s.update(i, r) } else { s.insert(i, r) }),
{
    lemma_sorted_place(s, r.id, i);
    let w = stored_with(s, r);
    if i < s.len() && s[i].id == r.id {
        assert forall|a: int, b: int| 0 <= a < b < w.len() implies w[a].id.0 < w[b].id.0 by {
            assert(w[a].id == s[a].id && w[b].id == s[b].id);
        }
    } else {
        assert forall|a: int, b: int| 0 <= a < b < w.len() implies w[a].id.0 < w[b].id.0 by {
            if b < i {
                assert(w[a] == s[a] && w[b] == s[b]);
            } else if b == i {
                assert(w[a] == s[a] && w[b] == r);
            } else if a < i {
                assert(w[a] == s[a] && w[b] == s[b - 1]);
            } else if a == i {
                assert(w[a] == r && w[b] == s[b - 1]);
                assert(s[i].id.0 >= r.id.0 && s[i].id != r.id);
            } else {
                assert(w[a] == s[a - 1] && w[b] == s[b - 1]);
            }
        }
    }
}

// ---------------------------------------------------------------------------
// The repository
// ---------------------------------------------------------------------------

/// The in-memory adapter. Its records are kept in id order, which is the
/// default list order, and it mints its own ascending ids.
pub struct MemoryRepository {
    records: Vec<Record>,
    ids: IdGenerator,
}

impl View for MemoryRepository {
    type V = Seq<RecordView>;

    closed spec fn view(&self) -> Seq<RecordView> {
        records_view(self.records@)
    }
}

impl MemoryRepository {
    #[verifier::type_invariant]
    spec fn well_formed(self) -> bool {
        &&& ids_ascend(records_view(self.records@))
        &&& forall|k: int| 0 <= k < self.records@.len() ==> (#[trigger] self.records@[k]).id.0 <= self.ids.latest()
    }

    /// The largest id this repository has minted; zero before the first.
    /// Ids are never taken back, so a deleted record's id is never minted
    /// again.
    pub closed spec fn latest_id(&self) -> u128 {
        self.ids.latest()
    }

    /// An empty repository.
    pub fn new() -> (r: MemoryRepository)
        ensures
            r@ == Seq::<RecordView>::empty(),
            r.latest_id() == 0,
    {
        let r = MemoryRepository { records: Vec::new(), ids: IdGenerator::new() };
        assert(records_view(r.records@) =~= Seq::<RecordView>::empty());
        r
    }

    /// Where `id` is held, if it is.
    fn place_of(&self, id: &RecordId) -> (i: usize)
        ensures
            i <= self@.len(),
            forall|k: int| 0 <= k < i ==> (#[trigger] self@[k]).id.0 < id.0,
            i < self@.len() ==> self@[i as int].id.0 >= id.0,
            position(self@, *id) == (if i < self@.len() && self@[i as int].id == *id { Some(i as int) } else { None::<int> }),
            insertion_point(self@, *id) == i,
    {
        proof {
            use_type_invariant(self);
        }
        let mut i: usize = 0;
        while i < self.records.len() && self.records[i].id.0 < id.0
            invariant
                0 <= i <= self.records.len(),
                forall|k: int| 0 <= k < i ==> (#[trigger] records_view(self.records@)[k]).id.0 < id.0,
            decreases self.records.len() - i,
        {
            i = i + 1;
        }
        proof {
            lemma_sorted_place(self@, *id, i as int);
        }
        i
    }

    /// The records of `collection` that `params.search` accepts, in id
    /// order. Corruption is not checked here: SQLite only materialises the
    /// rows it selected.
    pub fn selected(&self, collection: &str, params: &ListParams) -> (v: Vec<Record>)
        ensures
            records_view(v@) == selected(self@, collection@, params@),
            ids_ascend(self@),
            ids_ascend(records_view(v@)),
    {
        proof {
            use_type_invariant(self);
        }
        let ghost s = self@;
        let mut out: Vec<Record> = Vec::new();
        let mut i: usize = 0;
        while i < self.records.len()
            invariant
                0 <= i <= self.records.len(),
                s == records_view(self.records@),
                ids_ascend(s),
                records_view(out@) == selected(s.take(i as int), collection@, params@),
                forall|k: int| 0 <= k < out@.len() ==> exists|j: int| 0 <= j < i && (#[trigger] records_view(out@)[k]) == s[j],
                ids_ascend(records_view(out@)),
            decreases self.records.len() - i,
        {
            assert(s.take(i + 1).drop_last() =~= s.take(i as int));
            let r = &self.records[i];
            if str_eq(r.collection.as_str(), collection) && record_matches(r, params) {
                let ghost before = records_view(out@);
                out.push(r.clone());
                proof {
                    let w = records_view(out@);
                    assert(w =~= before.push(s[i as int]));
                    assert forall|k: int| 0 <= k < w.len() implies exists|j: int| 0 <= j < i + 1 && (#[trigger] w[k]) == s[j] by {
                        if k < before.len() {
                            assert(w[k] == before[k]);
                        } else {
                            assert(w[k] == s[i as int]);
                        }
                    }
                    assert forall|a: int, b: int| 0 <= a < b < w.len() implies w[a].id.0 < w[b].id.0 by {
                        if b == before.len() {
                            let j = choose|j: int| 0 <= j < i && before[a] == s[j];
                            assert(w[a] == s[j]);
                        } else {
                            assert(w[a] == before[a] && w[b] == before[b]);
                        }
                    }
                }
            }
            i = i + 1;
        }
        assert(s.take(self.records.len() as int) =~= s);
        out
    }
}

impl Default for MemoryRepository {
    fn default() -> (r: MemoryRepository)
        ensures
            r@ == Seq::<RecordView>::empty(),
    {
        MemoryRepository::new()
    }
}

/// Whether every id stored in `s` is at most `latest`.
pub open spec fn ids_at_most(s: Seq<RecordView>, latest: u128) -> bool {
    forall|k: int| 0 <= k < s.len() ==> (#[trigger] s[k]).id.0 <= latest
}

/// The record `create` makes of what the generator handed out and the time
/// it read; with no id, the exhaustion error.
pub open spec fn minted_outcome(minted: Option<RecordId>, collection: Seq<char>, data: JsonView, at: Timestamp) -> Result<RecordView, StorageErrorView> {
    match minted {
        Some(id) => Ok(RecordView { id, collection, data, created_at: at, updated_at: at }),
        None => Err(StorageErrorView::Io(ID_EXHAUSTED@)),
    }
}

/// The id a generator whose latest id is `latest` hands out when ulid
/// offered `generated`.
pub open spec fn minted_for(latest: u128, generated: Option<u128>) -> Option<RecordId> {
    match IdGenerator::accepted(latest, generated) {
        Some(v) => Some(RecordId(v)),
        None => None,
    }
}

/// The record for a minted id, or the exhaustion error when none was
/// minted.
pub fn record_for(minted: Option<RecordId>, collection: &str, data: Json, at: Timestamp) -> (r: Result<Record, StorageError>)
    ensures
        record_outcome(r) == minted_outcome(minted, collection@, data@, at),
{
    match minted {
        Some(id) => Ok(Record { id, collection: owned(collection), data, created_at: at, updated_at: at }),
        None => Err(StorageError::Io(owned(ID_EXHAUSTED))),
    }
}

impl RecordRepository for MemoryRepository {
    /// The selection, ordered and paged; a bad field name is refused first.
    open spec fn lists(&self, collection: Seq<char>, params: ListParamsView, out: Result<Seq<RecordView>, StorageErrorView>) -> bool {
        match field_names_result(params) {
            Some(e) => out == Err::<Seq<RecordView>, StorageErrorView>(e),
            None => exists|order: Seq<RecordView>|
                arranged(selected(self@, collection, params), params, order)
                    && out == materialised(window(order, params.offset, params.limit)),
        }
    }

    /// The size of the selection; a bad field name is refused.
    open spec fn counts(&self, collection: Seq<char>, params: ListParamsView, out: Result<u64, StorageErrorView>) -> bool {
        match out {
            Ok(n) => field_names_result(params) is None && n == selected(self@, collection, params).len(),
            Err(e) => field_names_result(params) == Some(e),
        }
    }

    /// The record with that id in that collection; one whose data is not an
    /// object is corrupt.
    open spec fn gets(&self, collection: Seq<char>, id: RecordId, out: Result<Option<RecordView>, StorageErrorView>) -> bool {
        match out {
            Ok(Some(rec)) => lookup(self@, collection, id) == Some(rec) && rec.data is Object,
            Ok(None) => lookup(self@, collection, id) is None,
            Err(e) => lookup(self@, collection, id) matches Some(found) && !(found.data is Object) && e == corrupt_view(id),
        }
    }

    /// A new record, with an id above every stored one, appended; or, when
    /// no such id can be had, nothing changed.
    open spec fn creates(&self, collection: Seq<char>, data: JsonView, after: Self, out: Result<RecordView, StorageErrorView>) -> bool {
        &&& ids_at_most(self@, self.latest_id())
        &&& match out {
            Ok(rec) => rec.collection == collection && rec.data == data && rec.created_at == rec.updated_at
                && self.latest_id() < rec.id.0 && after.latest_id() == rec.id.0
                && (forall|k: int| 0 <= k < self@.len() ==> (#[trigger] self@[k]).id.0 < rec.id.0)
                && after@ == self@.push(rec)
                && after@ == stored_with(self@, rec),
            Err(e) => e == StorageErrorView::Io(ID_EXHAUSTED@) && after@ == self@ && after.latest_id() == self.latest_id(),
        }
    }

    /// The record's data replaced in place, its creation time kept; a
    /// missing record is `NotFound`.
    open spec fn updates(&self, collection: Seq<char>, id: RecordId, data: JsonView, after: Self, out: Result<RecordView, StorageErrorView>) -> bool {
        match out {
            Ok(rec) => match (lookup(self@, collection, id), position(self@, id)) {
                (Some(before), Some(i)) => rec == (RecordView {
                    id,
                    collection: before.collection,
                    data,
                    created_at: before.created_at,
                    updated_at: rec.updated_at,
                }) && after@ == self@.update(i, rec) && after.latest_id() == self.latest_id(),
                _ => false,
            },
            Err(e) => lookup(self@, collection, id) is None && e == not_found_view(collection, id) && after@ == self@,
        }
    }

    /// The record removed; a missing record is `NotFound`.
    open spec fn deletes(&self, collection: Seq<char>, id: RecordId, after: Self, out: Result<(), StorageErrorView>) -> bool {
        match out {
            Ok(()) => ids_at_most(self@, self.latest_id()) && after.latest_id() == self.latest_id()
                && match (lookup(self@, collection, id), position(self@, id)) {
                (Some(_), Some(i)) => after@ == self@.remove(i),
                _ => false,
            },
            Err(e) => lookup(self@, collection, id) is None && e == not_found_view(collection, id) && after@ == self@,
        }
    }

    /// The records whose field holds a value equal to `value`, in id order;
    /// a field name that is not an identifier is refused.
    open spec fn finds(&self, collection: Seq<char>, field: Seq<char>, value: JsonView, out: Result<Seq<RecordView>, StorageErrorView>) -> bool {
        match checked_field_result(field) {
            Err(e) => out == Err::<Seq<RecordView>, StorageErrorView>(e),
            Ok(_) => out == materialised(found(self@, collection, field, key_of(Some(value)))),
        }
    }

    fn list(&self, collection: &str, params: &ListParams) -> (r: Result<Vec<Record>, StorageError>)
        ensures
            ids_ascend(self@),
            match field_names_result(params@) {
                Some(e) => records_result(r) == Err::<Seq<RecordView>, StorageErrorView>(e),
                None => exists|order: Seq<RecordView>|
                    arranged(selected(self@, collection@, params@), params@, order)
                        && records_result(r) == materialised(window(order, params@.offset, params@.limit)),
            },
    {
        match check_field_names(params) {
            Ok(()) => {},
            Err(e) => {
                proof {
                    use_type_invariant(self);
                }
                return Err(e);
            },
        }
        let chosen = self.selected(collection, params);
        let ordered = sort(chosen, params);
        let page = paginate(ordered, params);
        materialise(page)
    }

    fn count(&self, collection: &str, params: &ListParams) -> (r: Result<u64, StorageError>)
        ensures
            ids_ascend(self@),
            match r {
                Ok(n) => field_names_result(params@) is None && n == selected(self@, collection@, params@).len(),
                Err(e) => field_names_result(params@) == Some(e@),
            },
    {
        proof {
            use_type_invariant(self);
        }
        match check_field_names(params) {
            Ok(()) => {},
            Err(e) => {
                return Err(e);
            },
        }
        let chosen = self.selected(collection, params);
        Ok(chosen.len() as u64)
    }

    fn get(&self, collection: &str, id: &RecordId) -> (r: Result<Option<Record>, StorageError>)
        ensures
            ids_ascend(self@),
            match r {
                Ok(Some(rec)) => lookup(self@, collection@, *id) == Some(rec@) && rec@.data is Object,
                Ok(None) => lookup(self@, collection@, *id) is None,
                Err(e) => lookup(self@, collection@, *id) matches Some(found) && !(found.data is Object) && e@ == corrupt_view(*id),
            },
    {
        proof {
            use_type_invariant(self);
        }
        let i = self.place_of(id);
        if i < self.records.len() && self.records[i].id.0 == id.0 && str_eq(self.records[i].collection.as_str(), collection) {
            let record = self.records[i].clone();
            match require_object(&record.id, &record.data) {
                Ok(()) => Ok(Some(record)),
                Err(e) => Err(e),
            }
        } else {
            Ok(None)
        }
    }

    fn create(&mut self, collection: &str, data: Json) -> (r: Result<Record, StorageError>)
        ensures
            ids_ascend(old(self)@),
            ids_ascend(final(self)@),
            exists|generated: Option<u128>, at: Timestamp|
                record_outcome(r) == #[trigger] minted_outcome(minted_for(old(self).latest_id(), generated), collection@, data@, at),
            match r {
                Ok(rec) => rec@.collection == collection@ && rec@.data == data@ && rec.created_at == rec.updated_at
                    && old(self).latest_id() < rec.id.0 && final(self).latest_id() == rec.id.0
                    && (forall|k: int| 0 <= k < old(self)@.len() ==> (#[trigger] old(self)@[k]).id.0 < rec.id.0)
                    && final(self)@ == old(self)@.push(rec@)
                    && final(self)@ == stored_with(old(self)@, rec@),
                Err(e) => e@ == StorageErrorView::Io(ID_EXHAUSTED@) && final(self)@ == old(self)@
                    && final(self).latest_id() == old(self).latest_id(),
            },
    {
        proof {
            use_type_invariant(&*self);
        }
        let ghost before = self.ids.latest();
        // The records are moved out while the generator mints, so that the
        // repository stays whole at every step.
        let mut records: Vec<Record> = Vec::new();
        std::mem::swap(&mut records, &mut self.records);
        let mut ids = IdGenerator::new();
        std::mem::swap(&mut ids, &mut self.ids);
        let minted = ids.next();
        std::mem::swap(&mut ids, &mut self.ids);
        let ghost generated = choose|generated: Option<u128>| #[trigger] IdGenerator::accepted(before, generated) == match minted {
            Some(id) => Some(id.0),
            None => None::<u128>,
        };
        let ghost data_view = data@;
        let at = clock_now();
        let made = record_for(minted, collection, data, at);
        proof {
            let m2 = minted_for(before, generated);
            assert(m2 == minted);
            assert(record_outcome(made) == minted_outcome(m2, collection@, data_view, at));
        }
        let record = match made {
            Ok(record) => record,
            Err(e) => {
                self.records = records;
                return Err(e);
            },
        };
        let handed = record.clone();
        let ghost old_view = records_view(records@);
        proof {
            assert forall|k: int| 0 <= k < old_view.len() implies (#[trigger] old_view[k]).id.0 < record@.id.0 by {
                assert(old_view[k].id == records@[k].id);
            }
            lemma_stored_with_ascends(old_view, record@, old_view.len() as int);
        }
        records.push(record);
        assert(records_view(records@) =~= old_view.push(handed@));
        assert(old_view.insert(old_view.len() as int, handed@) =~= old_view.push(handed@));
        self.records = records;
        Ok(handed)
    }

    fn update(&mut self, collection: &str, id: &RecordId, data: Json) -> (r: Result<Record, StorageError>)
        ensures
            ids_ascend(final(self)@),
            match r {
                Ok(rec) => match (lookup(old(self)@, collection@, *id), position(old(self)@, *id)) {
                    (Some(before), Some(i)) => rec@ == (RecordView {
                        id: *id,
                        collection: before.collection,
                        data: data@,
                        created_at: before.created_at,
                        updated_at: rec@.updated_at,
                    }) && final(self)@ == old(self)@.update(i, rec@),
                    _ => false,
                },
                Err(e) => lookup(old(self)@, collection@, *id) is None && e@ == not_found_view(collection@, *id)
                    && final(self)@ == old(self)@,
            },
    {
        proof {
            use_type_invariant(&*self);
        }
        let i = self.place_of(id);
        if i < self.records.len() && self.records[i].id.0 == id.0 && str_eq(self.records[i].collection.as_str(), collection) {
            let at = clock_now();
            let record = Record {
                id: *id,
                collection: self.records[i].collection.clone(),
                data,
                created_at: self.records[i].created_at,
                updated_at: at,
            };
            let handed = record.clone();
            let ghost s = self@;
            let mut records: Vec<Record> = Vec::new();
            std::mem::swap(&mut records, &mut self.records);
            records.remove(i);
            records.insert(i, record);
            proof {
                let w = records_view(records@);
                assert(w =~= s.update(i as int, handed@));
                assert forall|a: int, b: int| 0 <= a < b < w.len() implies w[a].id.0 < w[b].id.0 by {
                    assert(w[a].id == s[a].id && w[b].id == s[b].id);
                }
            }
            self.records = records;
            Ok(handed)
        } else {
            Err(StorageError::not_found(collection, id))
        }
    }

    fn delete(&mut self, collection: &str, id: &RecordId) -> (r: Result<(), StorageError>)
        ensures
            ids_ascend(final(self)@),
            match r {
                Ok(()) => match (lookup(old(self)@, collection@, *id), position(old(self)@, *id)) {
                    (Some(_), Some(i)) => final(self)@ == old(self)@.remove(i),
                    _ => false,
                },
                Err(e) => lookup(old(self)@, collection@, *id) is None && e@ == not_found_view(collection@, *id)
                    && final(self)@ == old(self)@,
            },
    {
        proof {
            use_type_invariant(&*self);
        }
        let i = self.place_of(id);
        if i < self.records.len() && self.records[i].id.0 == id.0 && str_eq(self.records[i].collection.as_str(), collection) {
            let ghost s = self@;
            let mut records: Vec<Record> = Vec::new();
            std::mem::swap(&mut records, &mut self.records);
            records.remove(i);
            proof {
                let w = records_view(records@);
                assert(w =~= s.remove(i as int));
                assert forall|a: int, b: int| 0 <= a < b < w.len() implies w[a].id.0 < w[b].id.0 by {
                    if b < i {
                        assert(w[a] == s[a] && w[b] == s[b]);
                    } else if a < i {
                        assert(w[a] == s[a] && w[b] == s[b + 1]);
                    } else {
                        assert(w[a] == s[a + 1] && w[b] == s[b + 1]);
                    }
                }
            }
            self.records = records;
            Ok(())
        } else {
            Err(StorageError::not_found(collection, id))
        }
    }

    fn find_by_field(&self, collection: &str, field: &str, value: &Json) -> (r: Result<Vec<Record>, StorageError>)
        ensures
            ids_ascend(self@),
            match checked_field_result(field@) {
                Err(e) => records_result(r) == Err::<Seq<RecordView>, StorageErrorView>(e),
                Ok(_) => records_result(r) == materialised(found(self@, collection@, field@, key_of(Some(value@)))),
            },
    {
        proof {
            use_type_invariant(self);
        }
        let field = match checked_field(field) {
            Ok(f) => f,
            Err(e) => {
                return Err(e);
            },
        };
        let wanted = JsonKey::of(Some(value));
        let ghost s = self@;
        let mut matched: Vec<Record> = Vec::new();
        let mut i: usize = 0;
        while i < self.records.len()
            invariant
                0 <= i <= self.records.len(),
                s == records_view(self.records@),
                wanted@ == key_of(Some(value@)),
                records_view(matched@) == found(s.take(i as int), collection@, field@, wanted@),
            decreases self.records.len() - i,
        {
            assert(s.take(i + 1).drop_last() =~= s.take(i as int));
            let r = &self.records[i];
            if str_eq(r.collection.as_str(), collection) && JsonKey::at(&r.data, field).compare(&wanted) == KeyOrder::Equal {
                let ghost before = records_view(matched@);
                matched.push(r.clone());
                assert(records_view(matched@) =~= before.push(s[i as int]));
            }
            i = i + 1;
        }
        assert(s.take(self.records.len() as int) =~= s);
        materialise(matched)
    }
}

// ---------------------------------------------------------------------------
// Laws
// ---------------------------------------------------------------------------

/// A record that was just stored is the one a lookup of its id and
/// collection finds.
pub proof fn a_stored_record_is_found(s: Seq<RecordView>, r: RecordView)
    requires
        ids_ascend(s),
    ensures
        lookup(stored_with(s, r), r.collection, r.id) == Some(r),
        ids_ascend(stored_with(s, r)),
{
    let i = insertion_point_of(s, r.id);
    lemma_stored_with_ascends(s, r, i);
    let w = stored_with(s, r);
    lemma_position_skips(w, r.id, 0, i);
}

/// The first place in an id-ordered sequence whose id is not below `id`.
proof fn insertion_point_of(s: Seq<RecordView>, id: RecordId) -> (i: int)
    requires
        ids_ascend(s),
    ensures
        0 <= i <= s.len(),
        forall|k: int| 0 <= k < i ==> (#[trigger] s[k]).id.0 < id.0,
        i < s.len() ==> s[i].id.0 >= id.0,
    decreases s.len(),
{
    if s.len() == 0 {
        0
    } else if s.last().id.0 < id.0 {
        s.len() as int
    } else {
        let j = insertion_point_of(s.drop_last(), id);
        assert forall|k: int| 0 <= k < j implies (#[trigger] s[k]).id.0 < id.0 by {
            assert(s.drop_last()[k] == s[k]);
        }
        if j < s.len() - 1 {
            assert(s.drop_last()[j] == s[j]);
        }
        j
    }
}

/// A record that was deleted is no longer found, under any collection.
pub proof fn a_deleted_record_is_gone(s: Seq<RecordView>, id: RecordId, i: int, collection: Seq<char>)
    requires
        ids_ascend(s),
        position(s, id) == Some(i),
    ensures
        lookup(s.remove(i), collection, id) is None,
{
    let j = insertion_point_of(s, id);
    lemma_sorted_place(s, id, j);
    let w = s.remove(i);
    assert forall|k: int| 0 <= k < w.len() implies (#[trigger] w[k]).id != id by {
        if k < i {
            assert(w[k] == s[k]);
        } else {
            assert(w[k] == s[k + 1]);
        }
    }
    lemma_position_skips(w, id, 0, w.len() as int);
}

/// After an update, a lookup finds the new version of the record.
pub proof fn an_updated_record_is_found(s: Seq<RecordView>, i: int, r: RecordView)
    requires
        ids_ascend(s),
        position(s, r.id) == Some(i),
    ensures
        lookup(s.update(i, r), r.collection, r.id) == Some(r),
        ids_ascend(s.update(i, r)),
{
    let j = insertion_point_of(s, r.id);
    lemma_sorted_place(s, r.id, j);
    let w = s.update(i, r);
    assert forall|k: int| 0 <= k < i implies (#[trigger] w[k]).id != r.id by {
        assert(s[k].id.0 < r.id.0);
    }
    lemma_position_skips(w, r.id, 0, i);
}

/// Every record a listing selects belongs to the collection asked for, and
/// satisfies the search; and they come in id order.
pub proof fn selected_records_belong(s: Seq<RecordView>, collection: Seq<char>, p: ListParamsView)
    requires
        ids_ascend(s),
    ensures
        forall|k: int| 0 <= k < selected(s, collection, p).len() ==> (#[trigger] selected(s, collection, p)[k]).collection == collection
            && matches_search(selected(s, collection, p)[k], p),
        forall|k: int| 0 <= k < selected(s, collection, p).len() ==> s.contains(#[trigger] selected(s, collection, p)[k]),
        ids_ascend(selected(s, collection, p)),
    decreases s.len(),
{
    if s.len() > 0 {
        let t = s.drop_last();
        assert forall|a: int, b: int| 0 <= a < b < t.len() implies t[a].id.0 < t[b].id.0 by {
            assert(t[a] == s[a] && t[b] == s[b]);
        }
        selected_records_belong(t, collection, p);
        let rest = selected(t, collection, p);
        let sel = selected(s, collection, p);
        assert forall|k: int| 0 <= k < rest.len() implies s.contains(#[trigger] rest[k]) by {
            let j = choose|j: int| 0 <= j < t.len() && t[j] == rest[k];
            assert(s[j] == rest[k]);
        }
        if s.last().collection == collection && matches_search(s.last(), p) {
            assert(s[s.len() - 1] == s.last());
            assert forall|k: int| 0 <= k < sel.len() implies s.contains(#[trigger] sel[k]) by {
                if k < rest.len() {
                    assert(sel[k] == rest[k]);
                } else {
                    assert(sel[k] == s.last());
                }
            }
            assert forall|a: int, b: int| 0 <= a < b < sel.len() implies sel[a].id.0 < sel[b].id.0 by {
                if b < rest.len() {
                    assert(sel[a] == rest[a] && sel[b] == rest[b]);
                } else {
                    assert(sel[a] == rest[a] && sel[b] == s.last());
                    let j = choose|j: int| 0 <= j < t.len() && t[j] == rest[a];
                    assert(s[j] == t[j]);
                }
            }
        }
    }
}

/// The default listing — no search, no sort field, ascending, no paging —
/// is every record of the collection, in id order.
pub proof fn the_default_list_is_everything_in_id_order(s: Seq<RecordView>, collection: Seq<char>, order: Seq<RecordView>)
    requires
        ids_ascend(s),
        arranged(selected(s, collection, default_params()), default_params(), order),
    ensures
        window(order, None, None) == selected(s, collection, default_params()),
        ids_ascend(window(order, None, None)),
        forall|r: RecordView| #[trigger] s.contains(r) && r.collection == collection ==> window(order, None, None).contains(r),
{
    selected_records_belong(s, collection, default_params());
    assert(window(order, None, None) =~= order);
    lemma_selected_keeps(s, collection, default_params());
}

/// A record just created comes last in the default listing of its
/// collection: `create` appends it with an id above every stored one, and
/// the default listing is in id order.
pub proof fn a_new_record_lists_last(s: Seq<RecordView>, r: RecordView)
    requires
        ids_ascend(s),
        forall|k: int| 0 <= k < s.len() ==> (#[trigger] s[k]).id.0 < r.id.0,
    ensures
        ids_ascend(s.push(r)),
        selected(s.push(r), r.collection, default_params()) == selected(s, r.collection, default_params()).push(r),
{
    assert(s.push(r).drop_last() =~= s);
    assert forall|a: int, b: int| 0 <= a < b < s.push(r).len() implies (#[trigger] s.push(r)[a]).id.0 < (#[trigger] s.push(r)[b]).id.0 by {
        if b < s.len() {
            assert(s.push(r)[a] == s[a] && s.push(r)[b] == s[b]);
        } else {
            assert(s.push(r)[a] == s[a]);
        }
    }
}

/// Where a search for an id stops, that id is held.
proof fn lemma_position_found(s: Seq<RecordView>, id: RecordId, from: int)
    ensures
        position_from(s, id, from) matches Some(i) ==> 0 <= i < s.len() && s[i].id == id,
    decreases s.len() - from,
{
    if 0 <= from < s.len() && s[from].id != id {
        lemma_position_found(s, id, from + 1);
    }
}

/// An id is never handed out twice: a record created after one was deleted
/// gets another id, since new ids are above every id minted before.
pub proof fn a_deleted_id_is_never_minted_again(
    before: MemoryRepository,
    middle: MemoryRepository,
    after: MemoryRepository,
    collection: Seq<char>,
    id: RecordId,
    other: Seq<char>,
    data: JsonView,
    rec: RecordView,
)
    requires
        before.deletes(collection, id, middle, Ok(())),
        middle.creates(other, data, after, Ok(rec)),
    ensures
        rec.id != id,
{
    lemma_position_found(before@, id, 0);
}

/// A selection keeps every record that belongs and matches.
proof fn lemma_selected_keeps(s: Seq<RecordView>, collection: Seq<char>, p: ListParamsView)
    ensures
        forall|r: RecordView| #[trigger] s.contains(r) && r.collection == collection && matches_search(r, p) ==> selected(s, collection, p).contains(r),
    decreases s.len(),
{
    if s.len() > 0 {
        let t = s.drop_last();
        lemma_selected_keeps(t, collection, p);
        let rest = selected(t, collection, p);
        let sel = selected(s, collection, p);
        assert forall|r: RecordView| #[trigger] s.contains(r) && r.collection == collection && matches_search(r, p) implies sel.contains(r) by {
            let j = choose|j: int| 0 <= j < s.len() && s[j] == r;
            if j < t.len() {
                assert(t[j] == r);
                assert(t.contains(r));
                assert(rest.contains(r));
                let k = choose|k: int| 0 <= k < rest.len() && rest[k] == r;
                assert(sel[k] == r);
            } else {
                assert(sel[sel.len() - 1] == r);
            }
        }
    }
}

/// Without `limit` and `offset`, a listing has exactly as many records as
/// `count` reports, however it is sorted.
pub proof fn count_is_the_length_of_an_unpaged_list(s: Seq<RecordView>, collection: Seq<char>, p: ListParamsView, order: Seq<RecordView>)
    requires
        p.limit is None,
        p.offset is None,
        arranged(selected(s, collection, p), p, order),
    ensures
        window(order, p.offset, p.limit).len() == selected(s, collection, p).len(),
{
    assert(window(order, None, None) =~= order);
    match p.sort_by {
        None => {},
        Some(_) => {
            assert(order.to_multiset().len() == selected(s, collection, p).to_multiset().len());
        },
    }
}

/// A page never holds more than `limit` records.
pub proof fn a_page_respects_its_limit(s: Seq<RecordView>, offset: Option<u32>, limit: u32)
    ensures
        window(s, offset, Some(limit)).len() <= limit,
{
}

} // verus!
