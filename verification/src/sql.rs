//! The SQL the SQLite adapter runs: statements, the values they bind, and
//! how a stored row becomes a record.
//!
//! Records are JSON documents in one table. Search values are bound; field
//! names are interpolated into `json_extract` paths, which is why every name
//! goes through [`checked_field`] first.

use vstd::prelude::*;

use crate::clock::{bad_timestamp_view, parse, rfc3339_reading};
use crate::json::{Json, JsonView};
use crate::memory::first_invalid_from;
use crate::record::{ulid_parsed, Record, RecordId};
use crate::repository::{ListParams, ListParamsView, SortDirection, StorageError, StorageErrorView};
use crate::schema::identifier;
use crate::text::{decimal, joined, join, owned, push_decimal, views};
use crate::values::{checked_field, checked_field_result, corrupt_view, key_of, like_pattern, like_pattern_of, require_object, JsonKey, JsonKeyView};

verus! {

/// The columns a record is built from, in the order [`RawRow`] holds them.
pub const COLUMNS: &'static str = "id, collection, data, created_at, updated_at";

/// Fetches one record of a collection by id; binds the slug and the id.
pub const GET_RECORD: &'static str = "SELECT id, collection, data, created_at, updated_at FROM records WHERE collection = ?1 AND id = ?2";

/// Stores a new record; binds id, slug, JSON text and one timestamp for both
/// `created_at` and `updated_at`.
pub const INSERT_RECORD: &'static str = "INSERT INTO records (id, collection, data, created_at, updated_at) VALUES (?1, ?2, ?3, ?4, ?4)";

/// Replaces a record's data and moves `updated_at`, handing back the
/// `created_at` it must not overwrite; binds slug, id, JSON text, timestamp.
pub const UPDATE_RECORD: &'static str = "UPDATE records SET data = ?3, updated_at = ?4 WHERE collection = ?1 AND id = ?2 RETURNING created_at";

/// Removes a record; binds the slug and the id.
pub const DELETE_RECORD: &'static str = "DELETE FROM records WHERE collection = ?1 AND id = ?2";

/// A value bound to a statement, as SQLite stores it.
#[derive(Debug, PartialEq)]
pub enum SqlValue {
    Null,
    Integer(i64),
    /// A real, as its double's bits.
    Real(u64),
    Text(String),
}

pub enum SqlValueView {
    Null,
    Integer(i64),
    Real(u64),
    Text(Seq<char>),
}

impl View for SqlValue {
    type V = SqlValueView;

    open spec fn view(&self) -> SqlValueView {
        match self {
            SqlValue::Null => SqlValueView::Null,
            SqlValue::Integer(i) => SqlValueView::Integer(*i),
            SqlValue::Real(b) => SqlValueView::Real(*b),
            SqlValue::Text(t) => SqlValueView::Text(t@),
        }
    }
}

pub open spec fn values_view(v: Seq<SqlValue>) -> Seq<SqlValueView> {
    v.map_values(|x: SqlValue| x@)
}

// ---------------------------------------------------------------------------
// WHERE
// ---------------------------------------------------------------------------

/// One searched field: its lowered text `LIKE` the bound pattern.
pub open spec fn like_disjunct(field: Seq<char>, slot: nat) -> Seq<char> {
    "lower(json_extract(data, '$."@ + field + "')) LIKE ?"@ + decimal(slot) + " ESCAPE '\\'"@
}

/// One disjunct per searched field, binding slots 2, 3, ...
pub open spec fn like_disjuncts(fields: Seq<Seq<char>>) -> Seq<Seq<char>> {
    Seq::new(fields.len(), |k: int| like_disjunct(fields[k], (k + 2) as nat))
}

/// `WHERE collection = ?1`, and the search when there is one. A search
/// with no field named matches nothing: `1 = 0`.
pub open spec fn filter_clause(p: ListParamsView) -> Seq<char> {
    " WHERE collection = ?1"@ + match p.search {
        None => Seq::empty(),
        Some(_) => if p.search_fields.len() == 0 {
            " AND 1 = 0"@
        } else {
            " AND ("@ + joined(like_disjuncts(p.search_fields), " OR "@) + ")"@
        },
    }
}

/// The values the filter binds: the slug, then the pattern once per field.
pub open spec fn filter_values(collection: Seq<char>, p: ListParamsView) -> Seq<SqlValueView> {
    seq![SqlValueView::Text(collection)] + match p.search {
        None => Seq::empty(),
        Some(term) => Seq::new(p.search_fields.len(), |k: int| SqlValueView::Text(like_pattern_of(term))),
    }
}

/// The searched field names are only interpolated when there is a search.
pub open spec fn search_fields_error(p: ListParamsView) -> Option<StorageErrorView> {
    if p.search is Some {
        match first_invalid_from(p.search_fields, 0) {
            Some(f) => Some(StorageErrorView::InvalidField { field: f }),
            None => None,
        }
    } else {
        None
    }
}

/// A `WHERE` clause and the values it binds.
#[derive(Debug, PartialEq)]
pub struct Filter {
    pub clause: String,
    pub values: Vec<SqlValue>,
}

/// Builds `WHERE collection = ?1 [AND (search...)]`.
pub fn build_filter(collection: &str, params: &ListParams) -> (r: Result<Filter, StorageError>)
    ensures
        match r {
            Ok(f) => search_fields_error(params@) is None && f.clause@ == filter_clause(params@)
                && values_view(f.values@) == filter_values(collection@, params@),
            Err(e) => search_fields_error(params@) == Some(e@),
        },
{
    let mut clause = owned(" WHERE collection = ?1");
    let mut values: Vec<SqlValue> = Vec::new();
    values.push(SqlValue::Text(owned(collection)));
    match &params.search {
        None => {
            assert(values_view(values@) =~= filter_values(collection@, params@));
            assert(clause@ =~= filter_clause(params@));
        },
        Some(term) => {
            let ghost fields = params@.search_fields;
            let mut disjuncts: Vec<String> = Vec::new();
            let mut i: usize = 0;
            while i < params.search_fields.len()
                invariant
                    0 <= i <= params.search_fields.len(),
                    fields == params@.search_fields,
                    fields.len() == params.search_fields.len(),
                    forall|k: int| 0 <= k < fields.len() ==> #[trigger] fields[k] == params.search_fields@[k]@,
                    params@.search == Some(term@),
                    first_invalid_from(fields, 0) == first_invalid_from(fields, i as int),
                    views(disjuncts@) == like_disjuncts(fields).take(i as int),
                    values_view(values@) == seq![SqlValueView::Text(collection@)] + Seq::new(i as nat, |k: int| SqlValueView::Text(like_pattern_of(term@))),
                decreases params.search_fields.len() - i,
            {
                let field = match checked_field(params.search_fields[i].as_str()) {
                    Ok(f) => f,
                    Err(e) => {
                        return Err(e);
                    },
                };
                let ghost vbefore = values_view(values@);
                values.push(SqlValue::Text(like_pattern(term.as_str())));
                assert(values_view(values@) =~= vbefore.push(SqlValueView::Text(like_pattern_of(term@))));
                assert(values_view(values@) =~= seq![SqlValueView::Text(collection@)] + Seq::new((i + 1) as nat, |k: int| SqlValueView::Text(like_pattern_of(term@))));
                let mut d = owned("lower(json_extract(data, '$.");
                d.append(field);
                d.append("')) LIKE ?");
                push_decimal(&mut d, values.len() as u64);
                d.append(" ESCAPE '\\'");
                assert(d@ =~= like_disjunct(fields[i as int], (i + 2) as nat));
                let ghost dbefore = views(disjuncts@);
                disjuncts.push(d);
                assert(views(disjuncts@) =~= dbefore.push(like_disjunct(fields[i as int], (i + 2) as nat)));
                assert(like_disjuncts(fields).take(i + 1) =~= like_disjuncts(fields).take(i as int).push(like_disjunct(fields[i as int], (i + 2) as nat)));
                i = i + 1;
            }
            assert(like_disjuncts(fields).take(i as int) =~= like_disjuncts(fields));
            if disjuncts.len() == 0 {
                clause.append(" AND 1 = 0");
            } else {
                clause.append(" AND (");
                let joined_text = join(&disjuncts, " OR ");
                clause.append(joined_text.as_str());
                clause.append(")");
            }
            assert(clause@ =~= filter_clause(params@));
            assert(values_view(values@) =~= filter_values(collection@, params@));
        },
    }
    Ok(Filter { clause, values })
}

// ---------------------------------------------------------------------------
// ORDER BY, LIMIT, OFFSET
// ---------------------------------------------------------------------------

pub open spec fn direction_word(d: SortDirection) -> Seq<char> {
    match d {
        SortDirection::Asc => "ASC"@,
        SortDirection::Desc => "DESC"@,
    }
}

/// The `ORDER BY`: by id, which is chronological; or by a field, with
/// `id ASC` after it so that equal keys come back in a stable order.
pub open spec fn order_by_result(p: ListParamsView) -> Result<Seq<char>, StorageErrorView> {
    match p.sort_by {
        None => Ok(" ORDER BY id "@ + direction_word(p.sort_direction)),
        Some(f) => if identifier(f) {
            Ok(" ORDER BY json_extract(data, '$."@ + f + "') "@ + direction_word(p.sort_direction) + ", id ASC"@)
        } else {
            Err(StorageErrorView::InvalidField { field: f })
        },
    }
}

/// Builds the `ORDER BY`.
pub fn build_order_by(params: &ListParams) -> (r: Result<String, StorageError>)
    ensures
        match r {
            Ok(s) => order_by_result(params@) == Ok::<Seq<char>, StorageErrorView>(s@),
            Err(e) => order_by_result(params@) == Err::<Seq<char>, StorageErrorView>(e@),
        },
{
    let direction = match params.sort_direction {
        SortDirection::Asc => "ASC",
        SortDirection::Desc => "DESC",
    };
    match &params.sort_by {
        None => {
            let mut s = owned(" ORDER BY id ");
            s.append(direction);
            Ok(s)
        },
        Some(field) => {
            let field = match checked_field(field.as_str()) {
                Ok(f) => f,
                Err(e) => {
                    return Err(e);
                },
            };
            let mut s = owned(" ORDER BY json_extract(data, '$.");
            s.append(field);
            s.append("') ");
            s.append(direction);
            s.append(", id ASC");
            Ok(s)
        },
    }
}

/// `LIMIT ?n OFFSET ?m`, appended when either is asked for. SQLite ignores
/// `OFFSET` without `LIMIT`, and `-1` is no limit, so an offset alone works.
pub open spec fn limit_offset(slot: nat, p: ListParamsView) -> (Seq<char>, Seq<SqlValueView>) {
    if p.limit is None && p.offset is None {
        (Seq::empty(), Seq::empty())
    } else {
        let limit: i64 = match p.limit {
            Some(l) => l as i64,
            None => -1i64,
        };
        let offset: i64 = match p.offset {
            Some(o) => o as i64,
            None => 0i64,
        };
        (
            " LIMIT ?"@ + decimal(slot + 1) + " OFFSET ?"@ + decimal(slot + 2),
            seq![SqlValueView::Integer(limit), SqlValueView::Integer(offset)],
        )
    }
}

/// Appends `LIMIT`/`OFFSET` if either is asked for, binding both.
pub fn push_limit_offset(sql: &mut String, values: &mut Vec<SqlValue>, params: &ListParams)
    ensures
        final(sql)@ == old(sql)@ + limit_offset(old(values).len() as nat, params@).0,
        values_view(final(values)@) == values_view(old(values)@) + limit_offset(old(values).len() as nat, params@).1,
{
    if params.limit.is_none() && params.offset.is_none() {
        assert(values_view(values@) =~= values_view(old(values)@) + Seq::<SqlValueView>::empty());
        assert(sql@ =~= old(sql)@ + Seq::<char>::empty());
        return;
    }
    let limit: i64 = match params.limit {
        Some(l) => l as i64,
        None => -1,
    };
    values.push(SqlValue::Integer(limit));
    sql.append(" LIMIT ?");
    push_decimal(sql, values.len() as u64);
    let offset: i64 = match params.offset {
        Some(o) => o as i64,
        None => 0,
    };
    values.push(SqlValue::Integer(offset));
    sql.append(" OFFSET ?");
    push_decimal(sql, values.len() as u64);
    assert(values_view(values@) =~= values_view(old(values)@) + limit_offset(old(values).len() as nat, params@).1);
    assert(sql@ =~= old(sql)@ + limit_offset(old(values).len() as nat, params@).0);
}

// ---------------------------------------------------------------------------
// Whole statements
// ---------------------------------------------------------------------------

/// The statement `list` runs and its values.
pub open spec fn list_query_result(collection: Seq<char>, p: ListParamsView) -> Result<(Seq<char>, Seq<SqlValueView>), StorageErrorView> {
    match search_fields_error(p) {
        Some(e) => Err(e),
        None => match order_by_result(p) {
            Err(e) => Err(e),
            Ok(order) => {
                let values = filter_values(collection, p);
                let paging = limit_offset(values.len(), p);
                Ok((
                    "SELECT "@ + COLUMNS@ + " FROM records"@ + filter_clause(p) + order + paging.0,
                    values + paging.1,
                ))
            },
        },
    }
}

pub open spec fn query_view(r: Result<(String, Vec<SqlValue>), StorageError>) -> Result<(Seq<char>, Seq<SqlValueView>), StorageErrorView> {
    match r {
        Ok((s, v)) => Ok((s@, values_view(v@))),
        Err(e) => Err(e@),
    }
}

/// The statement `list` runs: the filter, the order, then the paging.
pub fn list_query(collection: &str, params: &ListParams) -> (r: Result<(String, Vec<SqlValue>), StorageError>)
    ensures
        query_view(r) == list_query_result(collection@, params@),
{
    let filter = match build_filter(collection, params) {
        Ok(f) => f,
        Err(e) => {
            return Err(e);
        },
    };
    let order = match build_order_by(params) {
        Ok(o) => o,
        Err(e) => {
            return Err(e);
        },
    };
    let mut sql = owned("SELECT ");
    sql.append(COLUMNS);
    sql.append(" FROM records");
    sql.append(filter.clause.as_str());
    sql.append(order.as_str());
    let mut values = filter.values;
    assert(values.len() == filter_values(collection@, params@).len());
    push_limit_offset(&mut sql, &mut values, params);
    Ok((sql, values))
}

/// The statement `count` runs. It needs no order, but a bad sort field is
/// still refused, so that `count` and `list` fail alike on the same request.
pub open spec fn count_query_result(collection: Seq<char>, p: ListParamsView) -> Result<(Seq<char>, Seq<SqlValueView>), StorageErrorView> {
    match search_fields_error(p) {
        Some(e) => Err(e),
        None => match p.sort_by {
            Some(f) if !identifier(f) => Err(StorageErrorView::InvalidField { field: f }),
            _ => Ok(("SELECT count(*) FROM records"@ + filter_clause(p), filter_values(collection, p))),
        },
    }
}

/// The statement `count` runs.
pub fn count_query(collection: &str, params: &ListParams) -> (r: Result<(String, Vec<SqlValue>), StorageError>)
    ensures
        query_view(r) == count_query_result(collection@, params@),
{
    let filter = match build_filter(collection, params) {
        Ok(f) => f,
        Err(e) => {
            return Err(e);
        },
    };
    if let Some(field) = &params.sort_by {
        match checked_field(field.as_str()) {
            Ok(_) => {},
            Err(e) => {
                return Err(e);
            },
        }
    }
    let mut sql = owned("SELECT count(*) FROM records");
    sql.append(filter.clause.as_str());
    Ok((sql, filter.values))
}

/// `count` and `list` refuse the same requests with the same error: a bad
/// searched field first, then a bad sort field.
pub proof fn count_and_list_fail_alike(collection: Seq<char>, p: ListParamsView)
    ensures
        (list_query_result(collection, p) is Err) == (count_query_result(collection, p) is Err),
        list_query_result(collection, p) is Err ==> list_query_result(collection, p)->Err_0 == count_query_result(collection, p)->Err_0,
{
}

/// The value a key binds as: the storage class SQLite would have kept it in,
/// so an integer past 2^53 compares by its digits.
pub open spec fn bound_view(k: JsonKeyView) -> SqlValueView {
    match k {
        JsonKeyView::Null => SqlValueView::Null,
        JsonKeyView::Integer(i) => SqlValueView::Integer(i),
        JsonKeyView::Real(b, _) => SqlValueView::Real(b),
        JsonKeyView::Text(t) => SqlValueView::Text(t),
    }
}

/// The value to bind when comparing against `json_extract`.
pub fn bound_value(key: &JsonKey) -> (v: SqlValue)
    ensures
        v@ == bound_view(key@),
{
    match key {
        JsonKey::Null => SqlValue::Null,
        JsonKey::Integer(whole) => SqlValue::Integer(*whole),
        JsonKey::Real(bits, _) => SqlValue::Real(*bits),
        JsonKey::Text(text) => SqlValue::Text(text.clone()),
    }
}

/// The statement `find_by_field` runs. `IS` rather than `=`: it is
/// null-safe, so a null value finds the rows where the field is absent.
pub open spec fn find_query_result(collection: Seq<char>, field: Seq<char>, value: JsonView) -> Result<(Seq<char>, Seq<SqlValueView>), StorageErrorView> {
    match checked_field_result(field) {
        Err(e) => Err(e),
        Ok(f) => Ok((
            "SELECT "@ + COLUMNS@ + " FROM records WHERE collection = ?1 AND json_extract(data, '$."@ + f + "') IS ?2 ORDER BY id ASC"@,
            seq![SqlValueView::Text(collection), bound_view(key_of(Some(value)))],
        )),
    }
}

/// The statement `find_by_field` runs.
pub fn find_query(collection: &str, field: &str, value: &Json) -> (r: Result<(String, Vec<SqlValue>), StorageError>)
    ensures
        query_view(r) == find_query_result(collection@, field@, value@),
{
    let field = match checked_field(field) {
        Ok(f) => f,
        Err(e) => {
            return Err(e);
        },
    };
    let bound = bound_value(&JsonKey::of(Some(value)));
    let mut sql = owned("SELECT ");
    sql.append(COLUMNS);
    sql.append(" FROM records WHERE collection = ?1 AND json_extract(data, '$.");
    sql.append(field);
    sql.append("') IS ?2 ORDER BY id ASC");
    let mut values: Vec<SqlValue> = Vec::new();
    values.push(SqlValue::Text(owned(collection)));
    values.push(bound);
    assert(values_view(values@) =~= seq![SqlValueView::Text(collection@), bound_view(key_of(Some(value@)))]);
    Ok((sql, values))
}

// ---------------------------------------------------------------------------
// Rows
// ---------------------------------------------------------------------------

/// One row, still as the strings SQLite stores: a bad ULID or unreadable
/// JSON is a corrupt record, not a failed read.
#[derive(Debug, PartialEq, Eq)]
pub struct RawRow {
    pub id: String,
    pub collection: String,
    pub data: String,
    pub created_at: String,
    pub updated_at: String,
}

/// What is reported of a stored id that is not a ULID.
pub open spec fn bad_id_view(text: Seq<char>) -> StorageErrorView {
    StorageErrorView::Corrupt { id: text, detail: "id is not a ULID"@ }
}

/// What is reported of stored data that is not JSON, with the parser's
/// message.
pub open spec fn bad_json_view(id: Seq<char>, message: Seq<char>) -> StorageErrorView {
    StorageErrorView::Corrupt { id, detail: "data is not valid JSON: "@ + message }
}

/// Turns a stored row into a record, or reports the row as corrupt. `data`
/// is the row's JSON text as read, or the reader's message where it is not
/// JSON. Checks come in order: the id, the data, that the data is an
/// object, then the two timestamps.
pub fn record_from_raw(raw: RawRow, data: Result<Json, String>) -> (r: Result<Record, StorageError>)
    ensures
        match ulid_parsed(raw.id@) {
            None => r matches Err(e) && e@ == bad_id_view(raw.id@),
            Some(value) => {
                let id = RecordId(value as u128);
                match data {
                    Err(message) => r matches Err(e) && e@ == bad_json_view(raw.id@, message@),
                    Ok(json) => if !(json@ is Object) {
                        r matches Err(e) && e@ == corrupt_view(id)
                    } else {
                        match (rfc3339_reading(raw.created_at@), rfc3339_reading(raw.updated_at@)) {
                            (None, _) => r matches Err(e) && e@ == bad_timestamp_view(id, raw.created_at@),
                            (Some(_), None) => r matches Err(e) && e@ == bad_timestamp_view(id, raw.updated_at@),
                            (Some(c), Some(u)) => r matches Ok(rec) && rec@.id == id && rec@.collection == raw.collection@
                                && rec@.data == json@ && (rec.created_at.seconds, rec.created_at.nanos) == c
                                && (rec.updated_at.seconds, rec.updated_at.nanos) == u,
                        }
                    },
                }
            },
        },
{
    let id = match RecordId::parse(raw.id.as_str()) {
        Ok(id) => id,
        Err(_) => {
            return Err(StorageError::Corrupt { id: raw.id, detail: owned("id is not a ULID") });
        },
    };
    let data = match data {
        Ok(json) => json,
        Err(message) => {
            let mut detail = owned("data is not valid JSON: ");
            detail.append(message.as_str());
            return Err(StorageError::Corrupt { id: raw.id, detail });
        },
    };
    match require_object(&id, &data) {
        Ok(()) => {},
        Err(e) => {
            return Err(e);
        },
    }
    let created_at = match parse(&id, raw.created_at.as_str()) {
        Ok(t) => t,
        Err(e) => {
            return Err(e);
        },
    };
    let updated_at = match parse(&id, raw.updated_at.as_str()) {
        Ok(t) => t,
        Err(e) => {
            return Err(e);
        },
    };
    Ok(Record { id, collection: raw.collection, data, created_at, updated_at })
}

/// Ordering by id follows the requested direction: ascending names `ASC`,
/// descending names `DESC`, so a descending list comes back newest first;
/// and the two directions never give the same clause, with or without a
/// sort field.
pub proof fn the_order_follows_the_requested_direction(p: ListParamsView)
    ensures
        p.sort_by is None ==> order_by_result(p) == Ok::<Seq<char>, StorageErrorView>(
            " ORDER BY id "@ + (if p.sort_direction == SortDirection::Desc { "DESC"@ } else { "ASC"@ })),
        order_by_result(p) is Ok ==> order_by_result(ListParamsView { sort_direction: SortDirection::Asc, ..p })
            != order_by_result(ListParamsView { sort_direction: SortDirection::Desc, ..p }),
{
    reveal_strlit("ASC");
    reveal_strlit("DESC");
    let asc = ListParamsView { sort_direction: SortDirection::Asc, ..p };
    let desc = ListParamsView { sort_direction: SortDirection::Desc, ..p };
    match p.sort_by {
        None => {
            reveal_strlit(" ORDER BY id ");
            let head = " ORDER BY id "@;
            assert((head + "ASC"@).len() != (head + "DESC"@).len());
            if p.sort_direction == SortDirection::Desc {
                assert(direction_word(p.sort_direction) == "DESC"@);
            } else {
                assert(direction_word(p.sort_direction) == "ASC"@);
            }
        },
        Some(f) => {
            if identifier(f) {
                let head = " ORDER BY json_extract(data, '$."@ + f + "') "@;
                let a = head + "ASC"@ + ", id ASC"@;
                let d = head + "DESC"@ + ", id ASC"@;
                assert(a.len() != d.len());
            }
        },
    }
}

} // verus!
