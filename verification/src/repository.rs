//! The storage port: what everything above storage is written against, and
//! the vocabulary of its requests and refusals.

use vstd::prelude::*;

use crate::json::{Json, JsonView};
use crate::record::{records_view, ulid_text, Record, RecordId, RecordView};
use crate::schema::{clone_strings, strings_view};
use crate::text::{owned, views};

verus! {

/// Which way a sort runs.
#[derive(Clone, Copy, Debug, PartialEq, Eq, Structural)]
pub enum SortDirection {
    Asc,
    Desc,
}

impl Default for SortDirection {
    fn default() -> (d: Self)
        ensures
            d == SortDirection::Asc,
    {
        SortDirection::Asc
    }
}

/// How to narrow and order a `list`.
///
/// The default is: no limit, no offset, no search, sort by `id` ascending —
/// which is chronological, because ids are ULIDs.
#[derive(Debug, PartialEq, Eq)]
pub struct ListParams {
    pub limit: Option<u32>,
    pub offset: Option<u32>,
    /// Case-insensitive substring match, applied across `search_fields`.
    pub search: Option<String>,
    /// The fields `search` looks in — normally the collection's
    /// `list_columns`.
    pub search_fields: Vec<String>,
    /// Field name to order by. `None` means order by `id`.
    pub sort_by: Option<String>,
    pub sort_direction: SortDirection,
}

pub struct ListParamsView {
    pub limit: Option<u32>,
    pub offset: Option<u32>,
    pub search: Option<Seq<char>>,
    pub search_fields: Seq<Seq<char>>,
    pub sort_by: Option<Seq<char>>,
    pub sort_direction: SortDirection,
}

impl View for ListParams {
    type V = ListParamsView;

    open spec fn view(&self) -> ListParamsView {
        ListParamsView {
            limit: self.limit,
            offset: self.offset,
            search: crate::config::opt_view(self.search),
            search_fields: strings_view(self.search_fields@),
            sort_by: crate::config::opt_view(self.sort_by),
            sort_direction: self.sort_direction,
        }
    }
}

/// The parameters that list everything in id order.
pub open spec fn default_params() -> ListParamsView {
    ListParamsView {
        limit: None,
        offset: None,
        search: None,
        search_fields: Seq::empty(),
        sort_by: None,
        sort_direction: SortDirection::Asc,
    }
}

impl Default for ListParams {
    fn default() -> (p: Self)
        ensures
            p@ == default_params(),
    {
        let p = ListParams {
            limit: None,
            offset: None,
            search: None,
            search_fields: Vec::new(),
            sort_by: None,
            sort_direction: SortDirection::Asc,
        };
        assert(p@.search_fields =~= Seq::<Seq<char>>::empty());
        p
    }
}

impl Clone for ListParams {
    fn clone(&self) -> (r: Self)
        ensures
            r@ == self@,
    {
        ListParams {
            limit: self.limit,
            offset: self.offset,
            search: match &self.search {
                Some(s) => Some(s.clone()),
                None => None,
            },
            search_fields: clone_strings(&self.search_fields),
            sort_by: match &self.sort_by {
                Some(s) => Some(s.clone()),
                None => None,
            },
            sort_direction: self.sort_direction,
        }
    }
}

impl ListParams {
    /// Sorts by `field` in the given direction, leaving everything else
    /// default.
    pub fn sorted_by(field: &str, direction: SortDirection) -> (p: Self)
        ensures
            p@ == (ListParamsView { sort_by: Some(field@), sort_direction: direction, ..default_params() }),
    {
        let p = ListParams {
            limit: None,
            offset: None,
            search: None,
            search_fields: Vec::new(),
            sort_by: Some(owned(field)),
            sort_direction: direction,
        };
        assert(p@.search_fields =~= Seq::<Seq<char>>::empty());
        p
    }

    /// Searches for `term` across `fields`, leaving everything else default.
    pub fn searching(term: &str, fields: &[&str]) -> (p: Self)
        ensures
            p@ == (ListParamsView {
                search: Some(term@),
                search_fields: fields@.map_values(|f: &str| f@),
                ..default_params()
            }),
    {
        let mut names: Vec<String> = Vec::new();
        let mut i: usize = 0;
        while i < fields.len()
            invariant
                0 <= i <= fields.len(),
                views(names@) == fields@.take(i as int).map_values(|f: &str| f@),
            decreases fields.len() - i,
        {
            let ghost before = views(names@);
            names.push(owned(fields[i]));
            assert(views(names@) =~= before.push(fields@[i as int]@));
            assert(fields@.take(i + 1).map_values(|f: &str| f@) =~= fields@.take(i as int).map_values(|f: &str| f@).push(fields@[i as int]@));
            i = i + 1;
        }
        assert(fields@.take(fields.len() as int) =~= fields@);
        ListParams {
            limit: None,
            offset: None,
            search: Some(owned(term)),
            search_fields: names,
            sort_by: None,
            sort_direction: SortDirection::Asc,
        }
    }
}

/// Everything storage can refuse to do.
#[derive(Debug, PartialEq, Eq)]
pub enum StorageError {
    NotFound { collection: String, id: String },
    UnknownCollection(String),
    /// Stored `data` is not a JSON object, or an id is not a ULID.
    Corrupt { id: String, detail: String },
    /// A field name that would be interpolated into SQL is not an
    /// identifier.
    InvalidField { field: String },
    /// The database file is at a schema version this build cannot work
    /// with.
    Migration { detail: String },
    Io(String),
    Sqlite(String),
}

pub enum StorageErrorView {
    NotFound { collection: Seq<char>, id: Seq<char> },
    UnknownCollection(Seq<char>),
    Corrupt { id: Seq<char>, detail: Seq<char> },
    InvalidField { field: Seq<char> },
    Migration { detail: Seq<char> },
    Io(Seq<char>),
    Sqlite(Seq<char>),
}

impl View for StorageError {
    type V = StorageErrorView;

    open spec fn view(&self) -> StorageErrorView {
        match self {
            StorageError::NotFound { collection, id } => StorageErrorView::NotFound { collection: collection@, id: id@ },
            StorageError::UnknownCollection(s) => StorageErrorView::UnknownCollection(s@),
            StorageError::Corrupt { id, detail } => StorageErrorView::Corrupt { id: id@, detail: detail@ },
            StorageError::InvalidField { field } => StorageErrorView::InvalidField { field: field@ },
            StorageError::Migration { detail } => StorageErrorView::Migration { detail: detail@ },
            StorageError::Io(s) => StorageErrorView::Io(s@),
            StorageError::Sqlite(s) => StorageErrorView::Sqlite(s@),
        }
    }
}

/// The one line a user reads for a storage error.
pub open spec fn storage_message(e: StorageErrorView) -> Seq<char> {
    match e {
        StorageErrorView::NotFound { collection, id } => "no record "@ + id + " in collection "@ + collection,
        StorageErrorView::UnknownCollection(s) => "unknown collection: "@ + s,
        StorageErrorView::Corrupt { id, detail } => "record "@ + id + " is corrupt: "@ + detail,
        StorageErrorView::InvalidField { field } => "not a usable field name: "@ + field,
        StorageErrorView::Migration { detail } => "migration failed: "@ + detail,
        StorageErrorView::Io(s) => "i/o error: "@ + s,
        StorageErrorView::Sqlite(s) => "database error: "@ + s,
    }
}

impl StorageError {
    /// The one line a user reads for this error.
    pub fn message(&self) -> (m: String)
        ensures
            m@ == storage_message(self@),
    {
        let mut m = String::new();
        match self {
            StorageError::NotFound { collection, id } => {
                m.append("no record ");
                m.append(id.as_str());
                m.append(" in collection ");
                m.append(collection.as_str());
            },
            StorageError::UnknownCollection(s) => {
                m.append("unknown collection: ");
                m.append(s.as_str());
            },
            StorageError::Corrupt { id, detail } => {
                m.append("record ");
                m.append(id.as_str());
                m.append(" is corrupt: ");
                m.append(detail.as_str());
            },
            StorageError::InvalidField { field } => {
                m.append("not a usable field name: ");
                m.append(field.as_str());
            },
            StorageError::Migration { detail } => {
                m.append("migration failed: ");
                m.append(detail.as_str());
            },
            StorageError::Io(s) => {
                m.append("i/o error: ");
                m.append(s.as_str());
            },
            StorageError::Sqlite(s) => {
                m.append("database error: ");
                m.append(s.as_str());
            },
        }
        m
    }
}

/// The `NotFound` a missing id produces.
pub open spec fn not_found_view(collection: Seq<char>, id: RecordId) -> StorageErrorView {
    StorageErrorView::NotFound { collection, id: ulid_text(id.0) }
}

impl StorageError {
    /// The `NotFound` a missing id produces, so both adapters phrase it
    /// alike.
    pub fn not_found(collection: &str, id: &RecordId) -> (e: StorageError)
        ensures
            e@ == not_found_view(collection@, *id),
    {
        StorageError::NotFound { collection: owned(collection), id: id.as_string() }
    }
}

/// What a repository's `list` or `find_by_field` answered, as views.
pub open spec fn records_outcome(r: Result<Vec<Record>, StorageError>) -> Result<Seq<RecordView>, StorageErrorView> {
    match r {
        Ok(v) => Ok(records_view(v@)),
        Err(e) => Err(e@),
    }
}

/// What a repository's `count` answered.
pub open spec fn count_outcome(r: Result<u64, StorageError>) -> Result<u64, StorageErrorView> {
    match r {
        Ok(n) => Ok(n),
        Err(e) => Err(e@),
    }
}

/// What a repository's `get` answered.
pub open spec fn lookup_outcome(r: Result<Option<Record>, StorageError>) -> Result<Option<RecordView>, StorageErrorView> {
    match r {
        Ok(Some(rec)) => Ok(Some(rec@)),
        Ok(None) => Ok(None),
        Err(e) => Err(e@),
    }
}

/// What a repository's `create` or `update` answered.
pub open spec fn record_outcome(r: Result<Record, StorageError>) -> Result<RecordView, StorageErrorView> {
    match r {
        Ok(rec) => Ok(rec@),
        Err(e) => Err(e@),
    }
}

/// What a repository's `delete` answered.
pub open spec fn unit_outcome(r: Result<(), StorageError>) -> Result<(), StorageErrorView> {
    match r {
        Ok(()) => Ok(()),
        Err(e) => Err(e@),
    }
}

/// The one way anything above storage reaches records. The two adapters —
/// in memory and SQLite — must be indistinguishable through it.
///
/// Each method's answer is described by a relation over the repository
/// before the call, the arguments, the answer and, for the writers, the
/// repository after it. An implementation states its own relations; one that
/// states none promises nothing, which is what the defaults say.
pub trait RecordRepository: Sized {
    /// Whether `list(collection, params)` may answer `out`.
    open spec fn lists(&self, collection: Seq<char>, params: ListParamsView, out: Result<Seq<RecordView>, StorageErrorView>) -> bool {
        true
    }

    /// Whether `count(collection, params)` may answer `out`.
    open spec fn counts(&self, collection: Seq<char>, params: ListParamsView, out: Result<u64, StorageErrorView>) -> bool {
        true
    }

    /// Whether `get(collection, id)` may answer `out`.
    open spec fn gets(&self, collection: Seq<char>, id: RecordId, out: Result<Option<RecordView>, StorageErrorView>) -> bool {
        true
    }

    /// Whether `create(collection, data)` may answer `out` and leave the
    /// repository as `after`.
    open spec fn creates(&self, collection: Seq<char>, data: JsonView, after: Self, out: Result<RecordView, StorageErrorView>) -> bool {
        true
    }

    /// Whether `update(collection, id, data)` may answer `out` and leave the
    /// repository as `after`.
    open spec fn updates(&self, collection: Seq<char>, id: RecordId, data: JsonView, after: Self, out: Result<RecordView, StorageErrorView>) -> bool {
        true
    }

    /// Whether `delete(collection, id)` may answer `out` and leave the
    /// repository as `after`.
    open spec fn deletes(&self, collection: Seq<char>, id: RecordId, after: Self, out: Result<(), StorageErrorView>) -> bool {
        true
    }

    /// Whether `find_by_field(collection, field, value)` may answer `out`.
    open spec fn finds(&self, collection: Seq<char>, field: Seq<char>, value: JsonView, out: Result<Seq<RecordView>, StorageErrorView>) -> bool {
        true
    }

    fn list(&self, collection: &str, params: &ListParams) -> (r: Result<Vec<Record>, StorageError>)
        ensures
            self.lists(collection@, params@, records_outcome(r)),
    ;

    /// How many records `list` would return with no `limit`/`offset`.
    fn count(&self, collection: &str, params: &ListParams) -> (r: Result<u64, StorageError>)
        ensures
            self.counts(collection@, params@, count_outcome(r)),
    ;

    fn get(&self, collection: &str, id: &RecordId) -> (r: Result<Option<Record>, StorageError>)
        ensures
            self.gets(collection@, *id, lookup_outcome(r)),
    ;

    /// Stores `data` verbatim and stamps both timestamps. Does not validate.
    fn create(&mut self, collection: &str, data: Json) -> (r: Result<Record, StorageError>)
        ensures
            old(self).creates(collection@, data@, *final(self), record_outcome(r)),
    ;

    /// Replaces `data` wholesale and moves `updated_at`.
    fn update(&mut self, collection: &str, id: &RecordId, data: Json) -> (r: Result<Record, StorageError>)
        ensures
            old(self).updates(collection@, *id, data@, *final(self), record_outcome(r)),
    ;

    fn delete(&mut self, collection: &str, id: &RecordId) -> (r: Result<(), StorageError>)
        ensures
            old(self).deletes(collection@, *id, *final(self), unit_outcome(r)),
    ;

    /// Every record whose `$.<field>` equals `value`.
    fn find_by_field(&self, collection: &str, field: &str, value: &Json) -> (r: Result<Vec<Record>, StorageError>)
        ensures
            self.finds(collection@, field@, value@, records_outcome(r)),
    ;
}

} // verus!

