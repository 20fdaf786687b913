//! The business API: [`RecordService`] and [`CollectionService`].
//!
//! Everything the UI wants to do goes through here, so that validation,
//! uniqueness and collection resolution live in one place. Every record
//! method resolves the collection through the schema before it touches
//! storage, and writes are validated before they are made.

use vstd::prelude::*;

use crate::config::{ConfigError, ConfigErrorView};
use crate::json::{find_key_from, lemma_members_view, member, members_view, Json, JsonView};
use crate::record::{records_view, ulid_text, Record, RecordId, RecordView};
use crate::repository::{count_outcome, lookup_outcome, record_outcome, records_outcome, unit_outcome, ListParams, RecordRepository, StorageError, StorageErrorView};
use crate::schema::{collections_view, index_of_slug, Collection, CollectionView, FieldType, FieldTypeView, FieldView, Schema, SchemaView};
use crate::text::{decimal, owned, push_decimal};
use crate::validation::{field_errors_view, validate_record, validation_outcome, ErrorCode, FieldError, FieldErrorView};
use crate::values::{compare_text, text_order, KeyOrder};

verus! {

/// The message of a `NotUnique` error.
pub const ALREADY_USED: &'static str = "already used by another record";

/// What the services can refuse to do. The UI renders exactly one of these
/// per failed action.
#[derive(Debug)]
pub enum AppError {
    UnknownCollection(String),
    NotFound { collection: String, id: String },
    /// Every field error, unflattened: the editor renders each under its
    /// own field.
    Validation(Vec<FieldError>),
    Config(ConfigError),
    Storage(StorageError),
}

pub enum AppErrorView {
    UnknownCollection(Seq<char>),
    NotFound { collection: Seq<char>, id: Seq<char> },
    Validation(Seq<FieldErrorView>),
    Config(ConfigErrorView),
    Storage(StorageErrorView),
}

impl View for AppError {
    type V = AppErrorView;

    open spec fn view(&self) -> AppErrorView {
        match self {
            AppError::UnknownCollection(s) => AppErrorView::UnknownCollection(s@),
            AppError::NotFound { collection, id } => AppErrorView::NotFound { collection: collection@, id: id@ },
            AppError::Validation(errors) => AppErrorView::Validation(field_errors_view(errors@)),
            AppError::Config(e) => AppErrorView::Config(e@),
            AppError::Storage(e) => AppErrorView::Storage(e@),
        }
    }
}

/// The one line a user reads for an app error. Configuration and storage
/// errors read as their own.
pub open spec fn app_message(e: AppErrorView) -> Seq<char> {
    match e {
        AppErrorView::UnknownCollection(s) => "unknown collection: "@ + s,
        AppErrorView::NotFound { collection, id } => "no record "@ + id + " in collection "@ + collection,
        AppErrorView::Validation(errors) => decimal(errors.len()) + " field(s) rejected"@,
        AppErrorView::Config(c) => crate::config::config_message(c),
        AppErrorView::Storage(s) => crate::repository::storage_message(s),
    }
}

impl AppError {
    /// The one line a user reads for this error.
    pub fn message(&self) -> (m: String)
        ensures
            m@ == app_message(self@),
    {
        match self {
            AppError::UnknownCollection(s) => {
                let mut m = owned("unknown collection: ");
                m.append(s.as_str());
                m
            },
            AppError::NotFound { collection, id } => {
                let mut m = owned("no record ");
                m.append(id.as_str());
                m.append(" in collection ");
                m.append(collection.as_str());
                m
            },
            AppError::Validation(errors) => {
                let mut m = String::new();
                push_decimal(&mut m, errors.len() as u64);
                m.append(" field(s) rejected");
                m
            },
            AppError::Config(c) => c.message(),
            AppError::Storage(s) => s.message(),
        }
    }
}

/// A storage failure in the app's vocabulary: a missing record is the app's
/// own `NotFound`, everything else keeps its storage wording.
pub open spec fn from_storage_view(e: StorageErrorView) -> AppErrorView {
    match e {
        StorageErrorView::NotFound { collection, id } => AppErrorView::NotFound { collection, id },
        other => AppErrorView::Storage(other),
    }
}

/// Whether `e` is what a storage failure becomes.
pub open spec fn storage_failure(e: AppErrorView) -> bool {
    e is NotFound || e is Storage
}

/// Translates a storage failure into the app's vocabulary.
pub fn from_storage(error: StorageError) -> (e: AppError)
    ensures
        e@ == from_storage_view(error@),
{
    match error {
        StorageError::NotFound { collection, id } => AppError::NotFound { collection, id },
        other => AppError::Storage(other),
    }
}

/// A repository's answer, with its failure translated.
pub fn answered<T>(outcome: Result<T, StorageError>) -> (r: Result<T, AppError>)
    ensures
        match outcome {
            Ok(v) => r matches Ok(w) && w == v,
            Err(e) => r matches Err(a) && a@ == from_storage_view(e@),
        },
{
    match outcome {
        Ok(v) => Ok(v),
        Err(e) => Err(from_storage(e)),
    }
}

/// The `NotFound` a missing id produces, phrased like storage's.
pub open spec fn not_found_app_view(collection: Seq<char>, id: RecordId) -> AppErrorView {
    AppErrorView::NotFound { collection, id: ulid_text(id.0) }
}

pub fn not_found(collection: &str, id: &RecordId) -> (e: AppError)
    ensures
        e@ == not_found_app_view(collection@, *id),
{
    AppError::NotFound { collection: owned(collection), id: id.as_string() }
}

/// What `get` answers for what the repository found: absence is an error
/// the caller can render.
pub fn answer_get(collection: &str, id: &RecordId, outcome: Result<Option<Record>, StorageError>) -> (r: Result<Record, AppError>)
    ensures
        match outcome {
            Ok(Some(rec)) => r matches Ok(got) && got@ == rec@,
            Ok(None) => r matches Err(e) && e@ == not_found_app_view(collection@, *id),
            Err(s) => r matches Err(e) && e@ == from_storage_view(s@),
        },
{
    match outcome {
        Ok(Some(record)) => {
            let got = record.clone();
            Ok(got)
        },
        Ok(None) => Err(not_found(collection, id)),
        Err(e) => Err(from_storage(e)),
    }
}

/// The collection called `slug`, as the schema holds it.
pub open spec fn resolved(schema: SchemaView, slug: Seq<char>) -> Option<CollectionView> {
    match index_of_slug(schema.collections, slug) {
        Some(i) => Some(schema.collections[i]),
        None => None,
    }
}

/// Finds the collection called `slug` in `schema`.
fn find_collection<'a>(schema: &'a Schema, slug: &str) -> (r: Result<&'a Collection, AppError>)
    ensures
        match resolved(schema@, slug@) {
            Some(c) => r matches Ok(found) && found@ == c,
            None => r matches Err(e) && e@ == AppErrorView::UnknownCollection(slug@),
        },
{
    proof {
        crate::schema::lemma_find_slug_from(schema@.collections, slug@, 0);
    }
    match schema.position(slug) {
        Some(i) => Ok(schema.collection_at(i)),
        None => Err(AppError::UnknownCollection(owned(slug))),
    }
}

/// The schema's collections, answered as the questions the UI asks. Holds
/// the schema by value and never re-reads the file.
#[derive(Debug)]
pub struct CollectionService {
    schema: Schema,
}

impl CollectionService {
    pub closed spec fn schema_view(&self) -> SchemaView {
        self.schema@
    }

    pub fn new(schema: Schema) -> (s: CollectionService)
        ensures
            s.schema_view() == schema@,
    {
        CollectionService { schema }
    }

    /// Every collection, in file order, which is the sidebar order.
    pub fn all(&self) -> (r: Vec<&Collection>)
        ensures
            r@.len() == self.schema_view().collections.len(),
            forall|k: int| 0 <= k < r@.len() ==> #[trigger] r@[k]@ == self.schema_view().collections[k],
    {
        let n = self.schema.collection_count();
        let mut r: Vec<&Collection> = Vec::new();
        let mut i: usize = 0;
        while i < n
            invariant
                0 <= i <= n,
                n == self.schema@.collections.len(),
                r@.len() == i,
                forall|k: int| 0 <= k < i ==> #[trigger] r@[k]@ == self.schema@.collections[k],
            decreases n - i,
        {
            r.push(self.schema.collection_at(i));
            i = i + 1;
        }
        r
    }

    /// The collection called `slug`.
    pub fn get(&self, slug: &str) -> (r: Result<&Collection, AppError>)
        ensures
            match resolved(self.schema_view(), slug@) {
                Some(c) => r matches Ok(found) && found@ == c,
                None => r matches Err(e) && e@ == AppErrorView::UnknownCollection(slug@),
            },
    {
        find_collection(&self.schema, slug)
    }
}

// ---------------------------------------------------------------------------
// Blank documents
// ---------------------------------------------------------------------------

/// The value a new record starts with for a field of `kind`: a boolean has
/// no "unset", so it is `false`; everything else is `null`.
pub open spec fn default_value(kind: FieldTypeView) -> JsonView {
    if kind is Boolean {
        JsonView::Bool(false)
    } else {
        JsonView::Null
    }
}

/// Where `key` goes among `members` held in key order: after the last one
/// whose key sorts before it.
pub open spec fn key_slot(members: Seq<(Seq<char>, JsonView)>, key: Seq<char>) -> int
    decreases members.len(),
{
    if members.len() == 0 {
        0
    } else if text_order(members.last().0, key) == KeyOrder::Less {
        members.len() as int
    } else {
        key_slot(members.drop_last(), key)
    }
}

/// `members` with `key` set to `value`, as a JSON map does it: a member
/// already called `key` takes the value, else a new one goes in key order.
pub open spec fn map_insert(members: Seq<(Seq<char>, JsonView)>, key: Seq<char>, value: JsonView) -> Seq<(Seq<char>, JsonView)> {
    match find_key_from(members, key, 0) {
        Some(i) => members.update(i, (key, value)),
        None => members.insert(key_slot(members, key), (key, value)),
    }
}

/// The members of a blank document: every field of the schema, with its
/// default.
pub open spec fn blank_members(fields: Seq<FieldView>) -> Seq<(Seq<char>, JsonView)>
    decreases fields.len(),
{
    if fields.len() == 0 {
        Seq::empty()
    } else {
        map_insert(blank_members(fields.drop_last()), fields.last().name, default_value(fields.last().kind))
    }
}

/// Sets `key` to `value` in `members`, the way a JSON map does.
fn put_member(members: &mut Vec<(String, Json)>, key: &str, value: Json)
    ensures
        members_view(final(members)@) == map_insert(members_view(old(members)@), key@, value@),
{
    let ghost before = members_view(members@);
    proof {
        lemma_members_view(members@);
    }
    let mut i: usize = 0;
    while i < members.len()
        invariant
            0 <= i <= members.len(),
            before == members_view(members@),
            before == members_view(old(members)@),
            before.len() == members@.len(),
            forall|k: int| 0 <= k < members@.len() ==> #[trigger] before[k] == (members@[k].0@, members@[k].1@),
            find_key_from(before, key@, 0) == find_key_from(before, key@, i as int),
        decreases members.len() - i,
    {
        if compare_text(members[i].0.as_str(), key) == KeyOrder::Equal {
            proof {
                crate::values::lemma_text_order_equal(members@[i as int].0@, key@);
            }
            let ghost v = value@;
            assert(find_key_from(before, key@, i as int) == Some(i as int));
            members.remove(i);
            members.insert(i, (owned(key), value));
            proof {
                lemma_members_view(members@);
                assert(members_view(members@) =~= before.update(i as int, (key@, v)));
            }
            return;
        }
        proof {
            crate::values::lemma_text_order_equal(members@[i as int].0@, key@);
        }
        i = i + 1;
    }
    assert(before.take(members.len() as int) =~= before);
    let mut p: usize = members.len();
    let mut done = false;
    while p > 0 && !done
        invariant
            0 <= p <= members.len(),
            before == members_view(members@),
            before.len() == members@.len(),
            forall|k: int| 0 <= k < members@.len() ==> #[trigger] before[k] == (members@[k].0@, members@[k].1@),
            key_slot(before, key@) == key_slot(before.take(p as int), key@),
            done ==> p > 0 && text_order(before[p - 1].0, key@) == KeyOrder::Less,
        decreases 2 * p + if done { 0int } else { 1int },
    {
        if compare_text(members[p - 1].0.as_str(), key) == KeyOrder::Less {
            done = true;
        } else {
            let ghost t = before.take(p as int);
            assert(t.drop_last() =~= before.take(p - 1));
            assert(t.last() == before[p - 1]);
            p = p - 1;
        }
    }
    proof {
        if p == 0 {
            assert(before.take(0) =~= Seq::<(Seq<char>, JsonView)>::empty());
        } else {
            let t = before.take(p as int);
            assert(t.last() == before[p - 1]);
        }
    }
    let ghost v = value@;
    members.insert(p, (owned(key), value));
    proof {
        lemma_members_view(members@);
        assert(members_view(members@) =~= before.insert(p as int, (key@, v)));
    }
}

/// The members of a record, as a JSON object holds them.
pub open spec fn object_of(members: Seq<(Seq<char>, JsonView)>) -> JsonView {
    JsonView::Object(members)
}

/// A document for a new record of `collection`: every field present, with
/// its default. A required select is left empty on purpose: pre-filling a
/// field the user never answered would let the blank form pass validation.
pub fn blank_document(collection: &Collection) -> (d: Json)
    ensures
        d@ == object_of(blank_members(collection@.fields)),
{
    let ghost fields = collection@.fields;
    let mut members: Vec<(String, Json)> = Vec::new();
    let mut i: usize = 0;
    while i < collection.fields.len()
        invariant
            0 <= i <= collection.fields.len(),
            fields == collection@.fields,
            fields.len() == collection.fields.len(),
            forall|k: int| 0 <= k < fields.len() ==> #[trigger] fields[k] == collection.fields@[k]@,
            members_view(members@) == blank_members(fields.take(i as int)),
        decreases collection.fields.len() - i,
    {
        let field = &collection.fields[i];
        let value = match field.kind {
            FieldType::Boolean => Json::Bool(false),
            _ => Json::Null,
        };
        assert(value@ == default_value(fields[i as int].kind));
        assert(fields.take(i + 1).drop_last() =~= fields.take(i as int));
        put_member(&mut members, field.name.as_str(), value);
        i = i + 1;
    }
    assert(fields.take(collection.fields.len() as int) =~= fields);
    Json::Object(members)
}

// ---------------------------------------------------------------------------
// Uniqueness
// ---------------------------------------------------------------------------

/// The unique fields that `data` gives a value to. Absent and null are both
/// "no value", and two of those never collide.
pub open spec fn unique_candidates(fields: Seq<FieldView>, data: Json) -> Seq<Seq<char>>
    decreases fields.len(),
{
    if fields.len() == 0 {
        Seq::empty()
    } else {
        let rest = unique_candidates(fields.drop_last(), data);
        let f = fields.last();
        if f.unique && (member(data, f.name) matches Some(v) && !(v is Null)) {
            rest.push(f.name)
        } else {
            rest
        }
    }
}

/// The `NotUnique` error for a field.
pub open spec fn not_unique_view(field: Seq<char>) -> FieldErrorView {
    FieldErrorView { field, code: ErrorCode::NotUnique, message: ALREADY_USED@ }
}

/// The errors for the candidates that `taken` marks.
pub open spec fn collisions(candidates: Seq<Seq<char>>, taken: Seq<bool>) -> Seq<FieldErrorView>
    decreases candidates.len(),
{
    if candidates.len() == 0 || taken.len() != candidates.len() {
        Seq::empty()
    } else {
        let rest = collisions(candidates.drop_last(), taken.drop_last());
        if taken.last() { rest.push(not_unique_view(candidates.last())) } else { rest }
    }
}

/// Whether some record of `matched` is another record than `id`: with no
/// id, every match is another record.
pub open spec fn held_by_another(matched: Seq<RecordView>, id: Option<RecordId>) -> bool {
    exists|k: int| 0 <= k < matched.len() && Some(#[trigger] matched[k].id) != id
}

/// The id an optional reference names.
pub open spec fn id_of(id: Option<&RecordId>) -> Option<RecordId> {
    match id {
        Some(i) => Some(*i),
        None => None,
    }
}

/// Whether `matched` holds a record other than `id`.
pub fn conflicts(matched: &Vec<Record>, id: Option<&RecordId>) -> (b: bool)
    ensures
        b == held_by_another(records_view(matched@), id_of(id)),
{
    let ghost wanted = id_of(id);
    let ghost seen = records_view(matched@);
    let mut k: usize = 0;
    while k < matched.len()
        invariant
            0 <= k <= matched.len(),
            wanted == id_of(id),
            seen == records_view(matched@),
            forall|j: int| 0 <= j < k ==> Some(#[trigger] seen[j].id) == wanted,
        decreases matched.len() - k,
    {
        let other = match id {
            Some(i) => matched[k].id.0 != i.0,
            None => true,
        };
        assert(seen[k as int].id == matched@[k as int].id);
        if other {
            assert(Some(seen[k as int].id) != wanted);
            return true;
        }
        k = k + 1;
    }
    false
}

/// The value `data` gives the field `name`, as the repository is asked
/// about it.
pub open spec fn candidate_value(data: Json, name: Seq<char>) -> JsonView {
    match member(data, name) {
        Some(v) => v@,
        None => JsonView::Null,
    }
}

/// For each answer, whether it holds another record than `id`.
pub open spec fn taken_by(answers: Seq<Seq<RecordView>>, id: Option<RecordId>) -> Seq<bool> {
    Seq::new(answers.len(), |k: int| held_by_another(answers[k], id))
}

/// Whether `answers` are, one for each candidate in order, answers the
/// repository may give to `find_by_field(slug, candidate, its value)`.
pub open spec fn answered_for<R: RecordRepository>(repo: R, slug: Seq<char>, candidates: Seq<Seq<char>>, data: Json, answers: Seq<Seq<RecordView>>) -> bool {
    &&& answers.len() == candidates.len()
    &&& forall|k: int| 0 <= k < candidates.len() ==>
        #[trigger] repo.finds(slug, candidates[k], candidate_value(data, candidates[k]), Ok(answers[k]))
}

/// What the uniqueness check of `data` may conclude: a `NotUnique` error for
/// exactly the candidates whose lookup found another record than `id`, in
/// field order; or the failure of one of those lookups.
pub open spec fn uniqueness_outcome<R: RecordRepository>(repo: R, c: CollectionView, data: Json, id: Option<RecordId>, out: Result<Seq<FieldErrorView>, AppErrorView>) -> bool {
    let candidates = unique_candidates(c.fields, data);
    match out {
        Ok(errors) => exists|answers: Seq<Seq<RecordView>>|
            #[trigger] answered_for(repo, c.slug, candidates, data, answers) && errors == collisions(candidates, taken_by(answers, id)),
        Err(e) => exists|k: int, failure: StorageErrorView|
            0 <= k < candidates.len() && #[trigger] repo.finds(c.slug, candidates[k], candidate_value(data, candidates[k]), Err(failure))
                && e == from_storage_view(failure),
    }
}

/// What `uniqueness_errors` answered, as views.
pub open spec fn errors_outcome(r: Result<Vec<FieldError>, AppError>) -> Result<Seq<FieldErrorView>, AppErrorView> {
    match r {
        Ok(v) => Ok(field_errors_view(v@)),
        Err(e) => Err(e@),
    }
}

/// Whether `r` is what a write check answers once uniqueness concluded `u`:
/// any collision refuses the document, a failed lookup is passed on.
pub open spec fn checked(u: Result<Seq<FieldErrorView>, AppErrorView>, r: Result<(), AppError>) -> bool {
    match u {
        Ok(errors) => if errors.len() > 0 { failed_with(r, AppErrorView::Validation(errors)) } else { r is Ok },
        Err(e) => failed_with(r, e),
    }
}

/// Whether `r` is a repository answer `out` with its failure translated.
pub open spec fn records_answered(r: Result<Vec<Record>, AppError>, out: Result<Seq<RecordView>, StorageErrorView>) -> bool {
    match out {
        Ok(s) => r matches Ok(v) && records_view(v@) == s,
        Err(e) => failed_with(r, from_storage_view(e)),
    }
}

pub open spec fn count_answered(r: Result<u64, AppError>, out: Result<u64, StorageErrorView>) -> bool {
    match out {
        Ok(n) => r matches Ok(m) && m == n,
        Err(e) => failed_with(r, from_storage_view(e)),
    }
}

pub open spec fn record_answered(r: Result<Record, AppError>, out: Result<RecordView, StorageErrorView>) -> bool {
    match out {
        Ok(v) => r matches Ok(rec) && rec@ == v,
        Err(e) => failed_with(r, from_storage_view(e)),
    }
}

pub open spec fn unit_answered(r: Result<(), AppError>, out: Result<(), StorageErrorView>) -> bool {
    match out {
        Ok(()) => r is Ok,
        Err(e) => failed_with(r, from_storage_view(e)),
    }
}

/// `get`'s answer for what the repository found: absence is `NotFound`.
pub open spec fn lookup_answered(collection: Seq<char>, id: RecordId, r: Result<Record, AppError>, out: Result<Option<RecordView>, StorageErrorView>) -> bool {
    match out {
        Ok(Some(v)) => r matches Ok(rec) && rec@ == v,
        Ok(None) => failed_with(r, not_found_app_view(collection, id)),
        Err(e) => failed_with(r, from_storage_view(e)),
    }
}

/// Whether `r` failed with the error `e`.
pub open spec fn failed_with<T>(r: Result<T, AppError>, e: AppErrorView) -> bool {
    match r {
        Err(x) => x@ == e,
        Ok(_) => false,
    }
}

/// The unique candidates among the first `i` fields come first among those
/// of more fields.
proof fn lemma_candidates_prefix(fields: Seq<FieldView>, data: Json, i: int, j: int)
    requires
        0 <= i <= j <= fields.len(),
    ensures
        unique_candidates(fields.take(i), data).len() <= unique_candidates(fields.take(j), data).len(),
        forall|k: int| 0 <= k < unique_candidates(fields.take(i), data).len() ==>
            #[trigger] unique_candidates(fields.take(j), data)[k] == unique_candidates(fields.take(i), data)[k],
    decreases j - i,
{
    if i < j {
        lemma_candidates_prefix(fields, data, i, j - 1);
        assert(fields.take(j).drop_last() =~= fields.take(j - 1));
    }
}

// ---------------------------------------------------------------------------
// Records
// ---------------------------------------------------------------------------

/// Records, with the schema applied. Generic over the repository, so the
/// same service runs over SQLite and over memory.
#[derive(Debug)]
pub struct RecordService<R: RecordRepository> {
    repo: R,
    schema: Schema,
}

impl<R: RecordRepository> RecordService<R> {
    pub closed spec fn schema_view(&self) -> SchemaView {
        self.schema@
    }

    /// The repository the service writes to.
    pub closed spec fn repository(&self) -> R {
        self.repo
    }

    /// Takes the schema by value: services never re-read the file.
    pub fn new(repo: R, schema: Schema) -> (s: Self)
        ensures
            s.schema_view() == schema@,
            s.repository() == repo,
    {
        RecordService { repo, schema }
    }

    pub fn list(&self, collection: &str, params: &ListParams) -> (r: Result<Vec<Record>, AppError>)
        ensures
            match resolved(self.schema_view(), collection@) {
                None => failed_with(r, AppErrorView::UnknownCollection(collection@)),
                Some(c) => exists|out: Result<Seq<RecordView>, StorageErrorView>|
                    #[trigger] self.repository().lists(c.slug, params@, out) && records_answered(r, out),
            },
    {
        let found = match find_collection(&self.schema, collection) {
            Ok(c) => c,
            Err(e) => {
                return Err(e);
            },
        };
        let outcome = self.repo.list(found.slug.as_str(), params);
        let r = answered(outcome);
        assert(records_answered(r, records_outcome(outcome)));
        assert(self.repository().lists(found@.slug, params@, records_outcome(outcome)));
        r
    }

    pub fn count(&self, collection: &str, params: &ListParams) -> (r: Result<u64, AppError>)
        ensures
            match resolved(self.schema_view(), collection@) {
                None => failed_with(r, AppErrorView::UnknownCollection(collection@)),
                Some(c) => exists|out: Result<u64, StorageErrorView>|
                    #[trigger] self.repository().counts(c.slug, params@, out) && count_answered(r, out),
            },
    {
        let found = match find_collection(&self.schema, collection) {
            Ok(c) => c,
            Err(e) => {
                return Err(e);
            },
        };
        let outcome = self.repo.count(found.slug.as_str(), params);
        let r = answered(outcome);
        assert(count_answered(r, count_outcome(outcome)));
        assert(self.repository().counts(found@.slug, params@, count_outcome(outcome)));
        r
    }

    /// The record `id`; a missing one is `NotFound`, naming the collection.
    pub fn get(&self, collection: &str, id: &RecordId) -> (r: Result<Record, AppError>)
        ensures
            match resolved(self.schema_view(), collection@) {
                None => failed_with(r, AppErrorView::UnknownCollection(collection@)),
                Some(c) => exists|out: Result<Option<RecordView>, StorageErrorView>|
                    #[trigger] self.repository().gets(c.slug, *id, out) && lookup_answered(c.slug, *id, r, out),
            },
    {
        let found = match find_collection(&self.schema, collection) {
            Ok(c) => c,
            Err(e) => {
                return Err(e);
            },
        };
        let outcome = self.repo.get(found.slug.as_str(), id);
        let r = answer_get(found.slug.as_str(), id, outcome);
        assert(lookup_answered(found@.slug, *id, r, lookup_outcome(outcome)));
        assert(self.repository().gets(found@.slug, *id, lookup_outcome(outcome)));
        r
    }

    /// Validates, checks uniqueness, then stores. Nothing reaches the
    /// repository's `create` unless the document is valid and no unique
    /// value is taken; what it answers is passed on.
    pub fn create(&mut self, collection: &str, data: Json) -> (r: Result<Record, AppError>)
        ensures
            final(self).schema_view() == old(self).schema_view(),
            match resolved(old(self).schema_view(), collection@) {
                None => failed_with(r, AppErrorView::UnknownCollection(collection@))
                    && final(self).repository() == old(self).repository(),
                Some(c) => match validation_outcome(c, data) {
                    Err(errors) => failed_with(r, AppErrorView::Validation(errors))
                        && final(self).repository() == old(self).repository(),
                    Ok(()) => exists|u: Result<Seq<FieldErrorView>, AppErrorView>|
                        #[trigger] uniqueness_outcome(old(self).repository(), c, data, None, u) && match u {
                            Ok(errors) => if errors.len() > 0 {
                                failed_with(r, AppErrorView::Validation(errors)) && final(self).repository() == old(self).repository()
                            } else {
                                exists|out: Result<RecordView, StorageErrorView>|
                                    #[trigger] old(self).repository().creates(c.slug, data@, final(self).repository(), out)
                                        && record_answered(r, out)
                            },
                            Err(e) => failed_with(r, e) && final(self).repository() == old(self).repository(),
                        },
                },
            },
    {
        let found = match find_collection(&self.schema, collection) {
            Ok(c) => c,
            Err(e) => {
                return Err(e);
            },
        };
        let checked_r = self.check(found, &data, None);
        let ghost u = choose|u: Result<Seq<FieldErrorView>, AppErrorView>|
            uniqueness_outcome(self.repository(), found@, data, None, u) && checked(u, checked_r);
        match checked_r {
            Ok(()) => {},
            Err(e) => {
                proof {
                    if validation_outcome(found@, data) is Ok {
                        assert(uniqueness_outcome(old(self).repository(), found@, data, None, u));
                    }
                }
                return Err(e);
            },
        }
        let slug = owned(found.slug.as_str());
        let ghost view = data@;
        let ghost whole = data;
        let outcome = self.repo.create(slug.as_str(), data);
        let r = answered(outcome);
        assert(old(self).repository().creates(found@.slug, view, self.repository(), record_outcome(outcome)));
        assert(record_answered(r, record_outcome(outcome)));
        assert(uniqueness_outcome(old(self).repository(), found@, whole, None, u));
        r
    }

    /// Validates, checks uniqueness against every record but this one, then
    /// replaces the data; what the repository's `update` answers is passed
    /// on.
    pub fn update(&mut self, collection: &str, id: &RecordId, data: Json) -> (r: Result<Record, AppError>)
        ensures
            final(self).schema_view() == old(self).schema_view(),
            match resolved(old(self).schema_view(), collection@) {
                None => failed_with(r, AppErrorView::UnknownCollection(collection@))
                    && final(self).repository() == old(self).repository(),
                Some(c) => match validation_outcome(c, data) {
                    Err(errors) => failed_with(r, AppErrorView::Validation(errors))
                        && final(self).repository() == old(self).repository(),
                    Ok(()) => exists|u: Result<Seq<FieldErrorView>, AppErrorView>|
                        #[trigger] uniqueness_outcome(old(self).repository(), c, data, Some(*id), u) && match u {
                            Ok(errors) => if errors.len() > 0 {
                                failed_with(r, AppErrorView::Validation(errors)) && final(self).repository() == old(self).repository()
                            } else {
                                exists|out: Result<RecordView, StorageErrorView>|
                                    #[trigger] old(self).repository().updates(c.slug, *id, data@, final(self).repository(), out)
                                        && record_answered(r, out)
                            },
                            Err(e) => failed_with(r, e) && final(self).repository() == old(self).repository(),
                        },
                },
            },
    {
        let found = match find_collection(&self.schema, collection) {
            Ok(c) => c,
            Err(e) => {
                return Err(e);
            },
        };
        let checked_r = self.check(found, &data, Some(id));
        let ghost u = choose|u: Result<Seq<FieldErrorView>, AppErrorView>|
            uniqueness_outcome(self.repository(), found@, data, Some(*id), u) && checked(u, checked_r);
        match checked_r {
            Ok(()) => {},
            Err(e) => {
                proof {
                    if validation_outcome(found@, data) is Ok {
                        assert(uniqueness_outcome(old(self).repository(), found@, data, Some(*id), u));
                    }
                }
                return Err(e);
            },
        }
        let slug = owned(found.slug.as_str());
        let ghost view = data@;
        let ghost whole = data;
        let outcome = self.repo.update(slug.as_str(), id, data);
        let r = answered(outcome);
        assert(old(self).repository().updates(found@.slug, *id, view, self.repository(), record_outcome(outcome)));
        assert(record_answered(r, record_outcome(outcome)));
        assert(uniqueness_outcome(old(self).repository(), found@, whole, Some(*id), u));
        r
    }

    /// Removes the record; what the repository's `delete` answers is passed
    /// on.
    pub fn delete(&mut self, collection: &str, id: &RecordId) -> (r: Result<(), AppError>)
        ensures
            final(self).schema_view() == old(self).schema_view(),
            match resolved(old(self).schema_view(), collection@) {
                None => failed_with(r, AppErrorView::UnknownCollection(collection@))
                    && final(self).repository() == old(self).repository(),
                Some(c) => exists|out: Result<(), StorageErrorView>|
                    #[trigger] old(self).repository().deletes(c.slug, *id, final(self).repository(), out) && unit_answered(r, out),
            },
    {
        let found = match find_collection(&self.schema, collection) {
            Ok(c) => c,
            Err(e) => {
                return Err(e);
            },
        };
        let slug = owned(found.slug.as_str());
        let outcome = self.repo.delete(slug.as_str(), id);
        let r = answered(outcome);
        assert(old(self).repository().deletes(found@.slug, *id, self.repository(), unit_outcome(outcome)));
        assert(unit_answered(r, unit_outcome(outcome)));
        r
    }

    /// Field defaults for a new record, from the schema: every field key is
    /// present, so the editor never has to invent the shape of a document.
    pub fn blank(&self, collection: &str) -> (r: Result<Json, AppError>)
        ensures
            match resolved(self.schema_view(), collection@) {
                None => failed_with(r, AppErrorView::UnknownCollection(collection@)),
                Some(c) => r matches Ok(d) && d@ == object_of(blank_members(c.fields)),
            },
    {
        let found = match find_collection(&self.schema, collection) {
            Ok(c) => c,
            Err(e) => {
                return Err(e);
            },
        };
        Ok(blank_document(found))
    }

    /// Everything that must hold before a write: schema validation first
    /// and on its own, so an invalid document reaches no repository call at
    /// all; then uniqueness. `id` is the record being updated, if any.
    fn check(&self, collection: &Collection, data: &Json, id: Option<&RecordId>) -> (r: Result<(), AppError>)
        ensures
            match validation_outcome(collection@, *data) {
                Err(errors) => failed_with(r, AppErrorView::Validation(errors)),
                Ok(()) => exists|u: Result<Seq<FieldErrorView>, AppErrorView>|
                    uniqueness_outcome(self.repository(), collection@, *data, id_of(id), u) && checked(u, r),
            },
    {
        match validate_record(collection, data) {
            Ok(()) => {},
            Err(errors) => {
                return Err(AppError::Validation(errors));
            },
        }
        let conflicting = self.uniqueness_errors(collection, data, id);
        let ghost u = errors_outcome(conflicting);
        let conflicting = match conflicting {
            Ok(v) => v,
            Err(e) => {
                let r = Err(e);
                assert(checked(u, r));
                return r;
            },
        };
        if conflicting.len() > 0 {
            let r = Err(AppError::Validation(conflicting));
            assert(checked(u, r));
            return r;
        }
        assert(checked(u, Ok(())));
        Ok(())
    }

    /// A `NotUnique` error for every unique field whose value another record
    /// already holds; all of them, so one save reports everything wrong.
    /// Only fields that are given a value are looked up, each once, in field
    /// order; with none, the repository is not asked and nothing is refused.
    pub fn uniqueness_errors(&self, collection: &Collection, data: &Json, id: Option<&RecordId>) -> (r: Result<Vec<FieldError>, AppError>)
        ensures
            uniqueness_outcome(self.repository(), collection@, *data, id_of(id), errors_outcome(r)),
            unique_candidates(collection@.fields, *data).len() == 0 ==> errors_outcome(r) == Ok::<Seq<FieldErrorView>, AppErrorView>(Seq::empty()),
    {
        let ghost fields = collection@.fields;
        let ghost slug = collection@.slug;
        let ghost wanted = id_of(id);
        let ghost repo = self.repo;
        let ghost mut answers: Seq<Seq<RecordView>> = Seq::empty();
        let mut errors: Vec<FieldError> = Vec::new();
        let mut i: usize = 0;
        while i < collection.fields.len()
            invariant
                0 <= i <= collection.fields.len(),
                fields == collection@.fields,
                slug == collection@.slug,
                wanted == id_of(id),
                repo == self.repo,
                fields.len() == collection.fields.len(),
                forall|k: int| 0 <= k < fields.len() ==> #[trigger] fields[k] == collection.fields@[k]@,
                answered_for(repo, slug, unique_candidates(fields.take(i as int), *data), *data, answers),
                field_errors_view(errors@) == collisions(unique_candidates(fields.take(i as int), *data), taken_by(answers, wanted)),
            decreases collection.fields.len() - i,
        {
            let field = &collection.fields[i];
            let ghost cands = unique_candidates(fields.take(i as int), *data);
            assert(fields.take(i + 1).drop_last() =~= fields.take(i as int));
            assert(fields.take(i + 1).last() == fields[i as int]);
            if field.unique {
                match data.get(field.name.as_str()) {
                    Some(value) => {
                        if !value.is_null() {
                            let ghost name = fields[i as int].name;
                            assert(unique_candidates(fields.take(i + 1), *data) == cands.push(name));
                            assert(candidate_value(*data, name) == value@);
                            let outcome = self.repo.find_by_field(collection.slug.as_str(), field.name.as_str(), value);
                            let matched = match outcome {
                                Ok(m) => m,
                                Err(e) => {
                                    proof {
                                        lemma_candidates_prefix(fields, *data, i + 1, fields.len() as int);
                                        assert(fields.take(fields.len() as int) =~= fields);
                                        let full = unique_candidates(fields, *data);
                                        assert(full[cands.len() as int] == cands.push(name)[cands.len() as int]);
                                        assert(repo.finds(slug, full[cands.len() as int], candidate_value(*data, full[cands.len() as int]), Err(e@)));
                                    }
                                    return Err(from_storage(e));
                                },
                            };
                            let hit = conflicts(&matched, id);
                            let ghost before = field_errors_view(errors@);
                            let ghost got = records_view(matched@);
                            if hit {
                                errors.push(FieldError { field: owned(field.name.as_str()), code: ErrorCode::NotUnique, message: owned(ALREADY_USED) });
                                assert(field_errors_view(errors@) =~= before.push(not_unique_view(name)));
                            }
                            proof {
                                let a2 = answers.push(got);
                                assert(taken_by(a2, wanted) =~= taken_by(answers, wanted).push(hit));
                                assert(taken_by(a2, wanted).drop_last() =~= taken_by(answers, wanted));
                                assert(cands.push(name).drop_last() =~= cands);
                                assert forall|k: int| 0 <= k < cands.push(name).len() implies
                                    #[trigger] repo.finds(slug, cands.push(name)[k], candidate_value(*data, cands.push(name)[k]), Ok(a2[k])) by {
                                    if k < cands.len() {
                                        assert(cands.push(name)[k] == cands[k] && a2[k] == answers[k]);
                                    }
                                }
                                answers = a2;
                            }
                        }
                    },
                    None => {},
                }
            }
            i = i + 1;
        }
        assert(fields.take(collection.fields.len() as int) =~= fields);
        proof {
            if unique_candidates(fields, *data).len() == 0 {
                assert(answers.len() == 0);
            }
        }
        Ok(errors)
    }
}

// ---------------------------------------------------------------------------
// Laws
// ---------------------------------------------------------------------------

/// A key is found from `from` on exactly when some member there has it.
proof fn lemma_find_key_exists(members: Seq<(Seq<char>, JsonView)>, key: Seq<char>, from: int)
    requires
        0 <= from,
    ensures
        (find_key_from(members, key, from) is Some) == (exists|i: int| from <= i < members.len() && (#[trigger] members[i]).0 == key),
    decreases members.len() - from,
{
    if from < members.len() {
        lemma_find_key_exists(members, key, from + 1);
        if members[from].0 != key {
            if exists|i: int| from <= i < members.len() && (#[trigger] members[i]).0 == key {
                let i = choose|i: int| from <= i < members.len() && (#[trigger] members[i]).0 == key;
                assert(from + 1 <= i);
            }
        }
    }
}

/// What a search for a key finds is a member with that key.
proof fn lemma_find_key_found(members: Seq<(Seq<char>, JsonView)>, key: Seq<char>, from: int)
    ensures
        find_key_from(members, key, from) matches Some(i) ==> from <= i < members.len() && members[i].0 == key,
    decreases members.len() - from,
{
    if 0 <= from < members.len() && members[from].0 != key {
        lemma_find_key_found(members, key, from + 1);
    }
}

/// Setting a key keeps every key that was there, and adds that one.
proof fn lemma_map_insert_keys(m: Seq<(Seq<char>, JsonView)>, key: Seq<char>, value: JsonView, other: Seq<char>)
    ensures
        find_key_from(map_insert(m, key, value), key, 0) is Some,
        find_key_from(m, other, 0) is Some ==> find_key_from(map_insert(m, key, value), other, 0) is Some,
{
    let w = map_insert(m, key, value);
    lemma_find_key_exists(m, key, 0);
    lemma_find_key_exists(m, other, 0);
    lemma_find_key_exists(w, key, 0);
    lemma_find_key_exists(w, other, 0);
    match find_key_from(m, key, 0) {
        Some(i) => {
            lemma_find_key_found(m, key, 0);
            assert(w[i].0 == key);
            if find_key_from(m, other, 0) is Some {
                let j = choose|j: int| 0 <= j < m.len() && (#[trigger] m[j]).0 == other;
                if j == i {
                    assert(w[i].0 == other);
                } else {
                    assert(w[j] == m[j]);
                }
            }
        },
        None => {
            let p = key_slot(m, key);
            lemma_key_slot_bounds(m, key);
            assert(w[p].0 == key);
            if find_key_from(m, other, 0) is Some {
                let j = choose|j: int| 0 <= j < m.len() && (#[trigger] m[j]).0 == other;
                if j < p {
                    assert(w[j] == m[j]);
                } else {
                    assert(w[j + 1] == m[j]);
                }
            }
        },
    }
}

proof fn lemma_key_slot_bounds(m: Seq<(Seq<char>, JsonView)>, key: Seq<char>)
    ensures
        0 <= key_slot(m, key) <= m.len(),
    decreases m.len(),
{
    if m.len() > 0 {
        lemma_key_slot_bounds(m.drop_last(), key);
    }
}

/// A blank document has a member for every field of its collection, so the
/// editor never has to invent the shape of a document.
pub proof fn a_blank_document_has_every_field(fields: Seq<FieldView>)
    ensures
        forall|k: int| 0 <= k < fields.len() ==> find_key_from(blank_members(fields), #[trigger] fields[k].name, 0) is Some,
    decreases fields.len(),
{
    if fields.len() > 0 {
        let init = fields.drop_last();
        a_blank_document_has_every_field(init);
        let m = blank_members(init);
        assert forall|k: int| 0 <= k < fields.len() implies find_key_from(blank_members(fields), #[trigger] fields[k].name, 0) is Some by {
            lemma_map_insert_keys(m, fields.last().name, default_value(fields.last().kind), fields[k].name);
            if k < fields.len() - 1 {
                assert(init[k] == fields[k]);
            }
        }
    }
}

} // verus!
