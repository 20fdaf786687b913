use std::cell::RefCell;
use std::rc::Rc;

use pressa::config::{validate, RawCollection, RawDatabase, RawField, RawProject, RawSchema};
use pressa::json::{Json, JsonNumber};
use pressa::memory::MemoryRepository;
use pressa::record::{clock_now, Record, RecordId};
use pressa::repository::{ListParams, RecordRepository, StorageError};
use pressa::schema::Schema;
use pressa::services::{AppError, CollectionService, RecordService};
use pressa::validation::{validate_record, ErrorCode, FieldError};

fn s(text: &str) -> Json {
    Json::String(text.to_string())
}

fn obj(members: Vec<(&str, Json)>) -> Json {
    let mut members: Vec<(String, Json)> = members
        .into_iter()
        .map(|(k, v)| (k.to_string(), v))
        .collect();
    members.sort_by(|a, b| a.0.cmp(&b.0));
    Json::Object(members)
}

fn member<'a>(document: &'a Json, key: &str) -> &'a Json {
    match document {
        Json::Object(members) => &members.iter().find(|(k, _)| k == key).expect("member present").1,
        other => panic!("not an object: {other:?}"),
    }
}

fn field(name: &str, kind: &str, required: bool, unique: bool, options: Option<&[&str]>) -> RawField {
    RawField {
        name: name.to_string(),
        label: None,
        kind: kind.to_string(),
        required,
        unique,
        options: options.map(|o| o.iter().map(|x| x.to_string()).collect()),
    }
}

/// One required unique field, a required select, one field of every other
/// type; and a second collection whose unique field is optional.
fn posts_and_authors() -> Schema {
    validate(RawSchema {
        project: RawProject {
            name: "services-test".to_string(),
        },
        database: RawDatabase { path: None },
        collections: vec![
            (
                "posts".to_string(),
                RawCollection {
                    label: Some("Posts".to_string()),
                    list_columns: Some(vec!["title".to_string(), "slug".to_string()]),
                    fields: vec![
                        field("title", "text", true, false, None),
                        field("slug", "text", true, true, None),
                        field("status", "select", true, false, Some(&["draft", "published"])),
                        field("views", "number", false, false, None),
                        field("featured", "boolean", false, false, None),
                        field("published_at", "datetime", false, false, None),
                        field("metadata", "json", false, false, None),
                    ],
                },
            ),
            (
                "authors".to_string(),
                RawCollection {
                    label: Some("Authors".to_string()),
                    list_columns: None,
                    fields: vec![
                        field("name", "text", false, false, None),
                        field("email", "text", false, true, None),
                    ],
                },
            ),
        ],
    })
    .expect("fixture schema validates")
}

fn service() -> RecordService<MemoryRepository> {
    RecordService::new(MemoryRepository::new(), posts_and_authors())
}

/// A repository that stores nothing and writes down each method it is asked.
struct RecordingRepository {
    log: Rc<RefCell<Vec<String>>>,
}

impl RecordingRepository {
    fn note(&self, name: &str) {
        self.log.borrow_mut().push(name.to_string());
    }

    fn stub(collection: &str, data: Json) -> Record {
        let at = clock_now();
        Record {
            id: RecordId::new(),
            collection: collection.to_string(),
            data,
            created_at: at,
            updated_at: at,
        }
    }
}

impl RecordRepository for RecordingRepository {
    fn list(&self, _c: &str, _p: &ListParams) -> Result<Vec<Record>, StorageError> {
        self.note("list");
        Ok(Vec::new())
    }
    fn count(&self, _c: &str, _p: &ListParams) -> Result<u64, StorageError> {
        self.note("count");
        Ok(0)
    }
    fn get(&self, _c: &str, _id: &RecordId) -> Result<Option<Record>, StorageError> {
        self.note("get");
        Ok(None)
    }
    fn create(&mut self, c: &str, d: Json) -> Result<Record, StorageError> {
        self.note("create");
        Ok(RecordingRepository::stub(c, d))
    }
    fn update(&mut self, c: &str, _id: &RecordId, d: Json) -> Result<Record, StorageError> {
        self.note("update");
        Ok(RecordingRepository::stub(c, d))
    }
    fn delete(&mut self, _c: &str, _id: &RecordId) -> Result<(), StorageError> {
        self.note("delete");
        Ok(())
    }
    fn find_by_field(&self, _c: &str, _f: &str, _v: &Json) -> Result<Vec<Record>, StorageError> {
        self.note("find_by_field");
        Ok(Vec::new())
    }
}

fn recording() -> (RecordService<RecordingRepository>, Rc<RefCell<Vec<String>>>) {
    let log = Rc::new(RefCell::new(Vec::new()));
    let repository = RecordingRepository { log: Rc::clone(&log) };
    (RecordService::new(repository, posts_and_authors()), log)
}

fn valid(slug: &str) -> Json {
    obj(vec![
        ("title", s("Hello")),
        ("slug", s(slug)),
        ("status", s("draft")),
        ("views", Json::Number(JsonNumber::Int(1))),
        ("featured", Json::Bool(false)),
        ("published_at", Json::Null),
        ("metadata", Json::Null),
    ])
}

fn validation_errors(error: AppError) -> Vec<FieldError> {
    match error {
        AppError::Validation(errors) => errors,
        other => panic!("expected AppError::Validation, got {other:?}"),
    }
}

fn codes(errors: &[FieldError]) -> Vec<(&str, ErrorCode)> {
    errors.iter().map(|e| (e.field.as_str(), e.code)).collect()
}

fn count(service: &RecordService<MemoryRepository>, collection: &str) -> u64 {
    service.count(collection, &ListParams::default()).expect("count")
}

#[test]
fn all_lists_every_collection_in_schema_order() {
    let service = CollectionService::new(posts_and_authors());
    let slugs: Vec<&str> = service.all().iter().map(|c| c.slug.as_str()).collect();
    assert_eq!(slugs, vec!["posts", "authors"]);
}

#[test]
fn get_returns_the_collection_for_a_known_slug() {
    let service = CollectionService::new(posts_and_authors());
    let posts = service.get("posts").expect("posts exists");
    assert_eq!(posts.slug, "posts");
    assert_eq!(posts.label, "Posts");
    assert_eq!(posts.list_columns, vec!["title", "slug"]);
}

#[test]
fn get_refuses_an_unknown_slug() {
    let service = CollectionService::new(posts_and_authors());
    match service.get("ghosts") {
        Err(AppError::UnknownCollection(slug)) => assert_eq!(slug, "ghosts"),
        Err(other) => panic!("expected UnknownCollection, got {other:?}"),
        Ok(found) => panic!("expected an error, got {found:?}"),
    }
}

#[test]
fn create_rejects_an_invalid_document_and_writes_nothing() {
    let mut service = service();
    let error = service
        .create("posts", obj(vec![("slug", s("s")), ("status", s("draft")), ("views", s("no"))]))
        .expect_err("an invalid document is refused");
    let errors = validation_errors(error);
    assert!(codes(&errors).contains(&("title", ErrorCode::Required)));
    assert!(codes(&errors).contains(&("views", ErrorCode::TypeMismatch)));
    assert_eq!(count(&service, "posts"), 0);
}

#[test]
fn create_does_not_call_the_repository_for_an_invalid_document() {
    let (mut service, log) = recording();
    let error = service.create("posts", obj(vec![])).expect_err("refused");
    validation_errors(error);
    assert_eq!(*log.borrow(), Vec::<String>::new());
}

#[test]
fn create_reports_a_duplicate_value_in_a_unique_field() {
    let mut service = service();
    service.create("posts", valid("taken")).expect("first create");
    let error = service.create("posts", valid("taken")).expect_err("the duplicate is refused");
    let errors = validation_errors(error);
    assert_eq!(codes(&errors), vec![("slug", ErrorCode::NotUnique)]);
    assert_eq!(errors[0].message, "already used by another record");
    assert_eq!(count(&service, "posts"), 1);
}

#[test]
fn a_second_record_with_no_value_in_a_unique_field_is_allowed() {
    let mut service = service();
    service.create("authors", obj(vec![("name", s("A"))])).expect("first");
    service
        .create("authors", obj(vec![("name", s("B")), ("email", Json::Null)]))
        .expect("an explicit null does not collide either");
    assert_eq!(count(&service, "authors"), 2);
}

#[test]
fn update_does_not_report_a_record_against_its_own_unique_value() {
    let mut service = service();
    let record = service.create("posts", valid("mine")).expect("create");
    let data = match valid("mine") {
        Json::Object(members) => Json::Object(
            members
                .into_iter()
                .map(|(k, v)| if k == "title" { (k, s("Renamed")) } else { (k, v) })
                .collect(),
        ),
        other => other,
    };
    let updated = service.update("posts", &record.id, data).expect("its own value is not a duplicate");
    assert_eq!(updated.id, record.id);
    assert_eq!(*member(&updated.data, "title"), s("Renamed"));
}

#[test]
fn update_reports_a_unique_value_held_by_another_record() {
    let mut service = service();
    service.create("posts", valid("first")).expect("first");
    let second = service.create("posts", valid("second")).expect("second");
    let error = service.update("posts", &second.id, valid("first")).expect_err("another record holds it");
    assert_eq!(codes(&validation_errors(error)), vec![("slug", ErrorCode::NotUnique)]);
}

#[test]
fn update_of_a_missing_id_is_not_found() {
    let mut service = service();
    let absent = RecordId::new();
    match service.update("posts", &absent, valid("hello")) {
        Err(AppError::NotFound { collection, id }) => {
            assert_eq!(collection, "posts");
            assert_eq!(id, absent.as_string());
        }
        other => panic!("expected AppError::NotFound, got {other:?}"),
    }
}

#[test]
fn update_rejects_an_invalid_document_without_writing() {
    let mut service = service();
    let record = service.create("posts", valid("hello")).expect("create");
    let error = service
        .update("posts", &record.id, obj(vec![("title", s("Only"))]))
        .expect_err("refused");
    validation_errors(error);
    let stored = service.get("posts", &record.id).expect("get");
    assert_eq!(stored.data, valid("hello"));
}

#[test]
fn get_of_a_missing_id_is_not_found() {
    let service = service();
    let error = service.get("posts", &RecordId::new()).expect_err("there is no such record");
    assert!(matches!(error, AppError::NotFound { .. }), "got {error:?}");
}

#[test]
fn delete_removes_the_record_and_a_second_delete_is_not_found() {
    let mut service = service();
    let record = service.create("posts", valid("hello")).expect("create");
    service.delete("posts", &record.id).expect("first delete");
    assert_eq!(count(&service, "posts"), 0);
    let error = service.delete("posts", &record.id).expect_err("it is already gone");
    assert!(matches!(error, AppError::NotFound { .. }), "got {error:?}");
}

#[test]
fn every_method_refuses_an_unknown_collection_without_touching_the_repository() {
    let (mut service, log) = recording();
    let id = RecordId::new();
    let params = ListParams::default();
    let attempts: Vec<(&str, AppError)> = vec![
        ("list", service.list("ghosts", &params).unwrap_err()),
        ("count", service.count("ghosts", &params).unwrap_err()),
        ("get", service.get("ghosts", &id).unwrap_err()),
        ("create", service.create("ghosts", valid("s")).unwrap_err()),
        ("update", service.update("ghosts", &id, valid("s")).unwrap_err()),
        ("delete", service.delete("ghosts", &id).unwrap_err()),
        ("blank", service.blank("ghosts").unwrap_err()),
    ];
    for (method, error) in attempts {
        match error {
            AppError::UnknownCollection(slug) => assert_eq!(slug, "ghosts", "from {method}"),
            other => panic!("{method} gave {other:?}, expected UnknownCollection"),
        }
    }
    assert_eq!(*log.borrow(), Vec::<String>::new());
}

#[test]
fn blank_gives_every_field_a_key_with_false_for_booleans_and_null_otherwise() {
    let service = service();
    let blank = service.blank("posts").expect("blank");
    assert_eq!(
        blank,
        obj(vec![
            ("title", Json::Null),
            ("slug", Json::Null),
            ("status", Json::Null),
            ("views", Json::Null),
            ("featured", Json::Bool(false)),
            ("published_at", Json::Null),
            ("metadata", Json::Null),
        ])
    );
}

#[test]
fn a_blank_record_fails_validation_with_one_required_per_required_field() {
    let schema = posts_and_authors();
    let service = RecordService::new(MemoryRepository::new(), posts_and_authors());
    let posts = &schema.collections["posts"];
    let blank = service.blank("posts").expect("blank");
    let errors = validate_record(posts, &blank).expect_err("a blank record is incomplete");
    assert_eq!(
        codes(&errors),
        vec![
            ("title", ErrorCode::Required),
            ("slug", ErrorCode::Required),
            ("status", ErrorCode::Required),
        ]
    );
}

#[test]
fn list_returns_the_collections_records_in_id_order() {
    let mut service = service();
    let first = service.create("posts", valid("one")).expect("first");
    let second = service.create("posts", valid("two")).expect("second");
    service.create("authors", obj(vec![("name", s("A"))])).expect("other collection");
    let listed = service.list("posts", &ListParams::default()).expect("list");
    let ids: Vec<RecordId> = listed.iter().map(|record| record.id).collect();
    assert_eq!(ids, vec![first.id, second.id]);
    assert_eq!(count(&service, "posts"), 2);
}
