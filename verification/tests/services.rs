use pressa::config::{validate, RawCollection, RawDatabase, RawField, RawProject, RawSchema};
use pressa::json::{Json, JsonNumber};
use pressa::memory::MemoryRepository;
use pressa::record::{Record, RecordId};
use pressa::repository::{ListParams, RecordRepository, StorageError};
use pressa::schema::Schema;
use pressa::services::{AppError, CollectionService, RecordService, ALREADY_USED};
use pressa::validation::ErrorCode;

fn s(text: &str) -> Json {
    Json::String(text.to_string())
}

fn integer(n: i64) -> Json {
    Json::Number(JsonNumber::Int(n))
}

fn obj(members: Vec<(&str, Json)>) -> Json {
    let mut members: Vec<(String, Json)> = members
        .into_iter()
        .map(|(k, v)| (k.to_string(), v))
        .collect();
    members.sort_by(|a, b| a.0.cmp(&b.0));
    Json::Object(members)
}

fn raw_field(name: &str, kind: &str, required: bool, unique: bool, options: Option<&[&str]>) -> RawField {
    RawField {
        name: name.to_string(),
        label: None,
        kind: kind.to_string(),
        required,
        unique,
        options: options.map(|o| o.iter().map(|x| x.to_string()).collect()),
    }
}

/// The posts collection: a required title, a unique slug, a status, a view
/// count, a flag, a date and free-form metadata.
fn posts_schema() -> Schema {
    validate(RawSchema {
        project: RawProject {
            name: "blog-cms".to_string(),
        },
        database: RawDatabase { path: None },
        collections: vec![
            (
                "posts".to_string(),
                RawCollection {
                    label: None,
                    list_columns: None,
                    fields: vec![
                        raw_field("title", "text", true, false, None),
                        raw_field("slug", "text", true, true, None),
                        raw_field("status", "select", true, false, Some(&["draft", "published"])),
                        raw_field("views", "number", false, false, None),
                        raw_field("featured", "boolean", false, false, None),
                        raw_field("published_at", "datetime", false, false, None),
                        raw_field("metadata", "json", false, false, None),
                    ],
                },
            ),
            (
                "pages".to_string(),
                RawCollection {
                    label: None,
                    list_columns: None,
                    fields: vec![raw_field("title", "text", false, false, None)],
                },
            ),
        ],
    })
    .expect("valid schema")
}

fn service() -> RecordService<MemoryRepository> {
    RecordService::new(MemoryRepository::new(), posts_schema())
}

fn valid(slug: &str) -> Json {
    obj(vec![
        ("title", s("Hello")),
        ("slug", s(slug)),
        ("status", s("draft")),
        ("views", integer(1)),
        ("featured", Json::Bool(false)),
        ("published_at", Json::Null),
        ("metadata", Json::Null),
    ])
}

fn validation_errors(error: AppError) -> Vec<(String, ErrorCode)> {
    match error {
        AppError::Validation(errors) => errors.into_iter().map(|e| (e.field, e.code)).collect(),
        other => panic!("expected Validation, got {other:?}"),
    }
}

/// A repository that stores nothing and remembers every call made to it.
struct Recording {
    calls: Vec<String>,
}

impl RecordRepository for Recording {
    fn list(&self, _c: &str, _p: &ListParams) -> Result<Vec<Record>, StorageError> {
        Ok(Vec::new())
    }
    fn count(&self, _c: &str, _p: &ListParams) -> Result<u64, StorageError> {
        Ok(0)
    }
    fn get(&self, _c: &str, _id: &RecordId) -> Result<Option<Record>, StorageError> {
        Ok(None)
    }
    fn create(&mut self, c: &str, _d: Json) -> Result<Record, StorageError> {
        self.calls.push(format!("create {c}"));
        Err(StorageError::Sqlite("refused".to_string()))
    }
    fn update(&mut self, c: &str, id: &RecordId, _d: Json) -> Result<Record, StorageError> {
        self.calls.push(format!("update {c}"));
        Err(StorageError::not_found(c, id))
    }
    fn delete(&mut self, c: &str, _id: &RecordId) -> Result<(), StorageError> {
        self.calls.push(format!("delete {c}"));
        Ok(())
    }
    fn find_by_field(&self, _c: &str, _f: &str, _v: &Json) -> Result<Vec<Record>, StorageError> {
        Ok(Vec::new())
    }
}

#[test]
fn create_stores_a_valid_document_and_returns_it_with_an_id() {
    let mut service = service();
    let record = service.create("posts", valid("hello")).expect("create");
    assert_eq!(record.collection, "posts");
    assert_eq!(record.data, valid("hello"));
    assert_eq!(record.id.as_string().len(), 26);
    assert_eq!(service.count("posts", &ListParams::default()).expect("count"), 1);
    assert_eq!(service.get("posts", &record.id).expect("get").id, record.id);
}

#[test]
fn an_unknown_collection_never_reaches_the_repository() {
    let mut service = RecordService::new(Recording { calls: Vec::new() }, posts_schema());
    match service.create("ghosts", valid("x")) {
        Err(AppError::UnknownCollection(slug)) => assert_eq!(slug, "ghosts"),
        other => panic!("expected UnknownCollection, got {other:?}"),
    }
    assert!(matches!(service.delete("ghosts", &RecordId::new()), Err(AppError::UnknownCollection(_))));
    assert!(matches!(service.list("ghosts", &ListParams::default()), Err(AppError::UnknownCollection(_))));
    assert!(matches!(service.blank("ghosts"), Err(AppError::UnknownCollection(_))));
}

#[test]
fn an_invalid_document_never_reaches_the_repository() {
    let mut service = RecordService::new(Recording { calls: Vec::new() }, posts_schema());
    let error = service.create("posts", obj(vec![("title", s(""))])).expect_err("invalid");
    assert_eq!(
        validation_errors(error),
        vec![
            ("title".to_string(), ErrorCode::Required),
            ("slug".to_string(), ErrorCode::Required),
            ("status".to_string(), ErrorCode::Required),
        ]
    );
    // A valid one does, and a storage refusal comes back in storage's words.
    match service.create("posts", valid("ok")) {
        Err(AppError::Storage(StorageError::Sqlite(m))) => assert_eq!(m, "refused"),
        other => panic!("expected the storage error, got {other:?}"),
    }
    // A missing record is the app's own NotFound.
    let id = RecordId::new();
    match service.update("posts", &id, valid("ok")) {
        Err(AppError::NotFound { collection, id: named }) => {
            assert_eq!(collection, "posts");
            assert_eq!(named, id.as_string());
        }
        other => panic!("expected NotFound, got {other:?}"),
    }
}

#[test]
fn get_on_a_missing_record_is_not_found() {
    let service = service();
    let id = RecordId::new();
    match service.get("posts", &id) {
        Err(AppError::NotFound { collection, id: named }) => {
            assert_eq!(collection, "posts");
            assert_eq!(named, id.as_string());
        }
        other => panic!("expected NotFound, got {other:?}"),
    }
}

#[test]
fn a_taken_unique_value_is_refused_but_not_by_its_own_record() {
    let mut service = service();
    let first = service.create("posts", valid("hello")).expect("create");
    let error = service.create("posts", valid("hello")).expect_err("taken");
    match error {
        AppError::Validation(errors) => {
            assert_eq!(errors.len(), 1);
            assert_eq!(errors[0].field, "slug");
            assert_eq!(errors[0].code, ErrorCode::NotUnique);
            assert_eq!(errors[0].message, ALREADY_USED);
        }
        other => panic!("expected Validation, got {other:?}"),
    }
    // Saving a record with its own slug is not a collision.
    let updated = service.update("posts", &first.id, valid("hello")).expect("update");
    assert_eq!(updated.id, first.id);
    // Two records without a slug value do not collide either.
    assert_eq!(service.count("posts", &ListParams::default()).expect("count"), 1);
}

#[test]
fn delete_then_get_is_not_found() {
    let mut service = service();
    let record = service.create("posts", valid("bye")).expect("create");
    service.delete("posts", &record.id).expect("delete");
    assert!(matches!(service.get("posts", &record.id), Err(AppError::NotFound { .. })));
    assert!(matches!(service.delete("posts", &record.id), Err(AppError::NotFound { .. })));
}

#[test]
fn a_blank_document_has_every_field_with_its_default() {
    let service = service();
    let blank = service.blank("posts").expect("blank");
    assert_eq!(
        blank,
        obj(vec![
            ("title", Json::Null),
            ("slug", Json::Null),
            ("status", Json::Null),
            ("views", Json::Null),
            ("featured", Json::Bool(false)),
            ("published_at", Json::Null),
            ("metadata", Json::Null),
        ])
    );
    // Left empty, the required fields still fail: nothing was pre-filled.
    let mut service = service;
    let error = service.create("posts", blank).expect_err("blank is not valid");
    assert_eq!(validation_errors(error).len(), 3);
}

#[test]
fn the_collection_service_answers_in_file_order() {
    let collections = CollectionService::new(posts_schema());
    let slugs: Vec<&str> = collections.all().iter().map(|c| c.slug.as_str()).collect();
    assert_eq!(slugs, vec!["posts", "pages"]);
    assert_eq!(collections.get("pages").expect("known").label, "Pages");
    match collections.get("ghosts") {
        Err(e) => assert_eq!(e.message(), "unknown collection: ghosts"),
        Ok(c) => panic!("expected an error, got {c:?}"),
    }
}

#[test]
fn app_errors_read_as_one_line() {
    let error = AppError::Validation(vec![]);
    assert_eq!(error.message(), "0 field(s) rejected");
    let storage = AppError::Storage(StorageError::Migration {
        detail: "x".to_string(),
    });
    assert_eq!(storage.message(), "migration failed: x");
}
