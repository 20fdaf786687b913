use pressa::config::{
    titlecase, validate, ConfigError, RawCollection, RawDatabase, RawField, RawProject, RawSchema,
};
use pressa::schema::{is_identifier, CollectionCapabilities, FieldType};

fn field(name: &str, kind: &str) -> RawField {
    RawField {
        name: name.to_string(),
        label: None,
        kind: kind.to_string(),
        required: false,
        unique: false,
        options: None,
    }
}

fn collection(fields: Vec<RawField>) -> RawCollection {
    RawCollection {
        label: None,
        list_columns: None,
        fields,
    }
}

fn schema(collections: Vec<(&str, RawCollection)>) -> RawSchema {
    RawSchema {
        project: RawProject {
            name: "blog-cms".to_string(),
        },
        database: RawDatabase { path: None },
        collections: collections
            .into_iter()
            .map(|(slug, c)| (slug.to_string(), c))
            .collect(),
    }
}

fn invalid_message(raw: RawSchema) -> String {
    let error = validate(raw).expect_err("the schema is invalid");
    assert!(
        matches!(error, ConfigError::Invalid { .. }),
        "expected Invalid, got {error:?}"
    );
    error.message()
}

#[test]
fn titlecase_capitalises_and_unscores() {
    assert_eq!(titlecase("posts"), "Posts");
    assert_eq!(titlecase("published_at"), "Published at");
    assert_eq!(titlecase("blog_posts_2"), "Blog posts 2");
}

#[test]
fn identifiers_start_with_a_lowercase_letter() {
    assert!(is_identifier("title"));
    assert!(is_identifier("published_at"));
    assert!(is_identifier("h1"));

    assert!(!is_identifier(""));
    assert!(!is_identifier("Title"));
    assert!(!is_identifier("1title"));
    assert!(!is_identifier("_title"));
    assert!(!is_identifier("my-posts"));
    assert!(!is_identifier("title; DROP TABLE records"));
}

#[test]
fn every_collection_may_do_everything_by_default() {
    let capabilities = CollectionCapabilities::default();
    assert!(capabilities.create && capabilities.read);
    assert!(capabilities.update && capabilities.delete);
}

fn full() -> RawSchema {
    let mut title = field("title", "text");
    title.label = Some("Title".to_string());
    title.required = true;
    let mut status = field("status", "select");
    status.options = Some(vec!["draft".to_string(), "published".to_string()]);
    let mut posts = collection(vec![title, status]);
    posts.label = Some("Articles".to_string());
    posts.list_columns = Some(vec!["title".to_string(), "status".to_string()]);
    let mut raw = schema(vec![("posts", posts), ("authors", collection(vec![field("name", "text")]))]);
    raw.database.path = Some("db/custom.db".to_string());
    raw
}

fn with_fields(slug: &str, fields: Vec<RawField>) -> RawSchema {
    schema(vec![(slug, collection(fields))])
}

fn select(name: &str, options: &[&str]) -> RawField {
    let mut f = field(name, "select");
    f.options = Some(options.iter().map(|o| o.to_string()).collect());
    f
}

#[test]
fn a_valid_config_loads_with_collections_in_file_order() {
    let loaded = validate(full()).expect("valid");
    assert_eq!(loaded.project.name, "blog-cms");
    let order: Vec<&str> = loaded.collections.values().map(|c| c.slug.as_str()).collect();
    assert_eq!(order, ["posts", "authors"]);
    let posts = &loaded.collections[0];
    assert_eq!(posts.slug, "posts");
    assert_eq!(posts.label, "Articles");
    assert_eq!(posts.list_columns, ["title", "status"]);
    assert_eq!(posts.fields.len(), 2);
    assert_eq!(posts.fields[0].name, "title");
    assert!(posts.fields[0].required);
    assert_eq!(posts.fields[0].kind, FieldType::Text);
    assert_eq!(
        posts.fields[1].kind,
        FieldType::Select {
            options: vec!["draft".to_string(), "published".to_string()],
        }
    );
}

#[test]
fn every_field_type_of_m0_is_accepted() {
    let loaded = validate(with_fields(
        "everything",
        vec![
            field("a", "text"),
            field("b", "textarea"),
            field("c", "number"),
            field("d", "boolean"),
            field("e", "datetime"),
            select("f", &["one"]),
            field("g", "json"),
        ],
    ))
    .expect("valid");
    let kinds: Vec<&FieldType> = loaded.collections[0].fields.iter().map(|f| &f.kind).collect();
    assert_eq!(
        kinds,
        [
            &FieldType::Text,
            &FieldType::Textarea,
            &FieldType::Number,
            &FieldType::Boolean,
            &FieldType::DateTime,
            &FieldType::Select {
                options: vec!["one".to_string()]
            },
            &FieldType::Json,
        ]
    );
}

#[test]
fn label_defaults_to_the_titlecased_slug_and_name() {
    let loaded = validate(with_fields("blog_posts", vec![field("published_at", "datetime")])).expect("valid");
    assert_eq!(loaded.collections[0].label, "Blog posts");
    assert_eq!(loaded.collections[0].fields[0].label, "Published at");
}

#[test]
fn list_columns_default_to_the_first_four_fields() {
    let loaded = validate(with_fields(
        "posts",
        vec![
            field("one", "text"),
            field("two", "text"),
            field("three", "text"),
            field("four", "text"),
            field("five", "text"),
        ],
    ))
    .expect("valid");
    assert_eq!(loaded.collections[0].list_columns, ["one", "two", "three", "four"]);
}

#[test]
fn list_columns_default_to_every_field_when_there_are_fewer_than_four() {
    let loaded = validate(with_fields("posts", vec![field("one", "text"), field("two", "text")])).expect("valid");
    assert_eq!(loaded.collections[0].list_columns, ["one", "two"]);
}

#[test]
fn required_and_unique_default_to_false() {
    let loaded = validate(with_fields("posts", vec![field("title", "text")])).expect("valid");
    let first = &loaded.collections[0].fields[0];
    assert!(!first.required);
    assert!(!first.unique);
}

#[test]
fn database_path_defaults_to_the_project_data_directory() {
    let loaded = validate(with_fields("posts", vec![field("title", "text")])).expect("valid");
    assert_eq!(loaded.database.path, ".pressa/data.db");
}

#[test]
fn a_configured_database_path_is_kept() {
    let loaded = validate(full()).expect("valid");
    assert_eq!(loaded.database.path, "db/custom.db");
}

#[test]
fn every_collection_can_do_everything_in_m0() {
    let loaded = validate(full()).expect("valid");
    let capabilities = &loaded.collections[0].capabilities;
    assert!(capabilities.create);
    assert!(capabilities.read);
    assert!(capabilities.update);
    assert!(capabilities.delete);
}

#[test]
fn every_row_of_the_error_table_reports_its_path() {
    let mut fields_missing = collection(vec![]);
    fields_missing.label = Some("Posts".to_string());
    let mut unknown_column = collection(vec![field("title", "text")]);
    unknown_column.list_columns = Some(vec!["titel".to_string()]);
    let cases: Vec<(&str, RawSchema, &str)> = vec![
        ("collections missing", schema(vec![]), "collections: at least one collection is required"),
        ("collections empty", schema(vec![]), "collections: at least one collection is required"),
        (
            "fields empty",
            with_fields("posts", vec![]),
            "collections.posts.fields: at least one field is required",
        ),
        (
            "fields missing",
            schema(vec![("posts", fields_missing)]),
            "collections.posts.fields: at least one field is required",
        ),
        (
            "unknown field type",
            with_fields(
                "posts",
                vec![
                    field("title", "text"),
                    field("slug", "text"),
                    field("body", "textarea"),
                    field("author", "relation"),
                ],
            ),
            "collections.posts.fields[3].type: unknown field type 'relation' \
             (expected one of: text, textarea, number, boolean, datetime, select, json)",
        ),
        (
            "duplicate field name",
            with_fields(
                "posts",
                vec![
                    field("title", "text"),
                    field("a", "text"),
                    field("b", "text"),
                    field("c", "text"),
                    field("title", "text"),
                ],
            ),
            "collections.posts.fields[4].name: duplicate field name 'title'",
        ),
        (
            "unknown list column",
            schema(vec![("posts", unknown_column)]),
            "collections.posts.list_columns[0]: unknown field 'titel'",
        ),
        (
            "select without options",
            with_fields(
                "posts",
                vec![field("title", "text"), field("body", "textarea"), field("status", "select")],
            ),
            "collections.posts.fields[2].options: required for type 'select'",
        ),
        (
            "capitalised slug",
            with_fields("Posts", vec![field("title", "text")]),
            "collections.Posts: must match ^[a-z][a-z0-9_]*$",
        ),
    ];
    for (name, raw, expected) in cases {
        let error = validate(raw).expect_err(name);
        assert!(
            matches!(error, ConfigError::Invalid { .. }),
            "{name}: expected Invalid, got {error:?}"
        );
        assert_eq!(error.message(), expected, "{name}");
    }
}

#[test]
fn a_hyphenated_slug_is_rejected() {
    assert_eq!(
        invalid_message(with_fields("my-posts", vec![field("title", "text")])),
        "collections.my-posts: must match ^[a-z][a-z0-9_]*$"
    );
}

#[test]
fn a_field_name_carrying_sql_is_rejected() {
    assert_eq!(
        invalid_message(with_fields("posts", vec![field("title; DROP TABLE records", "text")])),
        "collections.posts.fields[0].name: must match ^[a-z][a-z0-9_]*$"
    );
}

#[test]
fn field_names_must_start_with_a_lowercase_letter() {
    for bad in ["Title", "1title", "_title", "ti-tle", "ti tle", ""] {
        assert_eq!(
            invalid_message(with_fields("posts", vec![field(bad, "text")])),
            "collections.posts.fields[0].name: must match ^[a-z][a-z0-9_]*$",
            "accepted {bad:?}"
        );
    }
}

#[test]
fn underscores_and_digits_are_allowed_after_the_first_letter() {
    let loaded = validate(with_fields("posts_2", vec![field("h1_heading", "text")])).expect("valid");
    assert_eq!(loaded.collections[0].fields[0].name, "h1_heading");
}

#[test]
fn select_needs_at_least_one_option() {
    assert_eq!(
        invalid_message(with_fields("posts", vec![select("status", &[])])),
        "collections.posts.fields[0].options: at least one option is required"
    );
}

#[test]
fn select_options_must_be_unique() {
    assert_eq!(
        invalid_message(with_fields("posts", vec![select("status", &["draft", "published", "draft"])])),
        "collections.posts.fields[0].options[2]: duplicate option 'draft'"
    );
}

#[test]
fn config_errors_read_as_one_line() {
    let not_found = ConfigError::NotFound {
        searched_from: "/tmp/somewhere".to_string(),
    };
    assert_eq!(
        not_found.message(),
        "no pressa.yaml found in /tmp/somewhere or any parent directory"
    );
}

#[test]
fn a_slug_given_twice_keeps_its_first_place_and_its_last_definition() {
    let loaded = validate(schema(vec![
        ("posts", collection(vec![field("title", "text")])),
        ("pages", collection(vec![field("title", "text")])),
        ("posts", collection(vec![field("body", "textarea")])),
    ]))
    .expect("valid");
    let order: Vec<&str> = loaded.collections.keys().map(String::as_str).collect();
    assert_eq!(order, ["posts", "pages"]);
    assert_eq!(loaded.collections["posts"].fields[0].name, "body");
}
