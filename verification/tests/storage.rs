use pressa::json::{Json, JsonNumber, Real};
use pressa::memory::MemoryRepository;
use pressa::record::{Record, RecordId, Timestamp};
use pressa::repository::{ListParams, RecordRepository, SortDirection, StorageError};
use pressa::values::{
    checked_field, contains_ignoring_ascii_case, like_pattern, require_object, JsonKey, KeyOrder,
};

fn s(text: &str) -> Json {
    Json::String(text.to_string())
}

fn integer(n: i64) -> Json {
    Json::Number(JsonNumber::Int(n))
}

fn real_number(value: f64, printed: &str) -> Json {
    Json::Number(JsonNumber::Real(Real {
        bits: value.to_bits(),
        sql_text: printed.to_string(),
        json_text: printed.to_string(),
    }))
}

/// An object, with its members in key order, as a JSON map holds them.
fn obj(members: Vec<(&str, Json)>) -> Json {
    let mut members: Vec<(String, Json)> = members
        .into_iter()
        .map(|(k, v)| (k.to_string(), v))
        .collect();
    members.sort_by(|a, b| a.0.cmp(&b.0));
    Json::Object(members)
}

fn titled(title: &str) -> Json {
    obj(vec![("title", s(title))])
}

fn create(repo: &mut MemoryRepository, collection: &str, data: Json) -> Record {
    repo.create(collection, data).expect("create")
}

fn titles(records: &[Record]) -> Vec<String> {
    records
        .iter()
        .map(|r| match r.data.get("title") {
            Some(Json::String(t)) => t.clone(),
            other => format!("{other:?}"),
        })
        .collect()
}

fn ids(records: &[Record]) -> Vec<String> {
    records.iter().map(|r| r.id.as_string()).collect()
}

fn sorted_by(field: &str, direction: SortDirection) -> ListParams {
    ListParams::sorted_by(field, direction)
}

fn key_of(value: &Json) -> JsonKey {
    JsonKey::of(Some(value))
}

fn sort_keys(keys: &mut Vec<JsonKey>) {
    keys.sort_by(|a, b| match a.compare(b) {
        KeyOrder::Less => std::cmp::Ordering::Less,
        KeyOrder::Equal => std::cmp::Ordering::Equal,
        KeyOrder::Greater => std::cmp::Ordering::Greater,
    });
}

// ---------------------------------------------------------------------------
// Values
// ---------------------------------------------------------------------------

#[test]
fn the_default_list_is_everything_in_id_order() {
    let params = ListParams::default();
    assert_eq!(params.limit, None);
    assert_eq!(params.offset, None);
    assert_eq!(params.search, None);
    assert_eq!(params.sort_by, None);
    assert_eq!(params.sort_direction, SortDirection::Asc);
}

#[test]
fn wildcards_in_a_search_term_are_escaped() {
    assert_eq!(like_pattern("100%"), "%100\\%%");
    assert_eq!(like_pattern("a_b"), "%a\\_b%");
    assert_eq!(like_pattern("Hello"), "%hello%");
}

#[test]
fn hostile_field_names_are_refused() {
    assert!(checked_field("title").is_ok());
    assert!(checked_field("published_at").is_ok());
    assert!(checked_field("title'); DROP TABLE records --").is_err());
    assert!(checked_field("").is_err());
}

#[test]
fn nulls_sort_before_numbers_which_sort_before_text() {
    let mut keys = vec![
        JsonKey::Text("a".to_string()),
        JsonKey::Null,
        JsonKey::Real(2.0f64.to_bits(), "2.0".to_string()),
    ];
    sort_keys(&mut keys);
    assert_eq!(
        keys,
        vec![
            JsonKey::Null,
            JsonKey::Real(2.0f64.to_bits(), "2.0".to_string()),
            JsonKey::Text("a".to_string())
        ]
    );
}

#[test]
fn a_number_equals_the_same_number_written_differently() {
    assert_eq!(key_of(&integer(1)), key_of(&real_number(1.0, "1.0")));
    assert_ne!(key_of(&integer(1)), key_of(&s("1")));
}

#[test]
fn integers_and_reals_interleave_rather_than_grouping_by_kind() {
    let mut keys = vec![
        key_of(&integer(7)),
        key_of(&real_number(7.5, "7.5")),
        key_of(&real_number(6.5, "6.5")),
        key_of(&integer(6)),
    ];
    sort_keys(&mut keys);
    assert_eq!(
        keys.iter()
            .filter_map(JsonKey::as_search_text)
            .collect::<Vec<_>>(),
        vec!["6", "6.5", "7", "7.5"]
    );
}

#[test]
fn an_integer_past_two_to_the_fifty_third_keeps_every_digit() {
    let key = key_of(&integer(9_007_199_254_740_993));
    assert_eq!(key.as_search_text().as_deref(), Some("9007199254740993"));
    assert_ne!(key, key_of(&integer(9_007_199_254_740_992)));
}

#[test]
fn an_integer_meets_a_real_as_the_nearest_double() {
    // 2^53 + 1 has no double of its own; it meets a real as 2^53 does.
    let big = key_of(&integer(9_007_199_254_740_993));
    let as_real = key_of(&real_number(9_007_199_254_740_992.0, "9.00719925474099e+15"));
    assert_eq!(big.compare(&as_real), KeyOrder::Equal);
    assert_eq!(key_of(&integer(-3)).compare(&key_of(&real_number(-2.5, "-2.5"))), KeyOrder::Less);
}

#[test]
fn booleans_are_the_numbers_sqlite_makes_of_them() {
    assert_eq!(key_of(&Json::Bool(true)), JsonKey::Integer(1));
    assert_eq!(key_of(&Json::Bool(false)), JsonKey::Integer(0));
    assert_eq!(
        key_of(&Json::Bool(true)).as_search_text().as_deref(),
        Some("1")
    );
}

#[test]
fn a_json_integer_renders_without_a_decimal_point_and_a_real_with_one() {
    assert_eq!(key_of(&integer(1)).as_search_text().as_deref(), Some("1"));
    assert_eq!(
        key_of(&real_number(1.0, "1.0")).as_search_text().as_deref(),
        Some("1.0")
    );
}

#[test]
fn negative_zero_is_folded_into_zero() {
    let key = key_of(&real_number(-0.0, "0.0"));
    assert_eq!(key, JsonKey::Real(0, "0.0".to_string()));
    assert_eq!(key.compare(&key_of(&integer(0))), KeyOrder::Equal);
}

#[test]
fn an_absent_key_and_an_explicit_null_are_the_same_thing() {
    let document = obj(vec![("here", Json::Null)]);
    assert_eq!(JsonKey::at(&document, "here"), JsonKey::Null);
    assert_eq!(JsonKey::at(&document, "nowhere"), JsonKey::Null);
}

#[test]
fn nested_values_are_keyed_by_their_json_text() {
    let nested = obj(vec![
        ("tags", Json::Array(vec![s("a"), integer(2), Json::Null])),
        ("quote", s("say \"hi\"\n")),
    ]);
    assert_eq!(
        key_of(&nested),
        JsonKey::Text("{\"quote\":\"say \\\"hi\\\"\\n\",\"tags\":[\"a\",2,null]}".to_string())
    );
}

#[test]
fn text_orders_by_code_point() {
    assert_eq!(key_of(&s("B")).compare(&key_of(&s("a"))), KeyOrder::Less);
    assert_eq!(key_of(&s("ab")).compare(&key_of(&s("a"))), KeyOrder::Greater);
    assert_eq!(key_of(&s("é")).compare(&key_of(&s("z"))), KeyOrder::Greater);
}

#[test]
fn matching_ignores_ascii_case_only() {
    assert!(contains_ignoring_ascii_case("Hello World", "WORLD"));
    assert!(!contains_ignoring_ascii_case("Hello", "help"));
    assert!(!contains_ignoring_ascii_case("ÉCOLE", "école"));
    assert!(contains_ignoring_ascii_case("anything", ""));
}

#[test]
fn a_document_that_is_not_an_object_is_corrupt() {
    let id = RecordId::new();
    assert!(require_object(&id, &obj(vec![("a", integer(1))])).is_ok());
    let error = require_object(&id, &integer(42)).expect_err("not an object");
    assert!(error.message().contains(&id.as_string()));
    assert_eq!(
        error,
        StorageError::Corrupt {
            id: id.as_string(),
            detail: "data is not a JSON object".to_string()
        }
    );
}

// ---------------------------------------------------------------------------
// The in-memory repository
// ---------------------------------------------------------------------------

#[test]
fn create_then_get_are_equal() {
    let mut repo = MemoryRepository::new();
    let created = create(&mut repo, "posts", obj(vec![("title", s("Hello")), ("n", integer(1))]));
    let fetched = repo
        .get("posts", &created.id)
        .expect("get")
        .expect("the record just created is there");
    assert_eq!(created, fetched);
}

#[test]
fn create_assigns_a_ulid_and_equal_timestamps() {
    let mut repo = MemoryRepository::new();
    let created = create(&mut repo, "posts", titled("Hello"));
    assert_eq!(created.collection, "posts");
    assert_eq!(created.id.as_string().len(), 26);
    assert!(created.id.as_string().parse::<RecordId>().is_ok());
    assert_eq!(created.created_at, created.updated_at);
}

#[test]
fn create_does_not_validate() {
    let mut repo = MemoryRepository::new();
    let created = create(&mut repo, "posts", obj(vec![("no_such_field", Json::Bool(true))]));
    assert_eq!(created.data, obj(vec![("no_such_field", Json::Bool(true))]));
}

#[test]
fn get_on_a_missing_id_is_none() {
    let repo = MemoryRepository::new();
    assert_eq!(repo.get("posts", &RecordId::new()).expect("get"), None);
}

#[test]
fn update_replaces_data_and_keeps_id_and_created_at() {
    let mut repo = MemoryRepository::new();
    let created = create(&mut repo, "posts", obj(vec![("title", s("before")), ("extra", integer(1))]));
    let updated = repo
        .update("posts", &created.id, titled("after"))
        .expect("update");
    assert_eq!(updated.id, created.id);
    assert_eq!(updated.created_at, created.created_at);
    assert!(updated.updated_at >= created.updated_at);
    assert_eq!(updated.data, titled("after"));
    let fetched = repo.get("posts", &created.id).expect("get").expect("present");
    assert_eq!(fetched, updated);
}

#[test]
fn update_on_a_missing_id_is_not_found() {
    let mut repo = MemoryRepository::new();
    let missing = RecordId::new();
    let error = repo
        .update("posts", &missing, titled("x"))
        .expect_err("updating nothing is an error");
    assert_eq!(
        error,
        StorageError::NotFound {
            collection: "posts".to_string(),
            id: missing.as_string(),
        }
    );
    assert_eq!(
        error.message(),
        format!("no record {} in collection posts", missing.as_string())
    );
}

#[test]
fn update_will_not_cross_collections() {
    let mut repo = MemoryRepository::new();
    let page = create(&mut repo, "pages", titled("a page"));
    let error = repo
        .update("posts", &page.id, titled("x"))
        .expect_err("that id does not belong to posts");
    assert_eq!(error, StorageError::not_found("posts", &page.id));
    let fetched = repo.get("pages", &page.id).expect("get").expect("present");
    assert_eq!(fetched.data, titled("a page"));
    assert_eq!(repo.get("posts", &page.id).expect("get"), None);
}

#[test]
fn delete_removes_the_record() {
    let mut repo = MemoryRepository::new();
    let created = create(&mut repo, "posts", titled("doomed"));
    repo.delete("posts", &created.id).expect("delete");
    assert_eq!(repo.get("posts", &created.id).expect("get"), None);
    assert_eq!(repo.count("posts", &ListParams::default()).expect("count"), 0);
}

#[test]
fn delete_on_a_missing_id_is_not_found() {
    let mut repo = MemoryRepository::new();
    let missing = RecordId::new();
    let error = repo.delete("posts", &missing).expect_err("deleting nothing");
    assert_eq!(error, StorageError::not_found("posts", &missing));
}

#[test]
fn list_returns_only_the_requested_collection() {
    let mut repo = MemoryRepository::new();
    let post = create(&mut repo, "posts", titled("a post"));
    create(&mut repo, "pages", titled("a page"));
    create(&mut repo, "pages", titled("another page"));
    let listed = repo.list("posts", &ListParams::default()).expect("list");
    assert_eq!(ids(&listed), vec![post.id.as_string()]);
    assert_eq!(repo.count("posts", &ListParams::default()).expect("count"), 1);
    assert_eq!(repo.count("pages", &ListParams::default()).expect("count"), 2);
    assert!(repo.list("ghosts", &ListParams::default()).expect("list").is_empty());
}

#[test]
fn the_default_order_is_chronological() {
    let mut repo = MemoryRepository::new();
    let created: Vec<Record> = ["first", "second", "third"]
        .iter()
        .map(|t| create(&mut repo, "posts", titled(t)))
        .collect();
    let listed = repo.list("posts", &ListParams::default()).expect("list");
    assert_eq!(titles(&listed), vec!["first", "second", "third"]);
    assert_eq!(ids(&listed), ids(&created));
    let mut sorted = ids(&listed);
    sorted.sort();
    assert_eq!(ids(&listed), sorted);
}

#[test]
fn a_descending_list_by_id_is_the_reverse() {
    let mut repo = MemoryRepository::new();
    for t in ["one", "two", "three"] {
        create(&mut repo, "posts", titled(t));
    }
    let params = ListParams {
        sort_direction: SortDirection::Desc,
        ..ListParams::default()
    };
    let listed = repo.list("posts", &params).expect("list");
    assert_eq!(titles(&listed), vec!["three", "two", "one"]);
}

#[test]
fn list_honours_limit_and_offset() {
    let mut repo = MemoryRepository::new();
    for t in ["t0", "t1", "t2", "t3", "t4"] {
        create(&mut repo, "posts", titled(t));
    }
    let page = |repo: &MemoryRepository, limit: Option<u32>, offset: Option<u32>| {
        let params = ListParams {
            limit,
            offset,
            ..ListParams::default()
        };
        titles(&repo.list("posts", &params).expect("list"))
    };
    assert_eq!(page(&repo, Some(2), None), vec!["t0", "t1"]);
    assert_eq!(page(&repo, Some(2), Some(1)), vec!["t1", "t2"]);
    assert_eq!(page(&repo, None, Some(3)), vec!["t3", "t4"]);
    assert!(page(&repo, Some(2), Some(9)).is_empty());
    assert_eq!(page(&repo, Some(99), None).len(), 5);
    let params = ListParams {
        limit: Some(2),
        offset: Some(1),
        ..ListParams::default()
    };
    assert_eq!(repo.count("posts", &params).expect("count"), 5);
}

#[test]
fn sort_by_a_field_runs_both_ways() {
    let mut repo = MemoryRepository::new();
    for t in ["banana", "apple", "cherry"] {
        create(&mut repo, "posts", titled(t));
    }
    let ascending = repo.list("posts", &sorted_by("title", SortDirection::Asc)).expect("list");
    assert_eq!(titles(&ascending), vec!["apple", "banana", "cherry"]);
    let descending = repo.list("posts", &sorted_by("title", SortDirection::Desc)).expect("list");
    assert_eq!(titles(&descending), vec!["cherry", "banana", "apple"]);
}

#[test]
fn sort_is_stable_when_keys_are_equal() {
    let mut repo = MemoryRepository::new();
    let created: Vec<Record> = (0..60)
        .map(|n| create(&mut repo, "posts", titled(["c", "a", "b"][n % 3])))
        .collect();
    for direction in [SortDirection::Asc, SortDirection::Desc] {
        let mut expected = created.clone();
        expected.sort_by(|l, r| {
            let by = titles(std::slice::from_ref(l)).cmp(&titles(std::slice::from_ref(r)));
            match direction {
                SortDirection::Asc => by,
                SortDirection::Desc => by.reverse(),
            }
        });
        let params = sorted_by("title", direction);
        let first = repo.list("posts", &params).expect("list");
        let again = repo.list("posts", &params).expect("list");
        assert_eq!(ids(&first), ids(&again));
        assert_eq!(ids(&first), ids(&expected), "{direction:?}");
    }
}

#[test]
fn sort_tolerates_a_missing_field() {
    let mut repo = MemoryRepository::new();
    let with = create(&mut repo, "posts", obj(vec![("title", s("has one")), ("rank", integer(2))]));
    let without = create(&mut repo, "posts", titled("has none"));
    let ascending = repo.list("posts", &sorted_by("rank", SortDirection::Asc)).expect("list");
    assert_eq!(ids(&ascending), vec![without.id.as_string(), with.id.as_string()]);
}

#[test]
fn search_is_case_insensitive_over_the_named_fields() {
    let mut repo = MemoryRepository::new();
    let in_title = create(&mut repo, "posts", obj(vec![("title", s("Hello World")), ("body", s("quiet"))]));
    let in_body = create(&mut repo, "posts", obj(vec![("title", s("Goodbye")), ("body", s("HELLO again"))]));
    create(&mut repo, "posts", obj(vec![("title", s("Nothing")), ("body", s("here"))]));

    let both = repo.list("posts", &ListParams::searching("hello", &["title", "body"])).expect("list");
    assert_eq!(ids(&both), vec![in_title.id.as_string(), in_body.id.as_string()]);

    let title_only = repo.list("posts", &ListParams::searching("hello", &["title"])).expect("list");
    assert_eq!(ids(&title_only), vec![in_title.id.as_string()]);

    let nowhere = repo.list("posts", &ListParams::searching("hello", &[])).expect("list");
    assert!(nowhere.is_empty());
    assert_eq!(repo.count("posts", &ListParams::searching("hello", &["title", "body"])).expect("count"), 2);
}

#[test]
fn a_search_for_wildcards_finds_them_literally() {
    let mut repo = MemoryRepository::new();
    let percent = create(&mut repo, "posts", titled("100% sure"));
    create(&mut repo, "posts", titled("1000 things"));
    let found = repo.list("posts", &ListParams::searching("100%", &["title"])).expect("list");
    assert_eq!(ids(&found), vec![percent.id.as_string()]);
}

#[test]
fn a_search_finds_a_number_by_its_text() {
    let mut repo = MemoryRepository::new();
    let real_one = create(&mut repo, "posts", obj(vec![("n", real_number(1.0, "1.0"))]));
    let int_one = create(&mut repo, "posts", obj(vec![("n", integer(1))]));
    let found = repo.list("posts", &ListParams::searching("1.0", &["n"])).expect("list");
    assert_eq!(ids(&found), vec![real_one.id.as_string()]);
    let found = repo.list("posts", &ListParams::searching("1", &["n"])).expect("list");
    assert_eq!(ids(&found), vec![real_one.id.as_string(), int_one.id.as_string()]);
}

#[test]
fn a_hostile_sort_or_search_field_is_refused() {
    let mut repo = MemoryRepository::new();
    create(&mut repo, "posts", titled("x"));
    let error = repo
        .list("posts", &sorted_by("title; DROP TABLE records", SortDirection::Asc))
        .expect_err("refused");
    assert_eq!(
        error,
        StorageError::InvalidField {
            field: "title; DROP TABLE records".to_string()
        }
    );
    let error = repo
        .count("posts", &ListParams::searching("x", &["title", "a b"]))
        .expect_err("refused");
    assert_eq!(error, StorageError::InvalidField { field: "a b".to_string() });
    // With no search, the search fields are never named, so they do not count.
    let params = ListParams {
        search_fields: vec!["a b".to_string()],
        ..ListParams::default()
    };
    assert_eq!(repo.count("posts", &params).expect("count"), 1);
}

#[test]
fn a_corrupt_record_fails_the_read_that_reaches_it() {
    let mut repo = MemoryRepository::new();
    let good = create(&mut repo, "posts", titled("fine"));
    let bad = create(&mut repo, "posts", integer(42));
    let error = repo.list("posts", &ListParams::default()).expect_err("corrupt");
    assert_eq!(
        error,
        StorageError::Corrupt {
            id: bad.id.as_string(),
            detail: "data is not a JSON object".to_string()
        }
    );
    // Paging past it, or counting, does not read it.
    let params = ListParams {
        limit: Some(1),
        ..ListParams::default()
    };
    assert_eq!(ids(&repo.list("posts", &params).expect("list")), vec![good.id.as_string()]);
    assert_eq!(repo.count("posts", &ListParams::default()).expect("count"), 2);
    assert!(repo.get("posts", &bad.id).is_err());
}

#[test]
fn find_by_field_matches_sql_equality() {
    let mut repo = MemoryRepository::new();
    let one = create(&mut repo, "posts", obj(vec![("n", integer(1)), ("slug", s("a"))]));
    let one_real = create(&mut repo, "posts", obj(vec![("n", real_number(1.0, "1.0")), ("slug", s("b"))]));
    let absent = create(&mut repo, "posts", obj(vec![("slug", s("c"))]));
    create(&mut repo, "pages", obj(vec![("n", integer(1))]));

    let found = repo.find_by_field("posts", "n", &integer(1)).expect("find");
    assert_eq!(ids(&found), vec![one.id.as_string(), one_real.id.as_string()]);

    let nulls = repo.find_by_field("posts", "n", &Json::Null).expect("find");
    assert_eq!(ids(&nulls), vec![absent.id.as_string()]);

    let error = repo.find_by_field("posts", "N", &integer(1)).expect_err("not an identifier");
    assert_eq!(error, StorageError::InvalidField { field: "N".to_string() });
}

// ---------------------------------------------------------------------------
// Ids
// ---------------------------------------------------------------------------

#[test]
fn an_id_reads_as_twenty_six_base32_digits_and_back() {
    assert_eq!(RecordId(0).as_string(), "00000000000000000000000000");
    assert_eq!(RecordId(1).as_string(), "00000000000000000000000001");
    assert_eq!(RecordId(32).as_string(), "00000000000000000000000010");
    let id = RecordId::new();
    assert_eq!(RecordId::parse(&id.as_string()), Ok(id));
    assert_eq!(RecordId::parse(&id.as_string().to_lowercase()), Ok(id));
    assert!(RecordId::parse("0000000000000000000000000U").is_err());
    assert!(RecordId::parse("short").is_err());
}

#[test]
fn ids_round_trip_through_their_text_form() {
    let id = RecordId::new();
    let parsed: RecordId = id.as_string().parse().expect("a minted id parses");
    assert_eq!(id, parsed);
    assert_eq!(id.as_string().len(), 26);
}

#[test]
fn nonsense_is_not_an_id() {
    assert!("not-a-ulid".parse::<RecordId>().is_err());
    assert!("".parse::<RecordId>().is_err());
}

/// The ascending promise belongs to the generator a repository mints with.
#[test]
fn ids_minted_in_the_same_millisecond_still_ascend() {
    let mut generator = pressa::record::IdGenerator::new();
    let ids: Vec<RecordId> = (0..500).map(|_| generator.next().expect("a larger id")).collect();
    let mut sorted = ids.clone();
    sorted.sort();
    assert_eq!(ids, sorted, "ids must ascend in the order they were minted");
    let text: Vec<String> = ids.iter().map(RecordId::as_string).collect();
    let mut sorted_text = text.clone();
    sorted_text.sort();
    assert_eq!(text, sorted_text);
}

#[test]
fn a_timestamp_survives_the_round_trip_exactly() {
    let at = pressa::record::clock_now();
    let id = RecordId::new();
    assert_eq!(pressa::clock::parse(&id, &pressa::clock::format(&at)).expect("parses"), at);
}

#[test]
fn timestamps_are_written_with_nine_digits_and_z() {
    assert_eq!(pressa::clock::format(&Timestamp { seconds: 0, nanos: 5 }), "1970-01-01T00:00:00.000000005Z");
    assert_eq!(
        pressa::clock::format(&Timestamp { seconds: 1_431_648_000, nanos: 0 }),
        "2015-05-15T00:00:00.000000000Z"
    );
}

#[test]
fn nonsense_is_corrupt_and_names_the_record() {
    let id = RecordId::new();
    let error = pressa::clock::parse(&id, "last tuesday").expect_err("not a timestamp");
    assert!(matches!(error, StorageError::Corrupt { .. }));
    assert!(error.message().contains(&id.as_string()));
}

#[test]
fn records_created_back_to_back_list_in_creation_order() {
    let mut repo = MemoryRepository::new();
    let created: Vec<Record> = (0..100)
        .map(|n| create(&mut repo, "posts", titled(&format!("t{n}"))))
        .collect();
    let listed = repo.list("posts", &ListParams::default()).expect("list");
    assert_eq!(ids(&listed), ids(&created));
}

#[test]
fn a_generator_takes_only_a_larger_id() {
    let mut generator = pressa::record::IdGenerator::new();
    assert_eq!(generator.accept(Some(5)), Some(RecordId(5)));
    assert_eq!(generator.accept(Some(5)), None);
    assert_eq!(generator.accept(Some(3)), None);
    assert_eq!(generator.accept(None), None);
    assert_eq!(generator.accept(Some(6)), Some(RecordId(6)));
}

#[test]
fn a_minted_id_makes_the_record_and_none_is_exhaustion() {
    let at = Timestamp { seconds: 7, nanos: 8 };
    let record = pressa::memory::record_for(Some(RecordId(9)), "posts", titled("x"), at).expect("minted");
    assert_eq!(record.id, RecordId(9));
    assert_eq!(record.collection, "posts");
    assert_eq!(record.data, titled("x"));
    assert_eq!((record.created_at, record.updated_at), (at, at));
    match pressa::memory::record_for(None, "posts", titled("x"), at) {
        Err(StorageError::Io(message)) => assert_eq!(message, "no id larger than the last one could be minted"),
        other => panic!("expected exhaustion, got {other:?}"),
    }
}
