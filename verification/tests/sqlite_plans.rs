use pressa::clock::parse;
use pressa::ieee::real_bits;
use pressa::json::{Json, JsonNumber, Real};
use pressa::migrations::{latest_version, parse_version, plan, stored_version, INIT_SCRIPT};
use pressa::record::{RecordId, Timestamp};
use pressa::repository::{ListParams, SortDirection, StorageError};
use pressa::sql::{
    bound_value, build_filter, build_order_by, count_query, find_query, list_query, push_limit_offset,
    record_from_raw, RawRow, SqlValue, COLUMNS,
};
use pressa::values::JsonKey;

fn text(t: &str) -> SqlValue {
    SqlValue::Text(t.to_string())
}

fn row(id: &str, data: &str) -> RawRow {
    RawRow {
        id: id.to_string(),
        collection: "posts".to_string(),
        data: data.to_string(),
        created_at: "2026-09-06T12:00:00.000000001Z".to_string(),
        updated_at: "2026-09-06T12:00:01Z".to_string(),
    }
}

fn object(members: Vec<(&str, Json)>) -> Json {
    Json::Object(members.into_iter().map(|(k, v)| (k.to_string(), v)).collect())
}

// ---------------------------------------------------------------------------
// Statements
// ---------------------------------------------------------------------------

#[test]
fn the_filter_names_the_collection_and_binds_the_search() {
    let plain = build_filter("posts", &ListParams::default()).expect("filter");
    assert_eq!(plain.clause, " WHERE collection = ?1");
    assert_eq!(plain.values, vec![text("posts")]);

    let search = build_filter("posts", &ListParams::searching("50%", &["title", "body"])).expect("filter");
    assert_eq!(
        search.clause,
        " WHERE collection = ?1 AND (lower(json_extract(data, '$.title')) LIKE ?2 ESCAPE '\\' \
         OR lower(json_extract(data, '$.body')) LIKE ?3 ESCAPE '\\')"
    );
    assert_eq!(search.values, vec![text("posts"), text("%50\\%%"), text("%50\\%%")]);

    let nowhere = build_filter("posts", &ListParams::searching("x", &[])).expect("filter");
    assert_eq!(nowhere.clause, " WHERE collection = ?1 AND 1 = 0");
}

#[test]
fn a_searched_field_must_be_an_identifier() {
    let error = build_filter("posts", &ListParams::searching("x", &["title", "x') OR 1=1 --"]))
        .expect_err("refused");
    assert_eq!(
        error,
        StorageError::InvalidField {
            field: "x') OR 1=1 --".to_string()
        }
    );
}

#[test]
fn the_order_is_by_id_or_by_a_field_then_id() {
    assert_eq!(build_order_by(&ListParams::default()).expect("order"), " ORDER BY id ASC");
    assert_eq!(
        build_order_by(&ListParams::sorted_by("title", SortDirection::Desc)).expect("order"),
        " ORDER BY json_extract(data, '$.title') DESC, id ASC"
    );
    assert!(build_order_by(&ListParams::sorted_by("Title", SortDirection::Asc)).is_err());
}

#[test]
fn paging_binds_both_numbers_when_either_is_asked_for() {
    let mut sql = String::from("SELECT");
    let mut values = vec![text("posts")];
    push_limit_offset(&mut sql, &mut values, &ListParams::default());
    assert_eq!(sql, "SELECT");
    assert_eq!(values.len(), 1);

    let params = ListParams {
        offset: Some(3),
        ..ListParams::default()
    };
    push_limit_offset(&mut sql, &mut values, &params);
    assert_eq!(sql, "SELECT LIMIT ?2 OFFSET ?3");
    assert_eq!(values, vec![text("posts"), SqlValue::Integer(-1), SqlValue::Integer(3)]);
}

#[test]
fn a_whole_list_statement() {
    let params = ListParams {
        limit: Some(10),
        ..ListParams::searching("hi", &["title"])
    };
    let (sql, values) = list_query("posts", &params).expect("query");
    assert_eq!(
        sql,
        format!(
            "SELECT {COLUMNS} FROM records WHERE collection = ?1 AND \
             (lower(json_extract(data, '$.title')) LIKE ?2 ESCAPE '\\') ORDER BY id ASC LIMIT ?3 OFFSET ?4"
        )
    );
    assert_eq!(
        values,
        vec![text("posts"), text("%hi%"), SqlValue::Integer(10), SqlValue::Integer(0)]
    );
}

#[test]
fn count_refuses_a_bad_sort_field_like_list_does() {
    let (sql, values) = count_query("posts", &ListParams::default()).expect("query");
    assert_eq!(sql, "SELECT count(*) FROM records WHERE collection = ?1");
    assert_eq!(values, vec![text("posts")]);
    let error = count_query("posts", &ListParams::sorted_by("a b", SortDirection::Asc)).expect_err("refused");
    assert_eq!(error, StorageError::InvalidField { field: "a b".to_string() });
}

#[test]
fn find_binds_the_key_as_sqlite_would_store_it() {
    let (sql, values) = find_query("posts", "slug", &Json::String("hello".to_string())).expect("query");
    assert_eq!(
        sql,
        format!("SELECT {COLUMNS} FROM records WHERE collection = ?1 AND json_extract(data, '$.slug') IS ?2 ORDER BY id ASC")
    );
    assert_eq!(values, vec![text("posts"), text("hello")]);
    let (_, values) = find_query("posts", "n", &Json::Bool(true)).expect("query");
    assert_eq!(values[1], SqlValue::Integer(1));
    assert!(find_query("posts", "Slug", &Json::Null).is_err());
}

#[test]
fn bound_values_follow_the_key() {
    assert_eq!(bound_value(&JsonKey::Null), SqlValue::Null);
    assert_eq!(bound_value(&JsonKey::Integer(-4)), SqlValue::Integer(-4));
    assert_eq!(
        bound_value(&JsonKey::Real(2.5f64.to_bits(), "2.5".to_string())),
        SqlValue::Real(2.5f64.to_bits())
    );
    assert_eq!(bound_value(&JsonKey::Text("x".to_string())), text("x"));
}

// ---------------------------------------------------------------------------
// Rows
// ---------------------------------------------------------------------------

#[test]
fn a_good_row_becomes_a_record() {
    let id = RecordId::new();
    let data = object(vec![("title", Json::String("Hello".to_string()))]);
    let record = record_from_raw(row(&id.as_string(), "{\"title\":\"Hello\"}"), Ok(data)).expect("record");
    assert_eq!(record.id, id);
    assert_eq!(record.collection, "posts");
    assert_eq!(record.created_at.nanos, 1);
    assert_eq!(record.updated_at.seconds, record.created_at.seconds + 1);
}

#[test]
fn a_bad_row_is_corrupt_and_names_itself() {
    let error = record_from_raw(row("not-a-ulid", "{}"), Ok(object(vec![]))).expect_err("corrupt");
    assert_eq!(
        error,
        StorageError::Corrupt {
            id: "not-a-ulid".to_string(),
            detail: "id is not a ULID".to_string()
        }
    );

    let id = RecordId::new().as_string();
    let error = record_from_raw(row(&id, "{"), Err("EOF while parsing".to_string())).expect_err("corrupt");
    assert_eq!(
        error,
        StorageError::Corrupt {
            id: id.clone(),
            detail: "data is not valid JSON: EOF while parsing".to_string()
        }
    );

    let error = record_from_raw(row(&id, "7"), Ok(Json::Number(JsonNumber::Int(7)))).expect_err("corrupt");
    assert!(error.message().contains("data is not a JSON object"));

    let mut late = row(&id, "{}");
    late.updated_at = "last tuesday".to_string();
    let error = record_from_raw(late, Ok(object(vec![]))).expect_err("corrupt");
    match error {
        StorageError::Corrupt { id: named, detail } => {
            assert_eq!(named, id);
            assert!(detail.starts_with("timestamp \"last tuesday\" is not RFC 3339: "), "{detail}");
        }
        other => panic!("expected Corrupt, got {other:?}"),
    }
}

#[test]
fn a_timestamp_is_read_in_utc() {
    let id = RecordId::new();
    assert_eq!(
        parse(&id, "1970-01-01T01:00:00+01:00").expect("parses"),
        Timestamp { seconds: 0, nanos: 0 }
    );
    let error = parse(&id, "last tuesday").expect_err("not a timestamp");
    assert!(error.message().contains(&id.as_string()));
}

// ---------------------------------------------------------------------------
// Migrations
// ---------------------------------------------------------------------------

#[test]
fn the_latest_version_is_the_highest_migration() {
    assert_eq!(latest_version(), 1);
}

#[test]
fn a_fresh_file_runs_the_first_migration_and_a_current_one_runs_nothing() {
    let steps = plan(0).expect("plan");
    assert_eq!(steps, vec![(1, INIT_SCRIPT)]);
    assert!(plan(1).expect("plan").is_empty());
}

#[test]
fn a_future_schema_version_is_refused_naming_both_numbers() {
    match plan(999) {
        Err(StorageError::Migration { detail }) => {
            assert!(detail.contains("999"), "{detail}");
            assert!(detail.contains(&latest_version().to_string()), "{detail}");
            assert_eq!(
                detail,
                "database is at schema version 999, but this build of pressa understands only up to 1; use a newer pressa"
            );
        }
        other => panic!("expected Migration, got {other:?}"),
    }
}

#[test]
fn a_version_that_is_not_a_number_is_refused() {
    assert_eq!(stored_version(false, None), Ok(0));
    assert_eq!(stored_version(true, None), Ok(0));
    assert_eq!(stored_version(true, Some("7".to_string())), Ok(7));
    assert_eq!(
        stored_version(true, Some("banana".to_string())),
        Err(StorageError::Migration {
            detail: "schema_version is \"banana\", which is not a version number".to_string()
        })
    );
}

#[test]
fn versions_read_as_the_standard_library_reads_them() {
    for text in [
        "0", "1", "+1", "007", "4294967295", "4294967296", "", "+", "-1", " 1", "1 ", "1a", "99999999999", "+0",
    ] {
        assert_eq!(parse_version(text), text.parse::<u32>().ok(), "{text:?}");
    }
}

// ---------------------------------------------------------------------------
// Integers as doubles
// ---------------------------------------------------------------------------

#[test]
fn integers_convert_to_the_nearest_double() {
    let mut samples: Vec<i64> = vec![
        0,
        1,
        -1,
        2,
        3,
        7,
        -7,
        1 << 52,
        (1 << 53) - 1,
        1 << 53,
        (1 << 53) + 1,
        (1 << 53) + 2,
        (1 << 53) + 3,
        (1 << 54) + 2,
        (1 << 54) + 6,
        i64::MAX,
        i64::MIN,
        i64::MAX - 511,
        i64::MAX - 512,
        i64::MIN + 1,
        -((1 << 53) + 1),
        9_007_199_254_740_993,
        123_456_789_012_345_678,
    ];
    let mut x: u64 = 0x9E37_79B9_7F4A_7C15;
    for _ in 0..2000 {
        x ^= x << 13;
        x ^= x >> 7;
        x ^= x << 17;
        samples.push(x as i64);
        samples.push((x >> (x % 60)) as i64);
    }
    for i in samples {
        assert_eq!(real_bits(i), (i as f64).to_bits(), "{i}");
    }
}

#[test]
fn a_real_round_trips_its_texts() {
    let r = Real {
        bits: 0.1f64.to_bits(),
        sql_text: "0.1".to_string(),
        json_text: "0.1".to_string(),
    };
    let key = JsonKey::of(Some(&Json::Number(JsonNumber::Real(r))));
    assert_eq!(key.as_search_text().as_deref(), Some("0.1"));
}
