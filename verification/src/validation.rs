//! Record validation: does this JSON document match its collection's schema?
//!
//! Records are stored as JSON with no database-level typing, so this module is
//! the only guarantee that stored data is renderable.

use vstd::prelude::*;

use crate::clock::{read_rfc3339, rfc3339_valid};
use crate::config::names_field;
use crate::json::{member, Json};
use crate::schema::{strings_view, Collection, CollectionView, Field, FieldType, FieldTypeView, FieldView, fields_view};
use crate::text::{chars_eq, chars_of, concat2, join, joined, owned};

verus! {

/// What tests assert on. The prose in `message` is for humans only.
#[derive(Clone, Copy, Debug, PartialEq, Eq, Structural)]
pub enum ErrorCode {
    Required,
    TypeMismatch,
    NotInOptions,
    UnknownField,
    /// Never produced by [`validate_record`] — it needs storage.
    NotUnique,
    InvalidDateTime,
    InvalidJson,
}

/// One violation, addressed to the field it belongs to so the editor can
/// render it under that input.
#[derive(Debug, PartialEq, Eq)]
pub struct FieldError {
    /// Field name, or `""` when the document itself is not an object.
    pub field: String,
    pub code: ErrorCode,
    /// Human-readable, lowercase, without the field name.
    pub message: String,
}

pub struct FieldErrorView {
    pub field: Seq<char>,
    pub code: ErrorCode,
    pub message: Seq<char>,
}

impl View for FieldError {
    type V = FieldErrorView;

    open spec fn view(&self) -> FieldErrorView {
        FieldErrorView { field: self.field@, code: self.code, message: self.message@ }
    }
}

impl Clone for FieldError {
    fn clone(&self) -> (r: Self)
        ensures
            r@ == self@,
    {
        FieldError { field: self.field.clone(), code: self.code, message: self.message.clone() }
    }
}

pub open spec fn field_errors_view(v: Seq<FieldError>) -> Seq<FieldErrorView> {
    v.map_values(|e: FieldError| e@)
}

impl FieldError {
    /// An error for `field` with `code` and `message`.
    pub fn new(field: &str, code: ErrorCode, message: &str) -> (e: FieldError)
        ensures
            e@ == (FieldErrorView { field: field@, code, message: message@ }),
    {
        FieldError { field: owned(field), code, message: owned(message) }
    }
}


/// The per-type table: `None` when `value` is acceptable for `kind`, else the
/// code and message.
pub open spec fn type_problem(kind: FieldTypeView, value: Json) -> Option<(ErrorCode, Seq<char>)> {
    match kind {
        FieldTypeView::Text | FieldTypeView::Textarea => match value {
            Json::String(_) => None,
            _ => Some((ErrorCode::TypeMismatch, "must be text"@)),
        },
        FieldTypeView::Number => match value {
            Json::Number(_) => None,
            _ => Some((ErrorCode::TypeMismatch, "must be a number"@)),
        },
        FieldTypeView::Boolean => match value {
            Json::Bool(_) => None,
            _ => Some((ErrorCode::TypeMismatch, "must be true or false"@)),
        },
        FieldTypeView::DateTime => match value {
            Json::String(text) => if rfc3339_valid(text@) {
                None
            } else {
                Some((ErrorCode::InvalidDateTime, "must be a date like 2026-09-06T12:00:00Z"@))
            },
            _ => Some((ErrorCode::TypeMismatch, "must be a date"@)),
        },
        FieldTypeView::Select { options } => match value {
            Json::String(text) => if options.contains(text@) {
                None
            } else {
                Some((ErrorCode::NotInOptions, "must be one of: "@ + joined(options, ", "@)))
            },
            _ => Some((ErrorCode::TypeMismatch, "must be text"@)),
        },
        FieldTypeView::Json => None,
    }
}

/// A field is present when its key is there and not `null`.
pub open spec fn present(value: Option<Json>) -> Option<Json> {
    match value {
        Some(Json::Null) => None,
        None => None,
        Some(v) => Some(v),
    }
}

/// An empty string: a user leaving the box blank.
pub open spec fn is_blank(value: Option<Json>) -> bool {
    match value {
        Some(Json::String(text)) => text@.len() == 0,
        _ => false,
    }
}

/// The error one field has, given the value its key holds (`None`: missing).
pub open spec fn field_problem(field: FieldView, value: Option<Json>) -> Option<FieldErrorView> {
    let p = present(value);
    if field.required && (p is None || is_blank(p)) {
        Some(FieldErrorView { field: field.name, code: ErrorCode::Required, message: "required"@ })
    } else {
        match p {
            None => None,
            Some(v) => match type_problem(field.kind, v) {
                None => None,
                Some((code, message)) => Some(FieldErrorView { field: field.name, code, message }),
            },
        }
    }
}

pub open spec fn opt_seq<T>(o: Option<T>) -> Seq<T> {
    match o {
        Some(t) => seq![t],
        None => Seq::empty(),
    }
}

/// The errors of `fields`, in schema order, against document `data`.
pub open spec fn schema_field_errors(fields: Seq<FieldView>, data: Json) -> Seq<FieldErrorView>
    decreases fields.len(),
{
    if fields.len() == 0 {
        Seq::empty()
    } else {
        schema_field_errors(fields.drop_last(), data) + opt_seq(field_problem(fields.last(), member(data, fields.last().name)))
    }
}

/// An `UnknownField` for every member the schema has no field for, in
/// document order.
pub open spec fn unknown_key_errors(members: Seq<(String, Json)>, fields: Seq<FieldView>) -> Seq<FieldErrorView>
    decreases members.len(),
{
    if members.len() == 0 {
        Seq::empty()
    } else {
        let key = members.last().0@;
        unknown_key_errors(members.drop_last(), fields) + if names_field(fields, key) {
            Seq::empty()
        } else {
            seq![FieldErrorView { field: key, code: ErrorCode::UnknownField, message: "unknown field"@ }]
        }
    }
}

/// Every violation of `data` against `collection`: schema-order field errors
/// first, then unknown keys; a non-object is one `TypeMismatch` for `""`.
pub open spec fn record_errors(collection: CollectionView, data: Json) -> Seq<FieldErrorView> {
    match data {
        Json::Object(members) => schema_field_errors(collection.fields, data) + unknown_key_errors(members@, collection.fields),
        _ => seq![FieldErrorView { field: ""@, code: ErrorCode::TypeMismatch, message: "must be a JSON object"@ }],
    }
}

/// The outcome [`validate_record`] owes.
pub open spec fn validation_outcome(collection: CollectionView, data: Json) -> Result<(), Seq<FieldErrorView>> {
    let errors = record_errors(collection, data);
    if errors.len() == 0 {
        Ok(())
    } else {
        Err(errors)
    }
}

/// The per-type table: the code and message for `value`, or `None` when
/// `kind` accepts it.
pub fn check_type(kind: &FieldType, value: &Json) -> (r: Option<(ErrorCode, String)>)
    ensures
        match r {
            None => type_problem(kind@, *value) is None,
            Some((code, message)) => type_problem(kind@, *value) == Some((code, message@)),
        },
{
    match kind {
        FieldType::Text | FieldType::Textarea => match value {
            Json::String(_) => None,
            _ => Some((ErrorCode::TypeMismatch, owned("must be text"))),
        },
        FieldType::Number => match value {
            Json::Number(_) => None,
            _ => Some((ErrorCode::TypeMismatch, owned("must be a number"))),
        },
        FieldType::Boolean => match value {
            Json::Bool(_) => None,
            _ => Some((ErrorCode::TypeMismatch, owned("must be true or false"))),
        },
        FieldType::DateTime => match value {
            Json::String(text) => if read_rfc3339(text.as_str()).is_ok() {
                None
            } else {
                Some((ErrorCode::InvalidDateTime, owned("must be a date like 2026-09-06T12:00:00Z")))
            },
            _ => Some((ErrorCode::TypeMismatch, owned("must be a date"))),
        },
        FieldType::Select { options } => match value {
            Json::String(text) => {
                if option_listed(options, text.as_str()) {
                    None
                } else {
                    let list = join(options, ", ");
                    Some((ErrorCode::NotInOptions, concat2("must be one of: ", list.as_str())))
                }
            },
            _ => Some((ErrorCode::TypeMismatch, owned("must be text"))),
        },
        FieldType::Json => None,
    }
}

/// Whether `text` is one of `options`.
fn option_listed(options: &Vec<String>, text: &str) -> (r: bool)
    ensures
        r == strings_view(options@).contains(text@),
{
    let wanted = chars_of(text);
    let mut i: usize = 0;
    while i < options.len()
        invariant
            0 <= i <= options.len(),
            wanted@ == text@,
            forall|j: int| 0 <= j < i ==> #[trigger] options@[j]@ != text@,
        decreases options.len() - i,
    {
        let have = chars_of(options[i].as_str());
        if chars_eq(&have, &wanted) {
            assert(strings_view(options@)[i as int] == text@);
            return true;
        }
        i = i + 1;
    }
    assert forall|j: int| 0 <= j < strings_view(options@).len() implies strings_view(options@)[j] != text@ by {
        assert(options@[j]@ != text@);
    }
    false
}

/// One field: `value` is `None` when the key is missing entirely.
pub fn check_field(field: &Field, value: Option<&Json>) -> (r: Option<FieldError>)
    ensures
        match r {
            None => field_problem(field@, match value { Some(v) => Some(*v), None => None }) is None,
            Some(e) => field_problem(field@, match value { Some(v) => Some(*v), None => None }) == Some(e@),
        },
{
    let present: Option<&Json> = match value {
        Some(Json::Null) => None,
        None => None,
        Some(v) => Some(v),
    };
    let blank = match present {
        Some(Json::String(text)) => text.as_str().unicode_len() == 0,
        _ => false,
    };
    if field.required && (present.is_none() || blank) {
        return Some(FieldError::new(field.name.as_str(), ErrorCode::Required, "required"));
    }
    match present {
        None => None,
        Some(v) => match check_type(&field.kind, v) {
            None => None,
            Some((code, message)) => Some(FieldError { field: field.name.clone(), code, message }),
        },
    }
}

/// Whether `fields` has one called `name`.
fn is_schema_field(fields: &Vec<Field>, name: &str) -> (r: bool)
    ensures
        r == names_field(fields_view(fields@), name@),
{
    let wanted = chars_of(name);
    let mut j: usize = 0;
    while j < fields.len()
        invariant
            0 <= j <= fields.len(),
            wanted@ == name@,
            forall|k: int| 0 <= k < j ==> #[trigger] fields@[k]@.name != name@,
        decreases fields.len() - j,
    {
        let have = chars_of(fields[j].name.as_str());
        if chars_eq(&have, &wanted) {
            assert(fields_view(fields@)[j as int].name == name@);
            return true;
        }
        j = j + 1;
    }
    assert forall|k: int| 0 <= k < fields.len() implies fields_view(fields@)[k].name != name@ by {
        assert(fields@[k]@.name != name@);
    }
    false
}

/// Validates `data` against `collection`, returning **every** violation:
/// errors in schema field order, then unknown keys.
#[verifier::loop_isolation(false)]
pub fn validate_record(collection: &Collection, data: &Json) -> (r: Result<(), Vec<FieldError>>)
    ensures
        match r {
            Ok(()) => validation_outcome(collection@, *data) == Ok::<(), Seq<FieldErrorView>>(()),
            Err(errors) => validation_outcome(collection@, *data) == Err::<(), Seq<FieldErrorView>>(field_errors_view(errors@)),
        },
{
    let members = match data {
        Json::Object(members) => members,
        _ => {
            let mut errors: Vec<FieldError> = Vec::new();
            errors.push(FieldError::new("", ErrorCode::TypeMismatch, "must be a JSON object"));
            assert(field_errors_view(errors@) =~= record_errors(collection@, *data));
            return Err(errors);
        },
    };
    let ghost fields = collection@.fields;
    let mut errors: Vec<FieldError> = Vec::new();
    let mut i: usize = 0;
    assert(fields.take(0) =~= Seq::<FieldView>::empty());
    assert(field_errors_view(errors@) =~= Seq::<FieldErrorView>::empty());
    while i < collection.fields.len()
        invariant
            0 <= i <= collection.fields.len(),
            fields == collection@.fields,
            fields.len() == collection.fields.len(),
            field_errors_view(errors@) == schema_field_errors(fields.take(i as int), *data),
        decreases collection.fields.len() - i,
    {
        let field = &collection.fields[i];
        let value = data.get(field.name.as_str());
        assert(fields[i as int] == field@);
        assert(fields.take(i + 1).drop_last() =~= fields.take(i as int));
        let ghost prev = field_errors_view(errors@);
        match check_field(field, value) {
            Some(error) => {
                let ghost made = error@;
                errors.push(error);
                assert(field_errors_view(errors@) =~= prev.push(made));
            },
            None => {},
        }
        i = i + 1;
    }
    assert(fields.take(fields.len() as int) =~= fields);
    let ghost known = field_errors_view(errors@);
    let mut k: usize = 0;
    assert(members@.take(0) =~= Seq::<(String, Json)>::empty());
    while k < members.len()
        invariant
            0 <= k <= members.len(),
            fields == collection@.fields,
            known == schema_field_errors(fields, *data),
            field_errors_view(errors@) == known + unknown_key_errors(members@.take(k as int), fields),
        decreases members.len() - k,
    {
        let key = members[k].0.as_str();
        assert(members@.take(k + 1).drop_last() =~= members@.take(k as int));
        let ghost prev = field_errors_view(errors@);
        if !is_schema_field(&collection.fields, key) {
            let error = FieldError::new(key, ErrorCode::UnknownField, "unknown field");
            let ghost made = error@;
            errors.push(error);
            assert(field_errors_view(errors@) =~= prev.push(made));
        } else {
            assert(prev + Seq::<FieldErrorView>::empty() =~= prev);
        }
        k = k + 1;
    }
    assert(members@.take(members.len() as int) =~= members@);
    if errors.len() == 0 {
        Ok(())
    } else {
        Err(errors)
    }
}

// ---------------------------------------------------------------------------
// Laws
// ---------------------------------------------------------------------------

proof fn lemma_schema_errors_codes(fields: Seq<FieldView>, data: Json)
    ensures
        forall|k: int| 0 <= k < schema_field_errors(fields, data).len() ==> (#[trigger] schema_field_errors(fields, data)[k]).code != ErrorCode::NotUnique
            && schema_field_errors(fields, data)[k].code != ErrorCode::UnknownField,
    decreases fields.len(),
{
    if fields.len() > 0 {
        lemma_schema_errors_codes(fields.drop_last(), data);
        let rest = schema_field_errors(fields.drop_last(), data);
        let all = schema_field_errors(fields, data);
        assert forall|k: int| 0 <= k < all.len() implies (#[trigger] all[k]).code != ErrorCode::NotUnique && all[k].code != ErrorCode::UnknownField by {
            if k < rest.len() {
                assert(all[k] == rest[k]);
            }
        }
    }
}

proof fn lemma_unknown_key_codes(members: Seq<(String, Json)>, fields: Seq<FieldView>)
    ensures
        forall|k: int| 0 <= k < unknown_key_errors(members, fields).len() ==> (#[trigger] unknown_key_errors(members, fields)[k]).code == ErrorCode::UnknownField,
    decreases members.len(),
{
    if members.len() > 0 {
        lemma_unknown_key_codes(members.drop_last(), fields);
        let rest = unknown_key_errors(members.drop_last(), fields);
        let all = unknown_key_errors(members, fields);
        assert forall|k: int| 0 <= k < all.len() implies (#[trigger] all[k]).code == ErrorCode::UnknownField by {
            if k < rest.len() {
                assert(all[k] == rest[k]);
            }
        }
    }
}

/// Validation against the schema never reports `NotUnique`: uniqueness needs
/// storage, so only the record service can report it.
pub proof fn validation_never_reports_not_unique(collection: CollectionView, data: Json)
    ensures
        forall|k: int| 0 <= k < record_errors(collection, data).len() ==> (#[trigger] record_errors(collection, data)[k]).code != ErrorCode::NotUnique,
{
    if let Json::Object(members) = data {
        lemma_schema_errors_codes(collection.fields, data);
        lemma_unknown_key_codes(members@, collection.fields);
        let a = schema_field_errors(collection.fields, data);
        let b = unknown_key_errors(members@, collection.fields);
        assert forall|k: int| 0 <= k < (a + b).len() implies (#[trigger] (a + b)[k]).code != ErrorCode::NotUnique by {
            if k < a.len() {
                assert((a + b)[k] == a[k]);
            } else {
                assert((a + b)[k] == b[k - a.len()]);
            }
        }
    }
}

/// The errors come schema fields first, then unknown keys: every error
/// before the first `UnknownField` is about a schema field.
pub proof fn schema_errors_come_before_unknown_keys(collection: CollectionView, data: Json, i: int, j: int)
    requires
        data is Object,
        0 <= i < j < record_errors(collection, data).len(),
        record_errors(collection, data)[i].code == ErrorCode::UnknownField,
    ensures
        record_errors(collection, data)[j].code == ErrorCode::UnknownField,
{
    if let Json::Object(members) = data {
        lemma_schema_errors_codes(collection.fields, data);
        lemma_unknown_key_codes(members@, collection.fields);
        let a = schema_field_errors(collection.fields, data);
        let b = unknown_key_errors(members@, collection.fields);
        assert(record_errors(collection, data) == a + b);
        if i < a.len() {
            assert((a + b)[i] == a[i]);
        }
        assert((a + b)[j] == b[j - a.len()]);
    }
}

/// A textarea holds exactly what a text field holds: a JSON string, and
/// anything else is refused as "must be text".
pub proof fn a_textarea_holds_exactly_text(value: Json)
    ensures
        type_problem(FieldTypeView::Textarea, value) == type_problem(FieldTypeView::Text, value),
        (type_problem(FieldTypeView::Textarea, value) is None) == (value is String),
        !(value is String) ==> type_problem(FieldTypeView::Textarea, value) == Some((ErrorCode::TypeMismatch, "must be text"@)),
{
}

} // verus!
