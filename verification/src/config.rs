//! Validating a parsed `pressa.yaml` into a [`Schema`].
//!
//! Two passes on purpose. The YAML parser fills a permissive `Raw*` shape —
//! the field type stays a string — and this module turns that into the domain
//! types, so every rejection can carry the YAML path that caused it.

use vstd::prelude::*;

use indexmap::IndexMap;

use crate::schema::{
    collection_entries, entry_values, index_of_slug, insert_collection, key_index, keys_distinct, lemma_find_slug_from, new_collections,
    identifier, is_identifier, strings_view, fields_view, Collection, CollectionCapabilities,
    CollectionView, collections_view, DatabaseConfig, Field, FieldType, ProjectConfig, FieldTypeView, FieldView, Schema, SchemaView,
    FIELD_TYPE_NAMES, IDENTIFIER_PATTERN,
};
use crate::text::{chars_eq, chars_of, concat2, decimal, owned, push_char, push_decimal, str_eq};

verus! {

/// Where the database goes when `database.path` is omitted.
pub const DEFAULT_DATABASE_PATH: &'static str = ".pressa/data.db";

/// How many fields become table columns when `list_columns` is omitted.
pub const DEFAULT_LIST_COLUMNS: usize = 4;

// ---------------------------------------------------------------------------
// Errors
// ---------------------------------------------------------------------------

/// Everything that can go wrong finding or reading the schema.
#[derive(Debug, PartialEq, Eq)]
pub enum ConfigError {
    /// The walk up from `searched_from` reached the filesystem root.
    NotFound { searched_from: String },
    /// The file could not be read.
    Io { path: String, message: String },
    /// The file is not YAML of the expected shape.
    Parse { path: String, message: String },
    /// The file parsed, but says something the schema does not allow.
    /// `path` is the YAML path, e.g. `collections.posts.fields[3].type`.
    Invalid { path: String, problem: String },
}

pub enum ConfigErrorView {
    NotFound { searched_from: Seq<char> },
    Io { path: Seq<char>, message: Seq<char> },
    Parse { path: Seq<char>, message: Seq<char> },
    Invalid { path: Seq<char>, problem: Seq<char> },
}

impl View for ConfigError {
    type V = ConfigErrorView;

    open spec fn view(&self) -> ConfigErrorView {
        match self {
            ConfigError::NotFound { searched_from } => ConfigErrorView::NotFound { searched_from: searched_from@ },
            ConfigError::Io { path, message } => ConfigErrorView::Io { path: path@, message: message@ },
            ConfigError::Parse { path, message } => ConfigErrorView::Parse { path: path@, message: message@ },
            ConfigError::Invalid { path, problem } => ConfigErrorView::Invalid { path: path@, problem: problem@ },
        }
    }
}

/// The one line a user reads for a configuration error.
pub open spec fn config_message(e: ConfigErrorView) -> Seq<char> {
    match e {
        ConfigErrorView::NotFound { searched_from } => "no "@ + crate::discovery::CONFIG_FILE@ + " found in "@ + searched_from
            + " or any parent directory"@,
        ConfigErrorView::Io { path, message } => path + ": "@ + message,
        ConfigErrorView::Parse { path, message } => path + ": "@ + message,
        ConfigErrorView::Invalid { path, problem } => path + ": "@ + problem,
    }
}

impl ConfigError {
    /// The one line a user reads for this error.
    pub fn message(&self) -> (m: String)
        ensures
            m@ == config_message(self@),
    {
        let mut m = String::new();
        match self {
            ConfigError::NotFound { searched_from } => {
                m.append("no ");
                m.append(crate::discovery::CONFIG_FILE);
                m.append(" found in ");
                m.append(searched_from.as_str());
                m.append(" or any parent directory");
            },
            ConfigError::Io { path, message } => {
                m.append(path.as_str());
                m.append(": ");
                m.append(message.as_str());
            },
            ConfigError::Parse { path, message } => {
                m.append(path.as_str());
                m.append(": ");
                m.append(message.as_str());
            },
            ConfigError::Invalid { path, problem } => {
                m.append(path.as_str());
                m.append(": ");
                m.append(problem.as_str());
            },
        }
        m
    }
}

/// The `Invalid` error for `path` and `problem`.
pub open spec fn invalid(path: Seq<char>, problem: Seq<char>) -> ConfigErrorView {
    ConfigErrorView::Invalid { path, problem }
}

// ---------------------------------------------------------------------------
// The file as written
// ---------------------------------------------------------------------------

#[derive(Debug)]
pub struct RawSchema {
    pub project: RawProject,
    pub database: RawDatabase,
    /// `(slug, collection)` in file order.
    pub collections: Vec<(String, RawCollection)>,
}

#[derive(Debug)]
pub struct RawProject {
    pub name: String,
}

#[derive(Debug)]
pub struct RawDatabase {
    pub path: Option<String>,
}

#[derive(Debug)]
pub struct RawCollection {
    pub label: Option<String>,
    pub list_columns: Option<Vec<String>>,
    pub fields: Vec<RawField>,
}

#[derive(Debug)]
pub struct RawField {
    pub name: String,
    pub label: Option<String>,
    /// What the file wrote under `type`.
    pub kind: String,
    pub required: bool,
    pub unique: bool,
    pub options: Option<Vec<String>>,
}

pub open spec fn opt_view(o: Option<String>) -> Option<Seq<char>> {
    match o {
        Some(s) => Some(s@),
        None => None,
    }
}

pub open spec fn opt_strings_view(o: Option<Vec<String>>) -> Option<Seq<Seq<char>>> {
    match o {
        Some(v) => Some(strings_view(v@)),
        None => None,
    }
}

pub struct RawFieldView {
    pub name: Seq<char>,
    pub label: Option<Seq<char>>,
    pub kind: Seq<char>,
    pub required: bool,
    pub unique: bool,
    pub options: Option<Seq<Seq<char>>>,
}

impl View for RawField {
    type V = RawFieldView;

    open spec fn view(&self) -> RawFieldView {
        RawFieldView {
            name: self.name@,
            label: opt_view(self.label),
            kind: self.kind@,
            required: self.required,
            unique: self.unique,
            options: opt_strings_view(self.options),
        }
    }
}

pub open spec fn raw_fields_view(v: Seq<RawField>) -> Seq<RawFieldView> {
    v.map_values(|f: RawField| f@)
}

pub struct RawCollectionView {
    pub label: Option<Seq<char>>,
    pub list_columns: Option<Seq<Seq<char>>>,
    pub fields: Seq<RawFieldView>,
}

impl View for RawCollection {
    type V = RawCollectionView;

    open spec fn view(&self) -> RawCollectionView {
        RawCollectionView {
            label: opt_view(self.label),
            list_columns: opt_strings_view(self.list_columns),
            fields: raw_fields_view(self.fields@),
        }
    }
}

pub open spec fn raw_entries_view(v: Seq<(String, RawCollection)>) -> Seq<(Seq<char>, RawCollectionView)> {
    v.map_values(|entry: (String, RawCollection)| (entry.0@, entry.1@))
}

pub struct RawSchemaView {
    pub project_name: Seq<char>,
    pub database_path: Option<Seq<char>>,
    pub collections: Seq<(Seq<char>, RawCollectionView)>,
}

impl View for RawSchema {
    type V = RawSchemaView;

    open spec fn view(&self) -> RawSchemaView {
        RawSchemaView {
            project_name: self.project.name@,
            database_path: opt_view(self.database.path),
            collections: raw_entries_view(self.collections@),
        }
    }
}

// ---------------------------------------------------------------------------
// The rules, as functions of the views
// ---------------------------------------------------------------------------

/// `path[index]`.
pub open spec fn indexed(path: Seq<char>, name: Seq<char>, index: nat) -> Seq<char> {
    path + name + seq!['['] + decimal(index) + seq![']']
}

/// `'text'`.
pub open spec fn quoted(text: Seq<char>) -> Seq<char> {
    seq!['\''] + text + seq!['\'']
}

/// The problem every name that is not an identifier has.
pub open spec fn not_an_identifier() -> Seq<char> {
    "must match "@ + IDENTIFIER_PATTERN@
}

/// Whether some string before position `i` of `v` equals `v[i]`.
pub open spec fn repeats_earlier(v: Seq<Seq<char>>, i: int) -> bool {
    exists|j: int| 0 <= j < i && v[j] == v[i]
}

/// The first position at or after `from` whose string appeared before it.
pub open spec fn first_repeat_from(v: Seq<Seq<char>>, from: int) -> Option<int>
    decreases v.len() - from,
{
    if from < 0 || from >= v.len() {
        None
    } else if repeats_earlier(v, from) {
        Some(from)
    } else {
        first_repeat_from(v, from + 1)
    }
}

/// What a `select` field's `options` turn into.
pub open spec fn select_result(at: Seq<char>, options: Option<Seq<Seq<char>>>) -> Result<FieldTypeView, ConfigErrorView> {
    match options {
        None => Err(invalid(at + ".options"@, "required for type 'select'"@)),
        Some(opts) => if opts.len() == 0 {
            Err(invalid(at + ".options"@, "at least one option is required"@))
        } else {
            match first_repeat_from(opts, 0) {
                Some(i) => Err(invalid(indexed(at, ".options"@, i as nat), "duplicate option "@ + quoted(opts[i]))),
                None => Ok(FieldTypeView::Select { options: opts }),
            }
        },
    }
}

/// What a field's `type` (and `options`) turn into.
pub open spec fn field_type_result(at: Seq<char>, kind: Seq<char>, options: Option<Seq<Seq<char>>>) -> Result<FieldTypeView, ConfigErrorView> {
    if kind == "text"@ {
        Ok(FieldTypeView::Text)
    } else if kind == "textarea"@ {
        Ok(FieldTypeView::Textarea)
    } else if kind == "number"@ {
        Ok(FieldTypeView::Number)
    } else if kind == "boolean"@ {
        Ok(FieldTypeView::Boolean)
    } else if kind == "datetime"@ {
        Ok(FieldTypeView::DateTime)
    } else if kind == "json"@ {
        Ok(FieldTypeView::Json)
    } else if kind == "select"@ {
        select_result(at, options)
    } else {
        Err(invalid(
            at + ".type"@,
            "unknown field type "@ + quoted(kind) + " (expected one of: "@ + FIELD_TYPE_NAMES@ + ")"@,
        ))
    }
}

/// What `char::to_uppercase` makes of `c`, as text.
pub uninterp spec fn char_upper(c: char) -> Seq<char>;

/// `_` replaced by a space.
pub open spec fn unscored(s: Seq<char>) -> Seq<char> {
    s.map_values(|c: char| if c == '_' { ' ' } else { c })
}

/// The capital of `c`: for `a`-`z` its ASCII capital, otherwise what
/// `char::to_uppercase` makes of it.
pub open spec fn capital(c: char) -> Seq<char> {
    if 'a' <= c && c <= 'z' { seq![((c as u32) - 32) as char] } else { char_upper(c) }
}

/// `published_at` -> `Published at`: underscores become spaces and the first
/// letter is capitalised.
pub open spec fn titlecased(s: Seq<char>) -> Seq<char> {
    let spaced = unscored(s);
    if spaced.len() == 0 {
        spaced
    } else {
        capital(spaced[0]) + spaced.drop_first()
    }
}

/// Whether a field called `name` is among `fields`.
pub open spec fn names_field(fields: Seq<FieldView>, name: Seq<char>) -> bool {
    exists|j: int| 0 <= j < fields.len() && fields[j].name == name
}

/// What one raw field turns into, given the fields accepted before it.
pub open spec fn field_result(collection_at: Seq<char>, index: nat, raw: RawFieldView, seen: Seq<FieldView>) -> Result<FieldView, ConfigErrorView> {
    let at = indexed(collection_at, ".fields"@, index);
    if !identifier(raw.name) {
        Err(invalid(at + ".name"@, not_an_identifier()))
    } else if names_field(seen, raw.name) {
        Err(invalid(at + ".name"@, "duplicate field name "@ + quoted(raw.name)))
    } else {
        match field_type_result(at, raw.kind, raw.options) {
            Err(e) => Err(e),
            Ok(kind) => Ok(FieldView {
                name: raw.name,
                label: match raw.label {
                    Some(l) => l,
                    None => titlecased(raw.name),
                },
                kind,
                required: raw.required,
                unique: raw.unique,
            }),
        }
    }
}

/// The raw fields from `from` on, validated in order after `done`.
pub open spec fn fields_result(at: Seq<char>, raws: Seq<RawFieldView>, from: int, done: Seq<FieldView>) -> Result<Seq<FieldView>, ConfigErrorView>
    decreases raws.len() - from,
{
    if from < 0 || from >= raws.len() {
        Ok(done)
    } else {
        match field_result(at, from as nat, raws[from], done) {
            Err(e) => Err(e),
            Ok(f) => fields_result(at, raws, from + 1, done.push(f)),
        }
    }
}

/// The first column at or after `from` that names no field.
pub open spec fn first_unknown_column_from(columns: Seq<Seq<char>>, fields: Seq<FieldView>, from: int) -> Option<int>
    decreases columns.len() - from,
{
    if from < 0 || from >= columns.len() {
        None
    } else if !names_field(fields, columns[from]) {
        Some(from)
    } else {
        first_unknown_column_from(columns, fields, from + 1)
    }
}

/// The names of the first `n` fields, or of all of them if there are fewer.
pub open spec fn leading_names(fields: Seq<FieldView>, n: nat) -> Seq<Seq<char>> {
    let k = if fields.len() < n { fields.len() } else { n };
    fields.take(k as int).map_values(|f: FieldView| f.name)
}

/// What `list_columns` turns into.
pub open spec fn columns_result(at: Seq<char>, columns: Option<Seq<Seq<char>>>, fields: Seq<FieldView>) -> Result<Seq<Seq<char>>, ConfigErrorView> {
    match columns {
        Some(cols) => match first_unknown_column_from(cols, fields, 0) {
            Some(i) => Err(invalid(indexed(at, ".list_columns"@, i as nat), "unknown field "@ + quoted(cols[i]))),
            None => Ok(cols),
        },
        None => Ok(leading_names(fields, DEFAULT_LIST_COLUMNS as nat)),
    }
}

/// Every capability granted.
pub open spec fn all_capabilities() -> CollectionCapabilities {
    CollectionCapabilities { create: true, read: true, update: true, delete: true }
}

/// What one raw collection turns into.
pub open spec fn collection_result(slug: Seq<char>, raw: RawCollectionView) -> Result<CollectionView, ConfigErrorView> {
    let at = "collections."@ + slug;
    if !identifier(slug) {
        Err(invalid(at, not_an_identifier()))
    } else if raw.fields.len() == 0 {
        Err(invalid(at + ".fields"@, "at least one field is required"@))
    } else {
        match fields_result(at, raw.fields, 0, Seq::empty()) {
            Err(e) => Err(e),
            Ok(fields) => match columns_result(at, raw.list_columns, fields) {
                Err(e) => Err(e),
                Ok(list_columns) => Ok(CollectionView {
                    slug,
                    label: match raw.label {
                        Some(l) => l,
                        None => titlecased(slug),
                    },
                    fields,
                    list_columns,
                    capabilities: all_capabilities(),
                }),
            },
        }
    }
}

/// The raw collections from `from` on, validated in order after `done`.
pub open spec fn collections_result(raws: Seq<(Seq<char>, RawCollectionView)>, from: int, done: Seq<CollectionView>) -> Result<Seq<CollectionView>, ConfigErrorView>
    decreases raws.len() - from,
{
    if from < 0 || from >= raws.len() {
        Ok(done)
    } else {
        match collection_result(raws[from].0, raws[from].1) {
            Err(e) => Err(e),
            Ok(c) => collections_result(raws, from + 1, placed(done, c)),
        }
    }
}

/// `done` with `c` put under its slug: a slug seen before keeps its place
/// and takes the new collection, a new one goes last.
pub open spec fn placed(done: Seq<CollectionView>, c: CollectionView) -> Seq<CollectionView> {
    match index_of_slug(done, c.slug) {
        Some(j) => done.update(j, c),
        None => done.push(c),
    }
}

/// Every key is the slug of its collection.
pub open spec fn keyed_by_slug(entries: Seq<(Seq<char>, CollectionView)>) -> bool {
    forall|k: int| 0 <= k < entries.len() ==> (#[trigger] entries[k]).0 == entries[k].1.slug
}

/// In a map keyed by slug, looking a key up finds what looking the slug up
/// among the values finds.
proof fn lemma_key_is_slug(entries: Seq<(Seq<char>, CollectionView)>, slug: Seq<char>)
    requires
        keyed_by_slug(entries),
        keys_distinct(entries),
    ensures
        key_index(entries, slug) == index_of_slug(entry_values(entries), slug),
{
    let values = entry_values(entries);
    lemma_find_slug_from(values, slug, 0);
    match index_of_slug(values, slug) {
        Some(i) => {
            assert(entries[i].0 == slug);
            let j = choose|j: int| 0 <= j < entries.len() && entries[j].0 == slug;
            assert(j == i);
        },
        None => {
            assert forall|j: int| 0 <= j < entries.len() implies entries[j].0 != slug by {
                assert(values[j] == entries[j].1);
            }
        },
    }
}

/// What a whole raw schema turns into.
pub open spec fn schema_result(raw: RawSchemaView) -> Result<SchemaView, ConfigErrorView> {
    if raw.collections.len() == 0 {
        Err(invalid("collections"@, "at least one collection is required"@))
    } else {
        match collections_result(raw.collections, 0, Seq::empty()) {
            Err(e) => Err(e),
            Ok(collections) => Ok(SchemaView {
                project_name: raw.project_name,
                database_path: match raw.database_path {
                    Some(p) => p,
                    None => DEFAULT_DATABASE_PATH@,
                },
                collections,
            }),
        }
    }
}

pub open spec fn result_view<T: View>(r: Result<T, ConfigError>) -> Result<T::V, ConfigErrorView> {
    match r {
        Ok(t) => Ok(t@),
        Err(e) => Err(e@),
    }
}

// ---------------------------------------------------------------------------
// The rules, executed
// ---------------------------------------------------------------------------

fn make_invalid(path: String, problem: String) -> (e: ConfigError)
    ensures
        e@ == invalid(path@, problem@),
{
    ConfigError::Invalid { path, problem }
}

/// `path ++ name ++ "[" ++ index ++ "]"`.
fn indexed_path(path: &str, name: &str, index: usize) -> (r: String)
    ensures
        r@ == indexed(path@, name@, index as nat),
{
    let mut r = concat2(path, name);
    push_char(&mut r, '[');
    push_decimal(&mut r, index as u64);
    push_char(&mut r, ']');
    r
}

/// `prefix ++ 'text'`.
fn quoted_after(prefix: &str, text: &str) -> (r: String)
    ensures
        r@ == prefix@ + quoted(text@),
{
    let mut r = owned(prefix);
    push_char(&mut r, '\'');
    r.append(text);
    push_char(&mut r, '\'');
    r
}

fn not_an_identifier_text() -> (r: String)
    ensures
        r@ == not_an_identifier(),
{
    concat2("must match ", IDENTIFIER_PATTERN)
}

/// Whether `v[i]` appeared earlier in `v`.
fn repeats_before(v: &Vec<String>, i: usize) -> (r: bool)
    requires
        i < v.len(),
    ensures
        r == repeats_earlier(strings_view(v@), i as int),
{
    let mut j: usize = 0;
    while j < i
        invariant
            i < v.len(),
            0 <= j <= i,
            forall|k: int| 0 <= k < j ==> #[trigger] v@[k]@ != v@[i as int]@,
        decreases i - j,
    {
        if v[j] == v[i] {
            assert(strings_view(v@)[j as int] == strings_view(v@)[i as int]);
            return true;
        }
        j = j + 1;
    }
    assert forall|k: int| 0 <= k < i implies strings_view(v@)[k] != strings_view(v@)[i as int] by {
        assert(v@[k]@ != v@[i as int]@);
    }
    false
}

/// `select`: at least one option, none repeated.
#[verifier::loop_isolation(false)]
pub fn validate_select(at: &str, options: Option<Vec<String>>) -> (r: Result<FieldType, ConfigError>)
    ensures
        result_view(r) == select_result(at@, opt_strings_view(options)),
{
    let ghost given = opt_strings_view(options);
    match options {
        None => Err(make_invalid(concat2(at, ".options"), owned("required for type 'select'"))),
        Some(options) => {
            if options.len() == 0 {
                return Err(make_invalid(concat2(at, ".options"), owned("at least one option is required")));
            }
            let ghost opts = strings_view(options@);
            let mut index: usize = 0;
            while index < options.len()
                invariant
                    0 <= index <= options.len(),
                    opts == strings_view(options@),
                    opts.len() == options@.len(),
                    first_repeat_from(opts, 0) == first_repeat_from(opts, index as int),
                decreases options.len() - index,
            {
                if repeats_before(&options, index) {
                    assert(opts[index as int] == options@[index as int]@);
                    assert(first_repeat_from(opts, index as int) == Some(index as int));
                    assert(first_repeat_from(opts, 0) == Some(index as int));
                    assert(opts.len() != 0);
                    let path = indexed_path(at, ".options", index);
                    let problem = quoted_after("duplicate option ", options[index].as_str());
                    return Err(make_invalid(path, problem));
                }
                index = index + 1;
            }
            Ok(FieldType::Select { options })
        },
    }
}

/// A field's `type`, resolved to a [`FieldType`].
pub fn validate_field_type(at: &str, kind: &str, options: Option<Vec<String>>) -> (r: Result<FieldType, ConfigError>)
    ensures
        result_view(r) == field_type_result(at@, kind@, opt_strings_view(options)),
{
    if str_eq(kind, "text") {
        Ok(FieldType::Text)
    } else if str_eq(kind, "textarea") {
        Ok(FieldType::Textarea)
    } else if str_eq(kind, "number") {
        Ok(FieldType::Number)
    } else if str_eq(kind, "boolean") {
        Ok(FieldType::Boolean)
    } else if str_eq(kind, "datetime") {
        Ok(FieldType::DateTime)
    } else if str_eq(kind, "json") {
        Ok(FieldType::Json)
    } else if str_eq(kind, "select") {
        validate_select(at, options)
    } else {
        let path = concat2(at, ".type");
        let mut problem = quoted_after("unknown field type ", kind);
        problem.append(" (expected one of: ");
        problem.append(FIELD_TYPE_NAMES);
        problem.append(")");
        Err(make_invalid(path, problem))
    }
}

/// `char::to_uppercase`, collected into a string.
#[verifier::external_body]
fn uppercase_char(c: char) -> (s: String)
    ensures
        s@ == char_upper(c),
        'a' <= c && c <= 'z' ==> s@ == seq![((c as u32) - 32) as char],
{
    c.to_uppercase().to_string()
}

/// `published_at` -> `Published at`: underscores become spaces and the first
/// letter is capitalised.
pub fn titlecase(identifier: &str) -> (r: String)
    ensures
        r@ == titlecased(identifier@),
{
    let chars = chars_of(identifier);
    let mut spaced: Vec<char> = Vec::new();
    let mut i: usize = 0;
    while i < chars.len()
        invariant
            0 <= i <= chars.len(),
            chars@ == identifier@,
            spaced@ == unscored(chars@.take(i as int)),
        decreases chars.len() - i,
    {
        let c = chars[i];
        spaced.push(if c == '_' { ' ' } else { c });
        assert(unscored(chars@.take(i + 1)) =~= unscored(chars@.take(i as int)).push(if c == '_' { ' ' } else { c }));
        i = i + 1;
    }
    assert(chars@.take(chars.len() as int) =~= chars@);
    if spaced.len() == 0 {
        return String::new();
    }
    let mut r = uppercase_char(spaced[0]);
    let mut j: usize = 1;
    while j < spaced.len()
        invariant
            1 <= j <= spaced.len(),
            r@ == capital(spaced@[0]) + spaced@.subrange(1, j as int),
        decreases spaced.len() - j,
    {
        push_char(&mut r, spaced[j]);
        assert(spaced@.subrange(1, j + 1) =~= spaced@.subrange(1, j as int).push(spaced@[j as int]));
        j = j + 1;
    }
    assert(spaced@.subrange(1, spaced.len() as int) =~= spaced@.drop_first());
    r
}

/// Whether some field in `fields` is called `name`.
fn has_field_named(fields: &Vec<Field>, name: &str) -> (r: bool)
    ensures
        r == names_field(fields_view(fields@), name@),
{
    let wanted = chars_of(name);
    let mut j: usize = 0;
    while j < fields.len()
        invariant
            0 <= j <= fields.len(),
            wanted@ == name@,
            forall|k: int| 0 <= k < j ==> #[trigger] fields@[k]@.name != name@,
        decreases fields.len() - j,
    {
        let have = chars_of(fields[j].name.as_str());
        if chars_eq(&have, &wanted) {
            assert(fields_view(fields@)[j as int].name == name@);
            return true;
        }
        j = j + 1;
    }
    assert forall|k: int| 0 <= k < fields.len() implies fields_view(fields@)[k].name != name@ by {
        assert(fields@[k]@.name != name@);
    }
    false
}

/// One field, checked against the fields accepted before it in the same
/// collection — the only place a duplicate name can come from.
pub fn validate_field(collection_at: &str, index: usize, raw: RawField, seen: &Vec<Field>) -> (r: Result<Field, ConfigError>)
    ensures
        result_view(r) == field_result(collection_at@, index as nat, raw@, fields_view(seen@)),
{
    let at = indexed_path(collection_at, ".fields", index);
    if !is_identifier(raw.name.as_str()) {
        return Err(make_invalid(concat2(at.as_str(), ".name"), not_an_identifier_text()));
    }
    if has_field_named(seen, raw.name.as_str()) {
        let path = concat2(at.as_str(), ".name");
        let problem = quoted_after("duplicate field name ", raw.name.as_str());
        return Err(make_invalid(path, problem));
    }
    let kind = match validate_field_type(at.as_str(), raw.kind.as_str(), raw.options) {
        Ok(kind) => kind,
        Err(e) => {
            return Err(e);
        },
    };
    let label = match raw.label {
        Some(label) => label,
        None => titlecase(raw.name.as_str()),
    };
    Ok(Field { name: raw.name, label, kind, required: raw.required, unique: raw.unique })
}

/// One collection: its slug, its fields, its columns.
#[verifier::loop_isolation(false)]
pub fn validate_collection(slug: &str, raw: RawCollection) -> (r: Result<Collection, ConfigError>)
    ensures
        result_view(r) == collection_result(slug@, raw@),
{
    let at = concat2("collections.", slug);
    if !is_identifier(slug) {
        return Err(make_invalid(at, not_an_identifier_text()));
    }
    if raw.fields.len() == 0 {
        return Err(make_invalid(concat2(at.as_str(), ".fields"), owned("at least one field is required")));
    }
    let ghost raws = raw@.fields;
    let ghost raw_columns = raw@.list_columns;
    let ghost raw_label = raw@.label;
    let RawCollection { label, list_columns, fields: raw_fields } = raw;
    let mut rest = raw_fields;
    let mut fields: Vec<Field> = Vec::new();
    let mut index: usize = 0;
    let total = rest.len();
    assert(fields_view(fields@) =~= Seq::<FieldView>::empty());
    while index < total
        invariant
            0 <= index <= total,
            total == raws.len(),
            rest@.len() == total - index,
            raw_fields_view(rest@) == raws.subrange(index as int, total as int),
            fields_result(at@, raws, 0, Seq::empty()) == fields_result(at@, raws, index as int, fields_view(fields@)),
        decreases total - index,
    {
        let ghost before = rest@;
        let raw_field = rest.remove(0);
        assert(raw_field@ == raws[index as int]) by {
            assert(raw_fields_view(before)[0] == before[0]@);
        }
        assert(raw_fields_view(rest@) =~= raws.subrange(index + 1, total as int)) by {
            assert forall|k: int| 0 <= k < rest@.len() implies #[trigger] raw_fields_view(rest@)[k] == raws.subrange(index + 1, total as int)[k] by {
                assert(rest@[k] == before[k + 1]);
                assert(raw_fields_view(before)[k + 1] == raws.subrange(index as int, total as int)[k + 1]);
            }
        }
        let field = match validate_field(at.as_str(), index, raw_field, &fields) {
            Ok(field) => field,
            Err(e) => {
                return Err(e);
            },
        };
        let ghost prev = fields_view(fields@);
        let ghost made = field@;
        fields.push(field);
        assert(fields_view(fields@) =~= prev.push(made));
        index = index + 1;
    }
    let list_columns = match list_columns {
        Some(columns) => {
            let mut i: usize = 0;
            while i < columns.len()
                invariant
                    0 <= i <= columns.len(),
                    first_unknown_column_from(strings_view(columns@), fields_view(fields@), 0)
                        == first_unknown_column_from(strings_view(columns@), fields_view(fields@), i as int),
                decreases columns.len() - i,
            {
                if !has_field_named(&fields, columns[i].as_str()) {
                    assert(strings_view(columns@)[i as int] == columns@[i as int]@);
                    let path = indexed_path(at.as_str(), ".list_columns", i);
                    let problem = quoted_after("unknown field ", columns[i].as_str());
                    return Err(make_invalid(path, problem));
                }
                i = i + 1;
            }
            columns
        },
        None => {
            let mut names: Vec<String> = Vec::new();
            let mut i: usize = 0;
            while i < fields.len() && i < DEFAULT_LIST_COLUMNS
                invariant
                    0 <= i <= fields.len(),
                    i <= DEFAULT_LIST_COLUMNS,
                    strings_view(names@) == fields_view(fields@).take(i as int).map_values(|f: FieldView| f.name),
                decreases fields.len() - i,
            {
                names.push(fields[i].name.clone());
                assert(fields_view(fields@).take(i + 1).map_values(|f: FieldView| f.name)
                    =~= fields_view(fields@).take(i as int).map_values(|f: FieldView| f.name).push(fields@[i as int]@.name));
                assert(strings_view(names@) =~= strings_view(names@).drop_last().push(names@.last()@));
                i = i + 1;
            }
            names
        },
    };
    let label = match label {
        Some(label) => label,
        None => titlecase(slug),
    };
    Ok(Collection {
        slug: owned(slug),
        label,
        fields,
        list_columns,
        capabilities: CollectionCapabilities { create: true, read: true, update: true, delete: true },
    })
}

/// A whole parsed file, validated into a [`Schema`]: at least one
/// collection, each valid, in file order.
#[verifier::loop_isolation(false)]
pub fn validate(raw: RawSchema) -> (r: Result<Schema, ConfigError>)
    ensures
        result_view(r) == schema_result(raw@),
{
    if raw.collections.len() == 0 {
        return Err(make_invalid(owned("collections"), owned("at least one collection is required")));
    }
    let ghost raws = raw@.collections;
    let RawSchema { project, database, collections: raw_collections } = raw;
    let mut rest = raw_collections;
    let total = rest.len();
    let mut collections = new_collections();
    let mut index: usize = 0;
    assert(entry_values(collection_entries(collections)) =~= Seq::<CollectionView>::empty());
    assert(raw_entries_view(rest@) =~= raws.subrange(0, total as int));
    while index < total
        invariant
            0 <= index <= total,
            total == raws.len(),
            rest@.len() == total - index,
            raw_entries_view(rest@) == raws.subrange(index as int, total as int),
            keyed_by_slug(collection_entries(collections)),
            keys_distinct(collection_entries(collections)),
            collections_result(raws, 0, Seq::empty()) == collections_result(raws, index as int, entry_values(collection_entries(collections))),
        decreases total - index,
    {
        let ghost before = rest@;
        let (slug, raw_collection) = rest.remove(0);
        assert(slug@ == raws[index as int].0 && raw_collection@ == raws[index as int].1) by {
            assert(raw_entries_view(before)[0] == raws.subrange(index as int, total as int)[0]);
        }
        assert(raw_entries_view(rest@) =~= raws.subrange(index + 1, total as int)) by {
            assert forall|k: int| 0 <= k < rest@.len() implies
                #[trigger] raw_entries_view(rest@)[k] == raws.subrange(index + 1, total as int)[k] by {
                assert(rest@[k] == before[k + 1]);
                assert(raw_entries_view(before)[k + 1] == raws.subrange(index as int, total as int)[k + 1]);
            }
        }
        let collection = match validate_collection(slug.as_str(), raw_collection) {
            Ok(collection) => collection,
            Err(e) => {
                return Err(e);
            },
        };
        let ghost entries = collection_entries(collections);
        let ghost made = collection@;
        proof {
            lemma_key_is_slug(entries, made.slug);
        }
        let key = owned(collection.slug.as_str());
        insert_collection(&mut collections, key, collection);
        proof {
            let after = collection_entries(collections);
            match key_index(entries, made.slug) {
                Some(j) => {
                    assert(entry_values(after) =~= entry_values(entries).update(j, made));
                    assert forall|a: int, b: int| 0 <= a < after.len() && 0 <= b < after.len() && a != b implies after[a].0 != after[b].0 by {
                        if a != j && b != j {
                            assert(after[a] == entries[a] && after[b] == entries[b]);
                        } else if a == j {
                            assert(after[b] == entries[b] && entries[j].0 == made.slug);
                        } else {
                            assert(after[a] == entries[a] && entries[j].0 == made.slug);
                        }
                    }
                },
                None => {
                    assert(entry_values(after) =~= entry_values(entries).push(made));
                    assert forall|k: int| 0 <= k < entries.len() implies entries[k].0 != made.slug by {
                        if entries[k].0 == made.slug {
                            assert(key_index(entries, made.slug) is Some);
                        }
                    }
                    assert forall|a: int, b: int| 0 <= a < after.len() && 0 <= b < after.len() && a != b implies after[a].0 != after[b].0 by {
                        if a < entries.len() && b < entries.len() {
                            assert(after[a] == entries[a] && after[b] == entries[b]);
                        } else if a < entries.len() {
                            assert(after[a] == entries[a]);
                        } else {
                            assert(after[b] == entries[b]);
                        }
                    }
                },
            }
            assert(keyed_by_slug(after));
        }
        index = index + 1;
    }
    let path = match database.path {
        Some(path) => path,
        None => owned(DEFAULT_DATABASE_PATH),
    };
    Ok(Schema {
        project: ProjectConfig { name: project.name },
        database: DatabaseConfig { path },
        collections,
    })
}

/// A label written for a field is the label it gets; the titlecased name is
/// only the default when none is written.
pub proof fn a_written_label_is_kept(collection_at: Seq<char>, index: nat, raw: RawFieldView, seen: Seq<FieldView>)
    ensures
        raw.label matches Some(l) ==> (field_result(collection_at, index, raw, seen) matches Ok(f) ==> f.label == l),
        raw.label is None ==> (field_result(collection_at, index, raw, seen) matches Ok(f) ==> f.label == titlecased(raw.name)),
        field_result(collection_at, index, raw, seen) matches Ok(f) ==> f.name == raw.name,
{
}

} // verus!
