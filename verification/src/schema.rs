//! The schema: what collections exist, and what fields they hold.
//!
//! Everything downstream is generated from these types — the sidebar, the
//! table, the editor, the SQL. Loading `pressa.yaml` into a [`Schema`] lives
//! in `config`; this module only describes the shape and the invariants.

use vstd::prelude::*;

use indexmap::IndexMap;

use crate::text::{chars_of, owned};

verus! {

/// The pattern every collection slug and field name must match.
///
/// Not cosmetic: names are interpolated into `json_extract` paths in SQL, so
/// this is a security boundary.
pub const IDENTIFIER_PATTERN: &'static str = "^[a-z][a-z0-9_]*$";

/// `a`..=`z`.
pub open spec fn is_lower(c: char) -> bool {
    'a' <= c && c <= 'z'
}

/// `0`..=`9`.
pub open spec fn is_digit(c: char) -> bool {
    '0' <= c && c <= '9'
}

/// A character allowed after the first one of an identifier.
pub open spec fn is_identifier_tail(c: char) -> bool {
    is_lower(c) || is_digit(c) || c == '_'
}

/// What [`IDENTIFIER_PATTERN`] accepts.
pub open spec fn identifier(s: Seq<char>) -> bool {
    &&& s.len() > 0
    &&& is_lower(s[0])
    &&& forall|i: int| 1 <= i < s.len() ==> is_identifier_tail(#[trigger] s[i])
}

/// Checks [`IDENTIFIER_PATTERN`] by hand, character by character.
pub fn is_identifier(name: &str) -> (r: bool)
    ensures
        r == identifier(name@),
{
    let chars = chars_of(name);
    if chars.len() == 0 {
        return false;
    }
    let first = chars[0];
    if !('a' <= first && first <= 'z') {
        return false;
    }
    let mut i: usize = 1;
    while i < chars.len()
        invariant
            1 <= i <= chars.len(),
            chars@ == name@,
            forall|j: int| 1 <= j < i ==> is_identifier_tail(#[trigger] chars@[j]),
        decreases chars.len() - i,
    {
        let c = chars[i];
        if !(('a' <= c && c <= 'z') || ('0' <= c && c <= '9') || c == '_') {
            assert(!is_identifier_tail(chars@[i as int]));
            return false;
        }
        i = i + 1;
    }
    true
}

/// A copy of every string in `v`.
pub fn clone_strings(v: &Vec<String>) -> (r: Vec<String>)
    ensures
        r@.map_values(|s: String| s@) == v@.map_values(|s: String| s@),
        r@.len() == v@.len(),
{
    let mut r: Vec<String> = Vec::new();
    let mut i: usize = 0;
    while i < v.len()
        invariant
            0 <= i <= v.len(),
            r@.len() == i,
            forall|j: int| 0 <= j < i ==> #[trigger] r@[j]@ == v@[j]@,
        decreases v.len() - i,
    {
        r.push(v[i].clone());
        i = i + 1;
    }
    assert(r@.map_values(|s: String| s@) =~= v@.map_values(|s: String| s@));
    r
}

/// The views of a vector of strings.
pub open spec fn strings_view(v: Seq<String>) -> Seq<Seq<char>> {
    crate::text::views(v)
}

#[derive(Debug, PartialEq, Eq)]
pub struct ProjectConfig {
    pub name: String,
}

#[derive(Debug, PartialEq, Eq)]
pub struct DatabaseConfig {
    /// Relative to the directory containing `pressa.yaml`.
    pub path: String,
}

/// What the UI is allowed to offer for a collection. All true for now; it
/// exists so read-only collections later need no special case in the
/// renderer.
#[derive(Clone, Copy, Debug, PartialEq, Eq, Structural)]
pub struct CollectionCapabilities {
    pub create: bool,
    pub read: bool,
    pub update: bool,
    pub delete: bool,
}

impl Default for CollectionCapabilities {
    /// Everything allowed — the opposite of what `derive(Default)` would give.
    fn default() -> (c: Self)
        ensures
            c.create && c.read && c.update && c.delete,
    {
        CollectionCapabilities { create: true, read: true, update: true, delete: true }
    }
}

/// The seven field types. Dispatch is a `match` on this enum, so adding a type
/// makes the compiler list every place that has to handle it.
#[derive(Debug, PartialEq, Eq)]
pub enum FieldType {
    Text,
    Textarea,
    Number,
    Boolean,
    DateTime,
    Select { options: Vec<String> },
    Json,
}

/// The abstract form of a [`FieldType`].
pub enum FieldTypeView {
    Text,
    Textarea,
    Number,
    Boolean,
    DateTime,
    Select { options: Seq<Seq<char>> },
    Json,
}

impl View for FieldType {
    type V = FieldTypeView;

    open spec fn view(&self) -> FieldTypeView {
        match self {
            FieldType::Text => FieldTypeView::Text,
            FieldType::Textarea => FieldTypeView::Textarea,
            FieldType::Number => FieldTypeView::Number,
            FieldType::Boolean => FieldTypeView::Boolean,
            FieldType::DateTime => FieldTypeView::DateTime,
            FieldType::Select { options } => FieldTypeView::Select { options: strings_view(options@) },
            FieldType::Json => FieldTypeView::Json,
        }
    }
}

impl Clone for FieldType {
    fn clone(&self) -> (r: Self)
        ensures
            r@ == self@,
    {
        match self {
            FieldType::Text => FieldType::Text,
            FieldType::Textarea => FieldType::Textarea,
            FieldType::Number => FieldType::Number,
            FieldType::Boolean => FieldType::Boolean,
            FieldType::DateTime => FieldType::DateTime,
            FieldType::Select { options } => FieldType::Select { options: clone_strings(options) },
            FieldType::Json => FieldType::Json,
        }
    }
}

/// The names accepted for a field's `type`, in the order error messages list
/// them, already joined.
pub const FIELD_TYPE_NAMES: &'static str = "text, textarea, number, boolean, datetime, select, json";

#[derive(Debug, PartialEq, Eq)]
pub struct Field {
    pub name: String,
    pub label: String,
    pub kind: FieldType,
    pub required: bool,
    pub unique: bool,
}

pub struct FieldView {
    pub name: Seq<char>,
    pub label: Seq<char>,
    pub kind: FieldTypeView,
    pub required: bool,
    pub unique: bool,
}

impl View for Field {
    type V = FieldView;

    open spec fn view(&self) -> FieldView {
        FieldView {
            name: self.name@,
            label: self.label@,
            kind: self.kind@,
            required: self.required,
            unique: self.unique,
        }
    }
}

impl Clone for Field {
    fn clone(&self) -> (r: Self)
        ensures
            r@ == self@,
    {
        Field {
            name: self.name.clone(),
            label: self.label.clone(),
            kind: self.kind.clone(),
            required: self.required,
            unique: self.unique,
        }
    }
}

/// The views of a vector of fields.
pub open spec fn fields_view(v: Seq<Field>) -> Seq<FieldView> {
    v.map_values(|f: Field| f@)
}

#[derive(Debug, PartialEq, Eq)]
pub struct Collection {
    /// Stable id, used in storage — `"posts"`.
    pub slug: String,
    /// Shown in the UI — `"Posts"`.
    pub label: String,
    pub fields: Vec<Field>,
    /// Field names shown as table columns.
    pub list_columns: Vec<String>,
    pub capabilities: CollectionCapabilities,
}

pub struct CollectionView {
    pub slug: Seq<char>,
    pub label: Seq<char>,
    pub fields: Seq<FieldView>,
    pub list_columns: Seq<Seq<char>>,
    pub capabilities: CollectionCapabilities,
}

impl View for Collection {
    type V = CollectionView;

    open spec fn view(&self) -> CollectionView {
        CollectionView {
            slug: self.slug@,
            label: self.label@,
            fields: fields_view(self.fields@),
            list_columns: strings_view(self.list_columns@),
            capabilities: self.capabilities,
        }
    }
}

/// A copy of every field in `v`.
pub fn clone_fields(v: &Vec<Field>) -> (r: Vec<Field>)
    ensures
        fields_view(r@) == fields_view(v@),
{
    let mut r: Vec<Field> = Vec::new();
    let mut i: usize = 0;
    while i < v.len()
        invariant
            0 <= i <= v.len(),
            r@.len() == i,
            forall|j: int| 0 <= j < i ==> #[trigger] r@[j]@ == v@[j]@,
        decreases v.len() - i,
    {
        r.push(v[i].clone());
        i = i + 1;
    }
    assert(fields_view(r@) =~= fields_view(v@));
    r
}

impl Clone for Collection {
    fn clone(&self) -> (r: Self)
        ensures
            r@ == self@,
    {
        Collection {
            slug: self.slug.clone(),
            label: self.label.clone(),
            fields: clone_fields(&self.fields),
            list_columns: clone_strings(&self.list_columns),
            capabilities: self.capabilities,
        }
    }
}

/// The views of a vector of collections.
pub open spec fn collections_view(v: Seq<Collection>) -> Seq<CollectionView> {
    v.map_values(|c: Collection| c@)
}

#[derive(Debug, PartialEq, Eq)]
pub struct Schema {
    pub project: ProjectConfig,
    pub database: DatabaseConfig,
    /// Keyed by slug, in file order, which is the sidebar order.
    pub collections: IndexMap<String, Collection>,
}

pub struct SchemaView {
    pub project_name: Seq<char>,
    pub database_path: Seq<char>,
    pub collections: Seq<CollectionView>,
}

#[verifier::external_type_specification]
#[verifier::external_body]
#[verifier::reject_recursive_types(K)]
#[verifier::reject_recursive_types(V)]
#[verifier::reject_recursive_types(S)]
pub struct ExIndexMap<K, V, S>(IndexMap<K, V, S>);

/// What an `IndexMap` of collections holds: its keys and values, in its
/// order.
pub uninterp spec fn collection_entries(m: IndexMap<String, Collection>) -> Seq<(Seq<char>, CollectionView)>;

/// The values of `entries`, in order.
pub open spec fn entry_values(entries: Seq<(Seq<char>, CollectionView)>) -> Seq<CollectionView> {
    entries.map_values(|e: (Seq<char>, CollectionView)| e.1)
}

/// No key occurs twice.
pub open spec fn keys_distinct(entries: Seq<(Seq<char>, CollectionView)>) -> bool {
    forall|i: int, j: int| 0 <= i < entries.len() && 0 <= j < entries.len() && i != j ==> entries[i].0 != entries[j].0
}

/// Whether `entries` are `n` entries with distinct keys.
pub open spec fn counted_entries(entries: Seq<(Seq<char>, CollectionView)>, n: int) -> bool {
    n == entries.len() && keys_distinct(entries)
}

/// The position of the entry whose key is `key`, if any.
pub open spec fn key_index(entries: Seq<(Seq<char>, CollectionView)>, key: Seq<char>) -> Option<int> {
    if exists|i: int| 0 <= i < entries.len() && entries[i].0 == key {
        Some(choose|i: int| 0 <= i < entries.len() && entries[i].0 == key)
    } else {
        None
    }
}

/// `IndexMap::new`: no entries.
#[verifier::external_body]
pub(crate) fn new_collections() -> (m: IndexMap<String, Collection>)
    ensures
        collection_entries(m) == Seq::<(Seq<char>, CollectionView)>::empty(),
{
    IndexMap::new()
}

/// `IndexMap::len`: the number of entries. The keys of an `IndexMap` are
/// distinct.
#[verifier::external_body]
fn collections_len(m: &IndexMap<String, Collection>) -> (n: usize)
    ensures
        counted_entries(collection_entries(*m), n as int),
{
    m.len()
}

/// `IndexMap::get_index`: the entry at position `i`, if there is one.
#[verifier::external_body]
fn collection_entry(m: &IndexMap<String, Collection>, i: usize) -> (r: Option<(&String, &Collection)>)
    ensures
        match r {
            Some(e) => i < collection_entries(*m).len() && collection_entries(*m)[i as int] == (e.0@, e.1@),
            None => i >= collection_entries(*m).len(),
        },
{
    m.get_index(i)
}

/// `IndexMap::insert`: a new key goes last; an existing key keeps its place
/// and gets the new value, and the old value is returned.
#[verifier::external_body]
pub(crate) fn insert_collection(m: &mut IndexMap<String, Collection>, key: String, value: Collection) -> (r: Option<Collection>)
    ensures
        match key_index(collection_entries(*old(m)), key@) {
            Some(j) => collection_entries(*final(m)) == collection_entries(*old(m)).update(j, (key@, value@))
                && (r matches Some(was) && was@ == collection_entries(*old(m))[j].1),
            None => collection_entries(*final(m)) == collection_entries(*old(m)).push((key@, value@)) && r is None,
        },
{
    m.insert(key, value)
}

impl View for Schema {
    type V = SchemaView;

    open spec fn view(&self) -> SchemaView {
        SchemaView {
            project_name: self.project.name@,
            database_path: self.database.path@,
            collections: entry_values(collection_entries(self.collections)),
        }
    }
}

impl Clone for Schema {
    fn clone(&self) -> (r: Self)
        ensures
            r@ == self@,
    {
        let n = collections_len(&self.collections);
        let ghost entries = collection_entries(self.collections);
        let mut copy = new_collections();
        let mut i: usize = 0;
        while i < n
            invariant
                0 <= i <= n,
                n == entries.len(),
                entries == collection_entries(self.collections),
                keys_distinct(entries),
                collection_entries(copy) =~= entries.take(i as int),
            decreases n - i,
        {
            let entry = collection_entry(&self.collections, i);
            let (key, value) = match entry {
                Some(e) => e,
                None => {
                    return Schema {
                        project: ProjectConfig { name: self.project.name.clone() },
                        database: DatabaseConfig { path: self.database.path.clone() },
                        collections: copy,
                    };
                },
            };
            proof {
                assert forall|j: int| 0 <= j < i implies entries.take(i as int)[j].0 != key@ by {
                    assert(entries[j].0 != entries[i as int].0);
                }
            }
            insert_collection(&mut copy, key.clone(), value.clone());
            assert(entries.take(i + 1) =~= entries.take(i as int).push(entries[i as int]));
            i = i + 1;
        }
        assert(entries.take(n as int) =~= entries);
        Schema {
            project: ProjectConfig { name: self.project.name.clone() },
            database: DatabaseConfig { path: self.database.path.clone() },
            collections: copy,
        }
    }
}

/// The index of the first collection at or after `from` whose slug is
/// `slug`, if any.
pub open spec fn find_slug_from(collections: Seq<CollectionView>, slug: Seq<char>, from: int) -> Option<int>
    decreases collections.len() - from,
{
    if from < 0 || from >= collections.len() {
        None
    } else if collections[from].slug == slug {
        Some(from)
    } else {
        find_slug_from(collections, slug, from + 1)
    }
}

/// The index of the first collection whose slug is `slug`, if any.
pub open spec fn index_of_slug(collections: Seq<CollectionView>, slug: Seq<char>) -> Option<int> {
    find_slug_from(collections, slug, 0)
}

pub proof fn lemma_find_slug_from(collections: Seq<CollectionView>, slug: Seq<char>, from: int)
    requires
        0 <= from,
    ensures
        match find_slug_from(collections, slug, from) {
            Some(i) => from <= i < collections.len() && collections[i].slug == slug
                && forall|j: int| from <= j < i ==> #[trigger] collections[j].slug != slug,
            None => forall|j: int| from <= j < collections.len() ==> #[trigger] collections[j].slug != slug,
        },
    decreases collections.len() - from,
{
    if from < collections.len() && collections[from].slug != slug {
        lemma_find_slug_from(collections, slug, from + 1);
    }
}

impl Schema {
    /// How many collections there are.
    pub fn collection_count(&self) -> (n: usize)
        ensures
            n == self@.collections.len(),
    {
        collections_len(&self.collections)
    }

    /// The collection at position `i`, in file order.
    pub fn collection_at(&self, i: usize) -> (c: &Collection)
        requires
            i < self@.collections.len(),
        ensures
            c@ == self@.collections[i as int],
    {
        let entry = collection_entry(&self.collections, i);
        assert(self@.collections[i as int] == collection_entries(self.collections)[i as int].1);
        entry.unwrap().1
    }

    /// The position of the collection called `slug`, or `None`.
    pub fn position(&self, slug: &str) -> (r: Option<usize>)
        ensures
            match r {
                Some(i) => index_of_slug(self@.collections, slug@) == Some(i as int),
                None => index_of_slug(self@.collections, slug@) is None,
            },
    {
        let wanted = chars_of(slug);
        let n = self.collection_count();
        let mut i: usize = 0;
        while i < n
            invariant
                0 <= i <= n,
                n == self@.collections.len(),
                wanted@ == slug@,
                index_of_slug(self@.collections, slug@) == find_slug_from(self@.collections, slug@, i as int),
            decreases n - i,
        {
            let have = chars_of(self.collection_at(i).slug.as_str());
            if crate::text::chars_eq(&have, &wanted) {
                return Some(i);
            }
            i = i + 1;
        }
        None
    }
}

/// An owned copy of `s`, for call sites that hold a `&str`.
pub fn owned_name(s: &str) -> (r: String)
    ensures
        r@ == s@,
{
    owned(s)
}

} // verus!
