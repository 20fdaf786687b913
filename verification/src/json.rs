//! JSON documents, as records hold them.
//!
//! The shape `serde_json::Value` has, held as plain values so that validation
//! and storage semantics can be stated and proved over it. Object members keep
//! the order they were given in.

use vstd::prelude::*;

use crate::text::{chars_eq, chars_of};

verus! {

/// A number that is not a whole number in `i64` range: the double that holds
/// it, with the two ways it is printed. Doubles are formatted where documents
/// are read and written; here both texts are plain data.
#[derive(Debug, PartialEq)]
pub struct Real {
    /// The double's IEEE 754 bits.
    pub bits: u64,
    /// As SQLite prints it: fifteen significant digits, and at least one
    /// digit after the point (`1.0`, `0.1`, `1.0e+20`).
    pub sql_text: String,
    /// As it is written in JSON text.
    pub json_text: String,
}

pub struct RealView {
    pub bits: u64,
    pub sql_text: Seq<char>,
    pub json_text: Seq<char>,
}

impl View for Real {
    type V = RealView;

    open spec fn view(&self) -> RealView {
        RealView { bits: self.bits, sql_text: self.sql_text@, json_text: self.json_text@ }
    }
}

impl Clone for Real {
    fn clone(&self) -> (r: Real)
        ensures
            r@ == self@,
    {
        Real { bits: self.bits, sql_text: self.sql_text.clone(), json_text: self.json_text.clone() }
    }
}

/// A JSON number, kept the way it was parsed.
#[derive(Debug, PartialEq)]
pub enum JsonNumber {
    /// A whole number in `i64` range.
    Int(i64),
    /// Anything else: a fraction, an exponent, or a whole number past `i64`.
    Real(Real),
}

pub enum JsonNumberView {
    Int(i64),
    Real(RealView),
}

impl View for JsonNumber {
    type V = JsonNumberView;

    open spec fn view(&self) -> JsonNumberView {
        match self {
            JsonNumber::Int(i) => JsonNumberView::Int(*i),
            JsonNumber::Real(r) => JsonNumberView::Real(r@),
        }
    }
}

impl Clone for JsonNumber {
    fn clone(&self) -> (r: JsonNumber)
        ensures
            r@ == self@,
    {
        match self {
            JsonNumber::Int(i) => JsonNumber::Int(*i),
            JsonNumber::Real(r) => JsonNumber::Real(r.clone()),
        }
    }
}

/// A JSON value.
#[derive(Debug, PartialEq)]
pub enum Json {
    Null,
    Bool(bool),
    Number(JsonNumber),
    String(String),
    Array(Vec<Json>),
    /// Members in document order.
    Object(Vec<(String, Json)>),
}

/// The abstract form of a [`Json`] value.
pub enum JsonView {
    Null,
    Bool(bool),
    Number(JsonNumberView),
    String(Seq<char>),
    Array(Seq<JsonView>),
    Object(Seq<(Seq<char>, JsonView)>),
}

pub open spec fn json_view(j: Json) -> JsonView
    decreases j, 2nat,
{
    match j {
        Json::Null => JsonView::Null,
        Json::Bool(b) => JsonView::Bool(b),
        Json::Number(n) => JsonView::Number(n@),
        Json::String(s) => JsonView::String(s@),
        Json::Array(items) => JsonView::Array(items_view(items@)),
        Json::Object(members) => JsonView::Object(members_view(members@)),
    }
}

pub open spec fn items_view(s: Seq<Json>) -> Seq<JsonView>
    decreases s, 0nat,
{
    if s.len() == 0 {
        Seq::empty()
    } else {
        items_view(s.drop_last()).push(json_view(s.last()))
    }
}

pub open spec fn members_view(s: Seq<(String, Json)>) -> Seq<(Seq<char>, JsonView)>
    decreases s, 1nat,
{
    if s.len() == 0 {
        Seq::empty()
    } else {
        members_view(s.drop_last()).push((s.last().0@, json_view(s.last().1)))
    }
}

impl View for Json {
    type V = JsonView;

    open spec fn view(&self) -> JsonView {
        json_view(*self)
    }
}

pub proof fn lemma_items_view(s: Seq<Json>)
    ensures
        items_view(s).len() == s.len(),
        forall|k: int| 0 <= k < s.len() ==> #[trigger] items_view(s)[k] == json_view(s[k]),
    decreases s.len(),
{
    if s.len() > 0 {
        lemma_items_view(s.drop_last());
    }
}

pub proof fn lemma_members_view(s: Seq<(String, Json)>)
    ensures
        members_view(s).len() == s.len(),
        forall|k: int| 0 <= k < s.len() ==> #[trigger] members_view(s)[k] == (s[k].0@, json_view(s[k].1)),
    decreases s.len(),
{
    if s.len() > 0 {
        lemma_members_view(s.drop_last());
    }
}

/// The first member at or after `from` whose key is `key`, in an abstract
/// object.
pub open spec fn find_key_from(members: Seq<(Seq<char>, JsonView)>, key: Seq<char>, from: int) -> Option<int>
    decreases members.len() - from,
{
    if from < 0 || from >= members.len() {
        None
    } else if members[from].0 == key {
        Some(from)
    } else {
        find_key_from(members, key, from + 1)
    }
}

/// The value of member `key` of `value`, if `value` is an object that has
/// one; absent when `value` is not an object at all.
pub open spec fn member_view(value: JsonView, key: Seq<char>) -> Option<JsonView> {
    match value {
        JsonView::Object(members) => match find_key_from(members, key, 0) {
            Some(i) => Some(members[i].1),
            None => None,
        },
        _ => None,
    }
}

pub proof fn lemma_find_agrees(members: Seq<(String, Json)>, key: Seq<char>, from: int)
    requires
        0 <= from,
    ensures
        find_member_from(members, key, from) == find_key_from(members_view(members), key, from),
    decreases members.len() - from,
{
    lemma_members_view(members);
    if from < members.len() {
        lemma_find_agrees(members, key, from + 1);
    }
}

/// The first member at or after `from` whose key is `key`.
pub open spec fn find_member_from(members: Seq<(String, Json)>, key: Seq<char>, from: int) -> Option<int>
    decreases members.len() - from,
{
    if from < 0 || from >= members.len() {
        None
    } else if members[from].0@ == key {
        Some(from)
    } else {
        find_member_from(members, key, from + 1)
    }
}

/// The value of member `key` of `value`, if `value` is an object that has one.
/// Absent when `value` is not an object at all.
pub open spec fn member(value: Json, key: Seq<char>) -> Option<Json> {
    match value {
        Json::Object(members) => match find_member_from(members@, key, 0) {
            Some(i) => Some(members@[i].1),
            None => None,
        },
        _ => None,
    }
}

/// Whether `members` has a member called `key`.
pub open spec fn has_member(members: Seq<(String, Json)>, key: Seq<char>) -> bool {
    exists|j: int| 0 <= j < members.len() && members[j].0@ == key
}

pub proof fn lemma_find_member_from(members: Seq<(String, Json)>, key: Seq<char>, from: int)
    requires
        0 <= from,
    ensures
        match find_member_from(members, key, from) {
            Some(i) => from <= i < members.len() && members[i].0@ == key,
            None => forall|j: int| from <= j < members.len() ==> #[trigger] members[j].0@ != key,
        },
    decreases members.len() - from,
{
    if from < members.len() && members[from].0@ != key {
        lemma_find_member_from(members, key, from + 1);
    }
}

impl Clone for Json {
    /// A deep copy.
    #[verifier::loop_isolation(false)]
    fn clone(&self) -> (r: Json)
        ensures
            r@ == self@,
        decreases self,
    {
        match self {
            Json::Null => Json::Null,
            Json::Bool(b) => Json::Bool(*b),
            Json::Number(n) => Json::Number(n.clone()),
            Json::String(s) => Json::String(s.clone()),
            Json::Array(items) => {
                let mut out: Vec<Json> = Vec::new();
                let mut i: usize = 0;
                while i < items.len()
                    invariant
                        0 <= i <= items.len(),
                        out@.len() == i,
                        forall|k: int| 0 <= k < i ==> json_view(#[trigger] out@[k]) == json_view(items@[k]),
                    decreases items.len() - i,
                {
                    proof {
                        assert(decreases_to!(*self => *items));
                        assert(decreases_to!(*items => items@));
                        assert(decreases_to!(items@ => items@[i as int]));
                    }
                    out.push(items[i].clone());
                    i = i + 1;
                }
                proof {
                    lemma_items_view(out@);
                    lemma_items_view(items@);
                    assert(items_view(out@) =~= items_view(items@));
                }
                Json::Array(out)
            },
            Json::Object(members) => {
                let mut out: Vec<(String, Json)> = Vec::new();
                let mut i: usize = 0;
                while i < members.len()
                    invariant
                        0 <= i <= members.len(),
                        out@.len() == i,
                        forall|k: int| 0 <= k < i ==> (#[trigger] out@[k]).0@ == members@[k].0@
                            && json_view(out@[k].1) == json_view(members@[k].1),
                    decreases members.len() - i,
                {
                    proof {
                        assert(decreases_to!(*self => *members));
                        assert(decreases_to!(*members => members@));
                        assert(decreases_to!(members@ => members@[i as int]));
                        assert(decreases_to!(members@[i as int] => members@[i as int].1));
                    }
                    let value = members[i].1.clone();
                    out.push((members[i].0.clone(), value));
                    i = i + 1;
                }
                proof {
                    lemma_members_view(out@);
                    lemma_members_view(members@);
                    assert(members_view(out@) =~= members_view(members@));
                }
                Json::Object(out)
            },
        }
    }
}

impl Json {
    /// Whether this is an object.
    pub fn is_object(&self) -> (r: bool)
        ensures
            r == (self is Object),
    {
        match self {
            Json::Object(_) => true,
            _ => false,
        }
    }

    /// Whether this is `null`.
    pub fn is_null(&self) -> (r: bool)
        ensures
            r == (self is Null),
    {
        match self {
            Json::Null => true,
            _ => false,
        }
    }

    #[verifier::loop_isolation(false)]
    /// The value of member `key`: `None` when there is no such member, and
    /// when this is not an object.
    pub fn get(&self, key: &str) -> (r: Option<&Json>)
        ensures
            match r {
                Some(v) => member(*self, key@) == Some(*v) && member_view(self@, key@) == Some(v@),
                None => member(*self, key@) is None && member_view(self@, key@) is None,
            },
    {
        proof {
            if let Json::Object(members) = self {
                lemma_find_agrees(members@, key@, 0);
                lemma_members_view(members@);
            }
        }
        match self {
            Json::Object(members) => {
                let wanted = chars_of(key);
                let mut i: usize = 0;
                while i < members.len()
                    invariant
                        0 <= i <= members.len(),
                        wanted@ == key@,
                        find_member_from(members@, key@, 0) == find_member_from(members@, key@, i as int),
                    decreases members.len() - i,
                {
                    let have = chars_of(members[i].0.as_str());
                    if chars_eq(&have, &wanted) {
                        return Some(&members[i].1);
                    }
                    i = i + 1;
                }
                None
            },
            _ => None,
        }
    }
}

} // verus!
