//! A JSON document as a tree of plain values, with its mathematical model.

use crate::text::same_text;
use vstd::prelude::*;

verus! {

broadcast use vstd::std_specs::vec::axiom_vec_index_decreases;

/// The number type of `serde_json`, carried through documents untouched.
#[verifier::external_type_specification]
#[verifier::external_body]
pub struct ExNumber(serde_json::Number);

/// One `key: value` entry of a JSON object.
#[derive(Debug, PartialEq, Eq)]
pub struct Member {
    pub key: String,
    pub value: Json,
}

/// A JSON document. Objects keep their members in document order.
#[derive(Debug, PartialEq, Eq)]
pub enum Json {
    Null,
    Bool(bool),
    Number(serde_json::Number),
    Text(String),
    Array(Vec<Json>),
    Object(Vec<Member>),
}

/// The mathematical value of a JSON document.
pub enum JsonValue {
    Null,
    Bool(bool),
    Number(serde_json::Number),
    Text(Seq<char>),
    Array(Seq<JsonValue>),
    Object(Seq<(Seq<char>, JsonValue)>),
}

impl Json {
    /// The mathematical value of this document.
    pub open spec fn view(&self) -> JsonValue
        decreases self,
    {
        match self {
            Json::Null => JsonValue::Null,
            Json::Bool(b) => JsonValue::Bool(*b),
            Json::Number(n) => JsonValue::Number(*n),
            Json::Text(s) => JsonValue::Text(s@),
            Json::Array(items) => JsonValue::Array(
                Seq::new(
                    items.len() as nat,
                    |i: int|
                        if 0 <= i < items.len() {
                            items[i].view()
                        } else {
                            JsonValue::Null
                        },
                ),
            ),
            Json::Object(members) => JsonValue::Object(
                Seq::new(
                    members.len() as nat,
                    |i: int|
                        if 0 <= i < members.len() {
                            (members[i].key@, members[i].value.view())
                        } else {
                            (Seq::empty(), JsonValue::Null)
                        },
                ),
            ),
        }
    }
}

/// The values of a sequence of documents.
pub open spec fn items_view(items: Seq<Json>) -> Seq<JsonValue> {
    Seq::new(items.len(), |i: int| items[i]@)
}

/// The `(key, value)` pairs of a sequence of members.
pub open spec fn members_view(members: Seq<Member>) -> Seq<(Seq<char>, JsonValue)> {
    Seq::new(members.len(), |i: int| (members[i].key@, members[i].value@))
}

/// The value of a document, one level unfolded.
pub proof fn lemma_view(doc: Json)
    ensures
        doc@ == match doc {
            Json::Null => JsonValue::Null,
            Json::Bool(b) => JsonValue::Bool(b),
            Json::Number(n) => JsonValue::Number(n),
            Json::Text(s) => JsonValue::Text(s@),
            Json::Array(items) => JsonValue::Array(items_view(items@)),
            Json::Object(members) => JsonValue::Object(members_view(members@)),
        },
{
    match doc {
        Json::Array(items) => {
            assert(doc@->Array_0 =~= items_view(items@));
        },
        Json::Object(members) => {
            assert(doc@->Object_0 =~= members_view(members@));
        },
        _ => {},
    }
}

/// Whether `i` is the position of the first member named `key`.
pub open spec fn is_first_member(
    members: Seq<(Seq<char>, JsonValue)>,
    key: Seq<char>,
    i: int,
) -> bool {
    &&& 0 <= i < members.len()
    &&& members[i].0 == key
    &&& forall|j: int| 0 <= j < i ==> (#[trigger] members[j]).0 != key
}

/// The position of the first member named `key`, if there is one.
pub open spec fn first_member(members: Seq<(Seq<char>, JsonValue)>, key: Seq<char>) -> Option<int> {
    if exists|i: int| is_first_member(members, key, i) {
        Some(choose|i: int| is_first_member(members, key, i))
    } else {
        None
    }
}

/// The first member named `key` is where a scan from the front meets it.
pub proof fn lemma_first_member(members: Seq<(Seq<char>, JsonValue)>, key: Seq<char>, i: int)
    requires
        is_first_member(members, key, i),
    ensures
        first_member(members, key) == Some(i),
{
}

/// No member is named `key` exactly when a scan from the front finds none.
pub proof fn lemma_no_member(members: Seq<(Seq<char>, JsonValue)>, key: Seq<char>)
    requires
        forall|j: int| 0 <= j < members.len() ==> (#[trigger] members[j]).0 != key,
    ensures
        first_member(members, key) is None,
{
    if exists|i: int| is_first_member(members, key, i) {
        let c = choose|c: int| is_first_member(members, key, c);
    }
}

/// What `first_member` returns, whichever case holds.
pub proof fn lemma_first_member_cases(members: Seq<(Seq<char>, JsonValue)>, key: Seq<char>)
    ensures
        match first_member(members, key) {
            Some(i) => is_first_member(members, key, i),
            None => forall|j: int| 0 <= j < members.len() ==> (#[trigger] members[j]).0 != key,
        },
{
    if first_member(members, key) is None {
        assert forall|j: int| 0 <= j < members.len() implies (#[trigger] members[j]).0 != key by {
            if members[j].0 == key {
                lemma_has_first(members, key, j);
            }
        }
    }
}

/// If some member is named `key`, one of them comes first.
proof fn lemma_has_first(members: Seq<(Seq<char>, JsonValue)>, key: Seq<char>, j: int)
    requires
        0 <= j < members.len(),
        members[j].0 == key,
    ensures
        exists|i: int| is_first_member(members, key, i),
    decreases j,
{
    if forall|k: int| 0 <= k < j ==> (#[trigger] members[k]).0 != key {
        assert(is_first_member(members, key, j));
    } else {
        let k = choose|k: int| 0 <= k < j && (#[trigger] members[k]).0 == key;
        lemma_has_first(members, key, k);
    }
}

impl JsonValue {
    /// The value of the first member named `key` of an object; `None` for
    /// an object without such a member and for every other kind of value.
    pub open spec fn member(self, key: Seq<char>) -> Option<JsonValue> {
        match self {
            JsonValue::Object(members) => match first_member(members, key) {
                Some(i) => Some(members[i].1),
                None => None,
            },
            _ => None,
        }
    }

    /// This value with the first member named `key` replaced by `value`.
    /// A value without such a member is returned as it is.
    pub open spec fn with_member(self, key: Seq<char>, value: JsonValue) -> JsonValue {
        match self {
            JsonValue::Object(members) => match first_member(members, key) {
                Some(i) => JsonValue::Object(members.update(i, (members[i].0, value))),
                None => self,
            },
            _ => self,
        }
    }
}

/// The position of the first member named `key`.
pub fn find_member(members: &Vec<Member>, key: &str) -> (found: Option<usize>)
    ensures
        match found {
            Some(i) => first_member(members_view(members@), key@) == Some(i as int),
            None => first_member(members_view(members@), key@) is None,
        },
{
    let mut i: usize = 0;
    while i < members.len()
        invariant
            0 <= i <= members.len(),
            forall|j: int| 0 <= j < i ==> (#[trigger] members_view(members@)[j]).0 != key@,
        decreases members.len() - i,
    {
        if same_text(members[i].key.as_str(), key) {
            proof {
                lemma_first_member(members_view(members@), key@, i as int);
            }
            return Some(i);
        }
        i = i + 1;
    }
    proof {
        lemma_no_member(members_view(members@), key@);
    }
    None
}

/// Puts `value` in place of the value of member `i` and hands back the value
/// that stood there.
pub fn replace_member_value(members: &mut Vec<Member>, i: usize, value: Json) -> (previous: Json)
    requires
        i < old(members).len(),
    ensures
        previous == old(members)@[i as int].value,
        final(members)@.len() == old(members)@.len(),
        final(members)@[i as int].key == old(members)@[i as int].key,
        final(members)@[i as int].value == value,
        forall|j: int|
            0 <= j < old(members)@.len() && j != i ==> final(members)@[j] == old(members)@[j],
        members_view(final(members)@) == members_view(old(members)@).update(
            i as int,
            (old(members)@[i as int].key@, value@),
        ),
{
    let mut slot = value;
    core::mem::swap(&mut members[i].value, &mut slot);
    slot
}

impl Json {
    /// The value of the first member named `key`, where this document is an
    /// object that has one.
    pub fn get(&self, key: &str) -> (found: Option<&Json>)
        ensures
            match found {
                Some(value) => self@.member(key@) == Some(value@),
                None => self@.member(key@) is None,
            },
    {
        proof {
            lemma_view(*self);
        }
        match self {
            Json::Object(members) => match find_member(members, key) {
                Some(i) => Some(&members[i].value),
                None => None,
            },
            _ => None,
        }
    }

    /// A JSON string holding `text`.
    pub fn text(text: &str) -> (doc: Json)
        ensures
            doc@ == JsonValue::Text(text@),
    {
        Json::Text(text.to_owned())
    }

    /// The JSON object without members, `{}`.
    pub fn empty_object() -> (doc: Json)
        ensures
            doc@ == JsonValue::Object(Seq::empty()),
    {
        let doc = Json::Object(Vec::new());
        proof {
            lemma_view(doc);
            assert(members_view(Seq::<Member>::empty()) =~= Seq::empty());
        }
        doc
    }
}

/// Replacing the value of a member leaves every name where it was.
pub proof fn lemma_first_member_update(
    members: Seq<(Seq<char>, JsonValue)>,
    i: int,
    value: JsonValue,
    key: Seq<char>,
)
    requires
        0 <= i < members.len(),
    ensures
        first_member(members.update(i, (members[i].0, value)), key) == first_member(members, key),
{
    let updated = members.update(i, (members[i].0, value));
    lemma_first_member_cases(members, key);
    match first_member(members, key) {
        Some(k) => {
            lemma_first_member(updated, key, k);
        },
        None => {
            lemma_no_member(updated, key);
        },
    }
}

/// A member added at the end is found under its name only where no earlier
/// member has that name; every other name is found where it was.
pub proof fn lemma_first_member_push(
    members: Seq<(Seq<char>, JsonValue)>,
    added: (Seq<char>, JsonValue),
    key: Seq<char>,
)
    ensures
        first_member(members.push(added), key) == match first_member(members, key) {
            Some(i) => Some(i),
            None => if added.0 == key {
                Some(members.len() as int)
            } else {
                None
            },
        },
{
    let pushed = members.push(added);
    lemma_first_member_cases(members, key);
    match first_member(members, key) {
        Some(k) => {
            lemma_first_member(pushed, key, k);
        },
        None => {
            if added.0 == key {
                lemma_first_member(pushed, key, members.len() as int);
            } else {
                lemma_no_member(pushed, key);
            }
        },
    }
}

/// What `with_member` does to the members of a value, name by name.
pub proof fn lemma_with_member(doc: JsonValue, key: Seq<char>, value: JsonValue, other: Seq<char>)
    ensures
        doc.with_member(key, value).member(other) == if other == key && doc.member(key) is Some {
            Some(value)
        } else {
            doc.member(other)
        },
        doc.member(key) == Some(value) ==> doc.with_member(key, value) == doc,
        doc.member(key) is Some && doc.with_member(key, value) == doc ==> doc.member(key) == Some(
            value,
        ),
{
    if let JsonValue::Object(members) = doc {
        lemma_first_member_cases(members, key);
        if let Some(i) = first_member(members, key) {
            lemma_first_member_update(members, i, value, other);
            lemma_first_member_update(members, i, value, key);
            let updated = members.update(i, (members[i].0, value));
            if members[i].1 == value {
                assert(updated =~= members);
            }
            lemma_first_member_cases(members, other);
        }
    }
}

} // verus!
