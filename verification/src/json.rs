//! JSON documents as plain values, and the parser that produces them.

use vstd::prelude::*;

verus! {

/// A JSON document as a mathematical value.
pub enum JsonTree {
    Null,
    Bool(bool),
    /// A number, by its decimal rendering.
    Number(Seq<char>),
    Text(Seq<char>),
    Array(Seq<JsonTree>),
    /// The members of an object, in the order in which they are held.
    Object(Seq<(Seq<char>, JsonTree)>),
}

/// A JSON document held in memory.
#[derive(Debug, PartialEq, Eq)]
pub enum JsonValue {
    Null,
    Bool(bool),
    /// A number, by its decimal rendering.
    Number(String),
    String(String),
    Array(Vec<JsonValue>),
    /// The members of an object, in the order in which they are held.
    Object(Vec<(String, JsonValue)>),
}

/// The document that a value holds.
pub open spec fn tree(value: JsonValue) -> JsonTree
    decreases value,
{
    match value {
        JsonValue::Null => JsonTree::Null,
        JsonValue::Bool(b) => JsonTree::Bool(b),
        JsonValue::Number(n) => JsonTree::Number(n@),
        JsonValue::String(s) => JsonTree::Text(s@),
        JsonValue::Array(items) => JsonTree::Array(
            Seq::new(
                items.len() as nat,
                |i: int|
                    if 0 <= i < items.len() {
                        tree(items[i])
                    } else {
                        JsonTree::Null
                    },
            ),
        ),
        JsonValue::Object(members) => JsonTree::Object(
            Seq::new(
                members.len() as nat,
                |i: int|
                    if 0 <= i < members.len() {
                        (members[i].0@, tree(members[i].1))
                    } else {
                        (Seq::empty(), JsonTree::Null)
                    },
            ),
        ),
    }
}

impl View for JsonValue {
    type V = JsonTree;

    open spec fn view(&self) -> JsonTree {
        tree(*self)
    }
}

/// The documents that a sequence of values holds.
pub open spec fn trees(values: Seq<JsonValue>) -> Seq<JsonTree> {
    values.map_values(|value: JsonValue| value@)
}

/// An array holds the documents of its elements, in order.
pub proof fn lemma_array_view(items: Vec<JsonValue>)
    ensures
        JsonValue::Array(items)@ == JsonTree::Array(trees(items@)),
{
    assert(JsonValue::Array(items)@->Array_0 =~= trees(items@));
}

/// The value of the first member held under `key`, if there is one.
pub open spec fn first_with_key(members: Seq<(Seq<char>, JsonTree)>, key: Seq<char>) -> Option<
    JsonTree,
>
    decreases members.len(),
{
    if members.len() == 0 {
        None
    } else if members[0].0 == key {
        Some(members[0].1)
    } else {
        first_with_key(members.skip(1), key)
    }
}

impl JsonTree {
    /// The member of an object held under `key`; nothing for a document
    /// that is not an object.
    pub open spec fn get(self, key: Seq<char>) -> Option<JsonTree> {
        match self {
            JsonTree::Object(members) => first_with_key(members, key),
            _ => None,
        }
    }
}

impl JsonValue {
    /// Looks up the member of an object held under `key`.
    pub fn get(&self, key: &str) -> (r: Option<&JsonValue>)
        ensures
            match r {
                Some(value) => self@.get(key@) == Some(value@),
                None => self@.get(key@) is None,
            },
    {
        match self {
            JsonValue::Object(members) => {
                let ghost all = self@->Object_0;
                let mut i: usize = 0;
                assert(all.skip(0) == all);
                while i < members.len()
                    invariant
                        i <= members.len(),
                        self@ == JsonTree::Object(all),
                        all.len() == members.len(),
                        forall|j: int|
                            0 <= j < members.len() ==> all[j] == (members[j].0@, members[j].1@),
                        first_with_key(all, key@) == first_with_key(all.skip(i as int), key@),
                    decreases members.len() - i,
                {
                    assert(all.skip(i as int).skip(1) == all.skip(i as int + 1));
                    if *members[i].0 == *key {
                        return Some(&members[i].1);
                    }
                    i += 1;
                }
                None
            },
            _ => None,
        }
    }
}

/// `serde_json::Value`, carried from the parser to the copy.
#[verifier::external_type_specification]
#[verifier::external_body]
pub struct ExValue(serde_json::Value);

/// `serde_json::Error`, carried from the parser to its message.
#[verifier::external_type_specification]
#[verifier::external_body]
pub struct ExError(serde_json::Error);

/// What `serde_json::from_str` makes of a text: the document it describes,
/// or the parser's message when it describes none.
pub uninterp spec fn document_of(text: Seq<char>) -> Result<JsonTree, Seq<char>>;

/// The document that a `serde_json::Value` holds.
pub uninterp spec fn tree_of(value: serde_json::Value) -> JsonTree;

/// The message that a `serde_json::Error` displays.
pub uninterp spec fn message_of(error: serde_json::Error) -> Seq<char>;

/// `serde_json::from_str` at type `Value`: the outcome is a function of the
/// text alone.
#[verifier::external_body]
fn read_document(text: &str) -> (r: Result<serde_json::Value, serde_json::Error>)
    ensures
        match r {
            Ok(value) => document_of(text@) == Ok::<JsonTree, Seq<char>>(tree_of(value)),
            Err(error) => document_of(text@) == Err::<JsonTree, Seq<char>>(message_of(error)),
        },
{
    serde_json::from_str::<serde_json::Value>(text)
}

/// How deeply a `serde_json::Value` is nested.
pub uninterp spec fn depth_of(value: serde_json::Value) -> nat;

/// The outermost level of a `serde_json::Value`: its variant, with what
/// the variant holds.
enum Shape<'a> {
    Null,
    Bool(bool),
    /// A number, by its `Display` rendering.
    Number(String),
    Text(&'a String),
    Array(Vec<&'a serde_json::Value>),
    /// The members of an object, in the order of `Map::iter`.
    Object(Vec<(&'a String, &'a serde_json::Value)>),
}

impl<'a> Shape<'a> {
    /// The values held one level down.
    spec fn children(self) -> Seq<&'a serde_json::Value> {
        match self {
            Shape::Array(items) => items@,
            Shape::Object(members) => members@.map_values(
                |member: (&'a String, &'a serde_json::Value)| member.1,
            ),
            _ => Seq::empty(),
        }
    }

    /// The document that a value of this shape holds, given the documents
    /// that the values one level down hold.
    spec fn document(self) -> JsonTree {
        match self {
            Shape::Null => JsonTree::Null,
            Shape::Bool(b) => JsonTree::Bool(b),
            Shape::Number(n) => JsonTree::Number(n@),
            Shape::Text(s) => JsonTree::Text(s@),
            Shape::Array(items) => JsonTree::Array(
                items@.map_values(|item: &'a serde_json::Value| tree_of(*item)),
            ),
            Shape::Object(members) => JsonTree::Object(
                members@.map_values(
                    |member: (&'a String, &'a serde_json::Value)| (member.0@, tree_of(*member.1)),
                ),
            ),
        }
    }
}

/// Takes a `serde_json::Value` apart by its variant. The document that the
/// value holds is the one that its variant and the values inside it make
/// up, and each value inside is nested less deeply than the whole.
#[verifier::external_body]
fn shape_of(value: &serde_json::Value) -> (r: Shape<'_>)
    ensures
        r.document() == tree_of(*value),
        forall|i: int|
            0 <= i < r.children().len() ==> depth_of(*#[trigger] r.children()[i]) < depth_of(
                *value,
            ),
{
    match value {
        serde_json::Value::Null => Shape::Null,
        serde_json::Value::Bool(b) => Shape::Bool(*b),
        serde_json::Value::Number(n) => Shape::Number(n.to_string()),
        serde_json::Value::String(s) => Shape::Text(s),
        serde_json::Value::Array(items) => Shape::Array(items.iter().collect()),
        serde_json::Value::Object(map) => Shape::Object(map.iter().collect()),
    }
}

/// An object holds its members, in order, each under its key.
pub proof fn lemma_object_view(members: Vec<(String, JsonValue)>)
    ensures
        JsonValue::Object(members)@ == JsonTree::Object(
            members@.map_values(|member: (String, JsonValue)| (member.0@, member.1@)),
        ),
{
    assert(JsonValue::Object(members)@->Object_0 =~= members@.map_values(
        |member: (String, JsonValue)| (member.0@, member.1@),
    ));
}

/// Copies a `serde_json::Value` into a `JsonValue`.
fn copy_value(value: &serde_json::Value) -> (r: JsonValue)
    ensures
        r@ == tree_of(*value),
    decreases depth_of(*value),
{
    let shape = shape_of(value);
    match shape {
        Shape::Null => JsonValue::Null,
        Shape::Bool(b) => JsonValue::Bool(b),
        Shape::Number(n) => JsonValue::Number(n),
        Shape::Text(s) => JsonValue::String(s.clone()),
        Shape::Array(items) => {
            let mut out: Vec<JsonValue> = Vec::new();
            let mut i: usize = 0;
            while i < items.len()
                invariant
                    i <= items.len(),
                    shape == Shape::Array(items),
                    forall|j: int|
                        0 <= j < shape.children().len() ==> depth_of(
                            *#[trigger] shape.children()[j],
                        ) < depth_of(*value),
                    out.len() == i,
                    forall|j: int| 0 <= j < i ==> out[j]@ == tree_of(*items[j]),
                decreases items.len() - i,
            {
                assert(shape.children()[i as int] == items[i as int]);
                out.push(copy_value(items[i]));
                i += 1;
            }
            proof {
                lemma_array_view(out);
                assert(trees(out@) =~= items@.map_values(
                    |item: &serde_json::Value| tree_of(*item),
                ));
            }
            JsonValue::Array(out)
        },
        Shape::Object(members) => {
            let mut out: Vec<(String, JsonValue)> = Vec::new();
            let mut i: usize = 0;
            while i < members.len()
                invariant
                    i <= members.len(),
                    shape == Shape::Object(members),
                    forall|j: int|
                        0 <= j < shape.children().len() ==> depth_of(
                            *#[trigger] shape.children()[j],
                        ) < depth_of(*value),
                    out.len() == i,
                    forall|j: int|
                        0 <= j < i ==> out[j].0@ == members[j].0@ && out[j].1@ == tree_of(
                            *members[j].1,
                        ),
                decreases members.len() - i,
            {
                assert(shape.children()[i as int] == members[i as int].1);
                let key = members[i].0.clone();
                let inner = copy_value(members[i].1);
                out.push((key, inner));
                i += 1;
            }
            proof {
                lemma_object_view(out);
                assert(out@.map_values(|member: (String, JsonValue)| (member.0@, member.1@))
                    =~= members@.map_values(
                    |member: (&String, &serde_json::Value)| (member.0@, tree_of(*member.1)),
                ));
            }
            JsonValue::Object(out)
        },
    }
}

/// `serde_json::Error`'s `Display` rendering.
#[verifier::external_body]
fn error_message(error: &serde_json::Error) -> (r: String)
    ensures
        r@ == message_of(*error),
{
    error.to_string()
}

/// Parses a JSON text.
pub fn parse_json(text: &str) -> (r: Result<JsonValue, String>)
    ensures
        match r {
            Ok(value) => document_of(text@) == Ok::<JsonTree, Seq<char>>(value@),
            Err(message) => document_of(text@) == Err::<JsonTree, Seq<char>>(message@),
        },
{
    match read_document(text) {
        Ok(value) => Ok(copy_value(&value)),
        Err(error) => Err(error_message(&error)),
    }
}

} // verus!
