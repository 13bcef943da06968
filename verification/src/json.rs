//! JSON documents, as far as the library reads them.

use crate::text::str_eq;
use vstd::prelude::*;

verus! {

/// The contents of a JSON document.
pub enum JsonTree {
    Null,
    Bool(bool),
    /// A number, with its value where that is an integer in `0..2^64`.
    Number(Option<u64>),
    Text(Seq<char>),
    Array(Seq<JsonTree>),
    Object(Seq<(Seq<char>, JsonTree)>),
}

/// A JSON document.
pub enum Json {
    Null,
    Bool(bool),
    /// A number, with its value where that is an integer in `0..2^64`.
    Number(Option<u64>),
    Text(String),
    Array(Vec<Json>),
    Object(Vec<(String, Json)>),
}

impl View for Json {
    type V = JsonTree;

    open spec fn view(&self) -> JsonTree {
        tree(*self)
    }
}

/// The contents of a JSON document.
pub open spec fn tree(json: Json) -> JsonTree
    decreases json,
{
    match json {
        Json::Null => JsonTree::Null,
        Json::Bool(b) => JsonTree::Bool(b),
        Json::Number(n) => JsonTree::Number(n),
        Json::Text(s) => JsonTree::Text(s@),
        Json::Array(items) => JsonTree::Array(
            Seq::new(
                items@.len(),
                |i: int|
                    if 0 <= i < items@.len() {
                        tree(items@[i])
                    } else {
                        JsonTree::Null
                    },
            ),
        ),
        Json::Object(fields) => JsonTree::Object(
            Seq::new(
                fields@.len(),
                |i: int|
                    if 0 <= i < fields@.len() {
                        (fields@[i].0@, tree(fields@[i].1))
                    } else {
                        (Seq::empty(), JsonTree::Null)
                    },
            ),
        ),
    }
}

/// The value of the first field of this key.
pub open spec fn field_of(fields: Seq<(Seq<char>, JsonTree)>, key: Seq<char>) -> Option<JsonTree>
    decreases fields.len(),
{
    if fields.len() == 0 {
        None
    } else if fields[0].0 == key {
        Some(fields[0].1)
    } else {
        field_of(fields.drop_first(), key)
    }
}

impl JsonTree {
    /// The items of an array.
    pub open spec fn items(self) -> Option<Seq<JsonTree>> {
        match self {
            JsonTree::Array(items) => Some(items),
            _ => None,
        }
    }

    /// The characters of a string.
    pub open spec fn text(self) -> Option<Seq<char>> {
        match self {
            JsonTree::Text(s) => Some(s),
            _ => None,
        }
    }

    /// The value of a number that is an integer in `0..2^64`.
    pub open spec fn uint(self) -> Option<u64> {
        match self {
            JsonTree::Number(n) => n,
            _ => None,
        }
    }

    /// The field of an object.
    pub open spec fn field(self, key: Seq<char>) -> Option<JsonTree> {
        match self {
            JsonTree::Object(fields) => field_of(fields, key),
            _ => None,
        }
    }

    /// The string in a field of an object.
    pub open spec fn text_field(self, key: Seq<char>) -> Option<Seq<char>> {
        match self.field(key) {
            Some(value) => value.text(),
            None => None,
        }
    }
}

impl Json {
    /// The items of an array.
    pub fn as_array(&self) -> (items: Option<&Vec<Json>>)
        ensures
            items is Some <==> self@.items() is Some,
            items matches Some(v) ==> {
                &&& v@.len() == self@.items()->0.len()
                &&& forall|i: int| 0 <= i < v@.len() ==> (#[trigger] v@[i])@ == self@.items()->0[i]
            },
    {
        match self {
            Json::Array(items) => Some(items),
            _ => None,
        }
    }

    /// The characters of a string.
    pub fn as_str(&self) -> (text: Option<&str>)
        ensures
            text is Some <==> self@.text() is Some,
            text matches Some(s) ==> s@ == self@.text()->0,
    {
        match self {
            Json::Text(s) => Some(s.as_str()),
            _ => None,
        }
    }

    /// The value of a number that is an integer in `0..2^64`.
    pub fn as_u64(&self) -> (n: Option<u64>)
        ensures
            n == self@.uint(),
    {
        match self {
            Json::Number(n) => *n,
            _ => None,
        }
    }

    /// The field of an object.
    pub fn get(&self, key: &str) -> (value: Option<&Json>)
        ensures
            value is Some <==> self@.field(key@) is Some,
            value matches Some(v) ==> v@ == self@.field(key@)->0,
    {
        match self {
            Json::Object(fields) => {
                let ghost all = self@->Object_0;
                let mut i: usize = 0;
                assert(all.skip(0) == all);
                while i < fields.len()
                    invariant
                        i <= fields@.len() == all.len(),
                        self@ == JsonTree::Object(all),
                        forall|j: int|
                            0 <= j < fields@.len() ==> all[j] == (
                                (#[trigger] fields@[j]).0@,
                                fields@[j].1@,
                            ),
                        field_of(all, key@) == field_of(all.skip(i as int), key@),
                    decreases fields@.len() - i,
                {
                    let field: &(String, Json) = &fields[i];
                    if str_eq(field.0.as_str(), key) {
                        return Some(&field.1);
                    }
                    assert(all.skip(i as int).drop_first() == all.skip(i + 1));
                    i = i + 1;
                }
                None
            },
            _ => None,
        }
    }

    /// The string in a field of an object.
    pub fn get_str(&self, key: &str) -> (text: Option<&str>)
        ensures
            text is Some <==> self@.text_field(key@) is Some,
            text matches Some(s) ==> s@ == self@.text_field(key@)->0,
    {
        match self.get(key) {
            Some(value) => value.as_str(),
            None => None,
        }
    }
}

// Parsing ---------------------------------------------------------------------

/// Declares `serde_json::Value`. Nothing is claimed of it here.
#[verifier::external_type_specification]
#[verifier::external_body]
pub struct ExJsonValue(serde_json::Value);

/// Declares `serde_json::Error`. Nothing is claimed of it.
#[verifier::external_type_specification]
#[verifier::external_body]
pub struct ExJsonError(serde_json::Error);

/// What a `serde_json::Value` holds.
pub uninterp spec fn value_tree(value: serde_json::Value) -> JsonTree;

/// What `serde_json::from_slice` reads from these bytes as a
/// `serde_json::Value`; `None` where it gives an error.
pub uninterp spec fn parsed_json(bytes: Seq<u8>) -> Option<JsonTree>;

/// `serde_json::from_slice::<Value>`. Claims only that what comes back depends
/// on the bytes alone: whether it is an error, and what the document holds.
#[verifier::external_body]
fn parse_value(bytes: &[u8]) -> (value: Result<serde_json::Value, serde_json::Error>)
    ensures
        match value {
            Ok(v) => parsed_json(bytes@) == Some(value_tree(v)),
            Err(_) => parsed_json(bytes@) is None,
        },
{
    serde_json::from_slice::<serde_json::Value>(bytes)
}

/// A `serde_json::Value`, opened: what it holds at its top.
enum Layer {
    Null,
    Bool(bool),
    Number(Option<u64>),
    Text(String),
    Array(Vec<serde_json::Value>),
    Object(Vec<(String, serde_json::Value)>),
}

/// What a `serde_json::Value` with this at its top holds.
spec fn layer_tree(layer: Layer) -> JsonTree {
    match layer {
        Layer::Null => JsonTree::Null,
        Layer::Bool(b) => JsonTree::Bool(b),
        Layer::Number(n) => JsonTree::Number(n),
        Layer::Text(s) => JsonTree::Text(s@),
        Layer::Array(items) => JsonTree::Array(
            Seq::new(items@.len(), |i: int| value_tree(items@[i])),
        ),
        Layer::Object(fields) => JsonTree::Object(
            Seq::new(fields@.len(), |i: int| (fields@[i].0@, value_tree(fields@[i].1))),
        ),
    }
}

/// Opens a `serde_json::Value`, variant by variant. Claims that the document
/// holds what stands at its top, and below that what the values there hold. A
/// number is kept as what `Number::as_u64` makes of it, an object as the pairs
/// that its map gives.
#[verifier::external_body]
fn open_value(value: serde_json::Value) -> (layer: Layer)
    ensures
        value_tree(value) == layer_tree(layer),
{
    match value {
        serde_json::Value::Null => Layer::Null,
        serde_json::Value::Bool(b) => Layer::Bool(b),
        serde_json::Value::Number(n) => Layer::Number(n.as_u64()),
        serde_json::Value::String(s) => Layer::Text(s),
        serde_json::Value::Array(items) => Layer::Array(items),
        serde_json::Value::Object(fields) => Layer::Object(fields.into_iter().collect()),
    }
}

/// The document that a `serde_json::Value` holds.
fn json_of(value: serde_json::Value) -> (json: Json)
    ensures
        json@ == value_tree(value),
    decreases value_tree(value),
{
    let ghost whole = value_tree(value);
    match open_value(value) {
        Layer::Null => Json::Null,
        Layer::Bool(b) => Json::Bool(b),
        Layer::Number(n) => Json::Number(n),
        Layer::Text(s) => Json::Text(s),
        Layer::Array(items) => {
            let ghost trees = whole->Array_0;
            let mut left: Vec<serde_json::Value> = items;
            let mut back: Vec<Json> = Vec::new();
            while left.len() > 0
                invariant
                    whole == JsonTree::Array(trees),
                    whole == value_tree(value),
                    left@.len() + back@.len() == trees.len(),
                    forall|i: int|
                        0 <= i < left@.len() ==> value_tree(#[trigger] left@[i]) == trees[i],
                    forall|i: int|
                        0 <= i < back@.len() ==> (#[trigger] back@[i])@ == trees[trees.len() - 1
                            - i],
                decreases left@.len(),
            {
                if let Some(item) = left.pop() {
                    assert(value_tree(item) == trees[left@.len() as int]);
                    assert(decreases_to!(whole => whole->Array_0));
                    assert(decreases_to!(trees => trees[left@.len() as int]));
                    back.push(json_of(item));
                }
            }
            let mut done: Vec<Json> = Vec::new();
            while back.len() > 0
                invariant
                    done@.len() + back@.len() == trees.len(),
                    forall|i: int|
                        0 <= i < back@.len() ==> (#[trigger] back@[i])@ == trees[trees.len() - 1
                            - i],
                    forall|i: int| 0 <= i < done@.len() ==> (#[trigger] done@[i])@ == trees[i],
                decreases back@.len(),
            {
                if let Some(item) = back.pop() {
                    done.push(item);
                }
            }
            let json = Json::Array(done);
            assert(json@->Array_0 =~= trees);
            json
        },
        Layer::Object(fields) => {
            let ghost trees = whole->Object_0;
            let mut left: Vec<(String, serde_json::Value)> = fields;
            let mut back: Vec<(String, Json)> = Vec::new();
            while left.len() > 0
                invariant
                    whole == JsonTree::Object(trees),
                    whole == value_tree(value),
                    left@.len() + back@.len() == trees.len(),
                    forall|i: int|
                        0 <= i < left@.len() ==> trees[i] == (
                            (#[trigger] left@[i]).0@,
                            value_tree(left@[i].1),
                        ),
                    forall|i: int|
                        0 <= i < back@.len() ==> trees[trees.len() - 1 - i] == (
                            (#[trigger] back@[i]).0@,
                            back@[i].1@,
                        ),
                decreases left@.len(),
            {
                if let Some((key, item)) = left.pop() {
                    assert(trees[left@.len() as int] == (key@, value_tree(item)));
                    assert(decreases_to!(whole => whole->Object_0));
                    assert(decreases_to!(trees => trees[left@.len() as int]));
                    assert(decreases_to!(trees[left@.len() as int] => trees[left@.len() as int].1));
                    back.push((key, json_of(item)));
                }
            }
            let mut done: Vec<(String, Json)> = Vec::new();
            while back.len() > 0
                invariant
                    done@.len() + back@.len() == trees.len(),
                    forall|i: int|
                        0 <= i < back@.len() ==> trees[trees.len() - 1 - i] == (
                            (#[trigger] back@[i]).0@,
                            back@[i].1@,
                        ),
                    forall|i: int|
                        0 <= i < done@.len() ==> trees[i] == (
                            (#[trigger] done@[i]).0@,
                            done@[i].1@,
                        ),
                decreases back@.len(),
            {
                if let Some(field) = back.pop() {
                    done.push(field);
                }
            }
            let json = Json::Object(done);
            assert(json@->Object_0 =~= trees);
            json
        },
    }
}

/// Reads a JSON document; `None` where the bytes are none.
pub fn parse_json(bytes: &[u8]) -> (json: Option<Json>)
    ensures
        json is Some <==> parsed_json(bytes@) is Some,
        json matches Some(j) ==> j@ == parsed_json(bytes@)->0,
{
    match parse_value(bytes) {
        Ok(value) => Some(json_of(value)),
        Err(_) => None,
    }
}

// Laws ------------------------------------------------------------------------

/// A field of an object is the value beside the first key of that name; where no
/// key has the name, there is no field.
pub proof fn law_field(fields: Seq<(Seq<char>, JsonTree)>, key: Seq<char>, i: int)
    ensures
        0 <= i < fields.len() && fields[i].0 == key && (forall|j: int|
            0 <= j < i ==> (#[trigger] fields[j]).0 != key) ==> JsonTree::Object(fields).field(key)
            == Some(fields[i].1),
        (forall|j: int| 0 <= j < fields.len() ==> (#[trigger] fields[j]).0 != key)
            ==> JsonTree::Object(fields).field(key) is None,
    decreases fields.len(),
{
    if fields.len() > 0 && fields[0].0 != key {
        let rest = fields.drop_first();
        law_field(rest, key, i - 1);
        assert(forall|j: int| 0 <= j < rest.len() ==> #[trigger] rest[j] == fields[j + 1]);
    }
}

/// Only an object has fields, only an array items, only a string text, and only
/// a number a value.
pub proof fn law_kinds(tree: JsonTree, key: Seq<char>)
    ensures
        !(tree is Object) ==> tree.field(key) is None && tree.text_field(key) is None,
        tree.items() == (match tree {
            JsonTree::Array(items) => Some(items),
            _ => None,
        }),
        tree.text() == (match tree {
            JsonTree::Text(text) => Some(text),
            _ => None,
        }),
        tree.uint() == (match tree {
            JsonTree::Number(n) => n,
            _ => None,
        }),
        tree.text_field(key) is Some <==> tree.field(key) is Some && tree.field(key)->0 is Text,
        tree.text_field(key) is Some ==> tree.field(key) == Some(
            JsonTree::Text(tree.text_field(key)->0),
        ),
{
}

/// The contents of a document, node by node.
pub proof fn law_contents(
    b: bool,
    n: Option<u64>,
    s: String,
    items: Vec<Json>,
    fields: Vec<(String, Json)>,
    i: int,
)
    ensures
        Json::Null@ is Null,
        Json::Bool(b)@ == JsonTree::Bool(b),
        Json::Number(n)@ == JsonTree::Number(n),
        Json::Text(s)@ == JsonTree::Text(s@),
        Json::Array(items)@ is Array,
        Json::Array(items)@->Array_0.len() == items@.len(),
        0 <= i < items@.len() ==> Json::Array(items)@->Array_0[i] == items@[i]@,
        Json::Object(fields)@ is Object,
        Json::Object(fields)@->Object_0.len() == fields@.len(),
        0 <= i < fields@.len() ==> Json::Object(fields)@->Object_0[i] == (
            fields@[i].0@,
            fields@[i].1@,
        ),
{
}

} // verus!
