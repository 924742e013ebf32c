//! JSON documents as plain values.
use crate::text::same;
use vstd::prelude::*;

verus! {

/// A JSON value, as far as the listing of panes reads one.
#[derive(Debug, PartialEq, Eq)]
pub enum Json {
    /// `null`.
    Null,
    /// `true` or `false`.
    Bool(bool),
    /// A number: its value where it is an integer of 0 to 2^64 - 1.
    Number(Option<u64>),
    /// A string.
    Text(String),
    /// An array.
    Array(Vec<Json>),
    /// An object: its fields, by key.
    Object(Vec<(String, Json)>),
}

/// What a [`Json`] stands for.
pub enum JsonModel {
    Null,
    Bool(bool),
    Number(Option<u64>),
    Text(Seq<char>),
    Array(Seq<JsonModel>),
    Object(Seq<(Seq<char>, JsonModel)>),
}

impl Json {
    /// What this value stands for.
    pub open spec fn model(self) -> JsonModel
        decreases self,
    {
        match self {
            Json::Null => JsonModel::Null,
            Json::Bool(b) => JsonModel::Bool(b),
            Json::Number(n) => JsonModel::Number(n),
            Json::Text(s) => JsonModel::Text(s@),
            Json::Array(items) => JsonModel::Array(
                Seq::new(
                    items@.len(),
                    |i: int|
                        if 0 <= i < items@.len() {
                            items@[i].model()
                        } else {
                            JsonModel::Null
                        },
                ),
            ),
            Json::Object(fields) => JsonModel::Object(
                Seq::new(
                    fields@.len(),
                    |i: int|
                        if 0 <= i < fields@.len() {
                            (fields@[i].0@, fields@[i].1.model())
                        } else {
                            (seq![], JsonModel::Null)
                        },
                ),
            ),
        }
    }
}

impl View for Json {
    type V = JsonModel;

    open spec fn view(&self) -> JsonModel {
        self.model()
    }
}

/// Whether no two of `fields` have the same key.
pub open spec fn distinct_keys(fields: Seq<(Seq<char>, JsonModel)>) -> bool {
    forall|i: int, j: int| 0 <= i < j < fields.len() ==> fields[i].0 != fields[j].0
}

/// The value of the first of `fields` whose key is `key`.
pub open spec fn lookup(fields: Seq<(Seq<char>, JsonModel)>, key: Seq<char>) -> Option<JsonModel>
    decreases fields.len(),
{
    if fields.len() == 0 {
        None
    } else if fields[0].0 == key {
        Some(fields[0].1)
    } else {
        lookup(fields.drop_first(), key)
    }
}

impl JsonModel {
    /// Whether no object in this value holds a key twice.
    pub open spec fn keys_once(self) -> bool
        decreases self,
    {
        match self {
            JsonModel::Array(items) => forall|i: int|
                0 <= i < items.len() ==> (#[trigger] items[i]).keys_once(),
            JsonModel::Object(fields) => {
                &&& distinct_keys(fields)
                &&& forall|i: int| 0 <= i < fields.len() ==> (#[trigger] fields[i]).1.keys_once()
            },
            _ => true,
        }
    }

    /// The value of the field `key`, if this is an object that has it.
    pub open spec fn get(self, key: Seq<char>) -> Option<JsonModel> {
        match self {
            JsonModel::Object(fields) => lookup(fields, key),
            _ => None,
        }
    }

    /// The number, if this is an integer of 0 to 2^64 - 1.
    pub open spec fn as_u64(self) -> Option<u64> {
        match self {
            JsonModel::Number(n) => n,
            _ => None,
        }
    }

    /// The truth value, if this is one.
    pub open spec fn as_bool(self) -> Option<bool> {
        match self {
            JsonModel::Bool(b) => Some(b),
            _ => None,
        }
    }

    /// The string, if this is one.
    pub open spec fn as_str(self) -> Option<Seq<char>> {
        match self {
            JsonModel::Text(s) => Some(s),
            _ => None,
        }
    }

    /// The number in the field `key`.
    pub open spec fn u64_field(self, key: Seq<char>) -> Option<u64> {
        match self.get(key) {
            Some(value) => value.as_u64(),
            None => None,
        }
    }

    /// The truth value in the field `key`.
    pub open spec fn bool_field(self, key: Seq<char>) -> Option<bool> {
        match self.get(key) {
            Some(value) => value.as_bool(),
            None => None,
        }
    }

    /// The string in the field `key`.
    pub open spec fn str_field(self, key: Seq<char>) -> Option<Seq<char>> {
        match self.get(key) {
            Some(value) => value.as_str(),
            None => None,
        }
    }
}

impl Json {
    /// The value of the field `key`, if this is an object that has it.
    pub fn get(&self, key: &str) -> (r: Option<&Json>)
        ensures
            match r {
                Some(value) => self@.get(key@) == Some(value@),
                None => self@.get(key@) is None,
            },
    {
        match self {
            Json::Object(fields) => {
                let ghost all = self@->Object_0;
                let mut i: usize = 0;
                assert(all.skip(0) =~= all);
                while i < fields.len()
                    invariant
                        i <= fields.len(),
                        all == self@->Object_0,
                        self@ is Object,
                        self == Json::Object(*fields),
                        self@.get(key@) == lookup(all.skip(i as int), key@),
                    decreases fields.len() - i,
                {
                    let ghost rest = all.skip(i as int);
                    assert(rest[0] == (fields@[i as int].0@, fields@[i as int].1@));
                    assert(rest.drop_first() =~= all.skip(i + 1));
                    if same(fields[i].0.as_str(), key) {
                        return Some(&fields[i].1);
                    }
                    i = i + 1;
                }
                assert(all.skip(i as int).len() == 0);
                None
            },
            _ => None,
        }
    }

    /// The number, if this is an integer of 0 to 2^64 - 1.
    pub fn as_u64(&self) -> (r: Option<u64>)
        ensures
            r == self@.as_u64(),
    {
        match self {
            Json::Number(n) => *n,
            _ => None,
        }
    }

    /// The truth value, if this is one.
    pub fn as_bool(&self) -> (r: Option<bool>)
        ensures
            r == self@.as_bool(),
    {
        match self {
            Json::Bool(b) => Some(*b),
            _ => None,
        }
    }

    /// The string, if this is one.
    pub fn as_str(&self) -> (r: Option<&str>)
        ensures
            r.deep_view() == self@.as_str(),
    {
        match self {
            Json::Text(s) => Some(s.as_str()),
            _ => None,
        }
    }

    /// The items, if this is an array.
    pub fn as_array(&self) -> (r: Option<&Vec<Json>>)
        ensures
            match r {
                Some(items) => self@ == JsonModel::Array(models(items@)),
                None => self@ !is Array,
            },
    {
        match self {
            Json::Array(items) => {
                assert(self@->Array_0 =~= models(items@));
                Some(items)
            },
            _ => None,
        }
    }

    /// The number in the field `key`.
    pub fn u64_field(&self, key: &str) -> (r: Option<u64>)
        ensures
            r == self@.u64_field(key@),
    {
        match self.get(key) {
            Some(value) => value.as_u64(),
            None => None,
        }
    }

    /// The truth value in the field `key`.
    pub fn bool_field(&self, key: &str) -> (r: Option<bool>)
        ensures
            r == self@.bool_field(key@),
    {
        match self.get(key) {
            Some(value) => value.as_bool(),
            None => None,
        }
    }

    /// The string in the field `key`.
    pub fn str_field(&self, key: &str) -> (r: Option<&str>)
        ensures
            r.deep_view() == self@.str_field(key@),
    {
        match self.get(key) {
            Some(value) => value.as_str(),
            None => None,
        }
    }
}

/// In an object that holds no key twice, every field is found under its key.
pub proof fn law_every_field_is_found(fields: Seq<(Seq<char>, JsonModel)>, i: int)
    requires
        JsonModel::Object(fields).keys_once(),
        0 <= i < fields.len(),
    ensures
        JsonModel::Object(fields).get(fields[i].0) == Some(fields[i].1),
{
    lemma_lookup(fields, i);
}

proof fn lemma_lookup(fields: Seq<(Seq<char>, JsonModel)>, i: int)
    requires
        distinct_keys(fields),
        0 <= i < fields.len(),
    ensures
        lookup(fields, fields[i].0) == Some(fields[i].1),
    decreases fields.len(),
{
    if i > 0 {
        let rest = fields.drop_first();
        assert(rest[i - 1] == fields[i]);
        assert(forall|j: int| 0 <= j < rest.len() ==> #[trigger] rest[j] == fields[j + 1]);
        lemma_lookup(rest, i - 1);
    }
}

/// What the values of an array stand for.
pub open spec fn models(items: Seq<Json>) -> Seq<JsonModel> {
    items.map_values(|item: Json| item.model())
}

/// A document of the crate `serde_json`.
#[verifier::external_type_specification]
#[verifier::external_body]
pub struct ExValue(serde_json::Value);

/// The contents of a `serde_json::Value`.
pub uninterp spec fn value_model(value: serde_json::Value) -> JsonModel;

/// One level of a JSON value.
pub enum JsonNode {
    Null,
    Bool(bool),
    Number(Option<u64>),
    Text(String),
    Array(Vec<serde_json::Value>),
    Object(Vec<(String, serde_json::Value)>),
}

/// What a [`JsonNode`] stands for, by the contents of its parts.
pub open spec fn node_model(node: JsonNode) -> JsonModel {
    match node {
        JsonNode::Null => JsonModel::Null,
        JsonNode::Bool(b) => JsonModel::Bool(b),
        JsonNode::Number(n) => JsonModel::Number(n),
        JsonNode::Text(s) => JsonModel::Text(s@),
        JsonNode::Array(items) => JsonModel::Array(
            Seq::new(items@.len(), |i: int| value_model(items@[i])),
        ),
        JsonNode::Object(fields) => JsonModel::Object(
            Seq::new(fields@.len(), |i: int| (fields@[i].0@, value_model(fields@[i].1))),
        ),
    }
}

/// Tells the variants of `serde_json::Value` apart and moves their parts out. A number is
/// read by `serde_json::Number::as_u64`, which gives an integer of 0 to 2^64 - 1 and nothing
/// for any other number. An object hands out each of its keys once.
#[verifier::external_body]
fn open_value(value: serde_json::Value) -> (r: JsonNode)
    ensures
        node_model(r) == value_model(value),
        r is Object ==> distinct_keys(node_model(r)->Object_0),
{
    match value {
        serde_json::Value::Null => JsonNode::Null,
        serde_json::Value::Bool(b) => JsonNode::Bool(b),
        serde_json::Value::Number(n) => JsonNode::Number(n.as_u64()),
        serde_json::Value::String(s) => JsonNode::Text(s),
        serde_json::Value::Array(items) => JsonNode::Array(items),
        serde_json::Value::Object(fields) => JsonNode::Object(fields.into_iter().collect()),
    }
}

/// The document that a text is read as, or the words in which reading it fails.
pub uninterp spec fn json_document(text: Seq<char>) -> Result<JsonModel, Seq<char>>;

/// Calls `serde_json::from_str` for a `serde_json::Value`. The outcome is named
/// [`json_document`]: the grammar of JSON and the wording of its errors are not spelled out.
#[verifier::external_body]
fn read_value(text: &str) -> (r: Result<serde_json::Value, String>)
    ensures
        match r {
            Ok(value) => json_document(text@) == Ok::<JsonModel, Seq<char>>(value_model(value)),
            Err(e) => json_document(text@) == Err::<JsonModel, Seq<char>>(e@),
        },
{
    match serde_json::from_str::<serde_json::Value>(text) {
        Ok(value) => Ok(value),
        Err(e) => Err(e.to_string()),
    }
}

/// The plain form of a document of `serde_json`.
fn from_value(value: serde_json::Value) -> (r: Json)
    ensures
        r.model() == value_model(value),
        r.model().keys_once(),
    decreases value_model(value),
{
    let ghost whole = value_model(value);
    match open_value(value) {
        JsonNode::Null => Json::Null,
        JsonNode::Bool(b) => Json::Bool(b),
        JsonNode::Number(n) => Json::Number(n),
        JsonNode::Text(s) => Json::Text(s),
        JsonNode::Array(items) => {
            let ghost parts = items@;
            let mut out: Vec<Json> = Vec::new();
            for item in it: items
                invariant
                    whole == value_model(value),
                    it.seq() == parts,
                    whole == node_model(JsonNode::Array(items)),
                    parts == items@,
                    out@.len() == it.index(),
                    forall|i: int|
                        0 <= i < out@.len() ==> #[trigger] out@[i].model() == value_model(parts[i])
                            && out@[i].model().keys_once(),
            {
                proof {
                    let at = it.index() as int;
                    assert(item == parts[at]);
                    assert(whole->Array_0[at] == value_model(item));
                    assert(decreases_to!(whole => whole->Array_0));
                    assert(decreases_to!(whole->Array_0 => whole->Array_0[at]));
                }
                out.push(from_value(item));
            }
            let r = Json::Array(out);
            assert forall|i: int| 0 <= i < out@.len() implies #[trigger] r.model()->Array_0[i]
                == whole->Array_0[i] by {
                assert(r.model()->Array_0[i] == out@[i].model());
            }
            assert(r.model()->Array_0 =~= whole->Array_0);
            assert forall|i: int| 0 <= i < out@.len() implies (
            #[trigger] whole->Array_0[i]).keys_once() by {
                assert(out@[i].model().keys_once());
            }
            assert(whole.keys_once());
            r
        },
        JsonNode::Object(fields) => {
            let ghost parts = fields@;
            let mut out: Vec<(String, Json)> = Vec::new();
            for field in it: fields
                invariant
                    whole == value_model(value),
                    it.seq() == parts,
                    whole == node_model(JsonNode::Object(fields)),
                    parts == fields@,
                    out@.len() == it.index(),
                    forall|i: int|
                        0 <= i < out@.len() ==> (#[trigger] out@[i]).0@ == parts[i].0@
                            && out@[i].1.model() == value_model(parts[i].1)
                            && out@[i].1.model().keys_once(),
            {
                proof {
                    let at = it.index() as int;
                    assert(field == parts[at]);
                    assert(whole->Object_0[at] == (field.0@, value_model(field.1)));
                    assert(decreases_to!(whole => whole->Object_0));
                    assert(decreases_to!(whole->Object_0 => whole->Object_0[at]));
                    assert(decreases_to!(whole->Object_0[at] => whole->Object_0[at].1));
                }
                out.push((field.0, from_value(field.1)));
            }
            let r = Json::Object(out);
            assert(r.model()->Object_0 =~= whole->Object_0);
            assert forall|i: int| 0 <= i < out@.len() implies (
            #[trigger] whole->Object_0[i]).1.keys_once() by {
                assert(out@[i].1.model().keys_once());
            }
            assert(whole.keys_once());
            r
        },
    }
}

/// Reads a JSON document.
pub fn parse_json(text: &str) -> (r: Result<Json, String>)
    ensures
        match r {
            Ok(document) => json_document(text@) == Ok::<JsonModel, Seq<char>>(document@)
                && document@.keys_once(),
            Err(e) => json_document(text@) == Err::<JsonModel, Seq<char>>(e@),
        },
{
    match read_value(text) {
        Ok(value) => Ok(from_value(value)),
        Err(e) => Err(e),
    }
}

} // verus!
