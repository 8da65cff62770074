//! JSON documents as plain values, and their decoding from bytes.

use vstd::prelude::*;

verus! {

/// What a JSON number is read for: its value where it is an unsigned integer,
/// and its decimal text.
#[derive(Debug)]
pub struct JsonNumber {
    pub unsigned: Option<u64>,
    pub text: String,
}

/// A JSON document. Where an object names a key twice, the later entry counts.
#[derive(Debug)]
pub enum Json {
    Null,
    Bool(bool),
    Number(JsonNumber),
    Text(String),
    Array(Vec<Json>),
    Object(Vec<(String, Json)>),
}

/// What a [`JsonNumber`] stands for.
pub struct NumberModel {
    pub unsigned: Option<u64>,
    pub text: Seq<char>,
}

/// What a [`Json`] document stands for.
pub enum JsonTree {
    Null,
    Bool(bool),
    Number(NumberModel),
    Text(Seq<char>),
    Array(Seq<JsonTree>),
    Object(Map<Seq<char>, JsonTree>),
}

impl JsonTree {
    /// The value that an object holds under `key`.
    pub open spec fn field(self, key: Seq<char>) -> Option<JsonTree> {
        match self {
            JsonTree::Object(m) => if m.dom().contains(key) {
                Some(m[key])
            } else {
                None
            },
            _ => None,
        }
    }

    /// The element of an array at `i`.
    pub open spec fn item(self, i: int) -> Option<JsonTree> {
        match self {
            JsonTree::Array(s) => if 0 <= i < s.len() {
                Some(s[i])
            } else {
                None
            },
            _ => None,
        }
    }

    /// The elements of an array.
    pub open spec fn items(self) -> Option<Seq<JsonTree>> {
        match self {
            JsonTree::Array(s) => Some(s),
            _ => None,
        }
    }

    /// The characters of a string.
    pub open spec fn text(self) -> Option<Seq<char>> {
        match self {
            JsonTree::Text(s) => Some(s),
            _ => None,
        }
    }

    /// The value of a number that is an unsigned integer.
    pub open spec fn unsigned(self) -> Option<u64> {
        match self {
            JsonTree::Number(n) => n.unsigned,
            _ => None,
        }
    }
}

/// `key` in `t`, where there is a `t`.
pub open spec fn field_of(t: Option<JsonTree>, key: Seq<char>) -> Option<JsonTree> {
    match t {
        Some(t) => t.field(key),
        None => None,
    }
}

/// The characters of `t`, where there is a `t` and it is a string.
pub open spec fn text_of(t: Option<JsonTree>) -> Option<Seq<char>> {
    match t {
        Some(t) => t.text(),
        None => None,
    }
}

pub open spec fn json_tree(j: Json) -> JsonTree
    decreases j,
{
    match j {
        Json::Null => JsonTree::Null,
        Json::Bool(b) => JsonTree::Bool(b),
        Json::Number(n) => JsonTree::Number(n@),
        Json::Text(s) => JsonTree::Text(s@),
        Json::Array(v) => JsonTree::Array(item_trees(v@)),
        Json::Object(v) => JsonTree::Object(field_trees(v@)),
    }
}

pub open spec fn item_trees(s: Seq<Json>) -> Seq<JsonTree>
    decreases s,
{
    if s.len() == 0 {
        Seq::empty()
    } else {
        item_trees(s.drop_last()).push(json_tree(s.last()))
    }
}

/// The entries of an object, a later one in place of an earlier one with the
/// same key.
pub open spec fn field_trees(s: Seq<(String, Json)>) -> Map<Seq<char>, JsonTree>
    decreases s,
{
    if s.len() == 0 {
        Map::empty()
    } else {
        field_trees(s.drop_last()).insert(s.last().0@, json_tree(s.last().1))
    }
}

impl View for JsonNumber {
    type V = NumberModel;

    open spec fn view(&self) -> NumberModel {
        NumberModel { unsigned: self.unsigned, text: self.text@ }
    }
}

impl View for Json {
    type V = JsonTree;

    open spec fn view(&self) -> JsonTree {
        json_tree(*self)
    }
}

/// An array has an item for each of its elements.
pub proof fn lemma_item_trees(s: Seq<Json>)
    ensures
        item_trees(s).len() == s.len(),
        forall|i: int| 0 <= i < s.len() ==> #[trigger] item_trees(s)[i] == json_tree(s[i]),
    decreases s.len(),
{
    if s.len() > 0 {
        lemma_item_trees(s.drop_last());
    }
}

impl Json {
    /// The value that an object holds under `key`; `None` for anything that is
    /// no object, and where the key is missing.
    pub fn get(&self, key: &str) -> (r: Option<&Json>)
        ensures
            match r {
                Some(j) => self@.field(key@) == Some(j@),
                None => self@.field(key@) is None,
            },
    {
        match self {
            Json::Object(fields) => {
                let wanted = key.to_string();
                let mut i: usize = fields.len();
                let ghost all = field_trees(fields@);
                assert(fields@.take(i as int) == fields@);
                while i > 0
                    invariant
                        i <= fields.len(),
                        wanted@ == key@,
                        self@ == JsonTree::Object(all),
                        self@.field(key@) == JsonTree::Object(
                            field_trees(fields@.take(i as int)),
                        ).field(key@),
                    decreases i,
                {
                    let ghost before = fields@.take(i as int);
                    i -= 1;
                    assert(before.drop_last() == fields@.take(i as int));
                    assert(before.last() == fields@[i as int]);
                    let entry = &fields[i];
                    if entry.0 == wanted {
                        return Some(&entry.1);
                    }
                }
                None
            },
            _ => None,
        }
    }

    /// The element of an array at `i`; `None` for anything that is no array,
    /// and where the array is shorter.
    pub fn get_index(&self, i: usize) -> (r: Option<&Json>)
        ensures
            match r {
                Some(j) => self@.item(i as int) == Some(j@),
                None => self@.item(i as int) is None,
            },
    {
        match self {
            Json::Array(items) => {
                proof {
                    lemma_item_trees(items@);
                }
                if i < items.len() {
                    Some(&items[i])
                } else {
                    None
                }
            },
            _ => None,
        }
    }

    /// The elements of an array.
    pub fn as_array(&self) -> (r: Option<&Vec<Json>>)
        ensures
            match r {
                Some(v) => self@.items() == Some(item_trees(v@)),
                None => self@.items() is None,
            },
    {
        match self {
            Json::Array(items) => Some(items),
            _ => None,
        }
    }

    /// The characters of a string.
    pub fn as_str(&self) -> (r: Option<&str>)
        ensures
            match r {
                Some(s) => self@.text() == Some(s@),
                None => self@.text() is None,
            },
    {
        match self {
            Json::Text(s) => Some(s.as_str()),
            _ => None,
        }
    }

    /// The value of a number that is an unsigned integer.
    pub fn as_u64(&self) -> (r: Option<u64>)
        ensures
            r == self@.unsigned(),
    {
        match self {
            Json::Number(n) => n.unsigned,
            _ => None,
        }
    }
}

/// A parsed JSON value of `serde_json`.
#[verifier::external_type_specification]
#[verifier::external_body]
pub struct ExValue(serde_json::Value);

/// The document that a `serde_json::Value` holds: its variant, the string or
/// the entries inside, and of a number what `Number::as_u64` and its decimal
/// rendering give.
pub uninterp spec fn value_tree(v: serde_json::Value) -> JsonTree;

/// What `serde_json::from_slice` makes of `bytes` read as one JSON value;
/// `None` where it reports an error.
pub uninterp spec fn json_document(bytes: Seq<u8>) -> Option<JsonTree>;

/// One level of a `serde_json::Value`.
pub(crate) enum JsonNode<'a> {
    Null,
    Bool(bool),
    Number(JsonNumber),
    Text(&'a String),
    Array(&'a Vec<serde_json::Value>),
    Object(Vec<(&'a String, &'a serde_json::Value)>),
}

pub(crate) open spec fn entry_trees(s: Seq<(&String, &serde_json::Value)>) -> Map<
    Seq<char>,
    JsonTree,
>
    decreases s.len(),
{
    if s.len() == 0 {
        Map::empty()
    } else {
        entry_trees(s.drop_last()).insert(s.last().0@, value_tree(*s.last().1))
    }
}

pub(crate) open spec fn node_tree(node: JsonNode<'_>) -> JsonTree {
    match node {
        JsonNode::Null => JsonTree::Null,
        JsonNode::Bool(b) => JsonTree::Bool(b),
        JsonNode::Number(n) => JsonTree::Number(n@),
        JsonNode::Text(s) => JsonTree::Text(s@),
        JsonNode::Array(v) => JsonTree::Array(
            Seq::new(v@.len(), |i: int| value_tree(v@[i])),
        ),
        JsonNode::Object(v) => JsonTree::Object(entry_trees(v@)),
    }
}

/// Whether no two entries have the same key.
pub(crate) open spec fn keys_differ(s: Seq<(&String, &serde_json::Value)>) -> bool {
    forall|i: int, j: int| 0 <= i < j < s.len() ==> (#[trigger] s[i]).0@ != (#[trigger] s[j]).0@
}

/// `serde_json::from_slice::<Value>` on the whole of `bytes`: its value where
/// the bytes are one JSON document, `None` where it returns an error. The
/// result depends on the bytes alone.
#[verifier::external_body]
fn parse_value(bytes: &[u8]) -> (r: Option<serde_json::Value>)
    ensures
        match r {
            Some(v) => json_document(bytes@) == Some(value_tree(v)),
            None => json_document(bytes@) is None,
        },
{
    serde_json::from_slice::<serde_json::Value>(bytes).ok()
}

/// The variant of a `serde_json::Value` with what it holds. A number is read
/// by `Number::as_u64` and by its `Display` text; an object lists the entries
/// of its `Map`, each key once.
#[verifier::external_body]
fn open_value<'a>(v: &'a serde_json::Value) -> (node: JsonNode<'a>)
    ensures
        node_tree(node) == value_tree(*v),
        node matches JsonNode::Object(entries) ==> keys_differ(entries@),
{
    match v {
        serde_json::Value::Null => JsonNode::Null,
        serde_json::Value::Bool(b) => JsonNode::Bool(*b),
        serde_json::Value::Number(n) => JsonNode::Number(
            JsonNumber { unsigned: n.as_u64(), text: n.to_string() },
        ),
        serde_json::Value::String(s) => JsonNode::Text(s),
        serde_json::Value::Array(items) => JsonNode::Array(items),
        serde_json::Value::Object(map) => JsonNode::Object(map.iter().collect()),
    }
}

proof fn lemma_entry_trees(s: Seq<(&String, &serde_json::Value)>, i: int)
    requires
        keys_differ(s),
        0 <= i < s.len(),
    ensures
        entry_trees(s).dom().finite(),
        entry_trees(s).dom().contains(s[i].0@),
        entry_trees(s)[s[i].0@] == value_tree(*s[i].1),
    decreases s.len(),
{
    if s.len() > 1 {
        let t = s.drop_last();
        assert(keys_differ(t));
        lemma_entry_trees(t, if i < t.len() { i } else { 0 });
        assert(i < t.len() ==> s[i].0@ != s.last().0@);
    } else {
        assert(entry_trees(s.drop_last()) == Map::<Seq<char>, JsonTree>::empty());
    }
}

/// The document that `v` holds, as a plain value.
fn from_value(v: &serde_json::Value) -> (j: Json)
    ensures
        j@ == value_tree(*v),
    decreases value_tree(*v),
{
    match open_value(v) {
        JsonNode::Null => Json::Null,
        JsonNode::Bool(b) => Json::Bool(b),
        JsonNode::Number(n) => Json::Number(n),
        JsonNode::Text(s) => Json::Text(s.clone()),
        JsonNode::Array(values) => {
            let ghost trees = value_tree(*v)->Array_0;
            let mut items: Vec<Json> = Vec::new();
            let mut i: usize = 0;
            while i < values.len()
                invariant
                    i <= values.len(),
                    value_tree(*v) == JsonTree::Array(trees),
                    trees == Seq::new(values@.len(), |k: int| value_tree(values@[k])),
                    item_trees(items@) == trees.take(i as int),
                decreases values.len() - i,
            {
                assert(trees[i as int] == value_tree(values@[i as int]));
                assert(decreases_to!(value_tree(*v) => value_tree(*v)->Array_0));
                assert(decreases_to!(trees => trees[i as int]));
                let item = from_value(&values[i]);
                let ghost before = items@;
                items.push(item);
                assert(items@.drop_last() == before);
                i += 1;
            }
            assert(trees.take(i as int) == trees);
            Json::Array(items)
        },
        JsonNode::Object(entries) => {
            let ghost trees = value_tree(*v)->Object_0;
            let mut fields: Vec<(String, Json)> = Vec::new();
            let mut i: usize = 0;
            assert(entries@.take(0).len() == 0);
            while i < entries.len()
                invariant
                    i <= entries.len(),
                    value_tree(*v) == JsonTree::Object(trees),
                    trees == entry_trees(entries@),
                    keys_differ(entries@),
                    field_trees(fields@) == entry_trees(entries@.take(i as int)),
                decreases entries.len() - i,
            {
                let (key, value) = entries[i];
                proof {
                    lemma_entry_trees(entries@, i as int);
                    assert(decreases_to!(value_tree(*v) => value_tree(*v)->Object_0));
                    assert(decreases_to!(trees => trees[key@]));
                }
                let field = from_value(value);
                let ghost before = fields@;
                fields.push((key.clone(), field));
                assert(fields@.drop_last() == before);
                assert(entries@.take(i + 1).drop_last() == entries@.take(i as int));
                i += 1;
            }
            assert(entries@.take(i as int) == entries@);
            Json::Object(fields)
        },
    }
}

/// Read `bytes` as one JSON document; `None` where they are not one.
pub fn decode_json(bytes: &[u8]) -> (r: Option<Json>)
    ensures
        match r {
            Some(j) => json_document(bytes@) == Some(j@),
            None => json_document(bytes@) is None,
        },
{
    match parse_value(bytes) {
        Some(v) => Some(from_value(&v)),
        None => None,
    }
}

} // verus!
