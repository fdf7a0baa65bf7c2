//! What the library takes on trust from `serde_json`.
//!
//! A `serde_json::Value` is opaque to the proofs. [`tree_of`] names the JSON
//! tree that it holds, and every function below says over that name what the
//! crate does: parse a text, print a value, open a value into its variant,
//! build a value from a variant, and walk or fill an object.

use crate::json::JsonTree;
use crate::text::signed_decimal;
use vstd::prelude::*;

verus! {

/// `serde_json::Value`: any JSON value.
#[verifier::external_type_specification]
#[verifier::external_body]
pub struct ExValue(serde_json::Value);

/// `serde_json::Number`: a JSON number. The library carries numbers through
/// and never looks inside one.
#[verifier::external_type_specification]
#[verifier::external_body]
pub struct ExNumber(serde_json::Number);

/// `serde_json::Map`: what `serde_json::Value::Object` holds.
#[verifier::external_type_specification]
#[verifier::external_body]
#[verifier::reject_recursive_types(K)]
#[verifier::reject_recursive_types(V)]
pub struct ExFieldMap<K, V>(serde_json::Map<K, V>);

/// The JSON tree that a `serde_json::Value` holds.
pub uninterp spec fn tree_of(value: serde_json::Value) -> JsonTree;

/// What a `serde_json::Map` holds: the tree of the value under each key.
pub uninterp spec fn fields_of(
    fields: serde_json::Map<String, serde_json::Value>,
) -> Map<Seq<char>, JsonTree>;

/// What `serde_json::from_str` makes of a text: the tree of the value it
/// reads, or the message of the error it reports.
pub uninterp spec fn parse_outcome(text: Seq<char>) -> Result<JsonTree, Seq<char>>;

/// The text that `serde_json::Value` displays as: compact JSON.
pub uninterp spec fn displayed(tree: JsonTree) -> Seq<char>;

/// The text that `serde_json::to_string` writes for a value.
pub uninterp spec fn serialized(tree: JsonTree) -> Seq<char>;

/// The `serde_json::Number` that `From<i64>` makes of an integer.
pub uninterp spec fn integer_number(value: int) -> serde_json::Number;

/// The integer that `serde_json::Number::as_i128` gives for a number; `None`
/// for a number that is no integer.
pub uninterp spec fn whole_value(number: serde_json::Number) -> Option<int>;

/// At most `levels` lists and objects stand in one another, and every number
/// is an integer.
pub open spec fn is_shallow(tree: JsonTree, levels: nat) -> bool
    decreases levels,
{
    match tree {
        JsonTree::Null | JsonTree::Bool(_) | JsonTree::Text(_) => true,
        JsonTree::Number(number) => whole_value(number) is Some,
        JsonTree::List(items) => levels > 0 && forall|i: int|
            0 <= i < items.len() ==> is_shallow(#[trigger] items[i], (levels - 1) as nat),
        JsonTree::Record(fields) => levels > 0 && forall|key: Seq<char>|
            fields.contains_key(key) ==> is_shallow(#[trigger] fields[key], (levels - 1) as nat),
    }
}

/// The text of the tree reads back: the parser gives up on what is nested
/// deeper, and a number with a fraction may come back as a neighbour.
pub open spec fn reads_back(tree: JsonTree) -> bool {
    is_shallow(tree, 127)
}

/// The trees of a run of values, in order.
pub open spec fn trees_of(values: Seq<serde_json::Value>) -> Seq<JsonTree> {
    values.map_values(|value: serde_json::Value| tree_of(value))
}

/// The fields that a run of entries stands for; a later entry replaces an
/// earlier one of the same key.
pub open spec fn entry_fields(entries: Seq<(&String, &serde_json::Value)>) -> Map<
    Seq<char>,
    JsonTree,
>
    decreases entries.len(),
{
    if entries.len() == 0 {
        Map::empty()
    } else {
        entry_fields(entries.drop_last()).insert(entries.last().0@, tree_of(*entries.last().1))
    }
}

/// One `serde_json::Value`, opened into its variant.
pub enum NodeRef<'a> {
    Null,
    Bool(bool),
    Number(&'a serde_json::Number),
    Text(&'a String),
    List(&'a Vec<serde_json::Value>),
    Record(&'a serde_json::Map<String, serde_json::Value>),
}

impl<'a> NodeRef<'a> {
    /// The tree whose root this node is.
    pub open spec fn tree(self) -> JsonTree {
        match self {
            NodeRef::Null => JsonTree::Null,
            NodeRef::Bool(flag) => JsonTree::Bool(flag),
            NodeRef::Number(number) => JsonTree::Number(*number),
            NodeRef::Text(text) => JsonTree::Text(text@),
            NodeRef::List(items) => JsonTree::List(trees_of(items@)),
            NodeRef::Record(fields) => JsonTree::Record(fields_of(*fields)),
        }
    }
}

/// The variant of a `serde_json::Value` that is still to be built.
pub enum Node {
    Null,
    Bool(bool),
    Number(serde_json::Number),
    Text(String),
    List(Vec<serde_json::Value>),
    Record(serde_json::Map<String, serde_json::Value>),
}

impl Node {
    /// The tree whose root this node is.
    pub open spec fn tree(self) -> JsonTree {
        match self {
            Node::Null => JsonTree::Null,
            Node::Bool(flag) => JsonTree::Bool(flag),
            Node::Number(number) => JsonTree::Number(number),
            Node::Text(text) => JsonTree::Text(text@),
            Node::List(items) => JsonTree::List(trees_of(items@)),
            Node::Record(fields) => JsonTree::Record(fields_of(fields)),
        }
    }
}

/// Matches on `serde_json::Value`: the node is the value's variant, with the
/// variant's own field, so it is the root of the value's tree.
#[verifier::external_body]
pub(crate) fn open_value(value: &serde_json::Value) -> (node: NodeRef<'_>)
    ensures
        node.tree() == tree_of(*value),
{
    match value {
        serde_json::Value::Null => NodeRef::Null,
        serde_json::Value::Bool(flag) => NodeRef::Bool(*flag),
        serde_json::Value::Number(number) => NodeRef::Number(number),
        serde_json::Value::String(text) => NodeRef::Text(text),
        serde_json::Value::Array(items) => NodeRef::List(items),
        serde_json::Value::Object(fields) => NodeRef::Record(fields),
    }
}

/// Builds a `serde_json::Value` from one of its variants: the value's tree is
/// the one whose root the node is.
#[verifier::external_body]
pub(crate) fn close_value(node: Node) -> (value: serde_json::Value)
    ensures
        tree_of(value) == node.tree(),
{
    match node {
        Node::Null => serde_json::Value::Null,
        Node::Bool(flag) => serde_json::Value::Bool(flag),
        Node::Number(number) => serde_json::Value::Number(number),
        Node::Text(text) => serde_json::Value::String(text),
        Node::List(items) => serde_json::Value::Array(items),
        Node::Record(fields) => serde_json::Value::Object(fields),
    }
}

/// `serde_json::Map::iter`: every entry of the map once, each key with the
/// value stored under it.
#[verifier::external_body]
pub(crate) fn map_entries(fields: &serde_json::Map<String, serde_json::Value>) -> (entries: Vec<
    (&String, &serde_json::Value),
>)
    ensures
        entry_fields(entries@) == fields_of(*fields),
        forall|i: int, j: int|
            0 <= i < j < entries.len() ==> (#[trigger] entries[i]).0@ != (#[trigger] entries[j]).0@,
{
    fields.iter().collect()
}

/// `serde_json::Map::new`: a map with no entry.
#[verifier::external_body]
pub(crate) fn map_new() -> (fields: serde_json::Map<String, serde_json::Value>)
    ensures
        fields_of(fields).dom() == Set::<Seq<char>>::empty(),
{
    serde_json::Map::new()
}

/// `serde_json::Map::insert`: puts the value under the key, in place of what
/// was there, and leaves every other entry as it was.
#[verifier::external_body]
pub(crate) fn map_insert(
    fields: &mut serde_json::Map<String, serde_json::Value>,
    key: String,
    value: serde_json::Value,
)
    ensures
        fields_of(*final(fields)) == fields_of(*old(fields)).insert(key@, tree_of(value)),
{
    fields.insert(key, value);
}

/// `serde_json::from_str` into a `Value`: the value that the text spells, or
/// the error's message where the text is no JSON.
#[verifier::external_body]
pub(crate) fn read_value(text: &str) -> (outcome: Result<serde_json::Value, String>)
    ensures
        match outcome {
            Ok(value) => parse_outcome(text@) == Ok::<JsonTree, Seq<char>>(tree_of(value)),
            Err(message) => parse_outcome(text@) == Err::<JsonTree, Seq<char>>(message@),
        },
{
    match serde_json::from_str::<serde_json::Value>(text) {
        Ok(value) => Ok(value),
        Err(error) => Err(error.to_string()),
    }
}

/// `Display` for `serde_json::Value`: the value's compact JSON text, which
/// depends on the value's tree alone (an object keeps its fields sorted by
/// key) and is one line. Null, true and false show as these words, and an
/// integer as its decimal digits, with a minus sign where it is negative.
/// `serde_json::from_str` reads the value back from the text where the value
/// is nested less deep than the parser's limit and holds no number but
/// integers.
#[verifier::external_body]
pub(crate) fn display_value(value: &serde_json::Value) -> (text: String)
    ensures
        text@ == displayed(tree_of(*value)),
        !text@.contains('\n'),
        tree_of(*value) is Null ==> text@ == "null"@,
        tree_of(*value) == JsonTree::Bool(true) ==> text@ == "true"@,
        tree_of(*value) == JsonTree::Bool(false) ==> text@ == "false"@,
        tree_of(*value) is Number && whole_value(tree_of(*value)->Number_0) is Some ==> text@
            == signed_decimal(whole_value(tree_of(*value)->Number_0)->0),
        reads_back(tree_of(*value)) ==> parse_outcome(text@) is Ok,
        reads_back(tree_of(*value)) ==> parse_outcome(text@)->Ok_0 == tree_of(*value),
{
    value.to_string()
}

/// `serde_json::to_string` of a `Value`: its JSON text, which depends on the
/// value's tree alone. It succeeds on every value: serialization fails only
/// for a type that refuses to serialize or a map whose keys are no strings.
/// No value is written as the empty text.
/// `serde_json::from_str` reads the value back from the text where the value
/// is nested less deep than the parser's limit and holds no number but
/// integers.
#[verifier::external_body]
pub(crate) fn write_value(value: &serde_json::Value) -> (outcome: Result<String, String>)
    ensures
        outcome is Ok,
        outcome->Ok_0@ == serialized(tree_of(*value)),
        outcome->Ok_0@.len() > 0,
        reads_back(tree_of(*value)) ==> parse_outcome(outcome->Ok_0@) is Ok,
        reads_back(tree_of(*value)) ==> parse_outcome(outcome->Ok_0@)->Ok_0 == tree_of(*value),
{
    match serde_json::to_string(value) {
        Ok(text) => Ok(text),
        Err(error) => Err(error.to_string()),
    }
}

/// `serde_json::Number::as_i128`: the integer that the number is; nothing for
/// a number that is stored with a fraction or an exponent. Every integer is one
/// of 64 bits, signed or unsigned, so none is left out.
#[verifier::external_body]
pub(crate) fn number_value(number: &serde_json::Number) -> (value: Option<i128>)
    ensures
        value is Some <==> whole_value(*number) is Some,
        value is Some ==> value->0 == whole_value(*number)->0,
{
    number.as_i128()
}

/// `From<i64>` for `serde_json::Number`: the number of that integer, from
/// which the integer can be had again.
#[verifier::external_body]
pub(crate) fn number_from(value: i64) -> (number: serde_json::Number)
    ensures
        number == integer_number(value as int),
        whole_value(number) == Some(value as int),
{
    serde_json::Number::from(value)
}

/// A clone of a `serde_json::Number` is the same number.
pub assume_specification[ <serde_json::Number as Clone>::clone ](
    number: &serde_json::Number,
) -> (copy: serde_json::Number)
    ensures
        copy == *number,
;

} // verus!
