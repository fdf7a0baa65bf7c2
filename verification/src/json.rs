//! JSON values: what the tool bridge reads and writes.
//!
//! [`Json`] is the value that code works on. [`JsonTree`] is what it means: an
//! object is a map from keys to trees, so neither the order of its fields nor
//! how often a key was written is part of the meaning.

use crate::serde_bridge::{
    close_value, display_value, map_entries, map_insert, map_new, number_from,
    number_value, open_value, read_value, write_value, Node, NodeRef,
};
use crate::serde_bridge::{
    displayed, entry_fields, fields_of, integer_number, parse_outcome, reads_back, serialized, tree_of,
    trees_of, whole_value,
};
use crate::text::{same_text, signed_decimal};
use vstd::prelude::*;

verus! {

/// The meaning of a JSON value.
pub enum JsonTree {
    Null,
    Bool(bool),
    Number(serde_json::Number),
    Text(Seq<char>),
    List(Seq<JsonTree>),
    Record(Map<Seq<char>, JsonTree>),
}

impl JsonTree {
    /// What stands under `key`, where this is an object that has it.
    pub open spec fn field(self, key: Seq<char>) -> Option<JsonTree> {
        match self {
            JsonTree::Record(fields) => if fields.contains_key(key) {
                Some(fields[key])
            } else {
                None
            },
            _ => None,
        }
    }

    /// What stands under `key`, or null where nothing does.
    pub open spec fn at(self, key: Seq<char>) -> JsonTree {
        match self.field(key) {
            Some(tree) => tree,
            None => JsonTree::Null,
        }
    }

    /// The string that this is, or `default` where it is none.
    pub open spec fn text_or(self, default: Seq<char>) -> Seq<char> {
        match self {
            JsonTree::Text(text) => text,
            _ => default,
        }
    }

    /// The elements of the list that this is; none where it is no list.
    pub open spec fn items(self) -> Seq<JsonTree> {
        match self {
            JsonTree::List(items) => items,
            _ => Seq::empty(),
        }
    }
}

/// The compact JSON text of a value: a word for null, true and false, the
/// decimal digits of an integer, and what the JSON crate displays for any
/// other.
pub open spec fn rendered(tree: JsonTree) -> Seq<char> {
    match tree {
        JsonTree::Null => "null"@,
        JsonTree::Bool(flag) => if flag {
            "true"@
        } else {
            "false"@
        },
        JsonTree::Number(number) => match whole_value(number) {
            Some(value) => signed_decimal(value),
            None => displayed(tree),
        },
        _ => displayed(tree),
    }
}

/// A JSON value. Where an object names a key twice, the later field counts.
#[derive(Debug)]
pub enum Json {
    Null,
    Bool(bool),
    Number(serde_json::Number),
    Text(String),
    List(Vec<Json>),
    Record(Vec<(String, Json)>),
}

/// The trees of a run of values, in order.
pub open spec fn list_tree(items: Seq<Json>) -> Seq<JsonTree> {
    items.map_values(|item: Json| item@)
}

/// The map that a run of fields stands for.
pub open spec fn record_tree(fields: Seq<(String, Json)>) -> Map<Seq<char>, JsonTree>
    decreases fields,
{
    if fields.len() == 0 {
        Map::empty()
    } else {
        record_tree(fields.drop_last()).insert(fields.last().0@, fields.last().1.tree())
    }
}

impl View for Json {
    type V = JsonTree;

    open spec fn view(&self) -> JsonTree {
        self.tree()
    }
}

impl Clone for Json {
    fn clone(&self) -> (copy: Self)
        ensures
            copy@ == self@,
        decreases self,
    {
        match self {
            Json::Null => Json::Null,
            Json::Bool(flag) => Json::Bool(*flag),
            Json::Number(number) => Json::Number(number.clone()),
            Json::Text(text) => Json::Text(text.clone()),
            Json::List(items) => {
                let mut copies: Vec<Json> = Vec::new();
                for i in 0..items.len()
                    invariant
                        self == Json::List(*items),
                        copies.len() == i,
                        forall|j: int| 0 <= j < i ==> (#[trigger] copies[j])@ == items[j]@,
                {
                    assert(decreases_to!(self => self->List_0));
                    copies.push(items[i].clone());
                }
                assert(copies@.len() == items@.len());
                let copy = Json::List(copies);
                assert(copy@->List_0 =~= self@->List_0);
                copy
            },
            Json::Record(fields) => {
                let mut copies: Vec<(String, Json)> = Vec::new();
                for i in 0..fields.len()
                    invariant
                        self == Json::Record(*fields),
                        copies.len() == i,
                        record_tree(copies@) == record_tree(fields@.take(i as int)),
                {
                    let ghost before = copies@;
                    assert(decreases_to!(self => self->Record_0));
                    assert(decreases_to!(fields@[i as int] => fields@[i as int].1));
                    copies.push((fields[i].0.clone(), fields[i].1.clone()));
                    proof {
                        assert(copies@.drop_last() =~= before);
                        assert(fields@.take(i + 1).drop_last() =~= fields@.take(i as int));
                    }
                }
                assert(fields@.take(fields@.len() as int) =~= fields@);
                Json::Record(copies)
            },
        }
    }
}

impl Json {
    /// The tree that this value means.
    pub open spec fn tree(self) -> JsonTree
        decreases self,
    {
        match self {
            Json::Null => JsonTree::Null,
            Json::Bool(flag) => JsonTree::Bool(flag),
            Json::Number(number) => JsonTree::Number(number),
            Json::Text(text) => JsonTree::Text(text@),
            Json::List(items) => JsonTree::List(
                Seq::new(
                    items@.len(),
                    |i: int|
                        if 0 <= i < items@.len() {
                            items@[i].tree()
                        } else {
                            JsonTree::Null
                        },
                ),
            ),
            Json::Record(fields) => JsonTree::Record(record_tree(fields@)),
        }
    }

    /// The value that a `serde_json::Value` holds.
    pub fn from_value(value: &serde_json::Value) -> (json: Json)
        ensures
            json@ == tree_of(*value),
        decreases tree_of(*value),
    {
        match open_value(value) {
            NodeRef::Null => Json::Null,
            NodeRef::Bool(flag) => Json::Bool(flag),
            NodeRef::Number(number) => Json::Number(number.clone()),
            NodeRef::Text(text) => Json::Text(text.clone()),
            NodeRef::List(values) => {
                let mut items: Vec<Json> = Vec::new();
                for i in 0..values.len()
                    invariant
                        tree_of(*value) == JsonTree::List(trees_of(values@)),
                        items.len() == i,
                        forall|j: int|
                            0 <= j < i ==> (#[trigger] items[j])@ == tree_of(values[j]),
                {
                    let ghost trees = trees_of(values@);
                    assert(trees[i as int] == tree_of(values[i as int]));
                    assert(decreases_to!(tree_of(*value) => tree_of(*value)->List_0));
                    items.push(Json::from_value(&values[i]));
                }
                let json = Json::List(items);
                assert(json@->List_0 =~= trees_of(values@));
                json
            },
            NodeRef::Record(map) => {
                let entries = map_entries(map);
                let mut fields: Vec<(String, Json)> = Vec::new();
                for i in 0..entries.len()
                    invariant
                        tree_of(*value) == JsonTree::Record(entry_fields(entries@)),
                        forall|i: int, j: int|
                            0 <= i < j < entries.len() ==> (#[trigger] entries[i]).0@ != (
                            #[trigger] entries[j]).0@,
                        fields.len() == i,
                        record_tree(fields@) == entry_fields(entries@.take(i as int)),
                {
                    proof {
                        lemma_entry_is_field(entries@, i as int);
                        assert(decreases_to!(tree_of(*value) => tree_of(*value)->Record_0));
                    }
                    let ghost before = fields@;
                    fields.push((entries[i].0.clone(), Json::from_value(entries[i].1)));
                    proof {
                        assert(fields@.drop_last() =~= before);
                        assert(entries@.take(i + 1).drop_last() =~= entries@.take(i as int));
                    }
                }
                assert(entries@.take(entries@.len() as int) =~= entries@);
                Json::Record(fields)
            },
        }
    }

    /// This value as a `serde_json::Value`.
    pub fn to_value(&self) -> (value: serde_json::Value)
        ensures
            tree_of(value) == self@,
        decreases self,
    {
        match self {
            Json::Null => close_value(Node::Null),
            Json::Bool(flag) => close_value(Node::Bool(*flag)),
            Json::Number(number) => close_value(Node::Number(number.clone())),
            Json::Text(text) => close_value(Node::Text(text.clone())),
            Json::List(items) => {
                let mut values: Vec<serde_json::Value> = Vec::new();
                for i in 0..items.len()
                    invariant
                        self == Json::List(*items),
                        values.len() == i,
                        forall|j: int|
                            0 <= j < i ==> tree_of(#[trigger] values[j]) == items[j]@,
                {
                    assert(decreases_to!(self => self->List_0));
                    values.push(items[i].to_value());
                }
                assert(trees_of(values@) =~= self@->List_0);
                close_value(Node::List(values))
            },
            Json::Record(fields) => {
                let mut map = map_new();
                assert(fields_of(map) =~= record_tree(fields@.take(0)));
                for i in 0..fields.len()
                    invariant
                        self == Json::Record(*fields),
                        fields_of(map) == record_tree(fields@.take(i as int)),
                {
                    assert(decreases_to!(self => self->Record_0));
                    assert(decreases_to!(fields@[i as int] => fields@[i as int].1));
                    map_insert(&mut map, fields[i].0.clone(), fields[i].1.to_value());
                    assert(fields@.take(i + 1).drop_last() =~= fields@.take(i as int));
                }
                assert(fields@.take(fields@.len() as int) =~= fields@);
                close_value(Node::Record(map))
            },
        }
    }
}

impl Json {
    /// The string `text`.
    pub fn text(text: &str) -> (json: Json)
        ensures
            json@ == JsonTree::Text(text@),
    {
        Json::Text(text.to_string())
    }

    /// The number `value`.
    pub fn integer(value: i64) -> (json: Json)
        ensures
            json@ == JsonTree::Number(integer_number(value as int)),
            whole_value(integer_number(value as int)) == Some(value as int),
    {
        Json::Number(number_from(value))
    }

    /// The integer that this number is; nothing for any other value.
    pub fn as_integer(&self) -> (value: Option<i128>)
        ensures
            match value {
                Some(value) => self@ is Number && whole_value(self@->Number_0) == Some(value as int),
                None => self@ is Number ==> whole_value(self@->Number_0) is None,
            },
    {
        match self {
            Json::Number(number) => number_value(number),
            _ => None,
        }
    }

    /// The list of `items`.
    pub fn list(items: Vec<Json>) -> (json: Json)
        ensures
            json@ == JsonTree::List(list_tree(items@)),
    {
        let json = Json::List(items);
        assert(json@->List_0 =~= list_tree(items@));
        json
    }

    /// The object without fields.
    pub fn object() -> (json: Json)
        ensures
            json@ == JsonTree::Record(Map::empty()),
    {
        let fields: Vec<(String, Json)> = Vec::new();
        assert(record_tree(fields@) =~= Map::empty());
        Json::Record(fields)
    }

    /// This object with `value` under `key`.
    pub fn with(self, key: &str, value: Json) -> (json: Json)
        requires
            self@ is Record,
        ensures
            json@ == JsonTree::Record(self@->Record_0.insert(key@, value@)),
    {
        match self {
            Json::Record(mut fields) => {
                let ghost before = fields@;
                fields.push((key.to_string(), value));
                assert(fields@.drop_last() =~= before);
                assert(record_tree(fields@) =~= record_tree(before).insert(key@, value@));
                Json::Record(fields)
            },
            other => other,
        }
    }

    /// What stands under `key`, where this is an object that has it.
    pub fn field(&self, key: &str) -> (found: Option<&Json>)
        ensures
            match found {
                Some(json) => self@.field(key@) == Some(json@),
                None => self@.field(key@) is None,
            },
    {
        match self {
            Json::Record(fields) => {
                let mut n: usize = fields.len();
                assert(fields@.take(n as int) =~= fields@);
                while n > 0
                    invariant
                        n <= fields.len(),
                        record_tree(fields@).contains_key(key@) == record_tree(
                            fields@.take(n as int),
                        ).contains_key(key@),
                        record_tree(fields@)[key@] == record_tree(fields@.take(n as int))[key@],
                        *self == Json::Record(*fields),
                    decreases n,
                {
                    assert(fields@.take(n as int).drop_last() =~= fields@.take(n - 1));
                    if same_text(fields[n - 1].0.as_str(), key) {
                        return Some(&fields[n - 1].1);
                    }
                    n = n - 1;
                }
                None
            },
            _ => None,
        }
    }

    /// The string under `key`, or `default` where there is none.
    pub fn text_at<'a>(&'a self, key: &str, default: &'a str) -> (text: &'a str)
        ensures
            text@ == self@.at(key@).text_or(default@),
    {
        match self.field(key) {
            Some(Json::Text(text)) => text.as_str(),
            _ => default,
        }
    }

    /// The elements of the list under `key`; none where there is no list.
    pub fn items_at(&self, key: &str) -> (items: Vec<&Json>)
        ensures
            items.len() == self@.at(key@).items().len(),
            forall|i: int|
                0 <= i < items.len() ==> (#[trigger] items[i])@ == self@.at(key@).items()[i],
    {
        let mut items: Vec<&Json> = Vec::new();
        if let Some(Json::List(list)) = self.field(key) {
            let ghost trees = self@.at(key@).items();
            for i in 0..list.len()
                invariant
                    Json::List(*list)@ == JsonTree::List(trees),
                    trees.len() == list.len(),
                    items.len() == i,
                    forall|j: int| 0 <= j < i ==> (#[trigger] items[j])@ == trees[j],
            {
                items.push(&list[i]);
            }
        }
        items
    }

    /// A copy of what stands under `key`, or null where nothing does.
    pub fn copy_at(&self, key: &str) -> (json: Json)
        ensures
            json@ == self@.at(key@),
    {
        match self.field(key) {
            Some(json) => json.clone(),
            None => Json::Null,
        }
    }

    /// Reads a JSON text; an error carries the parser's own message.
    pub fn parse(text: &str) -> (outcome: Result<Json, String>)
        ensures
            match outcome {
                Ok(json) => parse_outcome(text@) == Ok::<JsonTree, Seq<char>>(json@),
                Err(message) => parse_outcome(text@) == Err::<JsonTree, Seq<char>>(message@),
            },
    {
        match read_value(text) {
            Ok(value) => Ok(Json::from_value(&value)),
            Err(message) => Err(message),
        }
    }

    /// The compact JSON text of this value, as it is shown: one line, from
    /// which the value can be read back.
    pub fn render(&self) -> (text: String)
        ensures
            text@ == rendered(self@),
            !text@.contains('\n'),
            reads_back(self@) ==> parse_outcome(text@) == Ok::<JsonTree, Seq<char>>(self@),
    {
        display_value(&self.to_value())
    }

    /// The JSON text of this value, as it is sent, from which the value can be
    /// read back. It never fails.
    pub fn serialize(&self) -> (outcome: Result<String, String>)
        ensures
            outcome matches Ok(text) && text@ == serialized(self@) && text@.len() > 0,
            reads_back(self@) ==> parse_outcome(outcome->Ok_0@) == Ok::<JsonTree, Seq<char>>(self@),
    {
        write_value(&self.to_value())
    }
}

/// Each of a run of entries with distinct keys is one of the fields that the
/// run stands for, and there are finitely many.
proof fn lemma_entry_is_field(entries: Seq<(&String, &serde_json::Value)>, at: int)
    requires
        0 <= at < entries.len(),
        forall|i: int, j: int|
            0 <= i < j < entries.len() ==> (#[trigger] entries[i]).0@ != (#[trigger] entries[j]).0@,
    ensures
        entry_fields(entries).dom().finite(),
        entry_fields(entries).contains_key(entries[at].0@),
        entry_fields(entries)[entries[at].0@] == tree_of(*entries[at].1),
    decreases entries.len(),
{
    let shorter = entries.drop_last();
    assert(entry_fields(Seq::<(&String, &serde_json::Value)>::empty()).dom() =~= Set::empty());
    if shorter.len() > 0 {
        lemma_entry_is_field(shorter, if at < shorter.len() { at } else { 0 });
    }
}

} // verus!
