//! What a JSON value means, and how it is read and shown.

use crate::json::{list_tree, record_tree, rendered, Json, JsonTree};
use crate::serde_bridge::{displayed, whole_value};
use crate::text::{digits_value, signed_decimal};
use crate::laws::text::law_signed_decimal_spells_its_integer;
use vstd::prelude::*;

verus! {

/// The string under `key`, or `default` where there is none.
pub open spec fn text_under(tree: JsonTree, key: Seq<char>, default: Seq<char>) -> Seq<char> {
    match tree {
        JsonTree::Record(fields) => if fields.contains_key(key) && fields[key] is Text {
            fields[key]->Text_0
        } else {
            default
        },
        _ => default,
    }
}

/// What stands under `key`, or `default` where nothing does.
pub open spec fn tree_under(tree: JsonTree, key: Seq<char>, default: JsonTree) -> JsonTree {
    match tree {
        JsonTree::Record(fields) => if fields.contains_key(key) {
            fields[key]
        } else {
            default
        },
        _ => default,
    }
}

/// The elements of the list under `key`; none where there is no list.
pub open spec fn list_under(tree: JsonTree, key: Seq<char>) -> Seq<JsonTree> {
    match tree {
        JsonTree::Record(fields) => if fields.contains_key(key) && fields[key] is List {
            fields[key]->List_0
        } else {
            Seq::empty()
        },
        _ => Seq::empty(),
    }
}

/// An object gives what stands under a key, and nothing for a key it does not
/// have; no other value has keys. A string gives itself and a list its
/// elements, whatever the default.
pub proof fn law_fields_are_read(
    tree: JsonTree,
    fields: Map<Seq<char>, JsonTree>,
    key: Seq<char>,
    default: Seq<char>,
)
    ensures
        tree is Record && tree->Record_0.contains_key(key) ==> tree.field(key) == Some(
            tree->Record_0[key],
        ),
        tree is Record && !tree->Record_0.contains_key(key) ==> tree.field(key) is None,
        !(tree is Record) ==> tree.field(key) is None,
        tree.at(key) == tree_under(tree, key, JsonTree::Null),
        tree.at(key).text_or(default) == text_under(tree, key, default),
        tree.at(key).items() == list_under(tree, key),
        JsonTree::Record(fields.insert(key, tree)).field(key) == Some(tree),
{
}

/// What each JSON value means.
pub proof fn law_values_mean_what_they_hold(
    flag: bool,
    number: serde_json::Number,
    text: String,
    items: Vec<Json>,
    fields: Vec<(String, Json)>,
)
    ensures
        Json::Null@ == JsonTree::Null,
        Json::Bool(flag)@ == JsonTree::Bool(flag),
        Json::Number(number)@ == JsonTree::Number(number),
        Json::Text(text)@ == JsonTree::Text(text@),
        Json::List(items)@ is List,
        Json::List(items)@->List_0.len() == items@.len(),
        forall|i: int|
            0 <= i < items@.len() ==> #[trigger] Json::List(items)@->List_0[i] == items@[i]@,
        list_tree(items@) == Json::List(items)@->List_0,
        Json::Record(fields)@ == JsonTree::Record(record_tree(fields@)),
{
    assert(list_tree(items@) =~= Json::List(items)@->List_0);
}

/// A field that is added to an object stands under its key, in place of what
/// stood there, and leaves every other field as it was.
pub proof fn law_later_field_counts(fields: Seq<(String, Json)>, field: (String, Json))
    ensures
        record_tree(Seq::empty()) == Map::<Seq<char>, JsonTree>::empty(),
        record_tree(fields.push(field)) == record_tree(fields).insert(field.0@, field.1@),
{
    assert(fields.push(field).drop_last() =~= fields);
}

/// The text spells the integer in decimal, behind a minus sign where it is
/// negative, and with no zero in front.
pub open spec fn spells(text: Seq<char>, value: int) -> bool {
    if value < 0 {
        &&& text.len() > 1 && text[0] == '-'
        &&& digits_value(text.drop_first()) == Some((-value) as nat)
        &&& text[1] == '0' ==> text.len() == 2
    } else {
        &&& text.len() > 0
        &&& digits_value(text) == Some(value as nat)
        &&& text[0] == '0' ==> text.len() == 1
    }
}

/// Null, true and false show as these words and an integer as its digits; any
/// other value shows as the JSON crate shows it. The text of a boolean tells
/// which one it is.
pub proof fn law_simple_values_show_as_themselves(tree: JsonTree)
    ensures
        tree is Null ==> rendered(tree) == "null"@,
        tree is Bool ==> rendered(tree) == (if tree->Bool_0 {
            "true"@
        } else {
            "false"@
        }),
        tree is Number && whole_value(tree->Number_0) is Some ==> spells(
            rendered(tree),
            whole_value(tree->Number_0)->0,
        ),
        tree is Number && whole_value(tree->Number_0) is None ==> rendered(tree) == displayed(tree),
        tree is Text || tree is List || tree is Record ==> rendered(tree) == displayed(tree),
        rendered(JsonTree::Bool(true)) != rendered(JsonTree::Bool(false)),
{
    reveal_strlit("true");
    reveal_strlit("false");
    assert("true"@.len() == 4 && "false"@.len() == 5);
    if tree is Number && whole_value(tree->Number_0) is Some {
        let value = whole_value(tree->Number_0)->0;
        law_signed_decimal_spells_its_integer(value);
        assert(rendered(tree) == signed_decimal(value));
    }
}

} // verus!
