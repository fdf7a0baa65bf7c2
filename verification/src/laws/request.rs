//! Every argument of a tool call goes where its param says, and none is
//! dropped.

use crate::json::JsonTree;
use crate::laws::query::{are_readable, law_query_string_reads_back, query_parts};
use crate::laws::json::{
    law_simple_values_show_as_themselves, list_under, spells, text_under, tree_under,
};
use crate::laws::routing::stands_nowhere;
use crate::laws::text::law_pattern_is_replaced_from_the_left;
use crate::mcp::{
    argument_text, body_carries, built_request, param_name, place_all, placeholder, query_part,
    request_texts, substituted, Placed,
};
use crate::query::query_pairs;
use crate::serde_bridge::{displayed, parse_outcome, reads_back, serialized, whole_value};
use crate::server::target_parts;
use crate::text::{digits_value, joined, lemma_run_to, lemma_run_to_is_first};
use vstd::prelude::*;

verus! {

/// Where the argument of a listed param travels; in the path where the list
/// does not say.
pub open spec fn param_location(param: JsonTree) -> Seq<char> {
    param.at("location"@).text_or("path"@)
}

/// The location is one that a request has.
pub open spec fn is_location(location: Seq<char>) -> bool {
    location == "path"@ || location == "query"@ || location == "body"@
}

/// The param has its argument and a location that a request has.
pub open spec fn can_place(param: JsonTree, arguments: JsonTree) -> bool {
    arguments.field(param_name(param)) is Some && is_location(param_location(param))
}

/// Why the argument of a param cannot be placed.
pub open spec fn placement_error(param: JsonTree, arguments: JsonTree) -> Seq<char> {
    if arguments.field(param_name(param)) is None {
        "missing required argument: "@ + param_name(param)
    } else {
        "unknown param location: "@ + param_location(param)
    }
}

/// The names and texts of the arguments that travel in the query string.
pub open spec fn query_arguments(params: Seq<JsonTree>, arguments: JsonTree) -> Seq<
    (Seq<char>, Seq<char>),
>
    decreases params.len(),
{
    if params.len() == 0 {
        Seq::empty()
    } else {
        let before = query_arguments(params.drop_last(), arguments);
        let name = param_name(params.last());
        if param_location(params.last()) == "query"@ {
            before.push((name, argument_text(arguments.at(name))))
        } else {
            before
        }
    }
}

/// The arguments that travel in the body, under their names.
pub open spec fn body_arguments(params: Seq<JsonTree>, arguments: JsonTree) -> Map<
    Seq<char>,
    JsonTree,
>
    decreases params.len(),
{
    if params.len() == 0 {
        Map::empty()
    } else {
        let before = body_arguments(params.drop_last(), arguments);
        let name = param_name(params.last());
        if param_location(params.last()) == "body"@ {
            before.insert(name, arguments.at(name))
        } else {
            before
        }
    }
}

/// The path with the arguments that travel in it put in.
pub open spec fn path_with_arguments(
    path: Seq<char>,
    params: Seq<JsonTree>,
    arguments: JsonTree,
) -> Seq<char>
    decreases params.len(),
{
    if params.len() == 0 {
        path
    } else {
        let before = path_with_arguments(path, params.drop_last(), arguments);
        let name = param_name(params.last());
        if param_location(params.last()) == "path"@ {
            substituted(before, name, argument_text(arguments.at(name)))
        } else {
            before
        }
    }
}

/// The names of the locations differ.
proof fn lemma_locations_differ()
    ensures
        "path"@ != "query"@,
        "path"@ != "body"@,
        "query"@ != "body"@,
{
    reveal_strlit("path");
    reveal_strlit("query");
    reveal_strlit("body");
    assert("path"@.len() == 4 && "query"@.len() == 5 && "body"@.len() == 4);
    assert("path"@[0] == 'p' && "body"@[0] == 'b');
}

/// A request can be built exactly where every param has its argument and a
/// location that a request has. The arguments are then all in their places:
/// those of the path in the path, those of the query in the query string, in
/// order, and those of the body in the body, and nothing else is.
pub proof fn law_every_argument_is_placed(
    path: Seq<char>,
    params: Seq<JsonTree>,
    arguments: JsonTree,
)
    ensures
        place_all(path, params, arguments) is Ok <==> forall|i: int|
            0 <= i < params.len() ==> #[trigger] can_place(params[i], arguments),
        place_all(path, params, arguments) is Ok ==> place_all(path, params, arguments)->Ok_0 == (
        Placed {
            path: path_with_arguments(path, params, arguments),
            query: query_parts(query_arguments(params, arguments)),
            body: body_arguments(params, arguments),
        }),
    decreases params.len(),
{
    if params.len() == 0 {
        assert(query_parts(query_arguments(params, arguments)) =~= Seq::empty());
    } else {
        lemma_locations_differ();
        let shorter = params.drop_last();
        let param = params.last();
        law_every_argument_is_placed(path, shorter, arguments);
        assert(can_place(params[params.len() - 1], arguments) == can_place(param, arguments));
        assert forall|i: int| 0 <= i < shorter.len() implies can_place(shorter[i], arguments)
            == #[trigger] can_place(params[i], arguments) by {}
        if place_all(path, shorter, arguments) is Ok {
            assert forall|i: int| 0 <= i < shorter.len() implies #[trigger] can_place(
                params[i],
                arguments,
            ) by {
                assert(can_place(shorter[i], arguments));
            }
            if can_place(param, arguments) {
                let before = query_arguments(shorter, arguments);
                let pair = (param_name(param), argument_text(arguments.at(param_name(param))));
                assert(query_parts(before.push(pair)) =~= query_parts(before).push(
                    query_part(pair.0, pair.1),
                ));
            }
        } else {
            assert(exists|i: int| 0 <= i < shorter.len() && !can_place(shorter[i], arguments));
            let i = choose|i: int| 0 <= i < shorter.len() && !can_place(shorter[i], arguments);
            assert(!can_place(params[i], arguments));
        }
    }
}

/// Where no request can be built, the message is on the first param whose
/// argument cannot be placed, and names it or its location.
pub proof fn law_first_failure_is_named(
    path: Seq<char>,
    params: Seq<JsonTree>,
    arguments: JsonTree,
    at: int,
)
    requires
        0 <= at < params.len(),
        forall|i: int| 0 <= i < at ==> #[trigger] can_place(params[i], arguments),
        !can_place(params[at], arguments),
    ensures
        place_all(path, params, arguments) == Err::<Placed, Seq<char>>(
            placement_error(params[at], arguments),
        ),
    decreases params.len(),
{
    let shorter = params.drop_last();
    if at < shorter.len() {
        assert forall|i: int| 0 <= i < at implies #[trigger] can_place(shorter[i], arguments) by {
            assert(can_place(params[i], arguments));
        }
        law_first_failure_is_named(path, shorter, arguments, at);
    } else {
        law_every_argument_is_placed(path, shorter, arguments);
        assert forall|i: int| 0 <= i < shorter.len() implies #[trigger] can_place(
            shorter[i],
            arguments,
        ) by {
            assert(can_place(params[i], arguments));
        }
    }
}

/// The server cuts the target of a built request where the bridge put it
/// together: the path with its arguments on one side and the query string on
/// the other, provided no `?` stands in the path.
pub proof fn law_target_is_cut_where_it_was_joined(action: JsonTree, arguments: JsonTree)
    requires
        built_request(action, arguments) is Ok,
        !path_with_arguments(
            action.at("path"@).text_or(""@),
            action.at("params"@).items(),
            arguments,
        ).contains('?'),
    ensures
        ({
            let params = action.at("params"@).items();
            let path = path_with_arguments(action.at("path"@).text_or(""@), params, arguments);
            target_parts(built_request(action, arguments)->Ok_0.0) == (
                path,
                joined(query_parts(query_arguments(params, arguments)), "&"@),
            )
        }),
{
    let params = action.at("params"@).items();
    let start = action.at("path"@).text_or(""@);
    law_every_argument_is_placed(start, params, arguments);
    let path = path_with_arguments(start, params, arguments);
    let query = query_parts(query_arguments(params, arguments));
    let target = built_request(action, arguments)->Ok_0.0;
    reveal_strlit("?");
    if query.len() == 0 {
        assert(target == path);
        lemma_run_to_is_first(path, '?');
        assert(joined(query, "&"@) =~= Seq::empty());
    } else {
        let rest = joined(query, "&"@);
        assert(target == path + "?"@ + rest);
        let at = path.len() as int;
        assert forall|i: int| 0 <= i < at implies target[i] != '?' by {
            assert(target[i] == path[i]);
            assert(path.contains(path[i]));
        }
        assert(target[at] == '?');
        lemma_run_to(target, '?', at);
        assert(target.take(at) =~= path);
        assert(target.skip(at + 1) =~= rest);
    }
}

/// The arguments that travel in the query string reach the server as they
/// were given: it reads back their names and texts, in order.
pub proof fn law_query_arguments_reach_the_server(action: JsonTree, arguments: JsonTree)
    requires
        built_request(action, arguments) is Ok,
        !path_with_arguments(
            action.at("path"@).text_or(""@),
            action.at("params"@).items(),
            arguments,
        ).contains('?'),
        are_readable(query_arguments(action.at("params"@).items(), arguments)),
    ensures
        query_pairs(target_parts(built_request(action, arguments)->Ok_0.0).1) == query_arguments(
            action.at("params"@).items(),
            arguments,
        ),
{
    law_target_is_cut_where_it_was_joined(action, arguments);
    law_query_string_reads_back(query_arguments(action.at("params"@).items(), arguments));
}

/// An argument is put into a path or a query string as its own text: a string
/// is itself, a boolean is `true` or `false`, null is `null`, an integer is its
/// decimal digits, and any other value is its JSON text.
pub proof fn law_argument_is_its_own_text(value: JsonTree)
    ensures
        value is Text ==> argument_text(value) == value->Text_0,
        value is Bool && value->Bool_0 ==> argument_text(value) == seq!['t', 'r', 'u', 'e'],
        value is Bool && !value->Bool_0 ==> argument_text(value) == seq!['f', 'a', 'l', 's', 'e'],
        value is Null ==> argument_text(value) == seq!['n', 'u', 'l', 'l'],
        value is Number && whole_value(value->Number_0) is Some ==> spells(
            argument_text(value),
            whole_value(value->Number_0)->0,
        ),
        value is Number && whole_value(value->Number_0) is None ==> argument_text(value)
            == displayed(value),
        value is List || value is Record ==> argument_text(value) == displayed(value),
{
    law_simple_values_show_as_themselves(value);
    reveal_strlit("true");
    reveal_strlit("false");
    reveal_strlit("null");
    assert("true"@ =~= seq!['t', 'r', 'u', 'e']);
    assert("false"@ =~= seq!['f', 'a', 'l', 's', 'e']);
    assert("null"@ =~= seq!['n', 'u', 'l', 'l']);
}

/// The text of an argument tells two strings, two booleans or two integers
/// apart.
pub proof fn law_argument_text_tells_arguments_apart(one: JsonTree, other: JsonTree)
    requires
        argument_text(one) == argument_text(other),
    ensures
        one is Text && other is Text ==> one == other,
        one is Bool && other is Bool ==> one == other,
        one is Number && other is Number && whole_value(one->Number_0) is Some && whole_value(
            other->Number_0,
        ) is Some ==> whole_value(one->Number_0) == whole_value(other->Number_0),
{
    law_argument_is_its_own_text(one);
    law_argument_is_its_own_text(other);
    assert(seq!['t', 'r', 'u', 'e'].len() != seq!['f', 'a', 'l', 's', 'e'].len());
    if one is Number && other is Number && whole_value(one->Number_0) is Some && whole_value(
        other->Number_0,
    ) is Some {
        let text = argument_text(one);
        let v = whole_value(one->Number_0)->0;
        let w = whole_value(other->Number_0)->0;
        if text[0] == '-' {
            lemma_sign_is_no_digit(text);
        }
        assert(v < 0 <==> w < 0);
    }
}

proof fn lemma_sign_is_no_digit(text: Seq<char>)
    requires
        text.len() > 0,
        text[0] == '-',
    ensures
        digits_value(text) is None,
    decreases text.len(),
{
    if text.len() > 1 {
        assert(text.drop_last()[0] == text[0]);
        lemma_sign_is_no_digit(text.drop_last());
    } else {
        assert(text.last() == '-');
    }
}

/// A placeholder is `{`, the name and `}`. Filling it leaves what stands before
/// the first one as it is, puts the text in its place, and goes on behind it; a
/// path without it stays as it is.
pub proof fn law_placeholder_is_filled(
    front: Seq<char>,
    name: Seq<char>,
    back: Seq<char>,
    text: Seq<char>,
)
    requires
        forall|i: int|
            0 <= i < front.len() ==> !(seq!['{'] + name + seq!['}']).is_prefix_of(
                #[trigger] (front + (seq!['{'] + name + seq!['}']) + back).skip(i),
            ),
    ensures
        substituted(front + (seq!['{'] + name + seq!['}']) + back, name, text) == front + text
            + substituted(back, name, text),
        stands_nowhere(back, seq!['{'] + name + seq!['}']) ==> substituted(back, name, text)
            == back,
{
    reveal_strlit("{");
    reveal_strlit("}");
    assert(placeholder(name) =~= seq!['{'] + name + seq!['}']);
    law_pattern_is_replaced_from_the_left(front, placeholder(name), back, text);
}

/// A param is known by the string under `name`.
pub proof fn law_param_is_known_by_its_name(param: JsonTree)
    ensures
        param_name(param) == text_under(param, "name"@, ""@),
        param_location(param) == text_under(param, "location"@, "path"@),
{
}

/// One more param is placed behind the others: its argument goes into the path
/// in place of its placeholder, or behind the query string's other parts, or
/// into the body under its name, as its location says, and into no other place.
/// Without an argument, or with another location, nothing is placed.
pub proof fn law_one_more_argument_is_placed(
    path: Seq<char>,
    params: Seq<JsonTree>,
    param: JsonTree,
    arguments: JsonTree,
)
    ensures
        place_all(path, Seq::empty(), arguments) == Ok::<Placed, Seq<char>>(
            Placed { path, query: Seq::empty(), body: Map::empty() },
        ),
        ({
            let before = place_all(path, params, arguments);
            let after = place_all(path, params.push(param), arguments);
            let name = text_under(param, "name"@, ""@);
            let location = text_under(param, "location"@, "path"@);
            let given = arguments is Record && arguments->Record_0.contains_key(name);
            let value = tree_under(arguments, name, JsonTree::Null);
            &&& before is Err ==> after == before
            &&& before is Ok && !given ==> after is Err && after->Err_0
                == "missing required argument: "@ + name
            &&& before is Ok && given && location == "path"@ ==> {
                &&& after is Ok
                &&& after->Ok_0.path == substituted(
                    before->Ok_0.path,
                    name,
                    argument_text(value),
                )
                &&& after->Ok_0.query == before->Ok_0.query
                &&& after->Ok_0.body == before->Ok_0.body
            }
            &&& before is Ok && given && location == "query"@ ==> {
                &&& after is Ok
                &&& after->Ok_0.path == before->Ok_0.path
                &&& after->Ok_0.query == before->Ok_0.query.push(
                    query_part(name, argument_text(value)),
                )
                &&& after->Ok_0.body == before->Ok_0.body
            }
            &&& before is Ok && given && location == "body"@ ==> {
                &&& after is Ok
                &&& after->Ok_0.path == before->Ok_0.path
                &&& after->Ok_0.query == before->Ok_0.query
                &&& after->Ok_0.body == before->Ok_0.body.insert(name, value)
            }
            &&& before is Ok && given && !is_location(location) ==> after is Err && after->Err_0
                == "unknown param location: "@ + location
        }),
{
    lemma_locations_differ();
    assert(params.push(param).drop_last() =~= params);
    law_param_is_known_by_its_name(param);
}

/// The request of a tool call starts from the action's own path and places the
/// arguments of the action's own params: its target is the path, with a `?` and
/// the parts of the query string, joined by `&`, where there are any, and its
/// body is the JSON text of the arguments that travel in it, and empty where
/// none does. An argument that cannot be placed is the call's error.
pub proof fn law_request_is_made_of_what_was_placed(action: JsonTree, arguments: JsonTree)
    ensures
        ({
            let placed = place_all(
                text_under(action, "path"@, ""@),
                list_under(action, "params"@),
                arguments,
            );
            let request = built_request(action, arguments);
            &&& placed is Err ==> request is Err && request->Err_0 == placed->Err_0
            &&& placed is Ok ==> {
                &&& request is Ok
                &&& placed->Ok_0.query.len() == 0 ==> request->Ok_0.0 == placed->Ok_0.path
                &&& placed->Ok_0.query.len() > 0 ==> request->Ok_0.0 == placed->Ok_0.path
                    + seq!['?'] + joined(placed->Ok_0.query, seq!['&'])
                &&& placed->Ok_0.body.dom() == Set::<Seq<char>>::empty() ==> request->Ok_0.1.len()
                    == 0
                &&& placed->Ok_0.body.dom() != Set::<Seq<char>>::empty() ==> request->Ok_0.1
                    == serialized(JsonTree::Record(placed->Ok_0.body))
            }
        }),
{
    reveal_strlit("?");
    reveal_strlit("&");
    reveal_strlit("");
    assert("?"@ =~= seq!['?']);
    assert("&"@ =~= seq!['&']);
    let placed = place_all(
        text_under(action, "path"@, ""@),
        list_under(action, "params"@),
        arguments,
    );
    if placed is Ok {
        if placed->Ok_0.body.dom() == Set::<Seq<char>>::empty() {
            assert(placed->Ok_0.body =~= Map::<Seq<char>, JsonTree>::empty());
        }
    }
}

/// What is handed back are the texts of the request, or of the message.
pub proof fn law_built_request_is_handed_back(outcome: Result<(String, String), String>)
    ensures
        outcome is Ok ==> request_texts(outcome) is Ok && request_texts(outcome)->Ok_0.0
            == outcome->Ok_0.0@ && request_texts(outcome)->Ok_0.1 == outcome->Ok_0.1@,
        outcome is Err ==> request_texts(outcome) is Err && request_texts(outcome)->Err_0
            == outcome->Err_0@,
{
}

/// An empty body stands for no arguments; any other reads back as exactly the
/// arguments that travel in it, where its values can be read back.
pub proof fn law_body_is_its_arguments(placed: Placed, body: Seq<char>)
    requires
        body_carries(placed, body),
    ensures
        body.len() == 0 <==> placed.body.dom() == Set::<Seq<char>>::empty(),
        body.len() > 0 && reads_back(JsonTree::Record(placed.body)) ==> parse_outcome(body) == Ok::<
            JsonTree,
            Seq<char>,
        >(JsonTree::Record(placed.body)),
{
    if placed.body.dom() == Set::<Seq<char>>::empty() {
        assert(placed.body =~= Map::<Seq<char>, JsonTree>::empty());
    }
}

} // verus!
